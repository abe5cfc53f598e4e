//! Versioned access to sheet data, as a service holds it: one data
//! version owning an Excel facade. The service builds the facade from an
//! archive it opened and hands it in; version selection beyond the one
//! carried is not yet supported.

use vstd::prelude::*;

use crate::excel::Excel;
use crate::sheet::ExcelResource;

verus! {

/// One version of the game data: the Excel facade over its archive.
pub struct Version<R: ExcelResource> {
    excel: Excel<R>,
}

impl<R: ExcelResource> Version<R> {
    /// The facade carried.
    pub closed spec fn spec_excel(&self) -> Excel<R> {
        self.excel
    }

    /// Wrap a facade as one data version.
    pub fn new(excel: Excel<R>) -> (r: Self)
        ensures
            r.spec_excel() == excel,
    {
        Self { excel }
    }

    /// The version's Excel facade.
    pub fn excel(&self) -> (r: &Excel<R>)
        ensures
            *r == self.spec_excel(),
    {
        &self.excel
    }
}

/// The data service: the versions it can serve. Only one version is
/// carried so far.
pub struct Data<R: ExcelResource> {
    temp_version: Version<R>,
}

impl<R: ExcelResource> Data<R> {
    /// The one version carried.
    pub closed spec fn spec_version(&self) -> Version<R> {
        self.temp_version
    }

    /// Build the service around the one version it serves.
    pub fn new(version: Version<R>) -> (r: Self)
        ensures
            r.spec_version() == version,
    {
        Self { temp_version: version }
    }

    /// The named version. Only the carried one can be served: naming
    /// any other version is outside this function's domain.
    pub fn version(&self, version: Option<&str>) -> (r: &Version<R>)
        requires
            version is None,
        ensures
            *r == self.spec_version(),
    {
        &self.temp_version
    }
}

} // verus!
