//! The sheet engine: resolve `(row_id, subrow_id, language)` against a
//! sheet's header and pages, fetched through a resource, and hand back a
//! reader over the row's bytes.

use vstd::prelude::*;
use vstd::string::StringExecFns;

use crate::bytes::{be16_at, be32_at, read_be16, read_be32};
use crate::error::{Error, ErrorV, res_matches};
use crate::exd::{ExcelPage, ExcelPageV, RowDefinition, spec_parse_exd};
use crate::exh::{ExcelHeader, PageDefinition, SheetKind, spec_parse_exh};
use crate::file::{avail_at, copy_range, read_failed, spec_read_failed};
use crate::row::{RowReader, RowReaderV};
use crate::strutil::{push_dec, spec_dec};

verus! {

/// Where sheet bytes come from: the sheet-name manifest, one sheet's
/// header, and one page of one sheet for one language. Each method's
/// bytes are pinned by the implementation's own spec functions.
pub trait ExcelResource: Sized {
    /// What the manifest read yields.
    spec fn list_data(&self) -> Result<Seq<u8>, ErrorV>;

    /// What reading the named sheet's header yields.
    spec fn header_data(&self, name: Seq<char>) -> Result<Seq<u8>, ErrorV>;

    /// What reading the named sheet's page for a start row and language
    /// yields.
    spec fn page_data(&self, name: Seq<char>, start_id: u32, language: u8) -> Result<
        Seq<u8>,
        ErrorV,
    >;

    /// Read the sheet-name manifest.
    fn list(&self) -> (r: Result<Vec<u8>, Error>)
        ensures
            res_matches(r, self.list_data()),
    ;

    /// Read the named sheet's header (`.exh`).
    fn header(&self, sheet_name: &str) -> (r: Result<Vec<u8>, Error>)
        ensures
            res_matches(r, self.header_data(sheet_name@)),
    ;

    /// Read the named sheet's page (`.exd`) for a start row and
    /// language.
    fn page(&self, sheet_name: &str, start_id: u32, language: u8) -> (r: Result<Vec<u8>, Error>)
        ensures
            res_matches(r, self.page_data(sheet_name@, start_id, language)),
    ;
}

/// Options fixed when a sheet handle is built.
pub struct SheetOptions {
    pub default_language: u8,
}

/// Options for one row lookup.
pub struct RowOptions {
    pub language: Option<u8>,
}

impl RowOptions {
    /// Options that fall back to the sheet's default language.
    pub fn new() -> (r: Self)
        ensures
            r.language is None,
    {
        Self { language: None }
    }

    /// Request a language for this lookup.
    pub fn language(&mut self, value: u8)
        ensures
            final(self).language == Some(value),
    {
        self.language = Some(value);
    }
}

impl Default for RowOptions {
    fn default() -> (r: Self)
        ensures
            r.language is None,
    {
        Self::new()
    }
}

/// The language a lookup resolves to: the requested one when the sheet
/// carries it, else the neutral language `0` when the sheet carries
/// that, else none.
pub open spec fn spec_resolve_language(langs: Seq<u8>, requested: u8) -> Option<u8> {
    if langs.contains(requested) {
        Some(requested)
    } else if langs.contains(0) {
        Some(0)
    } else {
        None
    }
}

/// Whether a page covers a row ID.
pub open spec fn spec_in_page(p: PageDefinition, row_id: int) -> bool {
    p.start_id <= row_id < p.start_id + p.row_count
}

/// The first page covering a row ID.
pub open spec fn spec_find_page(pages: Seq<PageDefinition>, row_id: u32) -> Option<PageDefinition>
    decreases pages.len(),
{
    if pages.len() == 0 {
        None
    } else if spec_in_page(pages[0], row_id as int) {
        Some(pages[0])
    } else {
        spec_find_page(pages.drop_first(), row_id)
    }
}

/// When no earlier page covers the ID and page `i` does, the first
/// cover is page `i`.
pub proof fn lemma_find_page_at(pages: Seq<PageDefinition>, row_id: u32, i: int)
    requires
        0 <= i < pages.len(),
        forall|k: int| 0 <= k < i ==> !spec_in_page(pages[k], row_id as int),
        spec_in_page(pages[i], row_id as int),
    ensures
        spec_find_page(pages, row_id) == Some(pages[i]),
    decreases i,
{
    if i > 0 {
        lemma_find_page_at(pages.drop_first(), row_id, i - 1);
    }
}

/// When no page covers the ID, the search yields nothing.
proof fn lemma_find_page_none(pages: Seq<PageDefinition>, row_id: u32)
    requires
        forall|k: int| 0 <= k < pages.len() ==> !spec_in_page(pages[k], row_id as int),
    ensures
        spec_find_page(pages, row_id) is None,
    decreases pages.len(),
{
    if pages.len() > 0 {
        lemma_find_page_none(pages.drop_first(), row_id);
    }
}

/// The first row-table entry for a row ID.
pub open spec fn spec_find_row(rows: Seq<RowDefinition>, row_id: u32) -> Option<RowDefinition>
    decreases rows.len(),
{
    if rows.len() == 0 {
        None
    } else if rows[0].row_id == row_id {
        Some(rows[0])
    } else {
        spec_find_row(rows.drop_first(), row_id)
    }
}

proof fn lemma_find_row_at(rows: Seq<RowDefinition>, row_id: u32, i: int)
    requires
        0 <= i < rows.len(),
        forall|k: int| 0 <= k < i ==> rows[k].row_id != row_id,
        rows[i].row_id == row_id,
    ensures
        spec_find_row(rows, row_id) == Some(rows[i]),
    decreases i,
{
    if i > 0 {
        lemma_find_row_at(rows.drop_first(), row_id, i - 1);
    }
}

proof fn lemma_find_row_none(rows: Seq<RowDefinition>, row_id: u32)
    requires
        forall|k: int| 0 <= k < rows.len() ==> rows[k].row_id != row_id,
    ensures
        spec_find_row(rows, row_id) is None,
    decreases rows.len(),
{
    if rows.len() > 0 {
        lemma_find_row_none(rows.drop_first(), row_id);
    }
}

/// The bytes of one plain row inside a page: the row's six-byte header
/// at its table offset gives a tail size; the slice holds the fixed row
/// and that tail. A row the table lacks is a corrupt resource, never a
/// missing key: the page's existence already asserted the row.
pub open spec fn spec_extract_row(page: ExcelPageV, row_size: u16, row_id: u32) -> Result<
    Seq<u8>,
    ErrorV,
> {
    match spec_find_row(page.rows, row_id) {
        None => Err(
            ErrorV::Resource(
                "Row ID "@ + spec_dec(row_id as int) + " is not defined by the page."@,
            ),
        ),
        Some(def) => {
            let off = def.offset as int;
            if off + 6 > page.data.len() {
                Err(ErrorV::Resource(spec_read_failed("row header"@, 6, avail_at(page.data, off))))
            } else {
                let dsz = be32_at(page.data, off) as int;
                let need = row_size + dsz;
                if off + 6 + need > page.data.len() {
                    Err(
                        ErrorV::Resource(
                            spec_read_failed("row"@, need, avail_at(page.data, off + 6)),
                        ),
                    )
                } else {
                    Ok(page.data.subrange(off + 6, off + 6 + need))
                }
            }
        },
    }
}

/// The bytes of one subrow: subrow `k` lies `k` strides into the row's
/// block, behind its own two-byte tag, and is validated against the
/// row header's subrow count.
pub open spec fn spec_extract_subrow(
    page: ExcelPageV,
    row_size: u16,
    row_id: u32,
    subrow_id: u32,
) -> Result<Seq<u8>, ErrorV> {
    match spec_find_row(page.rows, row_id) {
        None => Err(
            ErrorV::Resource(
                "Row ID "@ + spec_dec(row_id as int) + " is not defined by the page."@,
            ),
        ),
        Some(def) => {
            let off = def.offset as int;
            if off + 6 > page.data.len() {
                Err(ErrorV::Resource(spec_read_failed("row header"@, 6, avail_at(page.data, off))))
            } else {
                let sc = be16_at(page.data, off + 4);
                if subrow_id >= sc {
                    Err(ErrorV::NotFound("Subrow "@ + spec_dec(subrow_id as int)))
                } else {
                    let base = off + 6 + subrow_id * (row_size + 2) + 2;
                    if base + row_size > page.data.len() {
                        Err(
                            ErrorV::Resource(
                                spec_read_failed("subrow"@, row_size as int, avail_at(
                                    page.data,
                                    base,
                                )),
                            ),
                        )
                    } else {
                        Ok(page.data.subrange(base, base + row_size))
                    }
                }
            }
        },
    }
}

/// What one row lookup yields, from the resource's bytes on: the header
/// is parsed, the sheet's kind must agree with the caller's entry point,
/// the language resolves or falls back to neutral, the unique page
/// covering the row is fetched, and the row's bytes are sliced out of
/// it.
pub open spec fn spec_sheet_row<R: ExcelResource>(
    res: &R,
    name: Seq<char>,
    requested_language: u8,
    row_id: u32,
    subrow_id: u32,
    want_subrows: bool,
) -> Result<RowReaderV, ErrorV> {
    match res.header_data(name) {
        Err(e) => Err(e),
        Ok(hb) => match spec_parse_exh(hb) {
            Err(e) => Err(e),
            Ok(h) => {
                if want_subrows && h.kind != SheetKind::Subrows {
                    Err(ErrorV::Invalid("Sheet "@ + name + " does not support subrows."@))
                } else if !want_subrows && h.kind == SheetKind::Subrows {
                    Err(ErrorV::Invalid("Sheet "@ + name + " requires a subrow ID."@))
                } else {
                    match spec_resolve_language(h.languages, requested_language) {
                        None => Err(
                            ErrorV::NotFound(
                                "Language "@ + spec_dec(requested_language as int),
                            ),
                        ),
                        Some(lang) => match spec_find_page(h.pages, row_id) {
                            None => Err(
                                ErrorV::NotFound("Row ID "@ + spec_dec(row_id as int)),
                            ),
                            Some(pg) => match res.page_data(name, pg.start_id, lang) {
                                Err(e) => Err(e),
                                Ok(pb) => match spec_parse_exd(pb) {
                                    Err(e) => Err(e),
                                    Ok(page) => {
                                        let bytes = if want_subrows {
                                            spec_extract_subrow(page, h.row_size, row_id, subrow_id)
                                        } else {
                                            spec_extract_row(page, h.row_size, row_id)
                                        };
                                        match bytes {
                                            Err(e) => Err(e),
                                            Ok(b) => Ok(
                                                RowReaderV {
                                                    row_size: h.row_size,
                                                    columns: h.columns,
                                                    data: b,
                                                },
                                            ),
                                        }
                                    },
                                },
                            },
                        },
                    }
                }
            },
        },
    }
}

/// Whether the language list carries `x`.
fn contains_language(langs: &Vec<u8>, x: u8) -> (r: bool)
    ensures
        r == langs@.contains(x),
{
    let mut i: usize = 0;
    while i < langs.len()
        invariant
            i <= langs@.len(),
            forall|k: int| 0 <= k < i ==> langs@[k] != x,
        decreases langs@.len() - i,
    {
        if langs[i] == x {
            proof {
                assert(langs@[i as int] == x);
            }
            return true;
        }
        i = i + 1;
    }
    false
}

/// Resolve the lookup language against the sheet's language list.
fn resolve_language(langs: &Vec<u8>, requested: u8) -> (r: Option<u8>)
    ensures
        r == spec_resolve_language(langs@, requested),
{
    if contains_language(langs, requested) {
        Some(requested)
    } else if contains_language(langs, 0) {
        Some(0)
    } else {
        None
    }
}

/// Find the first page covering a row ID.
fn find_page(pages: &Vec<PageDefinition>, row_id: u32) -> (r: Option<PageDefinition>)
    ensures
        r == spec_find_page(pages@, row_id),
{
    let mut i: usize = 0;
    while i < pages.len()
        invariant
            i <= pages@.len(),
            forall|k: int| 0 <= k < i ==> !spec_in_page(pages@[k], row_id as int),
        decreases pages@.len() - i,
    {
        let p = pages[i];
        if p.start_id <= row_id && (row_id as u64) < p.start_id as u64 + p.row_count as u64 {
            proof {
                lemma_find_page_at(pages@, row_id, i as int);
            }
            return Some(p);
        }
        i = i + 1;
    }
    proof {
        lemma_find_page_none(pages@, row_id);
    }
    None
}

/// Find the row-table entry for a row ID.
fn find_row(rows: &Vec<RowDefinition>, row_id: u32) -> (r: Option<RowDefinition>)
    ensures
        r == spec_find_row(rows@, row_id),
{
    let mut i: usize = 0;
    while i < rows.len()
        invariant
            i <= rows@.len(),
            forall|k: int| 0 <= k < i ==> rows@[k].row_id != row_id,
        decreases rows@.len() - i,
    {
        if rows[i].row_id == row_id {
            proof {
                lemma_find_row_at(rows@, row_id, i as int);
            }
            return Some(rows[i]);
        }
        i = i + 1;
    }
    proof {
        lemma_find_row_none(rows@, row_id);
    }
    None
}

/// Slice one plain row out of a parsed page.
fn extract_row(page: &ExcelPage, row_size: u16, row_id: u32) -> (r: Result<Vec<u8>, Error>)
    ensures
        res_matches(r, spec_extract_row(page@, row_size, row_id)),
{
    let def = match find_row(&page.rows, row_id) {
        Some(d) => d,
        None => {
            let mut m = String::from_str("Row ID ");
            push_dec(&mut m, row_id as u128);
            m.append(" is not defined by the page.");
            proof {
                assert(m@ =~= "Row ID "@ + spec_dec(row_id as int)
                    + " is not defined by the page."@);
            }
            return Err(Error::Resource(m));
        },
    };
    let len = page.data.len();
    if def.offset as u128 + 6 > len as u128 {
        let got: u128 = if (def.offset as usize) <= len {
            (len - def.offset as usize) as u128
        } else {
            0
        };
        return Err(Error::Resource(read_failed("row header", 6, got)));
    }
    let off = def.offset as usize;
    let dsz = read_be32(&page.data, off);
    let need: u128 = row_size as u128 + dsz as u128;
    if off as u128 + 6 + need > len as u128 {
        return Err(Error::Resource(read_failed("row", need, (len - (off + 6)) as u128)));
    }
    Ok(copy_range(&page.data, off + 6, off + 6 + row_size as usize + dsz as usize))
}

/// Slice one subrow out of a parsed page.
fn extract_subrow(page: &ExcelPage, row_size: u16, row_id: u32, subrow_id: u32) -> (r: Result<
    Vec<u8>,
    Error,
>)
    ensures
        res_matches(r, spec_extract_subrow(page@, row_size, row_id, subrow_id)),
{
    let def = match find_row(&page.rows, row_id) {
        Some(d) => d,
        None => {
            let mut m = String::from_str("Row ID ");
            push_dec(&mut m, row_id as u128);
            m.append(" is not defined by the page.");
            proof {
                assert(m@ =~= "Row ID "@ + spec_dec(row_id as int)
                    + " is not defined by the page."@);
            }
            return Err(Error::Resource(m));
        },
    };
    let len = page.data.len();
    if def.offset as u128 + 6 > len as u128 {
        let got: u128 = if (def.offset as usize) <= len {
            (len - def.offset as usize) as u128
        } else {
            0
        };
        return Err(Error::Resource(read_failed("row header", 6, got)));
    }
    let off = def.offset as usize;
    let sc = read_be16(&page.data, off + 4);
    if subrow_id >= sc as u32 {
        let mut m = String::from_str("Subrow ");
        push_dec(&mut m, subrow_id as u128);
        proof {
            assert(m@ =~= "Subrow "@ + spec_dec(subrow_id as int));
        }
        return Err(Error::NotFound(m));
    }
    proof {
        assert(subrow_id as int * (row_size as int + 2) <= 0xFFFFFFFF as int * 0x10001 as int)
            by (nonlinear_arith)
            requires
                subrow_id <= 0xFFFFFFFFu32,
                row_size <= 0xFFFFu16,
        ;
    }
    let base: u128 = off as u128 + 6 + subrow_id as u128 * (row_size as u128 + 2) + 2;
    if base + row_size as u128 > len as u128 {
        let got: u128 = if base <= len as u128 {
            len as u128 - base
        } else {
            0
        };
        return Err(Error::Resource(read_failed("subrow", row_size as u128, got)));
    }
    Ok(copy_range(&page.data, base as usize, base as usize + row_size as usize))
}

/// A handle on one sheet: its name, the language lookups fall back to,
/// and the resource its bytes come from.
pub struct RawExcelSheet<'a, R: ExcelResource> {
    sheet_name: String,
    default_language: u8,
    resource: &'a R,
}

impl<'a, R: ExcelResource> RawExcelSheet<'a, R> {
    /// The sheet's name.
    pub closed spec fn spec_name(&self) -> Seq<char> {
        self.sheet_name@
    }

    /// The language lookups fall back to.
    pub closed spec fn spec_default_language(&self) -> u8 {
        self.default_language
    }

    /// The resource the sheet's bytes come from.
    pub closed spec fn spec_resource(&self) -> &'a R {
        self.resource
    }

    /// The language one lookup asks for: the options' language, else
    /// the sheet's default.
    pub open spec fn spec_requested_language(&self, options: RowOptions) -> u8 {
        match options.language {
            Some(l) => l,
            None => self.spec_default_language(),
        }
    }

    /// Build a handle on the named sheet over the given resource.
    pub fn with_options(sheet_name: &str, resource: &'a R, options: SheetOptions) -> (r: Self)
        ensures
            r.spec_name() == sheet_name@,
            r.spec_default_language() == options.default_language,
            r.spec_resource() == resource,
    {
        Self {
            sheet_name: sheet_name.to_owned(),
            default_language: options.default_language,
            resource,
        }
    }

    /// Read the row with the given ID, in the sheet's default language.
    pub fn get_row(&self, row_id: u32) -> (r: Result<RowReader, Error>)
        ensures
            res_matches(
                r,
                spec_sheet_row(
                    self.spec_resource(),
                    self.spec_name(),
                    self.spec_default_language(),
                    row_id,
                    0,
                    false,
                ),
            ),
    {
        self.get_row_with_options(row_id, &RowOptions::new())
    }

    /// Read the subrow with the given IDs, in the sheet's default
    /// language.
    pub fn get_subrow(&self, row_id: u32, subrow_id: u32) -> (r: Result<RowReader, Error>)
        ensures
            res_matches(
                r,
                spec_sheet_row(
                    self.spec_resource(),
                    self.spec_name(),
                    self.spec_default_language(),
                    row_id,
                    subrow_id,
                    true,
                ),
            ),
    {
        self.get_subrow_with_options(row_id, subrow_id, &RowOptions::new())
    }

    /// Read a row with per-lookup options. The sheet must not be a
    /// subrow sheet.
    pub fn get_row_with_options(&self, row_id: u32, options: &RowOptions) -> (r: Result<
        RowReader,
        Error,
    >)
        ensures
            res_matches(
                r,
                spec_sheet_row(
                    self.spec_resource(),
                    self.spec_name(),
                    self.spec_requested_language(*options),
                    row_id,
                    0,
                    false,
                ),
            ),
    {
        let requested = match options.language {
            Some(l) => l,
            None => self.default_language,
        };
        let hb = match self.resource.header(self.sheet_name.as_str()) {
            Ok(b) => b,
            Err(e) => return Err(e),
        };
        let header = match ExcelHeader::from_bytes(&hb) {
            Ok(h) => h,
            Err(e) => return Err(e),
        };
        if header.kind == SheetKind::Subrows {
            let mut m = String::from_str("Sheet ");
            m.append(self.sheet_name.as_str());
            m.append(" requires a subrow ID.");
            proof {
                assert(m@ =~= "Sheet "@ + self.spec_name() + " requires a subrow ID."@);
            }
            return Err(Error::Invalid(m));
        }
        let lang = match resolve_language(&header.languages, requested) {
            Some(l) => l,
            None => {
                let mut m = String::from_str("Language ");
                push_dec(&mut m, requested as u128);
                return Err(Error::NotFound(m));
            },
        };
        let pg = match find_page(&header.pages, row_id) {
            Some(p) => p,
            None => {
                let mut m = String::from_str("Row ID ");
                push_dec(&mut m, row_id as u128);
                return Err(Error::NotFound(m));
            },
        };
        let pb = match self.resource.page(self.sheet_name.as_str(), pg.start_id, lang) {
            Ok(b) => b,
            Err(e) => return Err(e),
        };
        let page = match ExcelPage::from_bytes(&pb) {
            Ok(p) => p,
            Err(e) => return Err(e),
        };
        let bytes = match extract_row(&page, header.row_size, row_id) {
            Ok(b) => b,
            Err(e) => return Err(e),
        };
        Ok(RowReader::new(&header, bytes))
    }

    /// Read a subrow with per-lookup options. The sheet must be a
    /// subrow sheet, and the subrow index is validated against the row's
    /// subrow count.
    pub fn get_subrow_with_options(
        &self,
        row_id: u32,
        subrow_id: u32,
        options: &RowOptions,
    ) -> (r: Result<RowReader, Error>)
        ensures
            res_matches(
                r,
                spec_sheet_row(
                    self.spec_resource(),
                    self.spec_name(),
                    self.spec_requested_language(*options),
                    row_id,
                    subrow_id,
                    true,
                ),
            ),
    {
        let requested = match options.language {
            Some(l) => l,
            None => self.default_language,
        };
        let hb = match self.resource.header(self.sheet_name.as_str()) {
            Ok(b) => b,
            Err(e) => return Err(e),
        };
        let header = match ExcelHeader::from_bytes(&hb) {
            Ok(h) => h,
            Err(e) => return Err(e),
        };
        if header.kind != SheetKind::Subrows {
            let mut m = String::from_str("Sheet ");
            m.append(self.sheet_name.as_str());
            m.append(" does not support subrows.");
            proof {
                assert(m@ =~= "Sheet "@ + self.spec_name() + " does not support subrows."@);
            }
            return Err(Error::Invalid(m));
        }
        let lang = match resolve_language(&header.languages, requested) {
            Some(l) => l,
            None => {
                let mut m = String::from_str("Language ");
                push_dec(&mut m, requested as u128);
                return Err(Error::NotFound(m));
            },
        };
        let pg = match find_page(&header.pages, row_id) {
            Some(p) => p,
            None => {
                let mut m = String::from_str("Row ID ");
                push_dec(&mut m, row_id as u128);
                return Err(Error::NotFound(m));
            },
        };
        let pb = match self.resource.page(self.sheet_name.as_str(), pg.start_id, lang) {
            Ok(b) => b,
            Err(e) => return Err(e),
        };
        let page = match ExcelPage::from_bytes(&pb) {
            Ok(p) => p,
            Err(e) => return Err(e),
        };
        let bytes = match extract_subrow(&page, header.row_size, row_id, subrow_id) {
            Ok(b) => b,
            Err(e) => return Err(e),
        };
        Ok(RowReader::new(&header, bytes))
    }

    /// The sheet's kind.
    pub fn kind(&self) -> (r: Result<SheetKind, Error>)
        ensures
            (match (self.spec_resource().header_data(self.spec_name())) {
                Err(e) => r matches Err(x) && x@ == e,
                Ok(hb) => match spec_parse_exh(hb) {
                    Err(e) => r matches Err(x) && x@ == e,
                    Ok(h) => r == Ok::<SheetKind, Error>(h.kind),
                },
            }),
    {
        let hb = match self.resource.header(self.sheet_name.as_str()) {
            Ok(b) => b,
            Err(e) => return Err(e),
        };
        match ExcelHeader::from_bytes(&hb) {
            Ok(h) => Ok(h.kind),
            Err(e) => Err(e),
        }
    }

    /// The sheet's column definitions.
    pub fn columns(&self) -> (r: Result<Vec<crate::exh::ColumnDefinition>, Error>)
        ensures
            (match (self.spec_resource().header_data(self.spec_name())) {
                Err(e) => r matches Err(x) && x@ == e,
                Ok(hb) => match spec_parse_exh(hb) {
                    Err(e) => r matches Err(x) && x@ == e,
                    Ok(h) => r matches Ok(c) && c@ == h.columns,
                },
            }),
    {
        let hb = match self.resource.header(self.sheet_name.as_str()) {
            Ok(b) => b,
            Err(e) => return Err(e),
        };
        match ExcelHeader::from_bytes(&hb) {
            Ok(h) => Ok(h.columns),
            Err(e) => Err(e),
        }
    }

    /// Whether the sheet carries pages for the given language.
    pub fn has_language(&self, language: u8) -> (r: Result<bool, Error>)
        ensures
            (match (self.spec_resource().header_data(self.spec_name())) {
                Err(e) => r matches Err(x) && x@ == e,
                Ok(hb) => match spec_parse_exh(hb) {
                    Err(e) => r matches Err(x) && x@ == e,
                    Ok(h) => r == Ok::<bool, Error>(h.languages.contains(language)),
                },
            }),
    {
        let hb = match self.resource.header(self.sheet_name.as_str()) {
            Ok(b) => b,
            Err(e) => return Err(e),
        };
        match ExcelHeader::from_bytes(&hb) {
            Ok(h) => Ok(h.has_language(language)),
            Err(e) => Err(e),
        }
    }
}

/// A row that reads successfully holds exactly the sheet's row size
/// plus the tail size its own row header declares.
pub proof fn lemma_row_bytes_length(page: ExcelPageV, row_size: u16, row_id: u32)
    requires
        spec_extract_row(page, row_size, row_id) is Ok,
    ensures
        spec_find_row(page.rows, row_id) is Some,
        spec_extract_row(page, row_size, row_id)->Ok_0.len() == row_size + be32_at(
            page.data,
            spec_find_row(page.rows, row_id)->0.offset as int,
        ),
{
}

/// Looking a row up twice yields the same answer: the lookup is a
/// function of the resource's bytes alone, so equal results are owed and
/// equal bytes come back whenever the first call succeeded.
pub proof fn lemma_row_lookup_deterministic<R: ExcelResource>(
    res: &R,
    name: Seq<char>,
    requested_language: u8,
    row_id: u32,
    subrow_id: u32,
    want_subrows: bool,
    r1: Result<RowReaderV, ErrorV>,
    r2: Result<RowReaderV, ErrorV>,
)
    requires
        r1 == spec_sheet_row(res, name, requested_language, row_id, subrow_id, want_subrows),
        r2 == spec_sheet_row(res, name, requested_language, row_id, subrow_id, want_subrows),
    ensures
        r1 == r2,
        r1 is Ok ==> r1->Ok_0.data == r2->Ok_0.data,
{
}

/// A sheet that lacks the requested language but carries the neutral
/// language answers the request exactly as it answers a request for the
/// neutral language.
pub proof fn lemma_language_fallback<R: ExcelResource>(
    res: &R,
    name: Seq<char>,
    requested_language: u8,
    row_id: u32,
    subrow_id: u32,
    want_subrows: bool,
)
    requires
        res.header_data(name) is Ok,
        spec_parse_exh(res.header_data(name)->Ok_0) is Ok,
        !spec_parse_exh(res.header_data(name)->Ok_0)->Ok_0.languages.contains(requested_language),
        spec_parse_exh(res.header_data(name)->Ok_0)->Ok_0.languages.contains(0),
    ensures
        spec_sheet_row(res, name, requested_language, row_id, subrow_id, want_subrows)
            == spec_sheet_row(res, name, 0, row_id, subrow_id, want_subrows),
{
    let langs = spec_parse_exh(res.header_data(name)->Ok_0)->Ok_0.languages;
    assert(spec_resolve_language(langs, requested_language) == Some(0u8));
    assert(spec_resolve_language(langs, 0) == Some(0u8));
}

/// The row at a page's first ID and the row at its last ID resolve via
/// that same page, when no other page covers either.
pub proof fn lemma_page_boundary_rows(pages: Seq<PageDefinition>, i: int)
    requires
        0 <= i < pages.len(),
        pages[i].row_count > 0,
        pages[i].start_id + pages[i].row_count - 1 <= u32::MAX,
        forall|j: int|
            0 <= j < i ==> !spec_in_page(pages[j], pages[i].start_id as int) && !spec_in_page(
                pages[j],
                pages[i].start_id + pages[i].row_count - 1,
            ),
    ensures
        spec_find_page(pages, pages[i].start_id) == Some(pages[i]),
        spec_find_page(pages, (pages[i].start_id + pages[i].row_count - 1) as u32) == Some(
            pages[i],
        ),
{
    lemma_find_page_at(pages, pages[i].start_id, i);
    lemma_find_page_at(pages, (pages[i].start_id + pages[i].row_count - 1) as u32, i);
}

/// A lookup through the wrong entry point for the sheet's kind is
/// rejected as invalid: a subrow sheet rejects a plain row lookup, and a
/// plain sheet rejects a subrow lookup.
pub proof fn lemma_kind_mismatch_rejected<R: ExcelResource>(
    res: &R,
    name: Seq<char>,
    requested_language: u8,
    row_id: u32,
    subrow_id: u32,
)
    requires
        res.header_data(name) is Ok,
        spec_parse_exh(res.header_data(name)->Ok_0) is Ok,
    ensures
        spec_parse_exh(res.header_data(name)->Ok_0)->Ok_0.kind == SheetKind::Subrows
            ==> spec_sheet_row(res, name, requested_language, row_id, subrow_id, false) == Err::<
            RowReaderV,
            ErrorV,
        >(ErrorV::Invalid("Sheet "@ + name + " requires a subrow ID."@)),
        spec_parse_exh(res.header_data(name)->Ok_0)->Ok_0.kind != SheetKind::Subrows
            ==> spec_sheet_row(res, name, requested_language, row_id, subrow_id, true) == Err::<
            RowReaderV,
            ErrorV,
        >(ErrorV::Invalid("Sheet "@ + name + " does not support subrows."@)),
{
}

} // verus!
