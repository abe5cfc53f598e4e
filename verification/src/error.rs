//! Uniform error taxonomy for archive and sheet access.

use vstd::prelude::*;

verus! {

/// Spec-level image of an [`Error`]: the same variants with the message
/// as a sequence of characters.
pub enum ErrorV {
    InvalidPath(Seq<char>),
    NotFound(Seq<char>),
    Resource(Seq<char>),
    Invalid(Seq<char>),
}

/// Error returned by archive and sheet operations.
///
/// `InvalidPath`: the logical path could not be split into category and
/// repository. `NotFound`: a key is absent (repository, category, index
/// hash, row, language). `Resource`: bytes read did not satisfy a format
/// invariant; callers treat this as fatal for the file. `Invalid`: the
/// operation does not apply to the sheet's kind.
#[derive(Debug)]
pub enum Error {
    InvalidPath(String),
    NotFound(String),
    Resource(String),
    Invalid(String),
}

impl View for Error {
    type V = ErrorV;

    open spec fn view(&self) -> ErrorV {
        match self {
            Error::InvalidPath(m) => ErrorV::InvalidPath(m@),
            Error::NotFound(m) => ErrorV::NotFound(m@),
            Error::Resource(m) => ErrorV::Resource(m@),
            Error::Invalid(m) => ErrorV::Invalid(m@),
        }
    }
}

impl Error {
    /// The human-readable detail carried by the error.
    pub fn message(&self) -> (r: &String)
        ensures
            r@ == self.message_view(),
    {
        match self {
            Error::InvalidPath(m) => m,
            Error::NotFound(m) => m,
            Error::Resource(m) => m,
            Error::Invalid(m) => m,
        }
    }

    /// The message of the spec-level image.
    pub open spec fn message_view(&self) -> Seq<char> {
        match self@ {
            ErrorV::InvalidPath(m) => m,
            ErrorV::NotFound(m) => m,
            ErrorV::Resource(m) => m,
            ErrorV::Invalid(m) => m,
        }
    }
}

/// An executable result agrees with its spec-level image: same arm, and
/// the payload's view equals the spec payload.
pub open spec fn res_matches<T: View>(r: Result<T, Error>, s: Result<T::V, ErrorV>) -> bool {
    match r {
        Ok(v) => match s {
            Ok(sv) => v@ == sv,
            Err(_) => false,
        },
        Err(e) => match s {
            Ok(_) => false,
            Err(se) => e@ == se,
        },
    }
}

} // verus!
