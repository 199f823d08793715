//! The failures that operations of the library report.
use vstd::prelude::*;

verus! {

/// Every way an operation of the library can fail.
#[derive(Debug, Clone, Copy, PartialEq, Eq, Structural)]
pub enum Error {
    /// A string that should hold an absolute URL does not.
    InvalidUrl,
    /// A string that should hold a date does not.
    InvalidDate,
    /// An identifier does not fit the representation a component needs.
    IdOutOfRange,
    /// A lookup by id or by name found nothing where one was required.
    NotFound,
    /// A tag with this name already exists.
    TagNameTaken,
    /// The same (bookmark, tag) pair would be linked twice.
    DuplicateLink,
    /// No identifier is left to assign to a new row.
    IdsExhausted,
    /// Rows handed in to make a store break one of its invariants.
    InvalidRows,
}

} // verus!
