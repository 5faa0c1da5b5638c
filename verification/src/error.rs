//! The error type of the extraction layer.

use vstd::prelude::*;

verus! {

/// What can go wrong while locating a node or coercing its text.
///
/// Absence of a node is an error only where a value is required: the
/// optional lookups recover from it locally and never surface it.
#[derive(Debug)]
pub enum Error {
    /// A path resolved to no element of the tree.
    ElementNotFound { path: String },
    /// A required value was missing: the path resolved to no element,
    /// or to an element without text content.
    ValueNotFound { path: String },
    /// Text content was present but could not be coerced into the
    /// requested type; carries the offending text.
    ValueFromStr { t: String },
    /// The upstream XML parser failed before a tree was built; carries
    /// its description unchanged.
    ParseError { message: String },
}

/// Holds when `r` is the coercion error that names the offending text `s`.
pub open spec fn value_err_matches<V>(r: Result<V, Error>, s: Seq<char>) -> bool {
    &&& r matches Err(e)
    &&& e matches Error::ValueFromStr { t } && t@ == s
}

} // verus!
