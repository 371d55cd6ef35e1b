//! Handles: the strings by which callers address renderers, cameras and
//! resources.
//!
//! A handle is the text of a version 4 UUID, made and parsed by `typid`.

use vstd::prelude::*;

verus! {

/// Whether `typid` reads the text as an identifier.
pub uninterp spec fn is_handle_text(text: Seq<char>) -> bool;

/// Calls `ID::new` and `ID::to_string` of `typid`: the text of a random
/// identifier, in the hyphenated lower-case form that `typid` reads back.
/// That it is read back is all that is claimed of it; it is not claimed to
/// be new.
#[verifier::external_body]
pub(crate) fn fresh() -> (r: String)
    ensures
        is_handle_text(r@),
{
    typid::ID::<()>::new().to_string()
}

/// Calls the `FromStr` of `typid::ID`, which hands the text to
/// `Uuid::parse_str`, and tells whether it was accepted. The answer is
/// taken to depend on the text alone.
#[verifier::external_body]
pub(crate) fn parses(text: &str) -> (r: bool)
    ensures
        r == is_handle_text(text@),
{
    text.parse::<typid::ID<()>>().is_ok()
}

} // verus!
