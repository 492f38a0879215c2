//! Text operations the standard library performs for this crate.

use vstd::prelude::*;

verus! {

/// The upper-case form of a text, as `str::to_uppercase` produces it.
pub uninterp spec fn uppercase_of(text: Seq<char>) -> Seq<char>;

/// Calls `str::to_uppercase`. The result is that function's answer for the
/// given text and depends on nothing else; what the answer holds is left to
/// the standard library.
#[verifier::external_body]
pub(crate) fn to_uppercase(text: &str) -> (upper: String)
    ensures
        upper@ == uppercase_of(text@),
{
    text.to_uppercase()
}

} // verus!
