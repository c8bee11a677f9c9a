//! String helpers shared by the providers.
use vstd::prelude::*;

verus! {

/// `needle` occurs in `hay` as a contiguous run of characters.
pub open spec fn is_substring(needle: Seq<char>, hay: Seq<char>) -> bool {
    exists|i: int|
        0 <= i && i + needle.len() <= hay.len() && #[trigger] hay.subrange(
            i,
            i + needle.len(),
        ) == needle
}

/// Whether `needle` occurs in `hay`. This calls `str::contains` with a string
/// pattern, which std documents to answer whether the pattern matches a
/// sub-slice of the string; the contract is taken from there, not proved.
#[verifier::external_body]
pub(crate) fn contains(hay: &str, needle: &str) -> (found: bool)
    ensures
        found == is_substring(needle@, hay@),
{
    hay.contains(needle)
}

/// `==` on string slices (`<str as PartialEq>::eq`) holds exactly when the
/// two slices hold the same characters. Taken from std, not proved.
pub assume_specification[ <str as PartialEq>::eq ](a: &str, b: &str) -> (eq: bool)
    ensures
        eq == (a@ == b@),
;

/// Equality of two string slices, character by character.
pub fn same(a: &str, b: &str) -> (eq: bool)
    ensures
        eq == (a@ == b@),
{
    *a == *b
}

} // verus!
