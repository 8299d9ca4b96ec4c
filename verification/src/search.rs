//! Substring search, used to demand multipart framing inside content bytes.

use vstd::prelude::*;

verus! {

/// The leftmost occurrence of `needle` in `hay` at or after `i`, if any.
pub open spec fn occurrence_from(hay: Seq<u8>, needle: Seq<u8>, i: int) -> Option<int>
    decreases hay.len() - i + 1,
{
    if i < 0 || i + needle.len() > hay.len() {
        None
    } else if hay.subrange(i, i + needle.len()) == needle {
        Some(i)
    } else {
        occurrence_from(hay, needle, i + 1)
    }
}

/// The leftmost occurrence of `needle` in `hay`, if any; an empty needle
/// occurs at position zero.
pub open spec fn first_occurrence(hay: Seq<u8>, needle: Seq<u8>) -> Option<int> {
    occurrence_from(hay, needle, 0)
}

/// Relies on kmp::kmp_find: the index of the leftmost occurrence of the
/// needle in the haystack, nothing when it does not occur, and zero for an
/// empty needle.
#[verifier::external_body]
pub fn find_subsequence(needle: &Vec<u8>, hay: &Vec<u8>) -> (r: Option<usize>)
    ensures
        r matches Some(i) ==> first_occurrence(hay@, needle@) == Some(i as int),
        r is None ==> first_occurrence(hay@, needle@) is None,
{
    kmp::kmp_find(needle.as_slice(), hay.as_slice())
}

} // verus!
