//! Byte searches backed by the `memchr` crate.
use vstd::prelude::*;

verus! {

/// Calls `memchr::memchr`: the index of the first byte of `haystack` equal to
/// `needle`, or `None` when no byte is. The claim is the documented behaviour of
/// that function.
#[verifier::external_body]
pub(crate) fn find_byte(needle: u8, haystack: &[u8]) -> (r: Option<usize>)
    ensures
        r matches Some(i) ==> i < haystack@.len() && haystack@[i as int] == needle && forall|
            k: int,
        |
            0 <= k < i ==> haystack@[k] != needle,
        r is None ==> forall|k: int| 0 <= k < haystack@.len() ==> haystack@[k] != needle,
{
    memchr::memchr(needle, haystack)
}

/// Calls `memchr::memchr2`: the index of the first byte of `haystack` equal to
/// `a` or to `b`, or `None` when no byte is. The claim is the documented
/// behaviour of that function.
#[verifier::external_body]
pub(crate) fn find_either(a: u8, b: u8, haystack: &[u8]) -> (r: Option<usize>)
    ensures
        r matches Some(i) ==> i < haystack@.len() && (haystack@[i as int] == a || haystack@[i
            as int] == b) && forall|k: int|
            0 <= k < i ==> haystack@[k] != a && haystack@[k] != b,
        r is None ==> forall|k: int|
            0 <= k < haystack@.len() ==> haystack@[k] != a && haystack@[k] != b,
{
    memchr::memchr2(a, b, haystack)
}

/// `needle` occurs in `haystack` starting at index `i`.
pub open spec fn occurs_at(haystack: Seq<u8>, needle: Seq<u8>, i: int) -> bool {
    0 <= i && i + needle.len() <= haystack.len() && haystack.subrange(i, i + needle.len())
        == needle
}

/// Calls `memchr::memmem::find`: the index of the first occurrence of `needle`
/// in `haystack`, or `None` when it does not occur. The claim is the documented
/// behaviour of that function.
#[verifier::external_body]
pub(crate) fn find_subslice(haystack: &[u8], needle: &[u8]) -> (r: Option<usize>)
    ensures
        r matches Some(i) ==> occurs_at(haystack@, needle@, i as int) && forall|k: int|
            0 <= k < i ==> !occurs_at(haystack@, needle@, k),
        r is None ==> forall|k: int| 0 <= k ==> !occurs_at(haystack@, needle@, k),
{
    memchr::memmem::find(haystack, needle)
}

} // verus!
