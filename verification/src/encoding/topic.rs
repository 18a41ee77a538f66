//! Wildcard characters in topic names and topic filters.
use vstd::prelude::*;

verus! {

/// The byte is one of the two wildcard characters `+` and `#`.
pub open spec fn is_wildcard(b: u8) -> bool {
    b == 0x2B || b == 0x23
}

/// Some byte of the topic is a wildcard character.
pub open spec fn spec_contains_wildcard(s: Seq<u8>) -> bool {
    exists|i: int| 0 <= i < s.len() && is_wildcard(#[trigger] s[i])
}

/// The wildcard at index `i` stands alone in its level: it is at the start of the topic or
/// follows a `/`, and it is at the end of the topic or is a `+` followed by a `/`.
pub open spec fn wildcard_placed_at(s: Seq<u8>, i: int) -> bool {
    &&& (i == 0 || s[i - 1] == 0x2F)
    &&& (i + 1 == s.len() || (s[i + 1] == 0x2F && s[i] == 0x2B))
}

/// Every wildcard of the topic filter is placed correctly.
pub open spec fn spec_has_valid_wildcard(s: Seq<u8>) -> bool {
    forall|i: int| 0 <= i < s.len() && is_wildcard(#[trigger] s[i]) ==> wildcard_placed_at(s, i)
}

/// Finds the first occurrence of either byte with [`memchr::memchr2`].
///
/// The contract claims what the crate documents: the result is the index of the first byte
/// equal to one of the needles, or `None` when no byte is.
#[verifier::external_body]
fn memchr2(needle1: u8, needle2: u8, haystack: &[u8]) -> (r: Option<usize>)
    ensures
        match r {
            Some(i) => {
                &&& i < haystack@.len()
                &&& (haystack@[i as int] == needle1 || haystack@[i as int] == needle2)
                &&& forall|j: int| 0 <= j < i ==> #[trigger] haystack@[j] != needle1 && haystack@[j] != needle2
            },
            None => forall|j: int| 0 <= j < haystack@.len() ==> #[trigger] haystack@[j] != needle1 && haystack@[j] != needle2,
        },
{
    memchr::memchr2(needle1, needle2, haystack)
}

/// Checks if the topic contains a wildcard character.
pub fn contains_wildcard(bytes: &[u8]) -> (r: bool)
    ensures
        r == spec_contains_wildcard(bytes@),
{
    let r = memchr2(0x2Bu8, 0x23u8, bytes);
    match r {
        Some(i) => {
            assert(is_wildcard(bytes@[i as int]));
            true
        },
        None => false,
    }
}

/// Checks that every wildcard in a topic filter is placed correctly.
pub fn has_valid_wildcard_bytes(bytes: &[u8]) -> (r: bool)
    ensures
        r == spec_has_valid_wildcard(bytes@),
{
    let mut pos: usize = 0;
    while pos < bytes.len()
        invariant
            0 <= pos <= bytes@.len(),
            forall|i: int| 0 <= i < pos && is_wildcard(#[trigger] bytes@[i]) ==> wildcard_placed_at(bytes@, i),
        decreases bytes@.len() - pos,
    {
        let hay = vstd::slice::slice_subrange(bytes, pos, bytes.len());
        match memchr2(0x2Bu8, 0x23u8, hay) {
            Some(k) => {
                let idx = pos + k;
                assert(hay@[k as int] == bytes@[idx as int]);
                assert forall|j: int| pos <= j < idx implies !is_wildcard(#[trigger] bytes@[j]) by {
                    assert(hay@[j - pos] == bytes@[j]);
                }
                let pre = idx == 0 || bytes[idx - 1] == 0x2Fu8;
                let next = idx + 1 == bytes.len() || (bytes[idx + 1] == 0x2Fu8 && bytes[idx] == 0x2Bu8);
                if !(pre && next) {
                    return false;
                }
                pos = idx + 1;
            },
            None => {
                assert forall|j: int| pos <= j < bytes@.len() implies !is_wildcard(#[trigger] bytes@[j]) by {
                    assert(hay@[j - pos] == bytes@[j]);
                }
                pos = bytes.len();
            },
        }
    }
    true
}

} // verus!
