//! Prefix ranges: the half-open key interval that selects every key
//! starting with a given prefix.

use vstd::prelude::*;

verus! {

/// A half-open interval of keys, `[start, end)`.
#[derive(Clone, Debug, PartialEq, Eq)]
pub struct KeyRange {
    pub start: Vec<u8>,
    pub end: Vec<u8>,
}

/// `a` is a leading part of `b`.
pub open spec fn is_prefix_of(a: Seq<u8>, b: Seq<u8>) -> bool {
    a.len() <= b.len() && b.subrange(0, a.len() as int) == a
}

/// Strict byte-lexicographic order: `a` sorts before `b`.
pub open spec fn lex_lt(a: Seq<u8>, b: Seq<u8>) -> bool {
    ||| (a.len() < b.len() && is_prefix_of(a, b))
    ||| exists|i: int| differ_at(a, b, i)
}

/// `a` and `b` agree before position `i`, where `a` holds the smaller byte.
pub open spec fn differ_at(a: Seq<u8>, b: Seq<u8>, i: int) -> bool {
    &&& 0 <= i < a.len()
    &&& i < b.len()
    &&& a.subrange(0, i) == b.subrange(0, i)
    &&& a[i] < b[i]
}

/// Byte-lexicographic order: `a` sorts before `b` or equals it.
pub open spec fn lex_le(a: Seq<u8>, b: Seq<u8>) -> bool {
    a == b || lex_lt(a, b)
}

/// The byte after `b`, wrapping from `0xFF` to `0x00`.
pub open spec fn next_byte(b: u8) -> u8 {
    if b == 0xFF {
        0u8
    } else {
        (b + 1) as u8
    }
}

/// The end of the range for `prefix`: the prefix with its last byte
/// advanced by one. The empty prefix has no last byte and stays empty.
pub open spec fn prefix_end(prefix: Seq<u8>) -> Seq<u8> {
    if prefix.len() == 0 {
        prefix
    } else {
        prefix.update(prefix.len() - 1, next_byte(prefix.last()))
    }
}

/// Computes the range `[prefix, prefix_end(prefix))`.
pub fn prefix_range(prefix: &[u8]) -> (range: KeyRange)
    ensures
        range.start@ == prefix@,
        range.end@ == prefix_end(prefix@),
{
    let start = vstd::slice::slice_to_vec(prefix);
    let mut end = vstd::slice::slice_to_vec(prefix);
    if let Some(byte) = end.last_mut() {
        *byte = byte.wrapping_add(1);
    }
    KeyRange { start, end }
}

/// `k` lies in the half-open interval `[start, end)`.
pub open spec fn within(start: Seq<u8>, end: Seq<u8>, k: Seq<u8>) -> bool {
    lex_le(start, k) && lex_lt(k, end)
}

/// Two keys that agree before `i` hold the same byte at each earlier place.
proof fn lemma_agree_before(a: Seq<u8>, b: Seq<u8>, i: int, j: int)
    requires
        0 <= j < i <= a.len(),
        i <= b.len(),
        a.subrange(0, i) == b.subrange(0, i),
    ensures
        a[j] == b[j],
{
    assert(a.subrange(0, i)[j] == a[j]);
    assert(b.subrange(0, i)[j] == b[j]);
}

/// A key that starts with `prefix` lies in the prefix's range, provided the
/// prefix has a last byte and that byte is not `0xFF`.
pub proof fn lemma_prefix_in_range(prefix: Seq<u8>, k: Seq<u8>)
    requires
        prefix.len() > 0,
        prefix.last() != 0xFF,
        is_prefix_of(prefix, k),
    ensures
        within(prefix, prefix_end(prefix), k),
{
    let n = prefix.len() as int;
    let end = prefix_end(prefix);
    if k.len() == n {
        assert(k.subrange(0, n) =~= k);
    }
    assert forall|j: int| 0 <= j < n implies k[j] == prefix[j] by {
        assert(k.subrange(0, n)[j] == k[j]);
    }
    assert(k.subrange(0, n - 1) =~= end.subrange(0, n - 1));
    assert(differ_at(k, end, n - 1));
}

/// A key in the range of `prefix` starts with `prefix`, provided the prefix
/// has a last byte and that byte is not `0xFF`.
pub proof fn lemma_range_has_prefix(prefix: Seq<u8>, k: Seq<u8>)
    requires
        prefix.len() > 0,
        prefix.last() != 0xFF,
        within(prefix, prefix_end(prefix), k),
    ensures
        is_prefix_of(prefix, k),
{
    let n = prefix.len() as int;
    let end = prefix_end(prefix);
    if prefix == k {
        assert(k.subrange(0, n) =~= k);
    } else if n < k.len() && is_prefix_of(prefix, k) {
    } else {
        // `prefix` sorts before `k` at some place `j`; `k` sorts before `end`.
        let j = choose|j: int| differ_at(prefix, k, j);
        assert(differ_at(prefix, k, j));
        if k.len() < n && is_prefix_of(k, end) {
            assert(end.subrange(0, k.len() as int)[j] == end[j]);
            assert(false);
        } else {
            let i = choose|i: int| differ_at(k, end, i);
            assert(differ_at(k, end, i));
            if i < j {
                lemma_agree_before(prefix, k, j, i);
            } else if j < i {
                lemma_agree_before(k, end, i, j);
            }
            assert(false);
        }
    }
}

} // verus!
