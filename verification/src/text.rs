//! Verified character-level string primitives: equality, substring
//! containment and suffix tests, stated over `Seq<char>` views.

use vstd::prelude::*;

verus! {

/// `needle` occurs as a contiguous run of characters inside `hay`.
pub open spec fn contains_seq(hay: Seq<char>, needle: Seq<char>) -> bool {
    exists|i: int|
        0 <= i && i + needle.len() <= hay.len() && #[trigger] hay.subrange(i, i + needle.len())
            == needle
}

/// `suffix` ends `hay`.
pub open spec fn ends_with_seq(hay: Seq<char>, suffix: Seq<char>) -> bool {
    suffix.len() <= hay.len() && hay.subrange(hay.len() - suffix.len(), hay.len() as int)
        == suffix
}

/// Character-for-character equality of two string slices.
pub fn str_eq(a: &str, b: &str) -> (r: bool)
    ensures
        r == (a@ == b@),
{
    let alen = a.unicode_len();
    let blen = b.unicode_len();
    if alen != blen {
        proof {
            if a@ == b@ {
                assert(a@.len() == b@.len());
            }
        }
        return false;
    }
    let mut i: usize = 0;
    while i < alen
        invariant
            alen == a@.len(),
            alen == b@.len(),
            i <= alen,
            forall|k: int| 0 <= k < i ==> a@[k] == b@[k],
        decreases alen - i,
    {
        if a.get_char(i) != b.get_char(i) {
            return false;
        }
        i += 1;
    }
    proof {
        assert(a@ =~= b@);
    }
    true
}

/// `needle` matches `hay` starting at character position `pos`.
fn match_at(hay: &str, needle: &str, pos: usize, hlen: usize, nlen: usize) -> (r: bool)
    requires
        hlen == hay@.len(),
        nlen == needle@.len(),
        pos + nlen <= hlen,
    ensures
        r == (hay@.subrange(pos as int, pos + needle@.len()) == needle@),
{
    let mut k: usize = 0;
    while k < nlen
        invariant
            hlen == hay@.len(),
            nlen == needle@.len(),
            pos + nlen <= hlen,
            k <= nlen,
            forall|j: int| 0 <= j < k ==> hay@[pos + j] == needle@[j],
        decreases nlen - k,
    {
        if hay.get_char(pos + k) != needle.get_char(k) {
            proof {
                assert(hay@.subrange(pos as int, pos + needle@.len())[k as int]
                    == hay@[pos + k]);
            }
            return false;
        }
        k += 1;
    }
    proof {
        assert(hay@.subrange(pos as int, pos + needle@.len()) =~= needle@);
    }
    true
}

/// Substring test over character positions.
pub fn str_contains(hay: &str, needle: &str) -> (r: bool)
    ensures
        r == contains_seq(hay@, needle@),
{
    let hlen = hay.unicode_len();
    let nlen = needle.unicode_len();
    if nlen > hlen {
        return false;
    }
    if nlen == 0 {
        proof {
            assert(hay@.subrange(0, 0 + needle@.len() as int) =~= needle@);
        }
        return true;
    }
    let mut i: usize = 0;
    while i <= hlen - nlen
        invariant
            hlen == hay@.len(),
            nlen == needle@.len(),
            0 < nlen <= hlen,
            i <= hlen - nlen + 1,
            forall|j: int|
                0 <= j < i ==> #[trigger] hay@.subrange(j, j + needle@.len()) != needle@,
        decreases hlen - nlen + 1 - i,
    {
        if match_at(hay, needle, i, hlen, nlen) {
            return true;
        }
        i += 1;
    }
    false
}

/// Suffix test over character positions.
pub fn str_ends_with(hay: &str, suffix: &str) -> (r: bool)
    ensures
        r == ends_with_seq(hay@, suffix@),
{
    let hlen = hay.unicode_len();
    let slen = suffix.unicode_len();
    if slen > hlen {
        return false;
    }
    match_at(hay, suffix, hlen - slen, hlen, slen)
}

} // verus!
