//! Small verified text utilities shared across the library.

use vstd::prelude::*;

verus! {

/// Decides whether two string slices have equal character sequences.
pub(crate) fn str_eq(a: &str, b: &str) -> (r: bool)
    ensures
        r == (a@ == b@),
{
    let an = a.unicode_len();
    let bn = b.unicode_len();
    if an != bn {
        return false;
    }
    let mut k: usize = 0;
    while k < an
        invariant
            0 <= k <= an,
            an == a@.len(),
            an == b@.len(),
            forall|m: int| 0 <= m < k ==> a@[m] == b@[m],
        decreases an - k,
    {
        if a.get_char(k) != b.get_char(k) {
            return false;
        }
        k += 1;
    }
    proof {
        assert(a@ =~= b@);
    }
    true
}

/// Whether `needle` occurs in `hay` starting at position `i`.
pub open spec fn matches_at(hay: Seq<char>, needle: Seq<char>, i: int) -> bool {
    0 <= i <= hay.len() - needle.len() && hay.subrange(i, i + needle.len() as int) == needle
}

/// Whether `needle` occurs in `hay` as a contiguous substring.
pub open spec fn is_substring(hay: Seq<char>, needle: Seq<char>) -> bool {
    exists|i: int| matches_at(hay, needle, i)
}

/// Decides whether `needle` occurs in `hay` as a contiguous substring.
pub fn contains_sub(hay: &str, needle: &str) -> (r: bool)
    ensures
        r == is_substring(hay@, needle@),
{
    let hay_len = hay.unicode_len();
    let needle_len = needle.unicode_len();
    if needle_len > hay_len {
        assert(forall|i: int| !matches_at(hay@, needle@, i));
        return false;
    }
    let mut i: usize = 0;
    while i <= hay_len - needle_len
        invariant
            0 <= i <= hay_len - needle_len + 1,
            needle_len <= hay_len,
            hay_len == hay@.len(),
            needle_len == needle@.len(),
            forall|k: int| 0 <= k < i ==> !matches_at(hay@, needle@, k),
        decreases hay_len - needle_len - i + 1,
    {
        let mut j: usize = 0;
        let mut all_match = true;
        while j < needle_len && all_match
            invariant
                0 <= j <= needle_len,
                0 <= i <= hay_len - needle_len,
                hay_len == hay@.len(),
                needle_len == needle@.len(),
                all_match ==> forall|k: int| 0 <= k < j ==> hay@[i + k] == needle@[k],
                !all_match ==> exists|k: int|
                    0 <= k < needle@.len() && hay@[i + k] != needle@[k],
            decreases needle_len - j,
        {
            if hay.get_char(i + j) != needle.get_char(j) {
                assert(hay@[i + j as int] != needle@[j as int]);
                all_match = false;
            }
            j += 1;
        }
        if all_match {
            assert(matches_at(hay@, needle@, i as int)) by {
                assert(hay@.subrange(i as int, i + needle@.len() as int) =~= needle@);
            }
            return true;
        }
        assert(!matches_at(hay@, needle@, i as int)) by {
            let k = choose|k: int| 0 <= k < needle@.len() && hay@[i + k] != needle@[k];
            if matches_at(hay@, needle@, i as int) {
                assert(hay@.subrange(i as int, i + needle@.len() as int)[k] == needle@[k]);
                assert(hay@[i + k] == needle@[k]);
            }
        }
        i += 1;
    }
    assert(forall|k: int| !matches_at(hay@, needle@, k)) by {
        assert(forall|k: int| k > hay@.len() - needle@.len() ==> !matches_at(hay@, needle@, k));
    }
    false
}

} // verus!
