//! Case-insensitive byte-string matching.
//!
//! Lines are handled as byte strings, and "case-insensitive" means that both
//! sides are folded to ASCII uppercase before they are compared, byte by byte.

use vstd::prelude::*;

verus! {

/// The ASCII uppercase image of a byte: a lowercase ASCII letter maps to its
/// uppercase counterpart, every other byte is unchanged.
pub open spec fn upper_byte(b: u8) -> u8 {
    if 97 <= b && b <= 122 {
        (b - 32) as u8
    } else {
        b
    }
}

/// A byte sequence folded to ASCII uppercase, byte by byte.
pub open spec fn upper(s: Seq<u8>) -> Seq<u8> {
    Seq::new(s.len(), |i: int| upper_byte(s[i]))
}

/// `needle` occurs as a contiguous run inside `hay`.
pub open spec fn contains_seq(hay: Seq<u8>, needle: Seq<u8>) -> bool {
    exists|i: int|
        0 <= i && i + needle.len() <= hay.len() && #[trigger] hay.subrange(i, i + needle.len())
            == needle
}

/// Case-insensitive containment: `needle` occurs inside `hay` once both are
/// folded to ASCII uppercase.
pub open spec fn contains_ci(hay: Seq<u8>, needle: Seq<u8>) -> bool {
    contains_seq(upper(hay), upper(needle))
}

/// Case-insensitive equality of two byte strings.
pub open spec fn eq_ci(a: Seq<u8>, b: Seq<u8>) -> bool {
    upper(a) == upper(b)
}

/// Fold one byte to ASCII uppercase.
fn byte_to_upper(b: u8) -> (r: u8)
    ensures
        r == upper_byte(b),
{
    if 97 <= b && b <= 122 {
        b - 32
    } else {
        b
    }
}

/// Whether `needle`, folded to uppercase, stands at offset `at` of `hay`
/// folded to uppercase.
fn match_at(hay: &[u8], needle: &[u8], at: usize) -> (r: bool)
    requires
        at + needle@.len() <= hay@.len(),
    ensures
        r == (upper(hay@).subrange(at as int, at + needle@.len()) == upper(needle@)),
{
    let n = hay.len();
    let m = needle.len();
    let mut k: usize = 0;
    while k < m
        invariant
            n == hay@.len(),
            m == needle@.len(),
            at + m <= hay@.len(),
            k <= m,
            forall|l: int| 0 <= l < k ==> upper(hay@)[at + l] == upper(needle@)[l],
        decreases m - k,
    {
        if byte_to_upper(hay[at + k]) != byte_to_upper(needle[k]) {
            proof {
                assert(upper(hay@).subrange(at as int, at + m)[k as int] == upper(hay@)[at + k]);
            }
            return false;
        }
        k += 1;
    }
    proof {
        assert(upper(hay@).subrange(at as int, at + m) =~= upper(needle@));
    }
    true
}

/// Case-insensitive substring search: does `hay` contain `needle` when both
/// are folded to ASCII uppercase?
pub fn find_ci(hay: &[u8], needle: &[u8]) -> (r: bool)
    ensures
        r == contains_ci(hay@, needle@),
{
    let n = hay.len();
    let m = needle.len();
    if m > n {
        return false;
    }
    if m == 0 {
        proof {
            assert(upper(hay@).subrange(0, 0 + upper(needle@).len() as int) =~= upper(needle@));
        }
        return true;
    }
    let mut i: usize = 0;
    while i <= n - m
        invariant
            n == hay@.len(),
            m == needle@.len(),
            1 <= m <= n,
            i <= n - m + 1,
            forall|j: int| 0 <= j < i ==> #[trigger] upper(hay@).subrange(j, j + m)
                != upper(needle@),
        decreases n - m - i + 1,
    {
        if match_at(hay, needle, i) {
            proof {
                assert(0 <= i as int && i + upper(needle@).len() <= upper(hay@).len()
                    && upper(hay@).subrange(i as int, i + upper(needle@).len()) == upper(needle@));
            }
            return true;
        }
        i += 1;
    }
    false
}

/// Case-insensitive equality test on two byte strings.
pub fn equals_ci(a: &[u8], b: &[u8]) -> (r: bool)
    ensures
        r == eq_ci(a@, b@),
{
    if a.len() != b.len() {
        proof {
            assert(upper(a@).len() == a@.len() && upper(b@).len() == b@.len());
        }
        return false;
    }
    let r = match_at(a, b, 0);
    proof {
        assert(upper(a@).subrange(0, b@.len() as int) =~= upper(a@));
    }
    r
}

} // verus!
