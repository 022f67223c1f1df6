//! Byte-level text helpers shared by the command interpreter, the
//! JSON framing and the error-classification logic.  All texts in the
//! library are UTF-8 byte sequences.

use vstd::prelude::*;

verus! {

/// `needle` occurs as a contiguous subrange of `hay`.
pub open spec fn spec_contains(hay: Seq<u8>, needle: Seq<u8>) -> bool {
    exists|i: int|
        0 <= i && i + needle.len() <= hay.len() && #[trigger] hay.subrange(i, i + needle.len())
            == needle
}

fn matches_at(hay: &[u8], needle: &[u8], i: usize) -> (r: bool)
    requires
        i + needle@.len() <= hay@.len(),
    ensures
        r == (hay@.subrange(i as int, i + needle@.len()) == needle@),
{
    let n = hay.len();
    let mut k: usize = 0;
    while k < needle.len()
        invariant
            0 <= k <= needle@.len(),
            i + needle@.len() <= hay@.len(),
            hay@.len() == n,
            forall|j: int| 0 <= j < k ==> hay@[i + j] == needle@[j],
        decreases needle@.len() - k,
    {
        if hay[i + k] != needle[k] {
            assert(hay@.subrange(i as int, i + needle@.len())[k as int] != needle@[k as int]);
            return false;
        }
        k = k + 1;
    }
    assert(hay@.subrange(i as int, i + needle@.len()) =~= needle@);
    true
}

/// Whether `needle` occurs anywhere in `hay` (naive scan).
pub fn contains_sub(hay: &[u8], needle: &[u8]) -> (r: bool)
    ensures
        r == spec_contains(hay@, needle@),
{
    if needle.len() > hay.len() {
        assert(!spec_contains(hay@, needle@));
        return false;
    }
    if needle.len() == 0 {
        assert(spec_contains(hay@, needle@)) by {
            assert(hay@.subrange(0, 0 + needle@.len() as int) =~= needle@);
        }
        return true;
    }
    let count: usize = hay.len() - needle.len() + 1;
    let mut i: usize = 0;
    while i < count
        invariant
            0 <= i <= count,
            count == hay@.len() - needle@.len() + 1,
            needle@.len() >= 1,
            hay@.len() <= usize::MAX,
            forall|j: int|
                0 <= j < i ==> #[trigger] hay@.subrange(j, j + needle@.len()) != needle@,
        decreases count - i,
    {
        if matches_at(hay, needle, i) {
            assert(spec_contains(hay@, needle@));
            return true;
        }
        i = i + 1;
    }
    false
}

/// ASCII lower-casing of one byte; multi-byte UTF-8 units are above
/// 0x7F and pass through unchanged.
pub open spec fn spec_lower_byte(b: u8) -> u8 {
    if 65 <= b <= 90 {
        (b + 32) as u8
    } else {
        b
    }
}

pub open spec fn spec_lower(s: Seq<u8>) -> Seq<u8> {
    s.map_values(|b: u8| spec_lower_byte(b))
}

/// ASCII lower-casing of a byte string.
pub fn ascii_lower(s: &[u8]) -> (r: Vec<u8>)
    ensures
        r@ == spec_lower(s@),
{
    let mut out: Vec<u8> = Vec::new();
    let mut i: usize = 0;
    while i < s.len()
        invariant
            0 <= i <= s@.len(),
            out@ == spec_lower(s@.subrange(0, i as int)),
        decreases s@.len() - i,
    {
        let b = s[i];
        if 65 <= b && b <= 90 {
            out.push(b + 32);
        } else {
            out.push(b);
        }
        assert(s@.subrange(0, i + 1).map_values(|x: u8| spec_lower_byte(x)) =~= s@.subrange(
            0,
            i as int,
        ).map_values(|x: u8| spec_lower_byte(x)).push(spec_lower_byte(s@[i as int])));
        i = i + 1;
    }
    assert(s@.subrange(0, s@.len() as int) =~= s@);
    out
}

/// Equality of two byte strings.
pub fn bytes_eq(a: &[u8], b: &[u8]) -> (r: bool)
    ensures
        r == (a@ == b@),
{
    if a.len() != b.len() {
        assert(a@ != b@);
        return false;
    }
    let r = matches_at(a, b, 0);
    assert(a@.subrange(0, a@.len() as int) =~= a@);
    r
}

/// Append a byte slice to a growing buffer.
pub fn push_all(out: &mut Vec<u8>, s: &[u8])
    ensures
        final(out)@ == old(out)@ + s@,
{
    out.extend_from_slice(s);
}

/// An ASCII whitespace byte, as `str::trim` strips them.
pub open spec fn is_space(b: u8) -> bool {
    b == 32 || (9 <= b <= 13)
}

/// The leading and trailing ASCII whitespace bytes of `s` stripped.
pub open spec fn spec_trim_spaces(s: Seq<u8>) -> Seq<u8>
    decreases s.len(),
{
    if s.len() > 0 && is_space(s[0]) {
        spec_trim_spaces(s.drop_first())
    } else if s.len() > 0 && is_space(s[s.len() - 1]) {
        spec_trim_spaces(s.drop_last())
    } else {
        s
    }
}

fn is_space_x(b: u8) -> (r: bool)
    ensures
        r == is_space(b),
{
    b == 32 || (9 <= b && b <= 13)
}

/// Strip leading and trailing ASCII whitespace.
pub fn trim_spaces(s: &[u8]) -> (r: Vec<u8>)
    ensures
        r@ == spec_trim_spaces(s@),
{
    let mut lo: usize = 0;
    let mut hi: usize = s.len();
    assert(s@.subrange(0, s@.len() as int) =~= s@);
    while lo < hi && is_space_x(s[lo])
        invariant
            0 <= lo <= hi <= s@.len(),
            hi == s@.len(),
            spec_trim_spaces(s@) == spec_trim_spaces(s@.subrange(lo as int, hi as int)),
        decreases hi - lo,
    {
        assert(s@.subrange(lo as int, hi as int).drop_first() =~= s@.subrange(
            lo + 1,
            hi as int,
        ));
        lo = lo + 1;
    }
    while hi > lo && is_space_x(s[hi - 1])
        invariant
            0 <= lo <= hi <= s@.len(),
            lo < hi ==> !is_space(s@[lo as int]),
            spec_trim_spaces(s@) == spec_trim_spaces(s@.subrange(lo as int, hi as int)),
        decreases hi - lo,
    {
        assert(s@.subrange(lo as int, hi as int).drop_last() =~= s@.subrange(
            lo as int,
            hi - 1,
        ));
        hi = hi - 1;
    }
    let mut out: Vec<u8> = Vec::new();
    let mut i: usize = lo;
    while i < hi
        invariant
            lo <= i <= hi <= s@.len(),
            out@ == s@.subrange(lo as int, i as int),
        decreases hi - i,
    {
        out.push(s[i]);
        assert(s@.subrange(lo as int, i + 1) =~= s@.subrange(lo as int, i as int).push(
            s@[i as int],
        ));
        i = i + 1;
    }
    assert(spec_trim_spaces(s@.subrange(lo as int, hi as int)) == s@.subrange(
        lo as int,
        hi as int,
    ));
    out
}

} // verus!
