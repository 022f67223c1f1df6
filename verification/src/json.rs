//! JSON framing for the inference endpoint.
//!
//! The endpoint answers with a JSON object; the library needs the string
//! value of one member (`"response"`) and, for the tag listing, whether a
//! member array holds an object whose `"name"` is a given model.  The
//! format is specified here from scratch over byte sequences: a family of
//! spec functions defines, for every position, where each construct ends
//! and what a string literal decodes to; the executable scanners are
//! proved to return exactly what the spec functions say.
//!
//! Recursion through nested values is bounded by an explicit fuel; the
//! public entry points fix the fuel at two more than the input length,
//! which no well-formed input can exhaust, since every nesting level and
//! every member consumes at least one byte.

use vstd::prelude::*;
use vstd::utf8::encode_scalar;

verus! {

/// JSON insignificant whitespace.
pub open spec fn is_ws(b: u8) -> bool {
    b == 32 || b == 9 || b == 10 || b == 13
}

pub open spec fn is_digit(b: u8) -> bool {
    48 <= b <= 57
}

/// ASCII hex digit (both cases).
pub open spec fn is_hex(b: u8) -> bool {
    is_digit(b) || (65 <= b <= 70) || (97 <= b <= 102)
}

pub open spec fn hex_val(b: u8) -> u32 {
    if is_digit(b) {
        (b - 48) as u32
    } else if 65 <= b <= 70 {
        (b - 55) as u32
    } else {
        (b - 87) as u32
    }
}

/// First position at or after `i` holding no whitespace.
pub open spec fn ws_end(s: Seq<u8>, i: int) -> int
    decreases s.len() - i,
{
    if i < s.len() && is_ws(s[i]) {
        ws_end(s, i + 1)
    } else {
        i
    }
}

/// First position at or after `i` holding no decimal digit.
pub open spec fn digits_end(s: Seq<u8>, i: int) -> int
    decreases s.len() - i,
{
    if i < s.len() && is_digit(s[i]) {
        digits_end(s, i + 1)
    } else {
        i
    }
}

/// End position (exclusive) of a number token starting at `i`, following
/// the JSON grammar: optional minus, integer part without a leading zero,
/// optional fraction, optional exponent.  `None` when no well-formed
/// number starts at `i`.
pub open spec fn num_end(s: Seq<u8>, i: int) -> Option<int> {
    let p = if i < s.len() && s[i] == 45 {
        i + 1
    } else {
        i
    };
    if p < s.len() && is_digit(s[p]) {
        let q = if s[p] == 48 {
            p + 1
        } else {
            digits_end(s, p)
        };
        let r = if q < s.len() && s[q] == 46 {
            if digits_end(s, q + 1) > q + 1 {
                digits_end(s, q + 1)
            } else {
                -1
            }
        } else {
            q
        };
        if r == -1 {
            None
        } else {
            let e = if r < s.len() && (s[r] == 101 || s[r] == 69) {
                let t = if r + 1 < s.len() && (s[r + 1] == 43 || s[r + 1] == 45) {
                    r + 2
                } else {
                    r + 1
                };
                if digits_end(s, t) > t {
                    digits_end(s, t)
                } else {
                    -1
                }
            } else {
                r
            };
            if e == -1 {
                None
            } else {
                Some(e)
            }
        }
    } else {
        None
    }
}

/// Position just after the closing quote of a string literal whose
/// content starts at `i` (the opening quote already consumed).  Scans
/// over escape sequences; raw control bytes and malformed escapes make
/// the literal invalid.
pub open spec fn str_end(s: Seq<u8>, i: int) -> Option<int>
    decreases s.len() - i,
{
    if i >= s.len() {
        None
    } else if s[i] == 34 {
        Some(i + 1)
    } else if s[i] < 32 {
        None
    } else if s[i] == 92 {
        if i + 1 >= s.len() {
            None
        } else {
            let e = s[i + 1];
            if e == 34 || e == 92 || e == 47 || e == 98 || e == 102 || e == 110 || e == 114 || e
                == 116 {
                str_end(s, i + 2)
            } else if e == 117 {
                if i + 6 <= s.len() && is_hex(s[i + 2]) && is_hex(s[i + 3]) && is_hex(s[i + 4])
                    && is_hex(s[i + 5]) {
                    str_end(s, i + 6)
                } else {
                    None
                }
            } else {
                None
            }
        }
    } else {
        str_end(s, i + 1)
    }
}

/// The code unit of the four hex digits at `i`.
pub open spec fn hex4(s: Seq<u8>, i: int) -> int {
    hex_val(s[i]) * 0x1000 + hex_val(s[i + 1]) * 0x100 + hex_val(s[i + 2]) * 0x10 + hex_val(
        s[i + 3],
    )
}

pub open spec fn opt_prepend(pre: Seq<u8>, rest: Option<Seq<u8>>) -> Option<Seq<u8>> {
    match rest {
        Some(r) => Some(pre + r),
        None => None,
    }
}

/// The bytes a string literal's raw content `s[i..j)` decodes to:
/// escape sequences are replaced by the bytes they denote (`\uXXXX`
/// escapes, pairing surrogates, by the UTF-8 encoding of the scalar) and
/// every other byte passes through.  `None` when an escape is malformed
/// or a surrogate stands alone.
pub open spec fn unescape(s: Seq<u8>, i: int, j: int) -> Option<Seq<u8>>
    decreases j - i,
{
    if i >= j {
        if i == j {
            Some(seq![])
        } else {
            None
        }
    } else if s[i] == 92 {
        if i + 1 >= j {
            None
        } else {
            let e = s[i + 1];
            if e == 34 {
                opt_prepend(seq![34u8], unescape(s, i + 2, j))
            } else if e == 92 {
                opt_prepend(seq![92u8], unescape(s, i + 2, j))
            } else if e == 47 {
                opt_prepend(seq![47u8], unescape(s, i + 2, j))
            } else if e == 98 {
                opt_prepend(seq![8u8], unescape(s, i + 2, j))
            } else if e == 102 {
                opt_prepend(seq![12u8], unescape(s, i + 2, j))
            } else if e == 110 {
                opt_prepend(seq![10u8], unescape(s, i + 2, j))
            } else if e == 114 {
                opt_prepend(seq![13u8], unescape(s, i + 2, j))
            } else if e == 116 {
                opt_prepend(seq![9u8], unescape(s, i + 2, j))
            } else if e == 117 {
                if i + 6 <= j && is_hex(s[i + 2]) && is_hex(s[i + 3]) && is_hex(s[i + 4]) && is_hex(
                    s[i + 5],
                ) {
                    let c = hex4(s, i + 2);
                    if 0xD800 <= c <= 0xDBFF {
                        if i + 12 <= j && s[i + 6] == 92 && s[i + 7] == 117 && is_hex(s[i + 8])
                            && is_hex(s[i + 9]) && is_hex(s[i + 10]) && is_hex(s[i + 11]) {
                            let c2 = hex4(s, i + 8);
                            if 0xDC00 <= c2 <= 0xDFFF {
                                opt_prepend(
                                    encode_scalar((0x10000 + (c - 0xD800) * 0x400 + (c2 - 0xDC00))
                                        as u32),
                                    unescape(s, i + 12, j),
                                )
                            } else {
                                None
                            }
                        } else {
                            None
                        }
                    } else if 0xDC00 <= c <= 0xDFFF {
                        None
                    } else {
                        opt_prepend(encode_scalar(c as u32), unescape(s, i + 6, j))
                    }
                } else {
                    None
                }
            } else {
                None
            }
        }
    } else {
        opt_prepend(seq![s[i]], unescape(s, i + 1, j))
    }
}

/// A string literal whose content starts at `i` is well formed and
/// decodes; `decoded_str` is what it decodes to.
pub open spec fn str_decodes(s: Seq<u8>, i: int) -> bool {
    match str_end(s, i) {
        Some(j) => unescape(s, i, j - 1) is Some,
        None => false,
    }
}

pub open spec fn decoded_str(s: Seq<u8>, i: int) -> Seq<u8>
    recommends
        str_decodes(s, i),
{
    unescape(s, i, str_end(s, i)->Some_0 - 1)->Some_0
}

/// End position of the JSON value starting at `i` (whitespace already
/// skipped), or `None` when no well-formed value starts there.
pub open spec fn value_end(s: Seq<u8>, i: int, fuel: nat) -> Option<int>
    decreases fuel,
{
    if fuel == 0 {
        None
    } else if i >= s.len() {
        None
    } else if s[i] == 34 {
        if str_decodes(s, i + 1) {
            str_end(s, i + 1)
        } else {
            None
        }
    } else if s[i] == 123 {
        obj_end(s, ws_end(s, i + 1), true, (fuel - 1) as nat)
    } else if s[i] == 91 {
        arr_end(s, ws_end(s, i + 1), true, (fuel - 1) as nat)
    } else if s[i] == 116 {
        if i + 4 <= s.len() && s[i + 1] == 114 && s[i + 2] == 117 && s[i + 3] == 101 {
            Some(i + 4)
        } else {
            None
        }
    } else if s[i] == 102 {
        if i + 5 <= s.len() && s[i + 1] == 97 && s[i + 2] == 108 && s[i + 3] == 115 && s[i + 4]
            == 101 {
            Some(i + 5)
        } else {
            None
        }
    } else if s[i] == 110 {
        if i + 4 <= s.len() && s[i + 1] == 117 && s[i + 2] == 108 && s[i + 3] == 108 {
            Some(i + 4)
        } else {
            None
        }
    } else if s[i] == 45 || is_digit(s[i]) {
        num_end(s, i)
    } else {
        None
    }
}

/// End position of an object body whose next token starts at `i` (just
/// inside the braces, whitespace skipped).  `first` is true before any
/// member has been read, so that only an empty object may close at once.
pub open spec fn obj_end(s: Seq<u8>, i: int, first: bool, fuel: nat) -> Option<int>
    decreases fuel,
{
    if fuel == 0 {
        None
    } else if i >= s.len() {
        None
    } else if first && s[i] == 125 {
        Some(i + 1)
    } else if s[i] == 34 {
        match str_end(s, i + 1) {
            Some(k_end) => {
                let c = ws_end(s, k_end);
                if c < s.len() && s[c] == 58 {
                    let vs = ws_end(s, c + 1);
                    match value_end(s, vs, (fuel - 1) as nat) {
                        Some(ve) => {
                            let d = ws_end(s, ve);
                            if d < s.len() && s[d] == 125 {
                                Some(d + 1)
                            } else if d < s.len() && s[d] == 44 {
                                obj_end(s, ws_end(s, d + 1), false, (fuel - 1) as nat)
                            } else {
                                None
                            }
                        },
                        None => None,
                    }
                } else {
                    None
                }
            },
            None => None,
        }
    } else {
        None
    }
}

/// End position of an array body whose next token starts at `i` (just
/// inside the brackets, whitespace skipped).
pub open spec fn arr_end(s: Seq<u8>, i: int, first: bool, fuel: nat) -> Option<int>
    decreases fuel,
{
    if fuel == 0 {
        None
    } else if i >= s.len() {
        None
    } else if first && s[i] == 93 {
        Some(i + 1)
    } else {
        match value_end(s, i, (fuel - 1) as nat) {
            Some(ve) => {
                let d = ws_end(s, ve);
                if d < s.len() && s[d] == 93 {
                    Some(d + 1)
                } else if d < s.len() && s[d] == 44 {
                    arr_end(s, ws_end(s, d + 1), false, (fuel - 1) as nat)
                } else {
                    None
                }
            },
            None => None,
        }
    }
}

/// Walk an object's members from the key expected at `i`; the position
/// where the value of the first member whose decoded key equals `key`
/// starts, or `None` when the key is absent or the members are
/// malformed.
pub open spec fn find_member(s: Seq<u8>, i: int, key: Seq<u8>, fuel: nat) -> Option<int>
    decreases fuel,
{
    if fuel == 0 {
        None
    } else if i >= s.len() {
        None
    } else if s[i] == 34 {
        match str_end(s, i + 1) {
            Some(k_end) => {
                let c = ws_end(s, k_end);
                if c < s.len() && s[c] == 58 {
                    let vs = ws_end(s, c + 1);
                    if unescape(s, i + 1, k_end - 1) == Some(key) {
                        Some(vs)
                    } else {
                        match value_end(s, vs, (fuel - 1) as nat) {
                            Some(ve) => {
                                let d = ws_end(s, ve);
                                if d < s.len() && s[d] == 44 {
                                    find_member(s, ws_end(s, d + 1), key, (fuel - 1) as nat)
                                } else {
                                    None
                                }
                            },
                            None => None,
                        }
                    }
                } else {
                    None
                }
            },
            None => None,
        }
    } else {
        None
    }
}

/// Fuel that no well-formed input can exhaust: every member and every
/// nesting level consumes at least one byte.
pub open spec fn json_fuel(s: Seq<u8>) -> nat {
    (s.len() + 2) as nat
}

/// The input is exactly one well-formed JSON value with nothing but
/// whitespace around it.
pub open spec fn spec_body_valid(s: Seq<u8>) -> bool {
    let i = ws_end(s, 0);
    match value_end(s, i, json_fuel(s)) {
        Some(e) => ws_end(s, e) == s.len(),
        None => false,
    }
}

/// The decoded string value of the top-level member named `key`, when
/// the input is a well-formed object that has such a member with a
/// string value.
pub open spec fn spec_string_member(s: Seq<u8>, key: Seq<u8>) -> Option<Seq<u8>> {
    if spec_body_valid(s) {
        let i = ws_end(s, 0);
        if s[i] == 123 {
            match find_member(s, ws_end(s, i + 1), key, json_fuel(s)) {
                Some(vs) => {
                    if vs < s.len() && s[vs] == 34 && str_decodes(s, vs + 1) {
                        Some(decoded_str(s, vs + 1))
                    } else {
                        None
                    }
                },
                None => None,
            }
        } else {
            None
        }
    } else {
        None
    }
}

/// Headroom so that scanner arithmetic on positions cannot overflow.
pub open spec fn fits_scan(s: Seq<u8>) -> bool {
    s.len() + 16 <= usize::MAX
}

/// Skip insignificant whitespace.
fn ws_skip(s: &[u8], i: usize) -> (r: usize)
    requires
        i <= s@.len(),
    ensures
        r == ws_end(s@, i as int),
        i <= r <= s@.len(),
{
    let n = s.len();
    let mut cur = i;
    while cur < n && (s[cur] == 32 || s[cur] == 9 || s[cur] == 10 || s[cur] == 13)
        invariant
            i <= cur <= n,
            n == s@.len(),
            ws_end(s@, i as int) == ws_end(s@, cur as int),
        decreases n - cur,
    {
        assert(ws_end(s@, cur as int) == ws_end(s@, cur + 1));
        cur = cur + 1;
    }
    cur
}

/// Skip a run of decimal digits.
fn digits_skip(s: &[u8], i: usize) -> (r: usize)
    requires
        i <= s@.len(),
    ensures
        r == digits_end(s@, i as int),
        i <= r <= s@.len(),
{
    let n = s.len();
    let mut cur = i;
    while cur < n && 48 <= s[cur] && s[cur] <= 57
        invariant
            i <= cur <= n,
            n == s@.len(),
            digits_end(s@, i as int) == digits_end(s@, cur as int),
        decreases n - cur,
    {
        assert(digits_end(s@, cur as int) == digits_end(s@, cur + 1));
        cur = cur + 1;
    }
    cur
}

proof fn lemma_digits_end_bounds(s: Seq<u8>, i: int)
    requires
        0 <= i <= s.len(),
    ensures
        i <= digits_end(s, i) <= s.len(),
    decreases s.len() - i,
{
    if i < s.len() && is_digit(s[i]) {
        lemma_digits_end_bounds(s, i + 1);
    }
}

proof fn lemma_digits_end_low(s: Seq<u8>, i: int)
    requires
        0 <= i < s.len(),
        is_digit(s[i]),
    ensures
        digits_end(s, i) >= i + 1,
{
    assert(digits_end(s, i) == digits_end(s, i + 1));
    lemma_digits_end_bounds(s, i + 1);
}

/// Scan a number token.
fn num_skip(s: &[u8], i: usize) -> (r: Option<usize>)
    requires
        i <= s@.len(),
        fits_scan(s@),
    ensures
        match r {
            Some(j) => num_end(s@, i as int) == Some(j as int) && i < j <= s@.len(),
            None => num_end(s@, i as int) is None,
        },
{
    let n = s.len();
    let p: usize = if i < n && s[i] == 45 {
        i + 1
    } else {
        i
    };
    if !(p < n && 48 <= s[p] && s[p] <= 57) {
        return None;
    }
    let q: usize = if s[p] == 48 {
        p + 1
    } else {
        proof {
            lemma_digits_end_low(s@, p as int);
        }
        digits_skip(s, p)
    };
    assert(q >= p + 1);
    let r: usize = if q < n && s[q] == 46 {
        let f = digits_skip(s, q + 1);
        if f > q + 1 {
            f
        } else {
            return None;
        }
    } else {
        q
    };
    if r < n && (s[r] == 101 || s[r] == 69) {
        let t: usize = if r + 1 < n && (s[r + 1] == 43 || s[r + 1] == 45) {
            r + 2
        } else {
            r + 1
        };
        let g = digits_skip(s, t);
        if g > t {
            Some(g)
        } else {
            None
        }
    } else {
        Some(r)
    }
}

/// Scan a string literal's content (opening quote already consumed),
/// returning the position after the closing quote.
fn str_skip(s: &[u8], i: usize) -> (r: Option<usize>)
    requires
        i <= s@.len(),
        fits_scan(s@),
    ensures
        match r {
            Some(j) => str_end(s@, i as int) == Some(j as int) && i < j <= s@.len(),
            None => str_end(s@, i as int) is None,
        },
{
    let n = s.len();
    let mut cur = i;
    loop
        invariant
            i <= cur <= n,
            n == s@.len(),
            fits_scan(s@),
            str_end(s@, i as int) == str_end(s@, cur as int),
        ensures
            match str_end(s@, i as int) {
                Some(j) => i < j <= s@.len(),
                None => true,
            },
        decreases n - cur,
    {
        if cur >= n {
            assert(str_end(s@, cur as int) is None);
            return None;
        }
        let b = s[cur];
        if b == 34 {
            assert(str_end(s@, cur as int) == Some(cur + 1));
            return Some(cur + 1);
        }
        if b < 32 {
            assert(str_end(s@, cur as int) is None);
            return None;
        }
        if b == 92 {
            if cur + 1 >= n {
                assert(str_end(s@, cur as int) is None);
                return None;
            }
            let e = s[cur + 1];
            if e == 34 || e == 92 || e == 47 || e == 98 || e == 102 || e == 110 || e == 114 || e
                == 116 {
                assert(str_end(s@, cur as int) == str_end(s@, cur + 2));
                cur = cur + 2;
            } else if e == 117 {
                if cur + 6 <= n && is_hex_x(s[cur + 2]) && is_hex_x(s[cur + 3]) && is_hex_x(
                    s[cur + 4],
                ) && is_hex_x(s[cur + 5]) {
                    assert(str_end(s@, cur as int) == str_end(s@, cur + 6));
                    cur = cur + 6;
                } else {
                    assert(str_end(s@, cur as int) is None);
                    return None;
                }
            } else {
                assert(str_end(s@, cur as int) is None);
                return None;
            }
        } else {
            assert(str_end(s@, cur as int) == str_end(s@, cur + 1));
            cur = cur + 1;
        }
    }
}

fn is_hex_x(b: u8) -> (r: bool)
    ensures
        r == is_hex(b),
{
    (48 <= b && b <= 57) || (65 <= b && b <= 70) || (97 <= b && b <= 102)
}

fn hex_val_x(b: u8) -> (r: u32)
    requires
        is_hex(b),
    ensures
        r == hex_val(b),
{
    if 48 <= b && b <= 57 {
        (b - 48) as u32
    } else if 65 <= b && b <= 70 {
        (b - 55) as u32
    } else {
        (b - 87) as u32
    }
}

/// Push the UTF-8 encoding of a scalar value.
fn push_scalar(out: &mut Vec<u8>, c: u32)
    requires
        vstd::utf8::is_scalar(c),
    ensures
        final(out)@ == old(out)@ + encode_scalar(c),
{
    if c <= 0x7F {
        out.push((c & 0x7F) as u8);
        assert(final(out)@ =~= old(out)@ + encode_scalar(c));
    } else if c <= 0x7FF {
        out.push(0xC0u8 | ((c >> 6) & 0x1F) as u8);
        out.push(0x80u8 | (c & 0x3F) as u8);
        assert(final(out)@ =~= old(out)@ + encode_scalar(c));
    } else if c <= 0xFFFF {
        out.push(0xE0u8 | ((c >> 12) & 0x0F) as u8);
        out.push(0x80u8 | ((c >> 6) & 0x3F) as u8);
        out.push(0x80u8 | (c & 0x3F) as u8);
        assert(final(out)@ =~= old(out)@ + encode_scalar(c));
    } else {
        out.push(0xF0u8 | ((c >> 18) & 0x7) as u8);
        out.push(0x80u8 | ((c >> 12) & 0x3F) as u8);
        out.push(0x80u8 | ((c >> 6) & 0x3F) as u8);
        out.push(0x80u8 | (c & 0x3F) as u8);
        assert(final(out)@ =~= old(out)@ + encode_scalar(c));
    }
}

/// Decode the raw content `s[i..j)` of a string literal.
#[verifier::rlimit(100)]
fn unescape_span(s: &[u8], i: usize, j: usize) -> (r: Option<Vec<u8>>)
    requires
        i <= j <= s@.len(),
        fits_scan(s@),
    ensures
        match r {
            Some(v) => unescape(s@, i as int, j as int) == Some(v@),
            None => unescape(s@, i as int, j as int) is None,
        },
{
    let mut out: Vec<u8> = Vec::new();
    let mut cur = i;
    loop
        invariant
            i <= cur <= j <= s@.len(),
            fits_scan(s@),
            unescape(s@, i as int, j as int) == opt_prepend(
                out@,
                unescape(s@, cur as int, j as int),
            ),
        decreases j - cur,
    {
        if cur >= j {
            assert(unescape(s@, cur as int, j as int) == Some(Seq::<u8>::empty()));
            assert(out@ + Seq::<u8>::empty() =~= out@);
            return Some(out);
        }
        let b = s[cur];
        if b == 92 {
            if cur + 1 >= j {
                return None;
            }
            let e = s[cur + 1];
            let simple: Option<u8> = if e == 34 {
                Some(34)
            } else if e == 92 {
                Some(92)
            } else if e == 47 {
                Some(47)
            } else if e == 98 {
                Some(8)
            } else if e == 102 {
                Some(12)
            } else if e == 110 {
                Some(10)
            } else if e == 114 {
                Some(13)
            } else if e == 116 {
                Some(9)
            } else {
                None
            };
            match simple {
                Some(d) => {
                    proof {
                        assert(unescape(s@, cur as int, j as int) == opt_prepend(
                            seq![d],
                            unescape(s@, cur + 2, j as int),
                        ));
                        assert forall|rest: Seq<u8>|
                            out@ + (seq![d] + rest) =~= (out@.push(d)) + rest by {}
                    }
                    out.push(d);
                    cur = cur + 2;
                },
                None => {
                    if e != 117 {
                        return None;
                    }
                    if !(cur + 6 <= j && is_hex_x(s[cur + 2]) && is_hex_x(s[cur + 3]) && is_hex_x(
                        s[cur + 4],
                    ) && is_hex_x(s[cur + 5])) {
                        return None;
                    }
                    let c: u32 = hex_val_x(s[cur + 2]) * 0x1000 + hex_val_x(s[cur + 3]) * 0x100
                        + hex_val_x(s[cur + 4]) * 0x10 + hex_val_x(s[cur + 5]);
                    assert(c == hex4(s@, cur + 2));
                    if 0xD800 <= c && c <= 0xDBFF {
                        if !(cur + 12 <= j && s[cur + 6] == 92 && s[cur + 7] == 117 && is_hex_x(
                            s[cur + 8],
                        ) && is_hex_x(s[cur + 9]) && is_hex_x(s[cur + 10]) && is_hex_x(
                            s[cur + 11],
                        )) {
                            return None;
                        }
                        let c2: u32 = hex_val_x(s[cur + 8]) * 0x1000 + hex_val_x(s[cur + 9]) * 0x100
                            + hex_val_x(s[cur + 10]) * 0x10 + hex_val_x(s[cur + 11]);
                        assert(c2 == hex4(s@, cur + 8));
                        if !(0xDC00 <= c2 && c2 <= 0xDFFF) {
                            return None;
                        }
                        let scalar: u32 = 0x10000 + (c - 0xD800) * 0x400 + (c2 - 0xDC00);
                        proof {
                            assert(vstd::utf8::is_scalar(scalar));
                            assert(unescape(s@, cur as int, j as int) == opt_prepend(
                                encode_scalar(scalar),
                                unescape(s@, cur + 12, j as int),
                            ));
                        }
                        let ghost out_before = out@;
                        push_scalar(&mut out, scalar);
                        proof {
                            assert forall|rest: Seq<u8>|
                                out_before + (encode_scalar(scalar) + rest) =~= (out_before
                                    + encode_scalar(scalar)) + rest by {}
                        }
                        cur = cur + 12;
                    } else if 0xDC00 <= c && c <= 0xDFFF {
                        return None;
                    } else {
                        proof {
                            assert(vstd::utf8::is_scalar(c));
                            assert(unescape(s@, cur as int, j as int) == opt_prepend(
                                encode_scalar(c),
                                unescape(s@, cur + 6, j as int),
                            ));
                        }
                        let ghost out_before = out@;
                        push_scalar(&mut out, c);
                        proof {
                            assert forall|rest: Seq<u8>|
                                out_before + (encode_scalar(c) + rest) =~= (out_before
                                    + encode_scalar(c)) + rest by {}
                        }
                        cur = cur + 6;
                    }
                },
            }
        } else {
            proof {
                assert(unescape(s@, cur as int, j as int) == opt_prepend(
                    seq![s@[cur as int]],
                    unescape(s@, cur + 1, j as int),
                ));
                assert forall|rest: Seq<u8>|
                    out@ + (seq![s@[cur as int]] + rest) =~= (out@.push(s@[cur as int])) + rest by {}
            }
            out.push(b);
            cur = cur + 1;
        }
    }
}

/// Scan one JSON value starting at `i`.
fn skip_value(s: &[u8], i: usize, fuel: usize) -> (r: Option<usize>)
    requires
        i <= s@.len(),
        fits_scan(s@),
    ensures
        match r {
            Some(j) => value_end(s@, i as int, fuel as nat) == Some(j as int) && i < j <= s@.len(),
            None => value_end(s@, i as int, fuel as nat) is None,
        },
    decreases fuel,
{
    if fuel == 0 {
        return None;
    }
    let n = s.len();
    if i >= n {
        return None;
    }
    let b = s[i];
    if b == 34 {
        match str_skip(s, i + 1) {
            Some(j) => {
                match unescape_span(s, i + 1, j - 1) {
                    Some(_) => Some(j),
                    None => None,
                }
            },
            None => None,
        }
    } else if b == 123 {
        let m = ws_skip(s, i + 1);
        skip_obj_body(s, m, true, fuel - 1)
    } else if b == 91 {
        let m = ws_skip(s, i + 1);
        skip_arr_body(s, m, true, fuel - 1)
    } else if b == 116 {
        if i + 4 <= n && s[i + 1] == 114 && s[i + 2] == 117 && s[i + 3] == 101 {
            Some(i + 4)
        } else {
            None
        }
    } else if b == 102 {
        if i + 5 <= n && s[i + 1] == 97 && s[i + 2] == 108 && s[i + 3] == 115 && s[i + 4] == 101 {
            Some(i + 5)
        } else {
            None
        }
    } else if b == 110 {
        if i + 4 <= n && s[i + 1] == 117 && s[i + 2] == 108 && s[i + 3] == 108 {
            Some(i + 4)
        } else {
            None
        }
    } else if b == 45 || (48 <= b && b <= 57) {
        num_skip(s, i)
    } else {
        None
    }
}

/// Scan the members of an object from the token at `i`.
fn skip_obj_body(s: &[u8], i: usize, first: bool, fuel: usize) -> (r: Option<usize>)
    requires
        i <= s@.len(),
        fits_scan(s@),
    ensures
        match r {
            Some(j) => obj_end(s@, i as int, first, fuel as nat) == Some(j as int) && i < j
                <= s@.len(),
            None => obj_end(s@, i as int, first, fuel as nat) is None,
        },
    decreases fuel,
{
    if fuel == 0 {
        return None;
    }
    let n = s.len();
    if i >= n {
        return None;
    }
    if first && s[i] == 125 {
        return Some(i + 1);
    }
    if s[i] != 34 {
        return None;
    }
    let k_end = match str_skip(s, i + 1) {
        Some(k) => k,
        None => {
            return None;
        },
    };
    let c = ws_skip(s, k_end);
    if !(c < n && s[c] == 58) {
        return None;
    }
    let vs = ws_skip(s, c + 1);
    let ve = match skip_value(s, vs, fuel - 1) {
        Some(v) => v,
        None => {
            return None;
        },
    };
    let d = ws_skip(s, ve);
    if d < n && s[d] == 125 {
        Some(d + 1)
    } else if d < n && s[d] == 44 {
        let m = ws_skip(s, d + 1);
        skip_obj_body(s, m, false, fuel - 1)
    } else {
        None
    }
}

/// Scan the elements of an array from the token at `i`.
fn skip_arr_body(s: &[u8], i: usize, first: bool, fuel: usize) -> (r: Option<usize>)
    requires
        i <= s@.len(),
        fits_scan(s@),
    ensures
        match r {
            Some(j) => arr_end(s@, i as int, first, fuel as nat) == Some(j as int) && i < j
                <= s@.len(),
            None => arr_end(s@, i as int, first, fuel as nat) is None,
        },
    decreases fuel,
{
    if fuel == 0 {
        return None;
    }
    let n = s.len();
    if i >= n {
        return None;
    }
    if first && s[i] == 93 {
        return Some(i + 1);
    }
    let ve = match skip_value(s, i, fuel - 1) {
        Some(v) => v,
        None => {
            return None;
        },
    };
    let d = ws_skip(s, ve);
    if d < n && s[d] == 93 {
        Some(d + 1)
    } else if d < n && s[d] == 44 {
        let m = ws_skip(s, d + 1);
        skip_arr_body(s, m, false, fuel - 1)
    } else {
        None
    }
}

/// Walk an object's members looking for `key`; the returned position is
/// where the found member's value starts.
fn find_member_at(s: &[u8], i: usize, key: &[u8], fuel: usize) -> (r: Option<usize>)
    requires
        i <= s@.len(),
        fits_scan(s@),
    ensures
        match r {
            Some(j) => find_member(s@, i as int, key@, fuel as nat) == Some(j as int) && j
                <= s@.len(),
            None => find_member(s@, i as int, key@, fuel as nat) is None,
        },
    decreases fuel,
{
    if fuel == 0 {
        return None;
    }
    let n = s.len();
    if i >= n {
        return None;
    }
    if s[i] != 34 {
        return None;
    }
    let k_end = match str_skip(s, i + 1) {
        Some(k) => k,
        None => {
            return None;
        },
    };
    let c = ws_skip(s, k_end);
    if !(c < n && s[c] == 58) {
        return None;
    }
    let vs = ws_skip(s, c + 1);
    let key_matches = match unescape_span(s, i + 1, k_end - 1) {
        Some(decoded) => crate::text::bytes_eq(decoded.as_slice(), key),
        None => false,
    };
    if key_matches {
        return Some(vs);
    }
    let ve = match skip_value(s, vs, fuel - 1) {
        Some(v) => v,
        None => {
            return None;
        },
    };
    let d = ws_skip(s, ve);
    if d < n && s[d] == 44 {
        let m = ws_skip(s, d + 1);
        find_member_at(s, m, key, fuel - 1)
    } else {
        None
    }
}

/// Whether the input is exactly one well-formed JSON value.
pub fn body_valid(s: &[u8]) -> (r: bool)
    requires
        fits_scan(s@),
    ensures
        r == spec_body_valid(s@),
{
    let i = ws_skip(s, 0);
    match skip_value(s, i, s.len() + 2) {
        Some(e) => {
            let t = ws_skip(s, e);
            t == s.len()
        },
        None => false,
    }
}

/// The decoded string value of the top-level member named `key`, when
/// the input is one well-formed object holding such a member with a
/// string value; `None` otherwise.
pub fn string_member(s: &[u8], key: &[u8]) -> (r: Option<Vec<u8>>)
    requires
        fits_scan(s@),
    ensures
        match r {
            Some(v) => spec_string_member(s@, key@) == Some(v@),
            None => spec_string_member(s@, key@) is None,
        },
{
    if !body_valid(s) {
        return None;
    }
    let i = ws_skip(s, 0);
    if !(i < s.len() && s[i] == 123) {
        return None;
    }
    let m = ws_skip(s, i + 1);
    let vs = match find_member_at(s, m, key, s.len() + 2) {
        Some(v) => v,
        None => {
            return None;
        },
    };
    if !(vs < s.len() && s[vs] == 34) {
        return None;
    }
    let j = match str_skip(s, vs + 1) {
        Some(j) => j,
        None => {
            return None;
        },
    };
    match unescape_span(s, vs + 1, j - 1) {
        Some(v) => {
            assert(str_decodes(s@, vs + 1));
            assert(decoded_str(s@, vs + 1) == v@);
            Some(v)
        },
        None => None,
    }
}

/// The member key `models` of the tag listing.
pub open spec fn key_models() -> Seq<u8> {
    seq![109u8, 111u8, 100u8, 101u8, 108u8, 115u8]
}

/// The member key `name` of one tag entry.
pub open spec fn key_name() -> Seq<u8> {
    seq![110u8, 97u8, 109u8, 101u8]
}

/// The member key `response` of a generation reply.
pub open spec fn key_response() -> Seq<u8> {
    seq![114u8, 101u8, 115u8, 112u8, 111u8, 110u8, 115u8, 101u8]
}

/// The array element at `i` is an object whose `name` member is the
/// string `name`.
pub open spec fn element_matches(s: Seq<u8>, i: int, name: Seq<u8>, fuel: nat) -> bool {
    if i < s.len() && s[i] == 123 {
        match find_member(s, ws_end(s, i + 1), key_name(), fuel) {
            Some(vs) => vs < s.len() && s[vs] == 34 && str_decodes(s, vs + 1) && decoded_str(
                s,
                vs + 1,
            ) == name,
            None => false,
        }
    } else {
        false
    }
}

/// Walk array elements from `i`; whether some element is an object
/// whose `name` member equals `name`.  `None` when the walk runs into
/// malformed input, which cannot happen inside a validated body.
pub open spec fn any_model_named(s: Seq<u8>, i: int, first: bool, name: Seq<u8>, fuel: nat) -> Option<
    bool,
>
    decreases fuel,
{
    if fuel == 0 {
        None
    } else if i >= s.len() {
        None
    } else if first && s[i] == 93 {
        Some(false)
    } else {
        match value_end(s, i, (fuel - 1) as nat) {
            Some(ve) => {
                if element_matches(s, i, name, (fuel - 1) as nat) {
                    Some(true)
                } else {
                    let d = ws_end(s, ve);
                    if d < s.len() && s[d] == 93 {
                        Some(false)
                    } else if d < s.len() && s[d] == 44 {
                        any_model_named(s, ws_end(s, d + 1), false, name, (fuel - 1) as nat)
                    } else {
                        None
                    }
                }
            },
            None => None,
        }
    }
}

/// What the tag listing says about a model: `None` when the body is not
/// well-formed JSON; otherwise whether a `models` entry carries the
/// name.  A missing or non-array `models` member counts as not listed.
pub open spec fn spec_tags_lists_model(s: Seq<u8>, name: Seq<u8>) -> Option<bool> {
    if spec_body_valid(s) {
        let i = ws_end(s, 0);
        if s[i] == 123 {
            match find_member(s, ws_end(s, i + 1), key_models(), json_fuel(s)) {
                Some(vs) => {
                    if vs < s.len() && s[vs] == 91 {
                        match any_model_named(s, ws_end(s, vs + 1), true, name, json_fuel(s)) {
                            Some(b) => Some(b),
                            None => Some(false),
                        }
                    } else {
                        Some(false)
                    }
                },
                None => Some(false),
            }
        } else {
            Some(false)
        }
    } else {
        None
    }
}

fn key_models_vec() -> (r: Vec<u8>)
    ensures
        r@ == key_models(),
{
    let mut v: Vec<u8> = Vec::new();
    v.push(109);
    v.push(111);
    v.push(100);
    v.push(101);
    v.push(108);
    v.push(115);
    assert(v@ =~= key_models());
    v
}

fn key_name_vec() -> (r: Vec<u8>)
    ensures
        r@ == key_name(),
{
    let mut v: Vec<u8> = Vec::new();
    v.push(110);
    v.push(97);
    v.push(109);
    v.push(101);
    assert(v@ =~= key_name());
    v
}

fn key_response_vec() -> (r: Vec<u8>)
    ensures
        r@ == key_response(),
{
    let mut v: Vec<u8> = Vec::new();
    v.push(114);
    v.push(101);
    v.push(115);
    v.push(112);
    v.push(111);
    v.push(110);
    v.push(115);
    v.push(101);
    assert(v@ =~= key_response());
    v
}

fn element_matches_x(s: &[u8], i: usize, name: &[u8], fuel: usize) -> (r: bool)
    requires
        i <= s@.len(),
        fits_scan(s@),
    ensures
        r == element_matches(s@, i as int, name@, fuel as nat),
{
    if !(i < s.len() && s[i] == 123) {
        return false;
    }
    let m = ws_skip(s, i + 1);
    let key = key_name_vec();
    let vs = match find_member_at(s, m, key.as_slice(), fuel) {
        Some(v) => v,
        None => {
            return false;
        },
    };
    if !(vs < s.len() && s[vs] == 34) {
        return false;
    }
    let j = match str_skip(s, vs + 1) {
        Some(j) => j,
        None => {
            return false;
        },
    };
    match unescape_span(s, vs + 1, j - 1) {
        Some(v) => crate::text::bytes_eq(v.as_slice(), name),
        None => false,
    }
}

fn any_model_named_x(s: &[u8], i: usize, first: bool, name: &[u8], fuel: usize) -> (r: Option<
    bool,
>)
    requires
        i <= s@.len(),
        fits_scan(s@),
    ensures
        r == any_model_named(s@, i as int, first, name@, fuel as nat),
    decreases fuel,
{
    if fuel == 0 {
        return None;
    }
    let n = s.len();
    if i >= n {
        return None;
    }
    if first && s[i] == 93 {
        return Some(false);
    }
    let ve = match skip_value(s, i, fuel - 1) {
        Some(v) => v,
        None => {
            return None;
        },
    };
    if element_matches_x(s, i, name, fuel - 1) {
        return Some(true);
    }
    let d = ws_skip(s, ve);
    if d < n && s[d] == 93 {
        Some(false)
    } else if d < n && s[d] == 44 {
        let m = ws_skip(s, d + 1);
        any_model_named_x(s, m, false, name, fuel - 1)
    } else {
        None
    }
}

/// Read the tag listing: `None` when the body is malformed, otherwise
/// whether a model of the given name is listed.
pub fn tags_lists_model(s: &[u8], name: &[u8]) -> (r: Option<bool>)
    requires
        fits_scan(s@),
    ensures
        r == spec_tags_lists_model(s@, name@),
{
    if !body_valid(s) {
        return None;
    }
    let i = ws_skip(s, 0);
    if !(i < s.len() && s[i] == 123) {
        return Some(false);
    }
    let m = ws_skip(s, i + 1);
    let key = key_models_vec();
    let vs = match find_member_at(s, m, key.as_slice(), s.len() + 2) {
        Some(v) => v,
        None => {
            return Some(false);
        },
    };
    if !(vs < s.len() && s[vs] == 91) {
        return Some(false);
    }
    let e = ws_skip(s, vs + 1);
    match any_model_named_x(s, e, true, name, s.len() + 2) {
        Some(b) => Some(b),
        None => Some(false),
    }
}

/// The `name` string of the array element at `i`, when the element is
/// an object that carries one.
pub open spec fn element_name(s: Seq<u8>, i: int, fuel: nat) -> Option<Seq<u8>> {
    if i < s.len() && s[i] == 123 {
        match find_member(s, ws_end(s, i + 1), key_name(), fuel) {
            Some(vs) => {
                if vs < s.len() && s[vs] == 34 && str_decodes(s, vs + 1) {
                    Some(decoded_str(s, vs + 1))
                } else {
                    None
                }
            },
            None => None,
        }
    } else {
        None
    }
}

/// Walk array elements from `i`, gathering the `name` member of each
/// element that has one.  `None` when the walk runs into malformed
/// input, which cannot happen inside a validated body.
pub open spec fn names_from(s: Seq<u8>, i: int, first: bool, fuel: nat) -> Option<Seq<Seq<u8>>>
    decreases fuel,
{
    if fuel == 0 {
        None
    } else if i >= s.len() {
        None
    } else if first && s[i] == 93 {
        Some(seq![])
    } else {
        match value_end(s, i, (fuel - 1) as nat) {
            Some(ve) => {
                let here = match element_name(s, i, (fuel - 1) as nat) {
                    Some(t) => seq![t],
                    None => seq![],
                };
                let d = ws_end(s, ve);
                if d < s.len() && s[d] == 93 {
                    Some(here)
                } else if d < s.len() && s[d] == 44 {
                    match names_from(s, ws_end(s, d + 1), false, (fuel - 1) as nat) {
                        Some(rest) => Some(here + rest),
                        None => None,
                    }
                } else {
                    None
                }
            },
            None => None,
        }
    }
}

/// The model names in the tag listing: `None` when the body is not
/// well-formed JSON, the (possibly empty) list of `name` members of
/// the `models` array otherwise.
pub open spec fn spec_tag_names(s: Seq<u8>) -> Option<Seq<Seq<u8>>> {
    if spec_body_valid(s) {
        let i = ws_end(s, 0);
        if s[i] == 123 {
            match find_member(s, ws_end(s, i + 1), key_models(), json_fuel(s)) {
                Some(vs) => {
                    if vs < s.len() && s[vs] == 91 {
                        match names_from(s, ws_end(s, vs + 1), true, json_fuel(s)) {
                            Some(names) => Some(names),
                            None => Some(seq![]),
                        }
                    } else {
                        Some(seq![])
                    }
                },
                None => Some(seq![]),
            }
        } else {
            Some(seq![])
        }
    } else {
        None
    }
}

fn element_name_x(s: &[u8], i: usize, fuel: usize) -> (r: Option<Vec<u8>>)
    requires
        i <= s@.len(),
        fits_scan(s@),
    ensures
        match r {
            Some(t) => element_name(s@, i as int, fuel as nat) == Some(t@),
            None => element_name(s@, i as int, fuel as nat) is None,
        },
{
    if !(i < s.len() && s[i] == 123) {
        return None;
    }
    let m = ws_skip(s, i + 1);
    let key = key_name_vec();
    let vs = match find_member_at(s, m, key.as_slice(), fuel) {
        Some(v) => v,
        None => {
            return None;
        },
    };
    if !(vs < s.len() && s[vs] == 34) {
        return None;
    }
    let j = match str_skip(s, vs + 1) {
        Some(j) => j,
        None => {
            return None;
        },
    };
    unescape_span(s, vs + 1, j - 1)
}

fn names_from_x(s: &[u8], i: usize, first: bool, fuel: usize) -> (r: Option<Vec<Vec<u8>>>)
    requires
        i <= s@.len(),
        fits_scan(s@),
    ensures
        match r {
            Some(v) => names_from(s@, i as int, first, fuel as nat) == Some(
                v@.map_values(|x: Vec<u8>| x@),
            ),
            None => names_from(s@, i as int, first, fuel as nat) is None,
        },
    decreases fuel,
{
    if fuel == 0 {
        return None;
    }
    let n = s.len();
    if i >= n {
        return None;
    }
    if first && s[i] == 93 {
        let out: Vec<Vec<u8>> = Vec::new();
        proof {
            assert(out@.map_values(|x: Vec<u8>| x@) =~= Seq::<Seq<u8>>::empty());
        }
        return Some(out);
    }
    let ve = match skip_value(s, i, fuel - 1) {
        Some(v) => v,
        None => {
            return None;
        },
    };
    let here = element_name_x(s, i, fuel - 1);
    let d = ws_skip(s, ve);
    if d < n && s[d] == 93 {
        let mut out: Vec<Vec<u8>> = Vec::new();
        match here {
            Some(t) => {
                out.push(t);
                proof {
                    assert(out@.map_values(|x: Vec<u8>| x@) =~= names_from(
                        s@,
                        i as int,
                        first,
                        fuel as nat,
                    )->Some_0);
                }
            },
            None => {
                proof {
                    assert(out@.map_values(|x: Vec<u8>| x@) =~= names_from(
                        s@,
                        i as int,
                        first,
                        fuel as nat,
                    )->Some_0);
                }
            },
        }
        Some(out)
    } else if d < n && s[d] == 44 {
        let m = ws_skip(s, d + 1);
        let rest = match names_from_x(s, m, false, fuel - 1) {
            Some(v) => v,
            None => {
                return None;
            },
        };
        let mut out: Vec<Vec<u8>> = Vec::new();
        let ghost here_seq: Seq<Seq<u8>> = match &here {
            Some(t) => seq![t@],
            None => seq![],
        };
        match here {
            Some(t) => {
                out.push(t);
            },
            None => {},
        }
        let mut k: usize = 0;
        let ghost rest_view = rest@.map_values(|x: Vec<u8>| x@);
        while k < rest.len()
            invariant
                0 <= k <= rest@.len(),
                rest_view == rest@.map_values(|x: Vec<u8>| x@),
                out@.map_values(|x: Vec<u8>| x@) =~= here_seq + rest_view.subrange(0, k as int),
            decreases rest@.len() - k,
        {
            let item = rest[k].clone();
            proof {
                assert(item@ =~= rest@[k as int]@);
            }
            let ghost prev = out@;
            out.push(item);
            proof {
                assert(out@.map_values(|x: Vec<u8>| x@) =~= prev.map_values(
                    |x: Vec<u8>| x@,
                ).push(rest_view[k as int]));
                assert(rest_view.subrange(0, k + 1) =~= rest_view.subrange(0, k as int).push(
                    rest_view[k as int],
                ));
                assert((here_seq + rest_view.subrange(0, k as int)).push(rest_view[k as int])
                    =~= here_seq + rest_view.subrange(0, k + 1));
            }
            k = k + 1;
        }
        proof {
            assert(rest_view.subrange(0, rest_view.len() as int) =~= rest_view);
            assert(out@.map_values(|x: Vec<u8>| x@) =~= here_seq + rest_view);
        }
        Some(out)
    } else {
        None
    }
}

/// Read the model names out of the tag listing: `None` when the body is
/// malformed, the listed names otherwise.
pub fn tag_names(s: &[u8]) -> (r: Option<Vec<Vec<u8>>>)
    requires
        fits_scan(s@),
    ensures
        match r {
            Some(v) => spec_tag_names(s@) == Some(v@.map_values(|x: Vec<u8>| x@)),
            None => spec_tag_names(s@) is None,
        },
{
    if !body_valid(s) {
        return None;
    }
    let i = ws_skip(s, 0);
    if !(i < s.len() && s[i] == 123) {
        let out: Vec<Vec<u8>> = Vec::new();
        proof {
            assert(out@.map_values(|x: Vec<u8>| x@) =~= Seq::<Seq<u8>>::empty());
        }
        return Some(out);
    }
    let m = ws_skip(s, i + 1);
    let key = key_models_vec();
    let vs = match find_member_at(s, m, key.as_slice(), s.len() + 2) {
        Some(v) => v,
        None => {
            let out: Vec<Vec<u8>> = Vec::new();
            proof {
                assert(out@.map_values(|x: Vec<u8>| x@) =~= Seq::<Seq<u8>>::empty());
            }
            return Some(out);
        },
    };
    if !(vs < s.len() && s[vs] == 91) {
        let out: Vec<Vec<u8>> = Vec::new();
        proof {
            assert(out@.map_values(|x: Vec<u8>| x@) =~= Seq::<Seq<u8>>::empty());
        }
        return Some(out);
    }
    let e = ws_skip(s, vs + 1);
    match names_from_x(s, e, true, s.len() + 2) {
        Some(v) => Some(v),
        None => {
            let out: Vec<Vec<u8>> = Vec::new();
            proof {
                assert(out@.map_values(|x: Vec<u8>| x@) =~= Seq::<Seq<u8>>::empty());
            }
            Some(out)
        },
    }
}

/// The escape of one byte inside a JSON string literal: quote and
/// backslash get a backslash escape, the named control characters their
/// short form, other control bytes a `\u00XX` escape (lower-case hex),
/// and everything else passes through.
pub open spec fn escape_byte(b: u8) -> Seq<u8> {
    if b == 34 {
        seq![92u8, 34u8]
    } else if b == 92 {
        seq![92u8, 92u8]
    } else if b == 8 {
        seq![92u8, 98u8]
    } else if b == 12 {
        seq![92u8, 102u8]
    } else if b == 10 {
        seq![92u8, 110u8]
    } else if b == 13 {
        seq![92u8, 114u8]
    } else if b == 9 {
        seq![92u8, 116u8]
    } else if b < 32 {
        seq![92u8, 117u8, 48u8, 48u8, hex_digit((b / 16) as u8), hex_digit((b % 16) as u8)]
    } else {
        seq![b]
    }
}

pub open spec fn hex_digit(v: u8) -> u8 {
    if v < 10 {
        (48 + v) as u8
    } else {
        (87 + v) as u8
    }
}

/// The escaped form of a byte string from position `i` on.
pub open spec fn escape_from(s: Seq<u8>, i: int) -> Seq<u8>
    decreases s.len() - i,
{
    if i < 0 || i >= s.len() {
        seq![]
    } else {
        escape_byte(s[i]) + escape_from(s, i + 1)
    }
}

/// The escaped form of a whole byte string.
pub open spec fn spec_escape(s: Seq<u8>) -> Seq<u8> {
    escape_from(s, 0)
}

/// Escape a byte string for inclusion in a JSON string literal.
pub fn escape_bytes(s: &[u8]) -> (r: Vec<u8>)
    ensures
        r@ == spec_escape(s@),
{
    let n = s.len();
    let mut out: Vec<u8> = Vec::new();
    let mut i: usize = 0;
    while i < n
        invariant
            0 <= i <= n,
            n == s@.len(),
            spec_escape(s@) == out@ + escape_from(s@, i as int),
        decreases n - i,
    {
        let b = s[i];
        let ghost out_before = out@;
        if b == 34 {
            out.push(92);
            out.push(34);
        } else if b == 92 {
            out.push(92);
            out.push(92);
        } else if b == 8 {
            out.push(92);
            out.push(98);
        } else if b == 12 {
            out.push(92);
            out.push(102);
        } else if b == 10 {
            out.push(92);
            out.push(110);
        } else if b == 13 {
            out.push(92);
            out.push(114);
        } else if b == 9 {
            out.push(92);
            out.push(116);
        } else if b < 32 {
            out.push(92);
            out.push(117);
            out.push(48);
            out.push(48);
            let hi = b / 16;
            let lo = b % 16;
            out.push(if hi < 10 {
                48 + hi
            } else {
                87 + hi
            });
            out.push(if lo < 10 {
                48 + lo
            } else {
                87 + lo
            });
        } else {
            out.push(b);
        }
        proof {
            assert(out@ =~= out_before + escape_byte(s@[i as int]));
            assert(escape_from(s@, i as int) == escape_byte(s@[i as int]) + escape_from(
                s@,
                i + 1,
            ));
            assert(out_before + (escape_byte(s@[i as int]) + escape_from(s@, i + 1)) =~= (
            out_before + escape_byte(s@[i as int])) + escape_from(s@, i + 1));
        }
        i = i + 1;
    }
    assert(escape_from(s@, n as int) =~= Seq::<u8>::empty());
    assert(out@ + Seq::<u8>::empty() =~= out@);
    out
}

proof fn lemma_escape_from_unfold(x: Seq<u8>, k: int)
    requires
        0 <= k < x.len(),
    ensures
        escape_from(x, k) == escape_byte(x[k]) + escape_from(x, k + 1),
        escape_from(x, k).len() == escape_byte(x[k]).len() + escape_from(x, k + 1).len(),
{
}

proof fn lemma_hexdig_val(v: u8)
    requires
        v < 16,
    ensures
        is_hex(hex_digit(v)),
        hex_val(hex_digit(v)) == v,
{
}

/// Scanning a string literal whose content from `i` is the escape of a
/// suffix of `x` followed by a closing quote ends just after that
/// quote.
#[verifier::rlimit(100)]
proof fn lemma_scan_escaped(s: Seq<u8>, i: int, x: Seq<u8>, k: int)
    requires
        0 <= i,
        0 <= k <= x.len(),
        i + escape_from(x, k).len() < s.len(),
        s.subrange(i, i + escape_from(x, k).len()) == escape_from(x, k),
        s[i + escape_from(x, k).len()] == 34,
    ensures
        str_end(s, i) == Some(i + escape_from(x, k).len() + 1),
    decreases x.len() - k,
{
    let tail = escape_from(x, k);
    if k == x.len() {
        assert(tail =~= Seq::<u8>::empty());
    } else {
        let b = x[k];
        let eb = escape_byte(b);
        let rest = escape_from(x, k + 1);
        lemma_escape_from_unfold(x, k);
        assert forall|m: int| 0 <= m < eb.len() implies s[i + m] == eb[m] by {
            assert(s.subrange(i, i + tail.len())[m] == s[i + m]);
            assert(tail[m] == eb[m]);
        }
        let i2 = i + eb.len();
        assert(s.subrange(i2, i2 + rest.len()) =~= rest) by {
            assert forall|m: int| 0 <= m < rest.len() implies s.subrange(
                i2,
                i2 + rest.len(),
            )[m] == rest[m] by {
                assert(s.subrange(i, i + tail.len())[eb.len() + m] == s[i2 + m]);
                assert(tail[eb.len() + m] == rest[m]);
            }
        }
        lemma_scan_escaped(s, i2, x, k + 1);
        if b == 34 || b == 92 || b == 8 || b == 12 || b == 10 || b == 13 || b == 9 {
            assert(s[i] == 92);
            assert(str_end(s, i) == str_end(s, i + 2));
        } else if b < 32 {
            assert(s[i] == 92 && s[i + 1] == 117);
            lemma_hexdig_val((b / 16) as u8);
            lemma_hexdig_val((b % 16) as u8);
            assert(is_hex(s[i + 2]) && is_hex(s[i + 3]) && is_hex(s[i + 4]) && is_hex(s[i + 5]));
            assert(str_end(s, i) == str_end(s, i + 6));
        } else {
            assert(s[i] == b) by {
                assert(tail[0] == b);
                assert(s.subrange(i, i + tail.len())[0] == tail[0]);
            }
            assert(str_end(s, i) == str_end(s, i + 1));
        }
    }
}

/// Decoding the escape of a suffix of `x` yields that suffix back.
#[verifier::rlimit(100)]
proof fn lemma_unescape_escaped(s: Seq<u8>, i: int, x: Seq<u8>, k: int)
    requires
        0 <= i,
        0 <= k <= x.len(),
        i + escape_from(x, k).len() <= s.len(),
        s.subrange(i, i + escape_from(x, k).len()) == escape_from(x, k),
    ensures
        unescape(s, i, i + escape_from(x, k).len()) == Some(x.subrange(k, x.len() as int)),
    decreases x.len() - k,
{
    let tail = escape_from(x, k);
    let j = i + tail.len();
    if k == x.len() {
        assert(tail =~= Seq::<u8>::empty());
        assert(x.subrange(k, x.len() as int) =~= Seq::<u8>::empty());
    } else {
        let b = x[k];
        let eb = escape_byte(b);
        let rest = escape_from(x, k + 1);
        lemma_escape_from_unfold(x, k);
        assert forall|m: int| 0 <= m < eb.len() implies s[i + m] == eb[m] by {
            assert(s.subrange(i, i + tail.len())[m] == s[i + m]);
            assert(tail[m] == eb[m]);
        }
        let i2 = i + eb.len();
        assert(s.subrange(i2, i2 + rest.len()) =~= rest) by {
            assert forall|m: int| 0 <= m < rest.len() implies s.subrange(
                i2,
                i2 + rest.len(),
            )[m] == rest[m] by {
                assert(s.subrange(i, i + tail.len())[eb.len() + m] == s[i2 + m]);
                assert(tail[eb.len() + m] == rest[m]);
            }
        }
        lemma_unescape_escaped(s, i2, x, k + 1);
        let suffix = x.subrange(k + 1, x.len() as int);
        assert(seq![b] + suffix =~= x.subrange(k, x.len() as int));
        if b == 34 || b == 92 || b == 8 || b == 12 || b == 10 || b == 13 || b == 9 {
            assert(s[i] == 92);
            assert(unescape(s, i, j) == opt_prepend(seq![b], unescape(s, i2, j)));
        } else if b < 32 {
            assert(s[i] == 92 && s[i + 1] == 117);
            lemma_hexdig_val((b / 16) as u8);
            lemma_hexdig_val((b % 16) as u8);
            let c = hex4(s, i + 2);
            assert(hex_val(48u8) == 0);
            assert(c == 16 * (b / 16) + (b % 16));
            assert(c == b);
            assert(!(0xD800 <= c <= 0xDFFF));
            assert(encode_scalar(b as u32) =~= seq![b]) by {
                assert((b as u32) & 0x7F == b as u32) by (bit_vector)
                    requires
                        b < 32,
                ;
            }
            assert(unescape(s, i, j) == opt_prepend(
                encode_scalar(c as u32),
                unescape(s, i + 6, j),
            ));
        } else {
            assert(s[i] == b) by {
                assert(tail[0] == b);
                assert(s.subrange(i, i + tail.len())[0] == tail[0]);
            }
            assert(unescape(s, i, j) == opt_prepend(seq![b], unescape(s, i + 1, j)));
        }
    }
}

/// The string codec round trip: the escape of any byte text decodes
/// back to exactly that text.  Together with the scan law below, a
/// string literal framed from any text is read back unchanged, so a
/// reply whose `response` member was serialized from some text hands
/// that text over exactly.
pub proof fn lemma_escape_round_trip(x: Seq<u8>)
    ensures
        unescape(spec_escape(x), 0, spec_escape(x).len() as int) == Some(x),
{
    let s = spec_escape(x);
    assert(s.subrange(0, s.len() as int) =~= s);
    lemma_unescape_escaped(s, 0, x, 0);
    assert(x.subrange(0, x.len() as int) =~= x);
}

/// The scan law: a string literal whose content is the escape of any
/// byte text ends exactly at the closing quote that follows it, no
/// matter what comes after.
pub proof fn lemma_escape_scans_to_quote(x: Seq<u8>, rest: Seq<u8>)
    ensures
        str_end(spec_escape(x) + seq![34u8] + rest, 0) == Some(spec_escape(x).len() + 1 as int),
{
    let s = spec_escape(x) + seq![34u8] + rest;
    assert(s.subrange(0, spec_escape(x).len() as int) =~= spec_escape(x));
    assert(s[spec_escape(x).len() as int] == 34);
    lemma_scan_escaped(s, 0, x, 0);
}

/// A reply whose only member is `response` serialized from the text
/// `x`: `{"response":"` then the escape of `x` then `"}`.
pub open spec fn response_body_of(x: Seq<u8>) -> Seq<u8> {
    seq![
        123u8,
        34u8,
        114u8,
        101u8,
        115u8,
        112u8,
        111u8,
        110u8,
        115u8,
        101u8,
        34u8,
        58u8,
        34u8,
    ] + spec_escape(x) + seq![34u8, 125u8]
}

/// The reply round trip: a reply whose `response` member was
/// serialized from any byte text reads back as exactly that text.
/// With the dispatcher publishing a successful analysis verbatim, the
/// published result for a reply built from `x` is exactly `x`.
#[verifier::rlimit(100)]
pub proof fn lemma_response_round_trip(x: Seq<u8>)
    ensures
        spec_string_member(response_body_of(x), key_response()) == Some(x),
{
    let body = response_body_of(x);
    let esc = spec_escape(x);
    let e = esc.len() as int;
    assert(body.len() == 15 + e);
    assert forall|i: int| 0 <= i < 13 implies #[trigger] body[i] == seq![
        123u8,
        34u8,
        114u8,
        101u8,
        115u8,
        112u8,
        111u8,
        110u8,
        115u8,
        101u8,
        34u8,
        58u8,
        34u8,
    ][i] by {}
    assert(body.subrange(13, 13 + e) =~= esc);
    assert(body[13 + e] == 34);
    assert(body[14 + e] == 125);
    let fuel = json_fuel(body);
    assert(fuel == 17 + e);

    // The object's key scans to its closing quote and decodes to the
    // member name.
    assert(str_end(body, 10) == Some(11int));
    assert(str_end(body, 9) == Some(11int));
    assert(str_end(body, 8) == Some(11int));
    assert(str_end(body, 7) == Some(11int));
    assert(str_end(body, 6) == Some(11int));
    assert(str_end(body, 5) == Some(11int));
    assert(str_end(body, 4) == Some(11int));
    assert(str_end(body, 3) == Some(11int));
    assert(str_end(body, 2) == Some(11int));
    assert(unescape(body, 10, 10) == Some(Seq::<u8>::empty()));
    assert(unescape(body, 9, 10) == opt_prepend(seq![body[9]], unescape(body, 10, 10)));
    assert(unescape(body, 8, 10) == opt_prepend(seq![body[8]], unescape(body, 9, 10)));
    assert(unescape(body, 7, 10) == opt_prepend(seq![body[7]], unescape(body, 8, 10)));
    assert(unescape(body, 6, 10) == opt_prepend(seq![body[6]], unescape(body, 7, 10)));
    assert(unescape(body, 5, 10) == opt_prepend(seq![body[5]], unescape(body, 6, 10)));
    assert(unescape(body, 4, 10) == opt_prepend(seq![body[4]], unescape(body, 5, 10)));
    assert(unescape(body, 3, 10) == opt_prepend(seq![body[3]], unescape(body, 4, 10)));
    assert(unescape(body, 2, 10) == opt_prepend(seq![body[2]], unescape(body, 3, 10)));
    assert(unescape(body, 2, 10) matches Some(k) && k =~= key_response());

    // The member's value scans to the quote after the escaped text and
    // decodes back to the text.
    lemma_scan_escaped(body, 13, x, 0);
    assert(body.subrange(13, 13 + escape_from(x, 0).len() as int) == escape_from(x, 0));
    assert(str_end(body, 13) == Some(14 + e));
    lemma_unescape_escaped(body, 13, x, 0);
    assert(x.subrange(0, x.len() as int) =~= x);
    assert(unescape(body, 13, 13 + e) == Some(x));
    assert(str_decodes(body, 13));
    assert(decoded_str(body, 13) == x);

    // The whole body is one well-formed object.
    assert(ws_end(body, 0) == 0);
    assert(ws_end(body, 1) == 1);
    assert(ws_end(body, 11) == 11);
    assert(ws_end(body, 12) == 12);
    assert(ws_end(body, 14 + e) == 14 + e);
    assert(ws_end(body, 15 + e) == 15 + e);
    let f1 = (fuel - 1) as nat;
    assert(value_end(body, 12, (f1 - 1) as nat) == Some(14 + e));
    assert(obj_end(body, 1, true, f1) == Some(15 + e));
    assert(value_end(body, 0, fuel) == Some(15 + e));
    assert(spec_body_valid(body));

    // The walk for the member finds it at once.
    assert(find_member(body, 1, key_response(), fuel) == Some(12int));
    assert(spec_string_member(body, key_response()) == Some(x));
}

/// The decoded string value of the top-level `response` member of a
/// generation reply.
pub fn extract_response(s: &[u8]) -> (r: Option<Vec<u8>>)
    requires
        fits_scan(s@),
    ensures
        match r {
            Some(v) => spec_string_member(s@, key_response()) == Some(v@),
            None => spec_string_member(s@, key_response()) is None,
        },
{
    let key = key_response_vec();
    string_member(s, key.as_slice())
}

} // verus!
