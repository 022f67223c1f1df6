//! Parsing of window-enumeration output.
//!
//! The window lister prints one window per line with its title in
//! double quotes; the bounds query prints labelled coordinate lines.
//! Running the lister is an OS matter and happens outside the library;
//! its output comes in as bytes and is dissected here.

use vstd::prelude::*;
use vstd::string::*;

use crate::capture::WindowBounds;
use crate::cli::{all_digits, dec_value};
use crate::text::{contains_sub, spec_contains, spec_trim_spaces, trim_spaces};

verus! {

/// Position of the first newline at or after `i`, or the length.
pub open spec fn nl_from(s: Seq<u8>, i: int) -> int
    decreases s.len() - i,
{
    if i < s.len() {
        if s[i] == 10 {
            i
        } else {
            nl_from(s, i + 1)
        }
    } else {
        i
    }
}

/// A line with its carriage return stripped, as `str::lines` yields it.
pub open spec fn strip_cr(l: Seq<u8>) -> Seq<u8> {
    if l.len() > 0 && l.last() == 13 {
        l.drop_last()
    } else {
        l
    }
}

proof fn lemma_nl_from_bounds(s: Seq<u8>, i: int)
    requires
        i <= s.len(),
    ensures
        i <= nl_from(s, i) <= s.len(),
    decreases s.len() - i,
{
    if i < s.len() && s[i] != 10 {
        lemma_nl_from_bounds(s, i + 1);
    }
}

/// The lines of `s` from position `i` on: split at newlines, one
/// optional trailing carriage return stripped from each, no empty line
/// after a final newline.
pub open spec fn lines_from(s: Seq<u8>, i: int) -> Seq<Seq<u8>>
    decreases s.len() - i,
    via lines_from_decreases
{
    if i >= s.len() {
        seq![]
    } else {
        let k = nl_from(s, i);
        let line = strip_cr(s.subrange(i, k));
        if k >= s.len() {
            seq![line]
        } else {
            seq![line] + lines_from(s, k + 1)
        }
    }
}

#[via_fn]
proof fn lines_from_decreases(s: Seq<u8>, i: int) {
    if i < s.len() {
        lemma_nl_from_bounds(s, i);
    }
}

fn nl_from_x(s: &[u8], i: usize) -> (r: usize)
    requires
        i <= s@.len(),
    ensures
        r == nl_from(s@, i as int),
        i <= r <= s@.len(),
{
    let n = s.len();
    let mut cur = i;
    while cur < n && s[cur] != 10
        invariant
            i <= cur <= n,
            n == s@.len(),
            nl_from(s@, i as int) == nl_from(s@, cur as int),
        decreases n - cur,
    {
        assert(nl_from(s@, cur as int) == nl_from(s@, cur + 1));
        cur = cur + 1;
    }
    cur
}

fn line_at(s: &[u8], i: usize, k: usize) -> (r: Vec<u8>)
    requires
        i <= k <= s@.len(),
    ensures
        r@ == strip_cr(s@.subrange(i as int, k as int)),
{
    let stop: usize = if k > i && s[k - 1] == 13 {
        k - 1
    } else {
        k
    };
    let mut out: Vec<u8> = Vec::new();
    let mut j = i;
    while j < stop
        invariant
            i <= j <= stop <= s@.len(),
            out@ == s@.subrange(i as int, j as int),
        decreases stop - j,
    {
        out.push(s[j]);
        assert(s@.subrange(i as int, j + 1) =~= s@.subrange(i as int, j as int).push(
            s@[j as int],
        ));
        j = j + 1;
    }
    proof {
        let l = s@.subrange(i as int, k as int);
        if k > i && s@[k - 1] == 13 {
            assert(strip_cr(l) =~= s@.subrange(i as int, k - 1));
        } else {
            assert(strip_cr(l) =~= l);
        }
    }
    out
}

/// Index of the first double quote in `l`, if any.
pub open spec fn first_quote(l: Seq<u8>, i: int) -> Option<int>
    decreases l.len() - i,
{
    if i >= l.len() {
        None
    } else if l[i] == 34 {
        Some(i)
    } else {
        first_quote(l, i + 1)
    }
}

/// Index of the last double quote in `l`, if any.
pub open spec fn last_quote(l: Seq<u8>) -> Option<int>
    decreases l.len(),
{
    if l.len() == 0 {
        None
    } else if l.last() == 34 {
        Some(l.len() - 1)
    } else {
        last_quote(l.drop_last())
    }
}

/// The window title a line carries: the text between its first and
/// last double quote, when the two differ and the text is nonempty.
pub open spec fn title_of_line(l: Seq<u8>) -> Option<Seq<u8>> {
    match (first_quote(l, 0), last_quote(l)) {
        (Some(a), Some(b)) => {
            if a < b && b - a > 1 {
                Some(l.subrange(a + 1, b))
            } else {
                None
            }
        },
        _ => None,
    }
}

/// The titles carried by the lines from index `j` on.
pub open spec fn titles_from(ls: Seq<Seq<u8>>, j: int) -> Seq<Seq<u8>>
    decreases ls.len() - j,
{
    if j < 0 || j >= ls.len() {
        seq![]
    } else {
        match title_of_line(ls[j]) {
            Some(t) => seq![t] + titles_from(ls, j + 1),
            None => titles_from(ls, j + 1),
        }
    }
}

fn first_quote_x(l: &[u8]) -> (r: Option<usize>)
    ensures
        match r {
            Some(i) => first_quote(l@, 0) == Some(i as int) && i < l@.len(),
            None => first_quote(l@, 0) is None,
        },
{
    let n = l.len();
    let mut cur: usize = 0;
    while cur < n && l[cur] != 34
        invariant
            0 <= cur <= n,
            n == l@.len(),
            first_quote(l@, 0) == first_quote(l@, cur as int),
        decreases n - cur,
    {
        assert(first_quote(l@, cur as int) == first_quote(l@, cur + 1));
        cur = cur + 1;
    }
    if cur < n {
        Some(cur)
    } else {
        None
    }
}

fn last_quote_x(l: &[u8]) -> (r: Option<usize>)
    ensures
        match r {
            Some(i) => last_quote(l@) == Some(i as int) && i < l@.len(),
            None => last_quote(l@) is None,
        },
{
    let mut cur: usize = l.len();
    assert(l@.subrange(0, l@.len() as int) =~= l@);
    while cur > 0 && l[cur - 1] != 34
        invariant
            0 <= cur <= l@.len(),
            last_quote(l@) == last_quote(l@.subrange(0, cur as int)),
        decreases cur,
    {
        assert(l@.subrange(0, cur as int).drop_last() =~= l@.subrange(0, cur - 1));
        cur = cur - 1;
    }
    if cur > 0 {
        proof {
            assert(l@.subrange(0, cur as int).last() == l@[cur - 1]);
        }
        Some(cur - 1)
    } else {
        proof {
            assert(l@.subrange(0, 0) =~= Seq::<u8>::empty());
        }
        None
    }
}

fn title_of_line_x(l: &[u8]) -> (r: Option<Vec<u8>>)
    ensures
        match r {
            Some(t) => title_of_line(l@) == Some(t@),
            None => title_of_line(l@) is None,
        },
{
    let a = match first_quote_x(l) {
        Some(a) => a,
        None => {
            return None;
        },
    };
    let b = match last_quote_x(l) {
        Some(b) => b,
        None => {
            return None;
        },
    };
    if a < b && b - a > 1 {
        let mut out: Vec<u8> = Vec::new();
        let mut j = a + 1;
        while j < b
            invariant
                a + 1 <= j <= b <= l@.len(),
                out@ == l@.subrange(a + 1, j as int),
            decreases b - j,
        {
            out.push(l[j]);
            assert(l@.subrange(a + 1, j + 1) =~= l@.subrange(a + 1, j as int).push(
                l@[j as int],
            ));
            j = j + 1;
        }
        Some(out)
    } else {
        None
    }
}

/// The view of a list of byte strings.
pub open spec fn views(v: Seq<Vec<u8>>) -> Seq<Seq<u8>> {
    v.map_values(|x: Vec<u8>| x@)
}

/// Split output into lines.
pub fn split_lines(s: &[u8]) -> (r: Vec<Vec<u8>>)
    ensures
        views(r@) == lines_from(s@, 0),
{
    let n = s.len();
    let mut out: Vec<Vec<u8>> = Vec::new();
    let mut i: usize = 0;
    while i < n
        invariant
            0 <= i <= n,
            n == s@.len(),
            lines_from(s@, 0) == views(out@) + lines_from(s@, i as int),
        decreases n - i,
    {
        let k = nl_from_x(s, i);
        let line = line_at(s, i, k);
        proof {
            assert(lines_from(s@, i as int) == (if k >= s@.len() {
                seq![strip_cr(s@.subrange(i as int, k as int))]
            } else {
                seq![strip_cr(s@.subrange(i as int, k as int))] + lines_from(s@, k + 1)
            }));
        }
        let ghost old_out = out@;
        out.push(line);
        proof {
            assert(views(out@) =~= views(old_out).push(line@));
            if k < s@.len() {
                assert(views(old_out) + (seq![line@] + lines_from(s@, k + 1)) =~= views(out@)
                    + lines_from(s@, k + 1));
            } else {
                assert(views(old_out) + seq![line@] =~= views(out@));
                assert(views(out@) + lines_from(s@, s@.len() as int) =~= views(out@));
            }
        }
        if k >= n {
            i = n;
        } else {
            i = k + 1;
        }
    }
    proof {
        assert(lines_from(s@, n as int) =~= Seq::<Seq<u8>>::empty());
        assert(views(out@) + Seq::<Seq<u8>>::empty() =~= views(out@));
    }
    out
}

/// The window titles in the lister's output: for each line, the text
/// between its first and last double quote, where nonempty.
pub fn parse_window_titles(output: &[u8]) -> (r: Vec<Vec<u8>>)
    ensures
        views(r@) == titles_from(lines_from(output@, 0), 0),
{
    let lines = split_lines(output);
    let ghost ls = lines_from(output@, 0);
    let n = lines.len();
    let mut out: Vec<Vec<u8>> = Vec::new();
    let mut j: usize = 0;
    while j < n
        invariant
            0 <= j <= n,
            n == lines@.len(),
            views(lines@) == ls,
            titles_from(ls, 0) == views(out@) + titles_from(ls, j as int),
        decreases n - j,
    {
        proof {
            assert(lines@[j as int]@ == ls[j as int]);
        }
        match title_of_line_x(lines[j].as_slice()) {
            Some(t) => {
                let ghost old_out = out@;
                out.push(t);
                proof {
                    assert(views(out@) =~= views(old_out).push(t@));
                    assert(titles_from(ls, j as int) == seq![t@] + titles_from(ls, j + 1));
                    assert(views(old_out) + (seq![t@] + titles_from(ls, j + 1)) =~= views(out@)
                        + titles_from(ls, j + 1));
                }
            },
            None => {
                proof {
                    assert(titles_from(ls, j as int) == titles_from(ls, j + 1));
                }
            },
        }
        j = j + 1;
    }
    proof {
        assert(titles_from(ls, n as int) =~= Seq::<Seq<u8>>::empty());
        assert(views(out@) + Seq::<Seq<u8>>::empty() =~= views(out@));
    }
    out
}

/// What `str::parse::<i32>` accepts: an optional sign, then at least
/// one digit, with a value in range.
pub open spec fn spec_parse_i32(s: Seq<u8>) -> Option<int> {
    let neg = s.len() > 0 && s[0] == 45;
    let body = if s.len() > 0 && (s[0] == 43 || s[0] == 45) {
        s.drop_first()
    } else {
        s
    };
    if body.len() > 0 && all_digits(body) {
        let v = if neg {
            -dec_value(body)
        } else {
            dec_value(body)
        };
        if i32::MIN <= v <= i32::MAX {
            Some(v)
        } else {
            None
        }
    } else {
        None
    }
}

/// Parse a signed number the way `str::parse::<i32>` does.
pub fn parse_i32(s: &[u8]) -> (r: Option<i32>)
    ensures
        match r {
            Some(v) => spec_parse_i32(s@) == Some(v as int),
            None => spec_parse_i32(s@) is None,
        },
{
    let neg = s.len() > 0 && s[0] == 45;
    let start: usize = if s.len() > 0 && (s[0] == 43 || s[0] == 45) {
        1
    } else {
        0
    };
    let ghost body = if s@.len() > 0 && (s@[0] == 43 || s@[0] == 45) {
        s@.drop_first()
    } else {
        s@
    };
    proof {
        assert(body =~= s@.subrange(start as int, s@.len() as int));
    }
    if s.len() == start {
        return None;
    }
    let mut acc: u64 = 0;
    let mut i: usize = start;
    let n = s.len();
    while i < n
        invariant
            start <= i <= n,
            n == s@.len(),
            n > start,
            body == s@.subrange(start as int, n as int),
            body == (if s@.len() > 0 && (s@[0] == 43 || s@[0] == 45) {
                s@.drop_first()
            } else {
                s@
            }),
            neg == (s@.len() > 0 && s@[0] == 45),
            acc <= 0x1_0000_0000u64,
            all_digits(s@.subrange(start as int, i as int)),
            acc == dec_value(s@.subrange(start as int, i as int)),
        decreases n - i,
    {
        let b = s[i];
        if !(48 <= b && b <= 57) {
            proof {
                assert(body[i - start] == s@[i as int]);
                assert(!all_digits(body));
            }
            return None;
        }
        let d = (b - 48) as u64;
        let next = acc * 10 + d;
        proof {
            let q = s@.subrange(start as int, i + 1);
            assert(q.drop_last() =~= s@.subrange(start as int, i as int));
            assert(all_digits(q)) by {
                assert(forall|j: int|
                    0 <= j < q.len() - 1 ==> q[j] == s@.subrange(start as int, i as int)[j]);
            }
            assert(dec_value(q) == acc * 10 + d);
        }
        if next > 0x1_0000_0000u64 {
            proof {
                let q = s@.subrange(start as int, i + 1);
                if all_digits(body) {
                    assert(q =~= body.subrange(0, i + 1 - start));
                    crate::cli::lemma_dec_value_prefix_grows(body, i + 1 - start);
                }
            }
            return None;
        }
        acc = next;
        i = i + 1;
    }
    proof {
        assert(s@.subrange(start as int, n as int) =~= body);
    }
    if neg {
        if acc > 0x8000_0000u64 {
            return None;
        }
        if acc == 0x8000_0000u64 {
            return Some(i32::MIN);
        }
        Some(-((acc as i64) as i32))
    } else {
        if acc > 0x7fff_ffffu64 {
            return None;
        }
        Some(acc as i32)
    }
}

/// Position of the first colon at or after `i`, or the length.
pub open spec fn colon_from(l: Seq<u8>, i: int) -> int
    decreases l.len() - i,
{
    if i < l.len() {
        if l[i] == 58 {
            i
        } else {
            colon_from(l, i + 1)
        }
    } else {
        i
    }
}

/// The text between a line's first colon and its second colon or end:
/// what `split(':').nth(1)` yields.  `None` when the line has no colon.
pub open spec fn second_colon_segment(l: Seq<u8>) -> Option<Seq<u8>> {
    let c1 = colon_from(l, 0);
    if c1 >= l.len() {
        None
    } else {
        Some(l.subrange(c1 + 1, colon_from(l, c1 + 1)))
    }
}

fn colon_from_x(l: &[u8], i: usize) -> (r: usize)
    requires
        i <= l@.len(),
    ensures
        r == colon_from(l@, i as int),
        i <= r <= l@.len(),
{
    let n = l.len();
    let mut cur = i;
    while cur < n && l[cur] != 58
        invariant
            i <= cur <= n,
            n == l@.len(),
            colon_from(l@, i as int) == colon_from(l@, cur as int),
        decreases n - cur,
    {
        assert(colon_from(l@, cur as int) == colon_from(l@, cur + 1));
        cur = cur + 1;
    }
    cur
}

fn second_colon_segment_x(l: &[u8]) -> (r: Option<Vec<u8>>)
    ensures
        match r {
            Some(v) => second_colon_segment(l@) == Some(v@),
            None => second_colon_segment(l@) is None,
        },
{
    let c1 = colon_from_x(l, 0);
    if c1 >= l.len() {
        return None;
    }
    let c2 = colon_from_x(l, c1 + 1);
    let mut out: Vec<u8> = Vec::new();
    let mut j = c1 + 1;
    while j < c2
        invariant
            c1 + 1 <= j <= c2 <= l@.len(),
            out@ == l@.subrange(c1 + 1, j as int),
        decreases c2 - j,
    {
        out.push(l[j]);
        assert(l@.subrange(c1 + 1, j + 1) =~= l@.subrange(c1 + 1, j as int).push(l@[j as int]));
        j = j + 1;
    }
    Some(out)
}

/// The coordinate a labelled line carries: its post-colon segment,
/// trimmed, as a signed number.
pub open spec fn line_coord(l: Seq<u8>) -> Option<int> {
    match second_colon_segment(l) {
        Some(seg) => spec_parse_i32(spec_trim_spaces(seg)),
        None => None,
    }
}

/// Walking the lines from `j` with coordinates gathered so far: the
/// first label match per line updates its coordinate; a labelled line
/// whose number cannot be read fails the whole walk; a line with a
/// label but no colon changes nothing.
pub open spec fn bounds_scan(ls: Seq<Seq<u8>>, j: int, x: int, y: int, w: int, h: int) -> Option<
    (int, int, int, int),
>
    decreases ls.len() - j,
{
    if j < 0 || j >= ls.len() {
        Some((x, y, w, h))
    } else {
        let l = ls[j];
        if spec_contains(l, "Absolute upper-left X:".spec_bytes()) {
            match line_coord(l) {
                Some(v) => bounds_scan(ls, j + 1, v, y, w, h),
                None => if second_colon_segment(l) is None {
                    bounds_scan(ls, j + 1, x, y, w, h)
                } else {
                    None
                },
            }
        } else if spec_contains(l, "Absolute upper-left Y:".spec_bytes()) {
            match line_coord(l) {
                Some(v) => bounds_scan(ls, j + 1, x, v, w, h),
                None => if second_colon_segment(l) is None {
                    bounds_scan(ls, j + 1, x, y, w, h)
                } else {
                    None
                },
            }
        } else if spec_contains(l, "Width:".spec_bytes()) {
            match line_coord(l) {
                Some(v) => bounds_scan(ls, j + 1, x, y, v, h),
                None => if second_colon_segment(l) is None {
                    bounds_scan(ls, j + 1, x, y, w, h)
                } else {
                    None
                },
            }
        } else if spec_contains(l, "Height:".spec_bytes()) {
            match line_coord(l) {
                Some(v) => bounds_scan(ls, j + 1, x, y, w, v),
                None => if second_colon_segment(l) is None {
                    bounds_scan(ls, j + 1, x, y, w, h)
                } else {
                    None
                },
            }
        } else {
            bounds_scan(ls, j + 1, x, y, w, h)
        }
    }
}

/// Why the bounds query's output yields no usable bounds.
#[derive(Clone, Copy, PartialEq, Eq, Structural, Debug)]
pub enum BoundsError {
    /// A labelled coordinate line holds no readable number.
    BadNumber,
    /// The window was not found or has zero width or height.
    NotFound,
}

/// The window bounds in the query's output: the labelled coordinate
/// lines, with a zero width or height meaning the window was not found.
pub fn parse_window_bounds(output: &[u8]) -> (r: Result<WindowBounds, BoundsError>)
    ensures
        match bounds_scan(lines_from(output@, 0), 0, 0, 0, 0, 0) {
            Some((x, y, w, h)) => {
                if w == 0 || h == 0 {
                    r == Result::<WindowBounds, BoundsError>::Err(BoundsError::NotFound)
                } else {
                    &&& r matches Ok(b)
                    &&& b.x == x
                    &&& b.y == y
                    &&& b.width == w
                    &&& b.height == h
                }
            },
            None => r == Result::<WindowBounds, BoundsError>::Err(BoundsError::BadNumber),
        },
{
    let lines = split_lines(output);
    let ghost ls = lines_from(output@, 0);
    let n = lines.len();
    let mut x: i32 = 0;
    let mut y: i32 = 0;
    let mut w: i32 = 0;
    let mut h: i32 = 0;
    let mut j: usize = 0;
    while j < n
        invariant
            0 <= j <= n,
            n == lines@.len(),
            views(lines@) == ls,
            ls == lines_from(output@, 0),
            bounds_scan(ls, 0, 0, 0, 0, 0) == bounds_scan(
                ls,
                j as int,
                x as int,
                y as int,
                w as int,
                h as int,
            ),
        decreases n - j,
    {
        proof {
            assert(lines@[j as int]@ == ls[j as int]);
        }
        let line = lines[j].as_slice();
        let which: u8 = if contains_sub(line, "Absolute upper-left X:".as_bytes()) {
            0
        } else if contains_sub(line, "Absolute upper-left Y:".as_bytes()) {
            1
        } else if contains_sub(line, "Width:".as_bytes()) {
            2
        } else if contains_sub(line, "Height:".as_bytes()) {
            3
        } else {
            4
        };
        if which <= 3 {
            match second_colon_segment_x(line) {
                Some(seg) => {
                    let trimmed = trim_spaces(seg.as_slice());
                    match parse_i32(trimmed.as_slice()) {
                        Some(v) => {
                            if which == 0 {
                                x = v;
                            } else if which == 1 {
                                y = v;
                            } else if which == 2 {
                                w = v;
                            } else {
                                h = v;
                            }
                        },
                        None => {
                            proof {
                                let l = ls[j as int];
                                assert(line_coord(l) is None);
                                assert(bounds_scan(
                                    ls,
                                    j as int,
                                    x as int,
                                    y as int,
                                    w as int,
                                    h as int,
                                ) is None);
                            }
                            return Err(BoundsError::BadNumber);
                        },
                    }
                },
                None => {},
            }
        }
        j = j + 1;
    }
    proof {
        assert(bounds_scan(ls, n as int, x as int, y as int, w as int, h as int) == Some(
            ((x as int), (y as int), (w as int), (h as int)),
        ));
    }
    if w == 0 || h == 0 {
        return Err(BoundsError::NotFound);
    }
    Ok(WindowBounds { x, y, width: w, height: h })
}

} // verus!
