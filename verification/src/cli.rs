//! Decisions behind the command-line and interactive surfaces: endpoint
//! resolution, the interactive menu, window-choice resolution, and the
//! remediation hints printed after a failed analysis.  Reading the
//! arguments, the environment and standard input happens outside the
//! library; the read values come in as plain strings and bytes.

use vstd::prelude::*;
use vstd::slice::slice_to_vec;
use vstd::string::*;

use crate::text::{bytes_eq, contains_sub, spec_contains, spec_trim_spaces, trim_spaces};

verus! {

/// The endpoint to use: an explicit argument wins, then the configured
/// host, then the default local endpoint.
pub fn get_ollama_url(url_arg: Option<String>, env_host: Option<String>) -> (r: String)
    ensures
        match url_arg {
            Some(u) => r@ == u@,
            None => match env_host {
                Some(h) => r@ == h@,
                None => r@ == "http://localhost:11434"@,
            },
        },
{
    match url_arg {
        Some(u) => u,
        None => match env_host {
            Some(h) => h,
            None => String::from_str("http://localhost:11434"),
        },
    }
}

/// The model to analyze with: the argument, or the default model.
pub fn resolve_model_name(model_arg: Option<String>) -> (r: String)
    ensures
        match model_arg {
            Some(m) => r@ == m@,
            None => r@ == "llava:latest"@,
        },
{
    match model_arg {
        Some(m) => m,
        None => String::from_str("llava:latest"),
    }
}

/// The remediation a failed one-shot analysis prints: pulling the model
/// when the failure names a missing model, starting the service when it
/// names an unavailable one, nothing otherwise.
#[derive(Clone, Copy, PartialEq, Eq, Structural, Debug)]
pub enum CliHint {
    PullModel,
    StartService,
    Nothing,
}

pub fn classify_cli_failure(desc: &[u8]) -> (r: CliHint)
    ensures
        spec_contains(desc@, "not found".spec_bytes()) ==> r == CliHint::PullModel,
        !spec_contains(desc@, "not found".spec_bytes()) && spec_contains(
            desc@,
            "not available".spec_bytes(),
        ) ==> r == CliHint::StartService,
        !spec_contains(desc@, "not found".spec_bytes()) && !spec_contains(
            desc@,
            "not available".spec_bytes(),
        ) ==> r == CliHint::Nothing,
{
    if contains_sub(desc, "not found".as_bytes()) {
        CliHint::PullModel
    } else if contains_sub(desc, "not available".as_bytes()) {
        CliHint::StartService
    } else {
        CliHint::Nothing
    }
}

/// The value of a run of decimal digits, most significant first.
pub open spec fn dec_value(s: Seq<u8>) -> int
    decreases s.len(),
{
    if s.len() == 0 {
        0
    } else {
        dec_value(s.drop_last()) * 10 + (s.last() - 48)
    }
}

pub open spec fn all_digits(s: Seq<u8>) -> bool {
    forall|i: int| 0 <= i < s.len() ==> 48 <= #[trigger] s[i] <= 57
}

/// What `str::parse::<usize>` accepts: an optional plus sign, then at
/// least one digit, with a value that fits.
pub open spec fn spec_parse_usize(s: Seq<u8>) -> Option<int> {
    let body = if s.len() > 0 && s[0] == 43 {
        s.drop_first()
    } else {
        s
    };
    if body.len() > 0 && all_digits(body) && dec_value(body) <= usize::MAX {
        Some(dec_value(body))
    } else {
        None
    }
}

pub(crate) proof fn lemma_dec_value_nonneg(s: Seq<u8>)
    requires
        all_digits(s),
    ensures
        dec_value(s) >= 0,
    decreases s.len(),
{
    if s.len() > 0 {
        assert(all_digits(s.drop_last()));
        lemma_dec_value_nonneg(s.drop_last());
    }
}

pub(crate) proof fn lemma_dec_value_prefix_grows(s: Seq<u8>, i: int)
    requires
        all_digits(s),
        0 <= i <= s.len(),
    ensures
        dec_value(s) >= dec_value(s.subrange(0, i)),
    decreases s.len() - i,
{
    if i < s.len() {
        lemma_dec_value_prefix_grows(s, i + 1);
        let p = s.subrange(0, i);
        let q = s.subrange(0, i + 1);
        assert(q.drop_last() =~= p);
        assert(all_digits(p)) by {
            assert(forall|j: int| 0 <= j < p.len() ==> p[j] == s[j]);
        }
        lemma_dec_value_nonneg(p);
        assert(dec_value(q) == dec_value(p) * 10 + (q.last() - 48));
        assert(dec_value(p) * 10 >= dec_value(p)) by (nonlinear_arith)
            requires
                dec_value(p) >= 0,
        ;
    } else {
        assert(s.subrange(0, s.len() as int) =~= s);
    }
}

/// Parse an unsigned number the way `str::parse::<usize>` does.
pub fn parse_usize(s: &[u8]) -> (r: Option<usize>)
    ensures
        match r {
            Some(v) => spec_parse_usize(s@) == Some(v as int),
            None => spec_parse_usize(s@) is None,
        },
{
    let start: usize = if s.len() > 0 && s[0] == 43 {
        1
    } else {
        0
    };
    let ghost body = if s@.len() > 0 && s@[0] == 43 {
        s@.drop_first()
    } else {
        s@
    };
    proof {
        assert(body =~= s@.subrange(start as int, s@.len() as int));
    }
    if s.len() == start {
        return None;
    }
    let mut acc: usize = 0;
    let mut i: usize = start;
    let n = s.len();
    while i < n
        invariant
            start <= i <= n,
            n == s@.len(),
            n > start,
            body == s@.subrange(start as int, n as int),
            body == (if s@.len() > 0 && s@[0] == 43 {
                s@.drop_first()
            } else {
                s@
            }),
            all_digits(s@.subrange(start as int, i as int)),
            acc == dec_value(s@.subrange(start as int, i as int)),
        decreases n - i,
    {
        let b = s[i];
        if !(48 <= b && b <= 57) {
            proof {
                assert(body[i - start] == s@[i as int]);
                assert(!all_digits(body));
            }
            return None;
        }
        let d = (b - 48) as usize;
        proof {
            lemma_dec_value_nonneg(s@.subrange(start as int, i as int));
        }
        if acc > (usize::MAX - d) / 10 {
            proof {
                let q = s@.subrange(start as int, i + 1);
                assert(q.drop_last() =~= s@.subrange(start as int, i as int));
                assert(forall|j: int| 0 <= j < q.len() ==> q[j] == s@[start + j]);
                assert(dec_value(q) == acc * 10 + d);
                assert(acc * 10 + d > usize::MAX) by (nonlinear_arith)
                    requires
                        acc > (usize::MAX - d) / 10,
                        0 <= d <= 9,
                        acc >= 0,
                ;
                if all_digits(body) {
                    assert(q =~= body.subrange(0, i + 1 - start));
                    lemma_dec_value_prefix_grows(body, i + 1 - start);
                }
            }
            return None;
        }
        acc = acc * 10 + d;
        proof {
            let q = s@.subrange(start as int, i + 1);
            assert(q.drop_last() =~= s@.subrange(start as int, i as int));
            assert(all_digits(q)) by {
                assert(forall|j: int|
                    0 <= j < q.len() - 1 ==> q[j] == s@.subrange(start as int, i as int)[j]);
            }
        }
        i = i + 1;
    }
    proof {
        assert(s@.subrange(start as int, n as int) =~= body);
    }
    Some(acc)
}

/// One choice in the interactive menu.
#[derive(Clone, Copy, PartialEq, Eq, Structural, Debug)]
pub enum MenuChoice {
    CaptureFullScreen,
    CaptureWindow,
    ListModels,
    Exit,
    Invalid,
}

/// What the trimmed menu input selects.
pub open spec fn spec_menu_choice(t: Seq<u8>) -> MenuChoice {
    if t == "1".spec_bytes() {
        MenuChoice::CaptureFullScreen
    } else if t == "2".spec_bytes() {
        MenuChoice::CaptureWindow
    } else if t == "3".spec_bytes() {
        MenuChoice::ListModels
    } else if t == "4".spec_bytes() {
        MenuChoice::Exit
    } else {
        MenuChoice::Invalid
    }
}

/// Interpret one line of main-menu input.
pub fn interpret_menu_choice(input: &[u8]) -> (r: MenuChoice)
    ensures
        r == spec_menu_choice(spec_trim_spaces(input@)),
{
    let t = trim_spaces(input);
    if bytes_eq(t.as_slice(), "1".as_bytes()) {
        MenuChoice::CaptureFullScreen
    } else if bytes_eq(t.as_slice(), "2".as_bytes()) {
        MenuChoice::CaptureWindow
    } else if bytes_eq(t.as_slice(), "3".as_bytes()) {
        MenuChoice::ListModels
    } else if bytes_eq(t.as_slice(), "4".as_bytes()) {
        MenuChoice::Exit
    } else {
        MenuChoice::Invalid
    }
}

/// Interpret the post-capture options: analyzing on the first and third
/// choice, saving on the second and third.
pub fn interpret_screenshot_choice(input: &[u8]) -> (r: (bool, bool))
    ensures
        r.0 == (spec_trim_spaces(input@) == "1".spec_bytes() || spec_trim_spaces(input@)
            == "3".spec_bytes()),
        r.1 == (spec_trim_spaces(input@) == "2".spec_bytes() || spec_trim_spaces(input@)
            == "3".spec_bytes()),
{
    let t = trim_spaces(input);
    let analyze = bytes_eq(t.as_slice(), "1".as_bytes()) || bytes_eq(t.as_slice(), "3".as_bytes());
    let save = bytes_eq(t.as_slice(), "2".as_bytes()) || bytes_eq(t.as_slice(), "3".as_bytes());
    (analyze, save)
}

/// Resolve an interactive window choice: a number selects from the
/// listing (counted from one; out of range selects nothing), anything
/// else is taken as a window title itself.
pub fn resolve_window_choice(choice: &[u8], windows: &Vec<Vec<u8>>) -> (r: Option<Vec<u8>>)
    ensures
        match spec_parse_usize(choice@) {
            Some(num) => {
                if 1 <= num <= windows@.len() {
                    r matches Some(t) && t@ == windows@[num - 1]@
                } else {
                    r is None
                }
            },
            None => r matches Some(t) && t@ == choice@,
        },
{
    match parse_usize(choice) {
        Some(num) => {
            if 1 <= num && num <= windows.len() {
                let picked = windows[num - 1].clone();
                proof {
                    assert(picked@ =~= windows@[num - 1]@);
                }
                Some(picked)
            } else {
                None
            }
        },
        None => Some(slice_to_vec(choice)),
    }
}

} // verus!
