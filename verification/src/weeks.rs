//! The week-range grammar.
//!
//! Recurrence patterns arrive as comma-separated tokens, each either
//! a single week number (`"39"`) or a dash-separated inclusive range
//! (`"30-37"`); a comma may be followed by any number of spaces. The
//! parser expands ranges low to high and keeps tokens in the order
//! they appear, never collapsing duplicates. The empty string denotes
//! no weeks at all. Malformed input — a missing number, a dangling
//! dash or comma, a number above 255, or a range whose bounds are out
//! of order — is a hard parse error rather than a silent truncation,
//! so that broken recurrence text cannot under-report lessons.

use vstd::prelude::*;
use vstd::string::StrSliceExecFns;
use vstd::string::StringExecFns;

use crate::errors::WeekRangeError;
use crate::utils::{digit_of, digit_val, is_digit};

verus! {

/// Length of the run of digit characters starting at `i`.
pub open spec fn digit_run_len(s: Seq<char>, i: int) -> int
    decreases s.len() - i when i <= s.len()
{
    if i < 0 || i >= s.len() || !is_digit(s[i]) {
        0
    } else {
        1 + digit_run_len(s, i + 1)
    }
}

/// Value of the `n` digit characters starting at `i`, most
/// significant first.
pub open spec fn digits_value(s: Seq<char>, i: int, n: int) -> int
    decreases n,
{
    if n <= 0 {
        0
    } else {
        digits_value(s, i, n - 1) * 10 + digit_val(s[i + n - 1])
    }
}

/// Length of the run of space characters starting at `i`.
pub open spec fn space_run_len(s: Seq<char>, i: int) -> int
    decreases s.len() - i when i <= s.len()
{
    if i < 0 || i >= s.len() || s[i] != ' ' {
        0
    } else {
        1 + space_run_len(s, i + 1)
    }
}

/// The week numbers `lo` through `hi`, ascending.
pub open spec fn week_span(lo: int, hi: int) -> Seq<u8> {
    Seq::new((hi - lo + 1) as nat, |k: int| (lo + k) as u8)
}

/// The token starting at `i`: its weeks and the position just after
/// it. A token is a number, or two dash-separated numbers in
/// ascending order; numbers are capped at 255.
pub open spec fn spec_token_at(s: Seq<char>, i: int) -> Option<(Seq<u8>, int)> {
    let n1 = digit_run_len(s, i);
    if n1 == 0 {
        None
    } else {
        let v1 = digits_value(s, i, n1);
        if v1 > 255 {
            None
        } else if i + n1 < s.len() && s[i + n1] == '-' {
            let n2 = digit_run_len(s, i + n1 + 1);
            if n2 == 0 {
                None
            } else {
                let v2 = digits_value(s, i + n1 + 1, n2);
                if v2 > 255 || v1 > v2 {
                    None
                } else {
                    Some((week_span(v1, v2), i + n1 + 1 + n2))
                }
            }
        } else {
            Some((seq![v1 as u8], i + n1))
        }
    }
}

/// The weeks denoted by the token list starting at `i`, which must
/// run to the end of the text: tokens separated by a comma and any
/// number of spaces.
pub open spec fn spec_weeks_from(s: Seq<char>, i: int) -> Option<Seq<u8>>
    decreases s.len() - i when 0 <= i <= s.len()
    via spec_weeks_from_decreases
{
    match spec_token_at(s, i) {
        None => None,
        Some((tok, j)) => {
            if j == s.len() {
                Some(tok)
            } else if s[j] == ',' {
                let m = j + 1 + space_run_len(s, j + 1);
                match spec_weeks_from(s, m) {
                    None => None,
                    Some(rest) => Some(tok + rest),
                }
            } else {
                None
            }
        },
    }
}

/// The weeks denoted by a whole week-range text; the empty text
/// denotes no weeks.
pub open spec fn spec_parse_weeks(s: Seq<char>) -> Option<Seq<u8>> {
    if s.len() == 0 {
        Some(Seq::empty())
    } else {
        spec_weeks_from(s, 0)
    }
}

/// Digit runs stay within the text.
proof fn lemma_digit_run_len_bounds(s: Seq<char>, i: int)
    requires
        0 <= i <= s.len(),
    ensures
        0 <= digit_run_len(s, i),
        i + digit_run_len(s, i) <= s.len(),
    decreases s.len() - i,
{
    if i < s.len() && is_digit(s[i]) {
        lemma_digit_run_len_bounds(s, i + 1);
    }
}

/// Space runs stay within the text.
proof fn lemma_space_run_len_bounds(s: Seq<char>, i: int)
    requires
        0 <= i <= s.len(),
    ensures
        0 <= space_run_len(s, i),
        i + space_run_len(s, i) <= s.len(),
    decreases s.len() - i,
{
    if i < s.len() && s[i] == ' ' {
        lemma_space_run_len_bounds(s, i + 1);
    }
}

/// A token ends after where it starts and within the text.
proof fn lemma_token_at_bounds(s: Seq<char>, i: int)
    requires
        0 <= i <= s.len(),
        spec_token_at(s, i) is Some,
    ensures
        i < spec_token_at(s, i)->Some_0.1 <= s.len(),
{
    lemma_digit_run_len_bounds(s, i);
    let n1 = digit_run_len(s, i);
    if i + n1 < s.len() && s[i + n1] == '-' {
        lemma_digit_run_len_bounds(s, i + n1 + 1);
    }
}

#[via_fn]
proof fn spec_weeks_from_decreases(s: Seq<char>, i: int) {
    if spec_token_at(s, i) is Some {
        lemma_token_at_bounds(s, i);
        let j = spec_token_at(s, i)->Some_0.1;
        if j < s.len() && s[j] == ',' {
            lemma_space_run_len_bounds(s, j + 1);
        }
    }
}

/// A digit run ends exactly at the first non-digit position.
proof fn lemma_digit_run_len_of(s: Seq<char>, i: int, k: int)
    requires
        0 <= i <= k <= s.len(),
        forall|j: int| i <= j < k ==> is_digit(#[trigger] s[j]),
        k == s.len() || !is_digit(s[k]),
    ensures
        digit_run_len(s, i) == k - i,
    decreases k - i,
{
    if i < k {
        lemma_digit_run_len_of(s, i + 1, k);
    }
}

/// A space run ends exactly at the first non-space position.
proof fn lemma_space_run_len_of(s: Seq<char>, i: int, k: int)
    requires
        0 <= i <= k <= s.len(),
        forall|j: int| i <= j < k ==> #[trigger] s[j] == ' ',
        k == s.len() || s[k] != ' ',
    ensures
        space_run_len(s, i) == k - i,
    decreases k - i,
{
    if i < k {
        lemma_space_run_len_of(s, i + 1, k);
    }
}

/// The value of a digit run is never negative.
proof fn lemma_digits_value_nonneg(s: Seq<char>, i: int, n: int)
    requires
        forall|j: int| i <= j < i + n ==> is_digit(#[trigger] s[j]),
    ensures
        digits_value(s, i, n) >= 0,
    decreases n,
{
    if n > 0 {
        lemma_digits_value_nonneg(s, i, n - 1);
    }
}

/// Extending a digit run never shrinks its value.
proof fn lemma_digits_value_monotonic(s: Seq<char>, i: int, n1: int, n2: int)
    requires
        0 <= n1 <= n2,
        forall|j: int| i <= j < i + n2 ==> is_digit(#[trigger] s[j]),
    ensures
        digits_value(s, i, n1) <= digits_value(s, i, n2),
    decreases n2 - n1,
{
    if n1 < n2 {
        lemma_digits_value_monotonic(s, i, n1, n2 - 1);
        lemma_digits_value_nonneg(s, i, n2 - 1);
    }
}

/// The characters of a digit run are digits.
pub(crate) proof fn lemma_digit_run_chars(s: Seq<char>, i: int, j: int)
    requires
        0 <= i <= s.len(),
        i <= j < i + digit_run_len(s, i),
    ensures
        is_digit(s[j]),
    decreases j - i,
{
    if i < j {
        lemma_digit_run_chars(s, i + 1, j);
    }
}

/// Scan the digit run starting at `i`: its end, its value when that
/// value is at most 255, and whether it exceeds 255.
pub(crate) fn scan_number(s: &str, i: usize, n: usize) -> (r: (usize, u32, bool))
    requires
        s@.len() == n,
        i <= n,
    ensures
        ({
            let (k, v, big) = r;
            &&& i <= k <= n
            &&& k - i == digit_run_len(s@, i as int)
            &&& (!big ==> v == digits_value(s@, i as int, k - i) && v <= 255)
            &&& (big ==> digits_value(s@, i as int, k - i) > 255)
        }),
{
    let mut k: usize = i;
    let mut acc: u32 = 0;
    let mut big: bool = false;
    loop
        invariant
            s@.len() == n,
            i <= k <= n,
            forall|j: int| i <= j < k ==> is_digit(#[trigger] s@[j]),
            !big ==> acc == digits_value(s@, i as int, k - i) && acc <= 255,
            big ==> digits_value(s@, i as int, k - i) > 255,
        ensures
            i <= k <= n,
            k == n || !is_digit(s@[k as int]),
            forall|j: int| i <= j < k ==> is_digit(#[trigger] s@[j]),
            !big ==> acc == digits_value(s@, i as int, k - i) && acc <= 255,
            big ==> digits_value(s@, i as int, k - i) > 255,
        decreases n - k,
    {
        if k == n {
            break;
        }
        let c = s.get_char(k);
        match digit_of(c) {
            None => {
                break;
            },
            Some(d) => {
                proof {
                    assert(digits_value(s@, i as int, (k + 1 - i) as int) == digits_value(
                        s@,
                        i as int,
                        k - i,
                    ) * 10 + digit_val(s@[k as int]));
                    if big {
                        lemma_digits_value_nonneg(s@, i as int, k - i);
                        lemma_digits_value_monotonic(s@, i as int, k - i, k + 1 - i);
                    }
                }
                if !big {
                    acc = acc * 10 + d as u32;
                    if acc > 255 {
                        big = true;
                    }
                }
                k = k + 1;
            },
        }
    }
    proof {
        lemma_digit_run_len_of(s@, i as int, k as int);
    }
    (k, acc, big)
}

/// Scan the space run starting at `i` and return its end.
fn scan_spaces(s: &str, i: usize, n: usize) -> (k: usize)
    requires
        s@.len() == n,
        i <= n,
    ensures
        i <= k <= n,
        k - i == space_run_len(s@, i as int),
{
    let mut k: usize = i;
    loop
        invariant
            s@.len() == n,
            i <= k <= n,
            forall|j: int| i <= j < k ==> #[trigger] s@[j] == ' ',
        ensures
            i <= k <= n,
            forall|j: int| i <= j < k ==> #[trigger] s@[j] == ' ',
            k == n || s@[k as int] != ' ',
        decreases n - k,
    {
        if k == n {
            break;
        }
        if s.get_char(k) != ' ' {
            break;
        }
        k = k + 1;
    }
    proof {
        lemma_space_run_len_of(s@, i as int, k as int);
    }
    k
}

/// A week-range text, held for parsing.
pub struct WeekRange {
    pub input: String,
}

impl WeekRange {
    /// Wrap a week-range text.
    pub fn from(value: &str) -> (r: WeekRange)
        ensures
            r.input@ == value@,
    {
        WeekRange { input: String::from_str(value) }
    }

    /// Parse the text into its week numbers, in the order the tokens
    /// give them. Fails exactly on text outside the week-range
    /// grammar.
    pub fn collect_weeks(&self) -> (r: Result<Vec<u8>, WeekRangeError>)
        ensures
            spec_parse_weeks(self.input@) is Some ==> r is Ok && r->Ok_0@ == spec_parse_weeks(
                self.input@,
            )->Some_0,
            spec_parse_weeks(self.input@) is None ==> r == Err::<Vec<u8>, WeekRangeError>(
                WeekRangeError::Malformed,
            ),
    {
        let s = self.input.as_str();
        let n = s.unicode_len();
        let mut out: Vec<u8> = Vec::new();
        if n == 0 {
            return Ok(out);
        }
        let mut i: usize = 0;
        proof {
            if spec_weeks_from(s@, 0) is Some {
                assert(Seq::<u8>::empty() + spec_weeks_from(s@, 0)->Some_0 =~= spec_weeks_from(
                    s@,
                    0,
                )->Some_0);
            }
        }
        loop
            invariant
                s@ == self.input@,
                s@.len() == n,
                0 <= i < n,
                match spec_weeks_from(s@, i as int) {
                    None => spec_parse_weeks(s@) is None,
                    Some(rest) => spec_parse_weeks(s@) == Some(out@ + rest),
                },
            decreases n - i,
        {
            let (k1, v1, big1) = scan_number(s, i, n);
            if k1 == i || big1 {
                return Err(WeekRangeError::Malformed);
            }
            let ghost prefix = out@;
            let mut j: usize = 0;
            let ghost mut tok: Seq<u8> = Seq::empty();
            if k1 < n && s.get_char(k1) == '-' {
                let (k2, v2, big2) = scan_number(s, k1 + 1, n);
                if k2 == k1 + 1 || big2 || v1 > v2 {
                    return Err(WeekRangeError::Malformed);
                }
                proof {
                    tok = week_span(v1 as int, v2 as int);
                }
                let mut w: u32 = v1;
                while w <= v2
                    invariant
                        v1 <= w <= v2 + 1,
                        v2 <= 255,
                        out@ =~= prefix + week_span(v1 as int, w - 1),
                    decreases v2 + 1 - w,
                {
                    out.push(w as u8);
                    proof {
                        assert(week_span(v1 as int, w as int) =~= week_span(
                            v1 as int,
                            w - 1,
                        ).push(w as u8));
                        assert(out@ =~= prefix + week_span(v1 as int, w as int));
                    }
                    w = w + 1;
                }
                proof {
                    assert(out@ =~= prefix + tok);
                }
                j = k2;
            } else {
                out.push(v1 as u8);
                proof {
                    tok = seq![v1 as u8];
                    assert(out@ =~= prefix + tok);
                }
                j = k1;
            }
            proof {
                assert(spec_token_at(s@, i as int) == Some((tok, j as int)));
            }
            if j == n {
                proof {
                    assert(spec_weeks_from(s@, i as int) == Some(tok));
                }
                return Ok(out);
            }
            if s.get_char(j) != ',' {
                return Err(WeekRangeError::Malformed);
            }
            let m = scan_spaces(s, j + 1, n);
            proof {
                let rest_opt = spec_weeks_from(s@, m as int);
                assert(spec_weeks_from(s@, i as int) == (match rest_opt {
                    None => None::<Seq<u8>>,
                    Some(rest) => Some(tok + rest),
                }));
                if rest_opt is Some {
                    assert(prefix + (tok + rest_opt->Some_0) =~= (prefix + tok)
                        + rest_opt->Some_0);
                }
            }
            if m == n {
                // a separator with nothing after it is a dangling comma
                return Err(WeekRangeError::Malformed);
            }
            i = m;
        }
    }
}

} // verus!
