//! Small helpers: status-code checking, fixed-format date and
//! timestamp parsing, and url construction.

use vstd::prelude::*;
use vstd::string::StrSliceExecFns;
use vstd::string::StringExecFns;

use crate::date::{days_before_month, valid_ymd, Date, DateTime, Time};
use crate::errors::{DateParseError, RequestError};
use crate::types::UserType;

pub use crate::weeks::WeekRange;

verus! {

/// The ten decimal digit characters.
pub open spec fn is_digit(c: char) -> bool {
    '0' <= c && c <= '9'
}

/// Value of a decimal digit character.
pub open spec fn digit_val(c: char) -> int {
    c as int - '0' as int
}

/// Value of the two digit characters at `i` and `i + 1`.
pub open spec fn two_digits(s: Seq<char>, i: int) -> int {
    digit_val(s[i]) * 10 + digit_val(s[i + 1])
}

/// Value of the four digit characters starting at `i`.
pub open spec fn four_digits(s: Seq<char>, i: int) -> int {
    two_digits(s, i) * 100 + two_digits(s, i + 2)
}

/// Decimal digit value of `c`, for digit characters only.
pub fn digit_of(c: char) -> (r: Option<u8>)
    ensures
        r is Some <==> is_digit(c),
        r is Some ==> r->Some_0 == digit_val(c) && r->Some_0 <= 9,
{
    if '0' <= c && c <= '9' {
        Some((c as u32 - 48) as u8)
    } else {
        None
    }
}

/// Shape of a `YYYY-MM-DD` date string.
pub open spec fn date_text_wf(s: Seq<char>) -> bool {
    &&& s.len() == 10
    &&& is_digit(s[0])
    &&& is_digit(s[1])
    &&& is_digit(s[2])
    &&& is_digit(s[3])
    &&& s[4] == '-'
    &&& is_digit(s[5])
    &&& is_digit(s[6])
    &&& s[7] == '-'
    &&& is_digit(s[8])
    &&& is_digit(s[9])
}

/// The date denoted by a `YYYY-MM-DD` string, if the string has that
/// shape and denotes a supported calendar day.
pub open spec fn spec_parse_date(s: Seq<char>) -> Option<Date> {
    if date_text_wf(s) {
        let y = four_digits(s, 0);
        let m = two_digits(s, 5);
        let d = two_digits(s, 8);
        if valid_ymd(y, m, d) {
            Some(Date { year: y as u32, ordinal: (days_before_month(y, m) + d) as u16 })
        } else {
            None
        }
    } else {
        None
    }
}

/// Parse a date in the fixed format `YYYY-MM-DD`.
pub fn parse_date(raw: &str) -> (r: Result<Date, DateParseError>)
    ensures
        spec_parse_date(raw@) is Some ==> r == Ok::<Date, DateParseError>(
            spec_parse_date(raw@)->Some_0,
        ),
        spec_parse_date(raw@) is None ==> r == Err::<Date, DateParseError>(
            DateParseError::BadFormat,
        ),
        r is Ok ==> r->Ok_0.wf(),
{
    if raw.unicode_len() != 10 {
        return Err(DateParseError::BadFormat);
    }
    if raw.get_char(4) != '-' || raw.get_char(7) != '-' {
        return Err(DateParseError::BadFormat);
    }
    let (d0, d1, d2, d3) = match (
        digit_of(raw.get_char(0)),
        digit_of(raw.get_char(1)),
        digit_of(raw.get_char(2)),
        digit_of(raw.get_char(3)),
    ) {
        (Some(a), Some(b), Some(c), Some(d)) => (a, b, c, d),
        _ => {
            return Err(DateParseError::BadFormat);
        },
    };
    let (m0, m1) = match (digit_of(raw.get_char(5)), digit_of(raw.get_char(6))) {
        (Some(a), Some(b)) => (a, b),
        _ => {
            return Err(DateParseError::BadFormat);
        },
    };
    let (y0, y1) = match (digit_of(raw.get_char(8)), digit_of(raw.get_char(9))) {
        (Some(a), Some(b)) => (a, b),
        _ => {
            return Err(DateParseError::BadFormat);
        },
    };
    let year: u32 = d0 as u32 * 1000 + d1 as u32 * 100 + d2 as u32 * 10 + d3 as u32;
    let month: u8 = m0 * 10 + m1;
    let day: u8 = y0 * 10 + y1;
    match Date::from_ymd(year, month, day) {
        Some(d) => Ok(d),
        None => Err(DateParseError::BadFormat),
    }
}

/// Shape of the time part `_HH:MM:SS` at positions 10 through 18.
pub open spec fn time_text_wf(s: Seq<char>) -> bool {
    &&& s.len() >= 19
    &&& s[10] == ' '
    &&& is_digit(s[11])
    &&& is_digit(s[12])
    &&& s[13] == ':'
    &&& is_digit(s[14])
    &&& is_digit(s[15])
    &&& s[16] == ':'
    &&& is_digit(s[17])
    &&& is_digit(s[18])
}

/// Shape of the optional fractional-second suffix: nothing, or a dot
/// followed by one to three digits.
pub open spec fn frac_text_wf(s: Seq<char>) -> bool {
    if s.len() == 19 {
        true
    } else if s.len() == 21 {
        s[19] == '.' && is_digit(s[20])
    } else if s.len() == 22 {
        s[19] == '.' && is_digit(s[20]) && is_digit(s[21])
    } else if s.len() == 23 {
        s[19] == '.' && is_digit(s[20]) && is_digit(s[21]) && is_digit(s[22])
    } else {
        false
    }
}

/// Milliseconds denoted by the fractional-second suffix.
pub open spec fn frac_ms(s: Seq<char>) -> int {
    if s.len() == 21 {
        digit_val(s[20]) * 100
    } else if s.len() == 22 {
        digit_val(s[20]) * 100 + digit_val(s[21]) * 10
    } else if s.len() == 23 {
        digit_val(s[20]) * 100 + digit_val(s[21]) * 10 + digit_val(s[22])
    } else {
        0
    }
}

/// The instant denoted by a `YYYY-MM-DD HH:MM:SS` string with an
/// optional `.` and one to three fractional digits, if the string has
/// that shape and all components are in range.
pub open spec fn spec_parse_datetime(s: Seq<char>) -> Option<DateTime> {
    if s.len() >= 19 && date_text_wf(s.subrange(0, 10)) && time_text_wf(s) && frac_text_wf(s) {
        let date = spec_parse_date(s.subrange(0, 10));
        let h = two_digits(s, 11);
        let mi = two_digits(s, 14);
        let sec = two_digits(s, 17);
        let ms = frac_ms(s);
        if date is Some && h < 24 && mi < 60 && sec < 60 {
            Some(
                DateTime {
                    date: date->Some_0,
                    time: Time {
                        hour: h as u8,
                        minute: mi as u8,
                        second: sec as u8,
                        millisecond: ms as u16,
                    },
                },
            )
        } else {
            None
        }
    } else {
        None
    }
}

/// Parse a timestamp in the fixed format `YYYY-MM-DD HH:MM:SS` with
/// an optional fraction of a second of one to three digits.
pub fn parse_datetime(raw: &str) -> (r: Result<DateTime, DateParseError>)
    ensures
        spec_parse_datetime(raw@) is Some ==> r == Ok::<DateTime, DateParseError>(
            spec_parse_datetime(raw@)->Some_0,
        ),
        spec_parse_datetime(raw@) is None ==> r == Err::<DateTime, DateParseError>(
            DateParseError::BadFormat,
        ),
        r is Ok ==> r->Ok_0.wf(),
{
    let n = raw.unicode_len();
    if n != 19 && n != 21 && n != 22 && n != 23 {
        return Err(DateParseError::BadFormat);
    }
    // Date part: parse the first ten characters.
    let date_part = raw.substring_char(0, 10);
    let date = match parse_date(date_part) {
        Ok(d) => d,
        Err(_) => {
            return Err(DateParseError::BadFormat);
        },
    };
    // Time part.
    if raw.get_char(10) != ' ' || raw.get_char(13) != ':' || raw.get_char(16) != ':' {
        return Err(DateParseError::BadFormat);
    }
    let (h0, h1) = match (digit_of(raw.get_char(11)), digit_of(raw.get_char(12))) {
        (Some(a), Some(b)) => (a, b),
        _ => {
            return Err(DateParseError::BadFormat);
        },
    };
    let (m0, m1) = match (digit_of(raw.get_char(14)), digit_of(raw.get_char(15))) {
        (Some(a), Some(b)) => (a, b),
        _ => {
            return Err(DateParseError::BadFormat);
        },
    };
    let (s0, s1) = match (digit_of(raw.get_char(17)), digit_of(raw.get_char(18))) {
        (Some(a), Some(b)) => (a, b),
        _ => {
            return Err(DateParseError::BadFormat);
        },
    };
    // Fractional part.
    let ms: u16 = if n == 19 {
        0
    } else {
        if raw.get_char(19) != '.' {
            return Err(DateParseError::BadFormat);
        }
        let f0 = match digit_of(raw.get_char(20)) {
            Some(a) => a,
            None => {
                return Err(DateParseError::BadFormat);
            },
        };
        if n == 21 {
            f0 as u16 * 100
        } else {
            let f1 = match digit_of(raw.get_char(21)) {
                Some(a) => a,
                None => {
                    return Err(DateParseError::BadFormat);
                },
            };
            if n == 22 {
                f0 as u16 * 100 + f1 as u16 * 10
            } else {
                let f2 = match digit_of(raw.get_char(22)) {
                    Some(a) => a,
                    None => {
                        return Err(DateParseError::BadFormat);
                    },
                };
                f0 as u16 * 100 + f1 as u16 * 10 + f2 as u16
            }
        }
    };
    let hour = h0 * 10 + h1;
    let minute = m0 * 10 + m1;
    let second = s0 * 10 + s1;
    match Time::new(hour, minute, second, ms) {
        Some(t) => Ok(DateTime { date, time: t }),
        None => Err(DateParseError::BadFormat),
    }
}

/// Map an HTTP status code to the request outcome: the two-hundreds
/// succeed, 401 and 500 have their own errors, and every other code
/// is reported unchecked.
pub fn check_codes(code: u16) -> (r: Result<(), RequestError>)
    ensures
        r == if 200 <= code < 300 {
            Ok::<(), RequestError>(())
        } else if code == 401 {
            Err::<(), RequestError>(RequestError::Unauthorized)
        } else if code == 500 {
            Err::<(), RequestError>(RequestError::InternalServerError)
        } else {
            Err::<(), RequestError>(RequestError::UncheckedCode(code))
        },
{
    if 200 <= code && code < 300 {
        return Ok(());
    }
    match code {
        401 => Err(RequestError::Unauthorized),
        500 => Err(RequestError::InternalServerError),
        _ => Err(RequestError::UncheckedCode(code)),
    }
}

/// The decimal digit characters of `n`, most significant first.
pub open spec fn dec_digits(n: int) -> Seq<char>
    decreases n,
{
    if n < 10 {
        seq![spec_digit_char(n)]
    } else {
        dec_digits(n / 10).push(spec_digit_char(n % 10))
    }
}

/// The character of a decimal digit value.
pub open spec fn spec_digit_char(d: int) -> char {
    if d == 0 {
        '0'
    } else if d == 1 {
        '1'
    } else if d == 2 {
        '2'
    } else if d == 3 {
        '3'
    } else if d == 4 {
        '4'
    } else if d == 5 {
        '5'
    } else if d == 6 {
        '6'
    } else if d == 7 {
        '7'
    } else if d == 8 {
        '8'
    } else {
        '9'
    }
}

/// The character of a decimal digit value, as a one-character text.
fn digit_str(d: u32) -> (r: &'static str)
    requires
        d < 10,
    ensures
        r@ =~= seq![spec_digit_char(d as int)],
{
    proof {
        reveal_strlit("0");
        reveal_strlit("1");
        reveal_strlit("2");
        reveal_strlit("3");
        reveal_strlit("4");
        reveal_strlit("5");
        reveal_strlit("6");
        reveal_strlit("7");
        reveal_strlit("8");
        reveal_strlit("9");
    }
    match d {
        0 => "0",
        1 => "1",
        2 => "2",
        3 => "3",
        4 => "4",
        5 => "5",
        6 => "6",
        7 => "7",
        8 => "8",
        _ => "9",
    }
}

/// Decimal text of `n`, without sign or padding.
pub fn u32_to_string(n: u32) -> (r: String)
    ensures
        r@ == dec_digits(n as int),
    decreases n,
{
    if n < 10 {
        String::from_str(digit_str(n))
    } else {
        let mut s = u32_to_string(n / 10);
        s.append(digit_str(n % 10));
        proof {
            assert(dec_digits(n as int) =~= dec_digits(n as int / 10).push(
                spec_digit_char(n as int % 10),
            ));
            assert(dec_digits(n as int / 10).push(spec_digit_char(n as int % 10)) =~= dec_digits(
                n as int / 10,
            ) + seq![spec_digit_char(n as int % 10)]);
        }
        s
    }
}

/// The url of an api route: the school url, the literal segment
/// `api`, the route path, the user-type segment and the organization
/// id, separated by slashes.
pub fn api(school_url: &str, path: &str, user_type: &UserType, org_id: u32) -> (r: String)
    ensures
        r@ == school_url@ + "/api/"@ + path@ + "/"@ + user_type.spec_str() + "/"@ + dec_digits(
            org_id as int,
        ),
{
    let mut s = String::from_str(school_url);
    s.append("/api/");
    s.append(path);
    s.append("/");
    let type_segment = user_type.to_string();
    s.append(type_segment.as_str());
    s.append("/");
    let id_segment = u32_to_string(org_id);
    s.append(id_segment.as_str());
    proof {
        assert(s@ =~= school_url@ + "/api/"@ + path@ + "/"@ + user_type.spec_str() + "/"@
            + dec_digits(org_id as int));
    }
    s
}

/// The url of a rest route: the base url followed by the literal
/// segment `rest/app` and the route path.
pub fn rest_url(base: &str, path: &str) -> (r: String)
    ensures
        r@ == base@ + "/rest/app/"@ + path@,
{
    let mut s = String::from_str(base);
    s.append("/rest/app/");
    s.append(path);
    proof {
        assert(s@ =~= base@ + "/rest/app/"@ + path@);
    }
    s
}

} // verus!
