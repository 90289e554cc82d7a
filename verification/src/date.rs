//! Calendar dates and times of day.
//!
//! Dates are proleptic-Gregorian, held as a year and a 1-based day of
//! the year, and are supported for the years 1 through 9999. The
//! day-count (`rd`) model numbers every supported day consecutively,
//! with day 1 being the first of January of year 1 — a Monday — which
//! makes weekday arithmetic a matter of remainders modulo 7.

use vstd::prelude::*;

verus! {

/// Leap years: every fourth year, except centuries off the 400 cycle.
pub open spec fn is_leap_year(y: int) -> bool {
    (y % 4 == 0 && y % 100 != 0) || y % 400 == 0
}

/// Number of days in year `y`.
pub open spec fn year_days(y: int) -> int {
    if is_leap_year(y) {
        366
    } else {
        365
    }
}

/// Number of days in all years strictly before year `y`.
pub open spec fn days_before_year(y: int) -> int {
    365 * (y - 1) + (y - 1) / 4 - (y - 1) / 100 + (y - 1) / 400
}

/// Number of days in month `m` of year `y` (months are 1-based).
pub open spec fn month_len(y: int, m: int) -> int {
    if m == 2 {
        if is_leap_year(y) {
            29
        } else {
            28
        }
    } else if m == 4 || m == 6 || m == 9 || m == 11 {
        30
    } else {
        31
    }
}

/// Number of days in year `y` that lie before month `m`.
pub open spec fn days_before_month(y: int, m: int) -> int
    decreases m,
{
    if m <= 1 {
        0
    } else {
        days_before_month(y, m - 1) + month_len(y, m - 1)
    }
}

/// A triple (year, month, day) denotes a supported calendar day.
pub open spec fn valid_ymd(y: int, m: int, d: int) -> bool {
    1 <= y <= 9999 && 1 <= m <= 12 && 1 <= d <= month_len(y, m)
}

/// A calendar date: a year and a 1-based ordinal day within it.
#[derive(Clone, Copy, Debug, PartialEq, Eq, Structural)]
pub struct Date {
    pub year: u32,
    pub ordinal: u16,
}

/// A day of the week.
#[derive(Clone, Copy, Debug, PartialEq, Eq, Structural)]
pub enum Weekday {
    Mon,
    Tue,
    Wed,
    Thu,
    Fri,
    Sat,
    Sun,
}

impl Weekday {
    /// Position within a Monday-started week: Monday is 0, Sunday is 6.
    pub open spec fn spec_index(self) -> int {
        match self {
            Weekday::Mon => 0,
            Weekday::Tue => 1,
            Weekday::Wed => 2,
            Weekday::Thu => 3,
            Weekday::Fri => 4,
            Weekday::Sat => 5,
            Weekday::Sun => 6,
        }
    }

    /// The weekday at position `i` of a Monday-started week.
    pub open spec fn spec_from_index(i: int) -> Weekday {
        if i == 0 {
            Weekday::Mon
        } else if i == 1 {
            Weekday::Tue
        } else if i == 2 {
            Weekday::Wed
        } else if i == 3 {
            Weekday::Thu
        } else if i == 4 {
            Weekday::Fri
        } else if i == 5 {
            Weekday::Sat
        } else {
            Weekday::Sun
        }
    }

    /// Position within a Monday-started week: Monday is 0, Sunday is 6.
    pub fn index(&self) -> (i: u8)
        ensures
            i == self.spec_index(),
    {
        match self {
            Weekday::Mon => 0,
            Weekday::Tue => 1,
            Weekday::Wed => 2,
            Weekday::Thu => 3,
            Weekday::Fri => 4,
            Weekday::Sat => 5,
            Weekday::Sun => 6,
        }
    }

    /// Decode a weekday from its position; positions above 6 denote
    /// no weekday.
    pub fn from_index(i: u8) -> (r: Option<Weekday>)
        ensures
            i <= 6 ==> r == Some(Weekday::spec_from_index(i as int)),
            i > 6 ==> r is None,
    {
        match i {
            0 => Some(Weekday::Mon),
            1 => Some(Weekday::Tue),
            2 => Some(Weekday::Wed),
            3 => Some(Weekday::Thu),
            4 => Some(Weekday::Fri),
            5 => Some(Weekday::Sat),
            6 => Some(Weekday::Sun),
            _ => None,
        }
    }
}

/// Whether year `y` is a leap year.
pub fn leap_year(y: u32) -> (r: bool)
    ensures
        r == is_leap_year(y as int),
{
    (y % 4 == 0 && y % 100 != 0) || y % 400 == 0
}

/// Number of days in year `y`.
pub fn length_of_year(y: u32) -> (r: u16)
    ensures
        r == year_days(y as int),
{
    if leap_year(y) {
        366
    } else {
        365
    }
}

/// Number of days in month `m` of year `y`.
pub fn length_of_month(y: u32, m: u8) -> (r: u8)
    requires
        1 <= m <= 12,
    ensures
        r == month_len(y as int, m as int),
{
    if m == 2 {
        if leap_year(y) {
            29
        } else {
            28
        }
    } else if m == 4 || m == 6 || m == 9 || m == 11 {
        30
    } else {
        31
    }
}

/// Number of days of year `y` that lie before month `m`.
pub fn month_offset(y: u32, m: u8) -> (r: u16)
    requires
        1 <= m <= 12,
    ensures
        r == days_before_month(y as int, m as int),
{
    let base: u16 = match m {
        1 => 0,
        2 => 31,
        3 => 59,
        4 => 90,
        5 => 120,
        6 => 151,
        7 => 181,
        8 => 212,
        9 => 243,
        10 => 273,
        11 => 304,
        _ => 334,
    };
    let adjust: u16 = if m >= 3 && leap_year(y) {
        1
    } else {
        0
    };
    proof {
        reveal_with_fuel(days_before_month, 13);
    }
    base + adjust
}

/// One step of the cumulative day count: passing a year adds that
/// year's length.
pub proof fn lemma_days_before_year_step(y: int)
    requires
        1 <= y,
    ensures
        days_before_year(y + 1) == days_before_year(y) + year_days(y),
{
    lemma_div_step(y, 4);
    lemma_div_step(y, 100);
    lemma_div_step(y, 400);
    if y % 400 == 0 {
        lemma_mod_divides(y, 400, 100);
        lemma_mod_divides(y, 400, 4);
    }
    if y % 100 == 0 {
        lemma_mod_divides(y, 100, 4);
    }
}

/// Dividing by `k` counts multiples of `k`: going from `y - 1` to `y`
/// raises the quotient exactly when `y` is a multiple.
proof fn lemma_div_step(y: int, k: int)
    requires
        1 <= y,
        2 <= k,
    ensures
        y / k == (y - 1) / k + if y % k == 0 {
            1int
        } else {
            0int
        },
{
    let q = y / k;
    let r = y % k;
    vstd::arithmetic::div_mod::lemma_fundamental_div_mod(y, k);
    if r == 0 {
        assert(y - 1 == (q - 1) * k + (k - 1)) by (nonlinear_arith)
            requires
                y == k * q,
        ;
        vstd::arithmetic::div_mod::lemma_fundamental_div_mod_converse(y - 1, k, q - 1, k - 1);
    } else {
        vstd::arithmetic::div_mod::lemma_remainder_lower(y, k);
        vstd::arithmetic::div_mod::lemma_fundamental_div_mod_converse(y - 1, k, q, r - 1);
    }
}

/// A multiple of `a * b` is a multiple of `b`.
proof fn lemma_mod_divides(y: int, ab: int, b: int)
    requires
        y % ab == 0,
        b > 0,
        ab > 0,
        ab % b == 0,
    ensures
        y % b == 0,
{
    vstd::arithmetic::div_mod::lemma_fundamental_div_mod(y, ab);
    vstd::arithmetic::div_mod::lemma_fundamental_div_mod(ab, b);
    let q = y / ab;
    let p = ab / b;
    assert(y == (q * p) * b) by (nonlinear_arith)
        requires
            y == ab * q,
            ab == b * p,
    ;
    vstd::arithmetic::div_mod::lemma_mod_multiples_basic(q * p, b);
}

/// The cumulative day count grows with the year, by at least 365 days
/// per year.
pub proof fn lemma_days_before_year_monotonic(y1: int, y2: int)
    requires
        1 <= y1 <= y2,
    ensures
        days_before_year(y2) >= days_before_year(y1) + 365 * (y2 - y1),
    decreases y2 - y1,
{
    if y1 < y2 {
        lemma_days_before_year_monotonic(y1, y2 - 1);
        lemma_days_before_year_step(y2 - 1);
    }
}

/// The months of a year account for all of its days.
pub proof fn lemma_months_fill_year(y: int)
    ensures
        days_before_month(y, 13) == year_days(y),
{
    reveal_with_fuel(days_before_month, 14);
}

/// Days-before-month counts grow with the month.
pub proof fn lemma_days_before_month_monotonic(y: int, m1: int, m2: int)
    requires
        m1 <= m2 <= 13,
    ensures
        days_before_month(y, m1) <= days_before_month(y, m2),
    decreases m2 - m1,
{
    if m1 < m2 {
        lemma_days_before_month_monotonic(y, m1, m2 - 1);
    }
}

impl Date {
    /// A date is well formed when its year is supported and its
    /// ordinal day exists in that year.
    pub open spec fn wf(self) -> bool {
        1 <= self.year <= 9999 && 1 <= self.ordinal <= year_days(self.year as int)
    }

    /// Day count of this date: days since the day before the first
    /// supported day. The first of January of year 1 has count 1.
    pub open spec fn rd(self) -> int {
        days_before_year(self.year as int) + self.ordinal as int
    }

    /// Weekday position of this date (Monday is 0): day count 1 is a
    /// Monday, so positions repeat with period 7 from there.
    pub open spec fn spec_weekday_index(self) -> int {
        (self.rd() - 1) % 7
    }

    /// Build a date from a year, month and day. Returns the date
    /// exactly when the triple denotes a supported calendar day.
    pub fn from_ymd(year: u32, month: u8, day: u8) -> (r: Option<Date>)
        ensures
            r is Some <==> valid_ymd(year as int, month as int, day as int),
            r is Some ==> {
                let d = r->Some_0;
                &&& d.wf()
                &&& d.year == year
                &&& d.ordinal == days_before_month(year as int, month as int) + day
            },
    {
        if 1 <= year && year <= 9999 && 1 <= month && month <= 12 && 1 <= day && day
            <= length_of_month(year, month) {
            let offset = month_offset(year, month);
            proof {
                lemma_days_before_month_monotonic(year as int, month as int + 1, 13);
                lemma_months_fill_year(year as int);
            }
            Some(Date { year, ordinal: offset + day as u16 })
        } else {
            None
        }
    }

    /// Whether this date is well formed, decidably.
    pub fn well_formed(&self) -> (r: bool)
        ensures
            r == self.wf(),
    {
        1 <= self.year && self.year <= 9999 && 1 <= self.ordinal && self.ordinal
            <= length_of_year(self.year)
    }

    /// Day count of this date as a machine integer.
    pub fn rd_value(&self) -> (r: u64)
        requires
            self.wf(),
        ensures
            r == self.rd(),
    {
        let y = (self.year - 1) as u64;
        365 * y + y / 4 - y / 100 + y / 400 + self.ordinal as u64
    }

    /// Weekday position of this date (Monday is 0).
    pub fn weekday_index(&self) -> (r: u8)
        requires
            self.wf(),
        ensures
            r == self.spec_weekday_index(),
            r < 7,
    {
        let rd = self.rd_value();
        ((rd - 1) % 7) as u8
    }

    /// Weekday of this date.
    pub fn weekday(&self) -> (r: Weekday)
        requires
            self.wf(),
        ensures
            r == Weekday::spec_from_index(self.spec_weekday_index()),
    {
        let i = self.weekday_index();
        match Weekday::from_index(i) {
            Some(w) => w,
            None => Weekday::Mon,  // unreachable: the index is below 7
        }
    }

    /// The date `n` days later. Returns no date exactly when the
    /// result would lie beyond the supported years.
    pub fn add_days(self, n: u16) -> (r: Option<Date>)
        requires
            self.wf(),
        ensures
            r is Some ==> {
                let d = r->Some_0;
                &&& d.wf()
                &&& d.rd() == self.rd() + n
            },
            r is None ==> self.rd() + n > days_before_year(10000),
    {
        let mut year: u32 = self.year;
        let mut ord: u32 = self.ordinal as u32 + n as u32;
        while ord > length_of_year(year) as u32
            invariant
                1 <= year <= 9999,
                1 <= ord,
                days_before_year(year as int) + ord == self.rd() + n,
                ord <= u16::MAX as u32 + 366,
            decreases ord,
        {
            proof {
                lemma_days_before_year_step(year as int);
            }
            if year == 9999 {
                return None;
            }
            ord = ord - length_of_year(year) as u32;
            year = year + 1;
        }
        Some(Date { year, ordinal: ord as u16 })
    }

    /// The date `n` days earlier. Returns no date exactly when the
    /// result would lie before the first supported day.
    pub fn sub_days(self, n: u16) -> (r: Option<Date>)
        requires
            self.wf(),
        ensures
            r is Some ==> {
                let d = r->Some_0;
                &&& d.wf()
                &&& d.rd() == self.rd() - n
            },
            r is None ==> self.rd() - n < 1,
    {
        let mut year: u32 = self.year;
        let mut ord: u32 = self.ordinal as u32;
        let mut rem: u32 = n as u32;
        while rem >= ord
            invariant
                1 <= year <= 9999,
                1 <= ord <= year_days(year as int),
                days_before_year(year as int) + ord - rem == self.rd() - n,
            decreases rem,
        {
            if year == 1 {
                return None;
            }
            proof {
                lemma_days_before_year_step(year as int - 1);
            }
            rem = rem - ord;
            year = year - 1;
            ord = length_of_year(year) as u32;
        }
        Some(Date { year, ordinal: (ord - rem) as u16 })
    }

    /// The Monday on or before this date. Returns no date only when
    /// that Monday would lie before the first supported day.
    pub fn monday_of_week(self) -> (r: Option<Date>)
        requires
            self.wf(),
        ensures
            r is Some ==> {
                let d = r->Some_0;
                &&& d.wf()
                &&& d.rd() == self.rd() - self.spec_weekday_index()
                &&& d.spec_weekday_index() == 0
            },
            r is None ==> self.rd() - self.spec_weekday_index() < 1,
    {
        let w = self.weekday_index();
        let r = self.sub_days(w as u16);
        proof {
            if r is Some {
                let d = r->Some_0;
                vstd::arithmetic::div_mod::lemma_fundamental_div_mod(self.rd() - 1, 7);
                vstd::arithmetic::div_mod::lemma_mod_multiples_basic((self.rd() - 1) / 7, 7);
            }
        }
        r
    }
}

/// For a well-formed date, the day count locates the year: it lies
/// strictly after the days before the year and within the year.
pub proof fn lemma_rd_year_bounds(d: Date)
    requires
        d.wf(),
    ensures
        days_before_year(d.year as int) < d.rd() <= days_before_year(d.year as int + 1),
{
    lemma_days_before_year_step(d.year as int);
}

/// A well-formed date whose day count falls within year `y` has year
/// `y`.
pub proof fn lemma_year_of_rd(d: Date, y: int)
    requires
        d.wf(),
        1 <= y <= 9999,
        days_before_year(y) < d.rd() <= days_before_year(y + 1),
    ensures
        d.year == y,
{
    lemma_rd_year_bounds(d);
    if d.year < y {
        lemma_days_before_year_monotonic(d.year as int + 1, y);
    }
    if d.year > y {
        lemma_days_before_year_monotonic(y + 1, d.year as int);
    }
}

/// Well-formed dates with the same day count are the same date.
pub proof fn lemma_rd_injective(d1: Date, d2: Date)
    requires
        d1.wf(),
        d2.wf(),
        d1.rd() == d2.rd(),
    ensures
        d1 == d2,
{
    lemma_rd_year_bounds(d1);
    lemma_year_of_rd(d2, d1.year as int);
}

/// A time of day with millisecond precision.
#[derive(Clone, Copy, Debug, PartialEq, Eq, Structural)]
pub struct Time {
    pub hour: u8,
    pub minute: u8,
    pub second: u8,
    pub millisecond: u16,
}

impl Time {
    /// All components within their ranges.
    pub open spec fn wf(self) -> bool {
        self.hour < 24 && self.minute < 60 && self.second < 60 && self.millisecond < 1000
    }

    /// Milliseconds elapsed since midnight.
    pub open spec fn spec_ms_of_day(self) -> int {
        ((self.hour as int * 60 + self.minute as int) * 60 + self.second as int) * 1000
            + self.millisecond as int
    }

    /// Build a time of day. Returns the time exactly when every
    /// component is in range.
    pub fn new(hour: u8, minute: u8, second: u8, millisecond: u16) -> (r: Option<Time>)
        ensures
            r is Some <==> (hour < 24 && minute < 60 && second < 60 && millisecond < 1000),
            r is Some ==> r->Some_0 == (Time { hour, minute, second, millisecond }),
    {
        if hour < 24 && minute < 60 && second < 60 && millisecond < 1000 {
            Some(Time { hour, minute, second, millisecond })
        } else {
            None
        }
    }

    /// Whether this time of day is well formed, decidably.
    pub fn well_formed(&self) -> (r: bool)
        ensures
            r == self.wf(),
    {
        self.hour < 24 && self.minute < 60 && self.second < 60 && self.millisecond < 1000
    }

    /// Milliseconds elapsed since midnight.
    pub fn ms_of_day(&self) -> (r: u32)
        requires
            self.wf(),
        ensures
            r == self.spec_ms_of_day(),
    {
        ((self.hour as u32 * 60 + self.minute as u32) * 60 + self.second as u32) * 1000
            + self.millisecond as u32
    }
}

/// A calendar date together with a time of day.
#[derive(Clone, Copy, Debug, PartialEq, Eq, Structural)]
pub struct DateTime {
    pub date: Date,
    pub time: Time,
}

impl DateTime {
    pub open spec fn wf(self) -> bool {
        self.date.wf() && self.time.wf()
    }

    /// Milliseconds since the midnight opening day count 1; orders
    /// instants chronologically.
    pub open spec fn spec_ms_value(self) -> int {
        (self.date.rd() - 1) * 86400000 + self.time.spec_ms_of_day()
    }

    /// Whether this instant is well formed, decidably.
    pub fn well_formed(&self) -> (r: bool)
        ensures
            r == self.wf(),
    {
        self.date.well_formed() && self.time.well_formed()
    }

    /// Milliseconds since the midnight opening day count 1.
    pub fn ms_value(&self) -> (r: u64)
        requires
            self.wf(),
        ensures
            r == self.spec_ms_value(),
    {
        proof {
            lemma_days_before_year_monotonic(1, self.date.year as int);
            lemma_days_before_year_monotonic(self.date.year as int, 10000);
            assert((self.date.rd() - 1) * 86400000 <= 3652058 * 86400000) by (nonlinear_arith)
                requires
                    0 <= self.date.rd() - 1 <= 3652058,
            ;
        }
        (self.date.rd_value() - 1) * 86400000 + self.time.ms_of_day() as u64
    }
}

} // verus!
