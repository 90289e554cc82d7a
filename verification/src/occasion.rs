//! Occasions: recurring weekly timetable slots.
//!
//! A raw occasion record carries three textual week ranges — the base
//! recurrence, an exclusion override and an inclusion override — plus
//! a weekday code, two timestamps whose time-of-day components bound
//! the lesson, an identifier text, and display fields. Resolving a
//! record combines the three ranges through a boolean mask over the
//! weeks 1 through 53: base weeks are set, excluded weeks are then
//! cleared, and included weeks are set again last, so an included
//! week always wins. The mask's week 0 slot stays unset; week numbers
//! outside 1 through 53 in any of the three ranges are a hard error.

use vstd::prelude::*;

use crate::date::{Time, Weekday};
use crate::errors::ScheduleParseError;
use crate::utils::{parse_datetime, spec_parse_datetime};
use crate::uuid::{spec_parse_uuid, Uuid};
use crate::weeks::{spec_parse_weeks, WeekRange};

verus! {

/// An occasion record as it arrives on the wire, with plain fields.
#[derive(Debug, Clone, PartialEq, Eq)]
pub struct RawOccasion {
    pub id: u64,
    pub guid: String,
    pub start_time: String,
    pub end_time: String,
    pub subject_name: String,
    pub room_name: String,
    pub day_id: u8,
    pub weeks_string: String,
    pub excluding_weeks_string: String,
    pub including_weeks_string: String,
}

/// A resolved occasion: a single point in the week where a lesson
/// occurs, during certain weeks.
#[derive(Debug, Clone, PartialEq, Eq)]
pub struct Occasion {
    /// Numeric occasion id.
    pub id: u64,
    /// Identifier of the occasion.
    pub uuid: Uuid,
    /// Time of day when the lesson starts.
    pub start_time: Time,
    /// Time of day when the lesson ends.
    pub end_time: Time,
    /// Name of the subject.
    pub subject_name: String,
    /// The location where the lesson takes place.
    pub room_name: String,
    /// The day of the week when the lesson occurs.
    pub week_day: Weekday,
    /// The weeks when the lesson occurs, ascending and distinct.
    pub weeks: Vec<u8>,
}

/// Whether week `w` survives the three-pass mask: included weeks are
/// always in; otherwise base weeks are in unless excluded.
pub open spec fn week_selected(base: Seq<u8>, excl: Seq<u8>, incl: Seq<u8>, w: u8) -> bool {
    incl.contains(w) || (base.contains(w) && !excl.contains(w))
}

/// Every listed week lies between 1 and 53.
pub open spec fn weeks_in_range(s: Seq<u8>) -> bool {
    forall|i: int| 0 <= i < s.len() ==> 1 <= #[trigger] s[i] <= 53
}

/// Whether some position before `n` holds `w`.
spec fn in_prefix(s: Seq<u8>, n: int, w: int) -> bool {
    exists|j: int| 0 <= j < n && s[j] == w
}

/// Set the mask to `value` at every listed week.
fn apply_mask(mask: &mut Vec<bool>, weeks: &Vec<u8>, value: bool)
    requires
        old(mask)@.len() == 54,
        weeks_in_range(weeks@),
    ensures
        final(mask)@.len() == 54,
        forall|w: int|
            0 <= w < 54 ==> final(mask)@[w] == (if weeks@.contains(w as u8) {
                value
            } else {
                old(mask)@[w]
            }),
{
    let ghost mask0 = mask@;
    let mut i: usize = 0;
    while i < weeks.len()
        invariant
            mask@.len() == 54,
            mask0.len() == 54,
            weeks_in_range(weeks@),
            0 <= i <= weeks@.len(),
            forall|w: int|
                0 <= w < 54 ==> mask@[w] == (if in_prefix(weeks@, i as int, w) {
                    value
                } else {
                    mask0[w]
                }),
        decreases weeks@.len() - i,
    {
        let w = weeks[i];
        mask.set(w as usize, value);
        proof {
            assert forall|x: int| 0 <= x < 54 implies mask@[x] == (if in_prefix(
                weeks@,
                i + 1,
                x,
            ) {
                value
            } else {
                mask0[x]
            }) by {
                if x == w as int {
                    assert(0 <= i < i + 1 && weeks@[i as int] == x);
                    assert(in_prefix(weeks@, i + 1, x));
                } else {
                    if in_prefix(weeks@, i + 1, x) {
                        let j = choose|j: int| 0 <= j < i + 1 && weeks@[j] == x;
                        assert(0 <= j < i && weeks@[j] == x);
                        assert(in_prefix(weeks@, i as int, x));
                    }
                    if in_prefix(weeks@, i as int, x) {
                        let j = choose|j: int| 0 <= j < i && weeks@[j] == x;
                        assert(0 <= j < i + 1 && weeks@[j] == x);
                        assert(in_prefix(weeks@, i + 1, x));
                    }
                }
            }
        }
        i = i + 1;
    }
    proof {
        assert forall|w: int| 0 <= w < 54 implies mask@[w] == (if weeks@.contains(w as u8) {
            value
        } else {
            mask0[w]
        }) by {
            if weeks@.contains(w as u8) {
                let j = choose|j: int| 0 <= j < weeks@.len() && weeks@[j] == w as u8;
                assert(weeks@[j] == w);
                assert(in_prefix(weeks@, weeks@.len() as int, w));
            }
            if in_prefix(weeks@, weeks@.len() as int, w) {
                let j = choose|j: int| 0 <= j < weeks@.len() && weeks@[j] == w;
                assert(weeks@[j] == w as u8);
                assert(weeks@.contains(w as u8));
            }
        }
    }
}

/// Resolve the three week lists through the mask into the final week
/// list: ascending, distinct, and holding exactly the weeks that
/// survive the overrides.
pub fn resolve_weeks(base: &Vec<u8>, excl: &Vec<u8>, incl: &Vec<u8>) -> (weeks: Vec<u8>)
    requires
        weeks_in_range(base@),
        weeks_in_range(excl@),
        weeks_in_range(incl@),
    ensures
        forall|w: u8| #[trigger]
            weeks@.contains(w) <==> week_selected(base@, excl@, incl@, w),
        forall|i: int, j: int| 0 <= i < j < weeks@.len() ==> weeks@[i] < weeks@[j],
        weeks_in_range(weeks@),
{
    let mut mask: Vec<bool> = Vec::new();
    let mut k: usize = 0;
    while k < 54
        invariant
            mask@.len() == k,
            0 <= k <= 54,
            forall|w: int| 0 <= w < k ==> !(#[trigger] mask@[w]),
        decreases 54 - k,
    {
        mask.push(false);
        k = k + 1;
    }
    // Base recurrence.
    apply_mask(&mut mask, base, true);
    // Excluded weeks override the base.
    apply_mask(&mut mask, excl, false);
    // Included weeks are applied last and always win.
    apply_mask(&mut mask, incl, true);
    proof {
        assert forall|w: int| 0 <= w < 54 implies mask@[w] == week_selected(
            base@,
            excl@,
            incl@,
            w as u8,
        ) by {}
    }
    // Collect the surviving weeks, ascending.
    let mut weeks: Vec<u8> = Vec::new();
    let mut w: usize = 1;
    while w < 54
        invariant
            mask@.len() == 54,
            1 <= w <= 54,
            forall|x: int| 0 <= x < 54 ==> mask@[x] == week_selected(base@, excl@, incl@, x as u8),
            forall|i: int, j: int| 0 <= i < j < weeks@.len() ==> weeks@[i] < weeks@[j],
            forall|i: int| 0 <= i < weeks@.len() ==> 1 <= #[trigger] weeks@[i] < w,
            forall|v: u8| #[trigger]
                weeks@.contains(v) <==> (1 <= v < w && week_selected(base@, excl@, incl@, v)),
        decreases 54 - w,
    {
        if mask[w] {
            let ghost before = weeks@;
            weeks.push(w as u8);
            proof {
                assert forall|v: u8| #[trigger] weeks@.contains(v) <==> (1 <= v < w + 1
                    && week_selected(base@, excl@, incl@, v)) by {
                    if weeks@.contains(v) {
                        let j = choose|j: int| 0 <= j < weeks@.len() && weeks@[j] == v;
                        if j < before.len() {
                            assert(before[j] == v);
                            assert(before.contains(v));
                        } else {
                            assert(v == w as u8);
                        }
                    }
                    if 1 <= v < w + 1 && week_selected(base@, excl@, incl@, v) {
                        if v < w {
                            assert(before.contains(v));
                            let j = choose|j: int| 0 <= j < before.len() && before[j] == v;
                            assert(weeks@[j] == v);
                        } else {
                            assert(weeks@[weeks@.len() - 1] == v);
                        }
                    }
                }
            }
        } else {
            proof {
                assert forall|v: u8| #[trigger] weeks@.contains(v) <==> (1 <= v < w + 1
                    && week_selected(base@, excl@, incl@, v)) by {
                    if 1 <= v < w + 1 && week_selected(base@, excl@, incl@, v) {
                        assert(v != w as u8);
                    }
                }
            }
        }
        w = w + 1;
    }
    proof {
        assert forall|v: u8| #[trigger] weeks@.contains(v) <==> week_selected(
            base@,
            excl@,
            incl@,
            v,
        ) by {
            if week_selected(base@, excl@, incl@, v) {
                if incl@.contains(v) {
                    let j = choose|j: int| 0 <= j < incl@.len() && incl@[j] == v;
                    assert(1 <= incl@[j] <= 53);
                } else {
                    let j = choose|j: int| 0 <= j < base@.len() && base@[j] == v;
                    assert(1 <= base@[j] <= 53);
                }
            }
        }
    }
    weeks
}

/// Whether a raw record resolves to an occasion: all three week
/// ranges parse with weeks 1 through 53, the identifier parses, the
/// weekday code is 0 through 6, and both timestamps parse.
pub open spec fn raw_occasion_resolves(raw: RawOccasion) -> bool {
    &&& spec_parse_weeks(raw.weeks_string@) is Some
    &&& weeks_in_range(spec_parse_weeks(raw.weeks_string@)->Some_0)
    &&& spec_parse_weeks(raw.excluding_weeks_string@) is Some
    &&& weeks_in_range(spec_parse_weeks(raw.excluding_weeks_string@)->Some_0)
    &&& spec_parse_weeks(raw.including_weeks_string@) is Some
    &&& weeks_in_range(spec_parse_weeks(raw.including_weeks_string@)->Some_0)
    &&& spec_parse_uuid(raw.guid@) is Some
    &&& raw.day_id <= 6
    &&& spec_parse_datetime(raw.start_time@) is Some
    &&& spec_parse_datetime(raw.end_time@) is Some
}

impl Occasion {
    /// How a resolved occasion relates to its raw record.
    pub open spec fn matches_raw(self, raw: RawOccasion) -> bool {
        &&& self.id == raw.id
        &&& self.uuid.bytes@ == spec_parse_uuid(raw.guid@)->Some_0
        &&& self.start_time == spec_parse_datetime(raw.start_time@)->Some_0.time
        &&& self.end_time == spec_parse_datetime(raw.end_time@)->Some_0.time
        &&& self.subject_name@ == raw.subject_name@
        &&& self.room_name@ == raw.room_name@
        &&& self.week_day == Weekday::spec_from_index(raw.day_id as int)
        &&& (forall|w: u8| #[trigger]
            self.weeks@.contains(w) <==> week_selected(
                spec_parse_weeks(raw.weeks_string@)->Some_0,
                spec_parse_weeks(raw.excluding_weeks_string@)->Some_0,
                spec_parse_weeks(raw.including_weeks_string@)->Some_0,
                w,
            ))
        &&& (forall|i: int, j: int| 0 <= i < j < self.weeks@.len() ==> self.weeks@[i]
            < self.weeks@[j])
        &&& weeks_in_range(self.weeks@)
    }

    /// Resolve one raw record. Failures are reported in the order the
    /// record is examined: base, excluding and including week ranges
    /// (malformed text, then a week out of 1 through 53), then the
    /// identifier, the weekday code, the start timestamp and the end
    /// timestamp.
    pub fn try_from(value: RawOccasion) -> (r: Result<Occasion, ScheduleParseError>)
        ensures
            r is Ok <==> raw_occasion_resolves(value),
            r is Ok ==> r->Ok_0.matches_raw(value),
            r is Err ==> {
                let e = r->Err_0;
                let base = spec_parse_weeks(value.weeks_string@);
                let excl = spec_parse_weeks(value.excluding_weeks_string@);
                let incl = spec_parse_weeks(value.including_weeks_string@);
                if base is None {
                    e matches ScheduleParseError::WeekRangeError(s) && s@ == value.weeks_string@
                } else if !weeks_in_range(base->Some_0) {
                    e matches ScheduleParseError::WeekOutOfRange(w) && base->Some_0.contains(w)
                        && !(1 <= w <= 53)
                } else if excl is None {
                    e matches ScheduleParseError::WeekRangeError(s) && s@
                        == value.excluding_weeks_string@
                } else if !weeks_in_range(excl->Some_0) {
                    e matches ScheduleParseError::WeekOutOfRange(w) && excl->Some_0.contains(w)
                        && !(1 <= w <= 53)
                } else if incl is None {
                    e matches ScheduleParseError::WeekRangeError(s) && s@
                        == value.including_weeks_string@
                } else if !weeks_in_range(incl->Some_0) {
                    e matches ScheduleParseError::WeekOutOfRange(w) && incl->Some_0.contains(w)
                        && !(1 <= w <= 53)
                } else if spec_parse_uuid(value.guid@) is None {
                    e matches ScheduleParseError::UuidParseError(s) && s@ == value.guid@
                } else if value.day_id > 6 {
                    e == ScheduleParseError::DayOfWeekError(value.day_id)
                } else if spec_parse_datetime(value.start_time@) is None {
                    e matches ScheduleParseError::TimeParseError(s) && s@ == value.start_time@
                } else {
                    e matches ScheduleParseError::TimeParseError(s) && s@ == value.end_time@
                }
            },
    {
        let base = match Self::checked_weeks(&value.weeks_string) {
            Ok(v) => v,
            Err(e) => {
                return Err(e);
            },
        };
        let excl = match Self::checked_weeks(&value.excluding_weeks_string) {
            Ok(v) => v,
            Err(e) => {
                return Err(e);
            },
        };
        let incl = match Self::checked_weeks(&value.including_weeks_string) {
            Ok(v) => v,
            Err(e) => {
                return Err(e);
            },
        };
        let weeks = resolve_weeks(&base, &excl, &incl);

        let uuid = match Uuid::parse_str(value.guid.as_str()) {
            Ok(u) => u,
            Err(_) => {
                return Err(ScheduleParseError::UuidParseError(value.guid));
            },
        };
        let week_day = match Weekday::from_index(value.day_id) {
            Some(d) => d,
            None => {
                return Err(ScheduleParseError::DayOfWeekError(value.day_id));
            },
        };
        let start_time = match parse_datetime(value.start_time.as_str()) {
            Ok(dt) => dt.time,
            Err(_) => {
                return Err(ScheduleParseError::TimeParseError(value.start_time));
            },
        };
        let end_time = match parse_datetime(value.end_time.as_str()) {
            Ok(dt) => dt.time,
            Err(_) => {
                return Err(ScheduleParseError::TimeParseError(value.end_time));
            },
        };
        Ok(
            Occasion {
                id: value.id,
                uuid,
                start_time,
                end_time,
                subject_name: value.subject_name,
                room_name: value.room_name,
                week_day,
                weeks,
            },
        )
    }

    /// Parse one week-range text and insist its weeks lie in 1
    /// through 53.
    fn checked_weeks(text: &String) -> (r: Result<Vec<u8>, ScheduleParseError>)
        ensures
            r is Ok <==> (spec_parse_weeks(text@) is Some && weeks_in_range(
                spec_parse_weeks(text@)->Some_0,
            )),
            r is Ok ==> r->Ok_0@ == spec_parse_weeks(text@)->Some_0,
            r is Err ==> {
                let e = r->Err_0;
                if spec_parse_weeks(text@) is None {
                    e matches ScheduleParseError::WeekRangeError(s) && s@ == text@
                } else {
                    e matches ScheduleParseError::WeekOutOfRange(w) && spec_parse_weeks(
                        text@,
                    )->Some_0.contains(w) && !(1 <= w <= 53)
                }
            },
    {
        let range = WeekRange::from(text.as_str());
        let list = match range.collect_weeks() {
            Ok(v) => v,
            Err(_) => {
                return Err(ScheduleParseError::WeekRangeError(range.input));
            },
        };
        let mut i: usize = 0;
        while i < list.len()
            invariant
                spec_parse_weeks(text@) is Some,
                list@ == spec_parse_weeks(text@)->Some_0,
                0 <= i <= list@.len(),
                forall|j: int| 0 <= j < i ==> 1 <= #[trigger] list@[j] <= 53,
            decreases list@.len() - i,
        {
            let w = list[i];
            if w < 1 || w > 53 {
                proof {
                    assert(list@[i as int] == w);
                    assert(list@.contains(w));
                    assert(!weeks_in_range(list@));
                    assert(spec_parse_weeks(text@)->Some_0.contains(w));
                }
                return Err(ScheduleParseError::WeekOutOfRange(w));
            }
            i = i + 1;
        }
        Ok(list)
    }
}

} // verus!
