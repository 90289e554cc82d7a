//! The schedule: a rolling 53-week calendar of lessons.
//!
//! A schedule is built from an anchor date. Week slot `i` stands for
//! week number `i + 1` of whichever year is in play: an anchor in the
//! first half of its year pairs that year's front 26 weeks with the
//! back 27 weeks of the previous year, and an anchor in the second
//! half pairs the next year's front 26 weeks with this year's back 27.
//! Each slot is an empty week anchored at the Monday of the week that
//! holds the seed date — the year's first day moved forward seven days
//! per slot. Populating the schedule walks the occasions in order and
//! appends one lesson per recurring week onto the day the occasion
//! names; week numbers without a slot are skipped and reported, never
//! fatal.

use vstd::prelude::*;

use crate::date::{days_before_year, Date, Time, Weekday};

pub use crate::occasion::{Occasion, RawOccasion};

verus! {

/// A concrete lesson instance placed on a day.
#[derive(Debug, Clone, PartialEq, Eq)]
pub struct Lesson {
    pub start: Time,
    pub end: Time,
    pub name: String,
    pub room: String,
}

/// What identifies a lesson: its times and the views of its texts.
pub open spec fn lesson_view(l: Lesson) -> (Time, Time, Seq<char>, Seq<char>) {
    (l.start, l.end, l.name@, l.room@)
}

/// The lesson an occasion gives rise to, by its identifying parts.
pub open spec fn occasion_lesson_view(o: Occasion) -> (Time, Time, Seq<char>, Seq<char>) {
    (o.start_time, o.end_time, o.subject_name@, o.room_name@)
}

impl Lesson {
    /// The lesson an occasion gives rise to.
    pub fn from(value: &Occasion) -> (r: Lesson)
        ensures
            lesson_view(r) == occasion_lesson_view(*value),
    {
        Lesson {
            start: value.start_time,
            end: value.end_time,
            name: value.subject_name.clone(),
            room: value.room_name.clone(),
        }
    }
}

/// One calendar day and its lessons, in insertion order.
#[derive(Debug, Clone, PartialEq, Eq)]
pub struct ScheduleDay {
    pub date: Date,
    pub lessons: Vec<Lesson>,
}

impl ScheduleDay {
    /// An empty day on the given date.
    pub fn new(date: Date) -> (r: ScheduleDay)
        ensures
            r.date == date,
            r.lessons@ == Seq::<Lesson>::empty(),
    {
        ScheduleDay { date, lessons: Vec::new() }
    }
}

/// The (year, week-number) identity of an ISO week.
#[derive(Debug, Clone, Copy, PartialEq, Eq, Structural)]
pub struct IsoWeek {
    pub year: u32,
    pub number: u8,
}

/// One ISO week: its identity and one day per weekday.
#[derive(Debug, Clone, PartialEq, Eq)]
pub struct ScheduleWeek {
    pub week: IsoWeek,
    pub monday: ScheduleDay,
    pub tuesday: ScheduleDay,
    pub wednesday: ScheduleDay,
    pub thursday: ScheduleDay,
    pub friday: ScheduleDay,
    pub saturday: ScheduleDay,
    pub sunday: ScheduleDay,
}

impl ScheduleWeek {
    /// The day of this week on the given weekday.
    pub open spec fn spec_day(self, day: Weekday) -> ScheduleDay {
        match day {
            Weekday::Mon => self.monday,
            Weekday::Tue => self.tuesday,
            Weekday::Wed => self.wednesday,
            Weekday::Thu => self.thursday,
            Weekday::Fri => self.friday,
            Weekday::Sat => self.saturday,
            Weekday::Sun => self.sunday,
        }
    }

    /// The week's days carry consecutive well-formed dates from the
    /// Monday with day count `mrd` on, and its identity is the ISO
    /// identity of the week holding its Thursday: that Thursday's
    /// year, and its ordinal rounded up to a count of sevens.
    pub open spec fn dates_at(self, mrd: int) -> bool {
        &&& self.monday.date.wf() && self.monday.date.rd() == mrd
        &&& self.tuesday.date.wf() && self.tuesday.date.rd() == mrd + 1
        &&& self.wednesday.date.wf() && self.wednesday.date.rd() == mrd + 2
        &&& self.thursday.date.wf() && self.thursday.date.rd() == mrd + 3
        &&& self.friday.date.wf() && self.friday.date.rd() == mrd + 4
        &&& self.saturday.date.wf() && self.saturday.date.rd() == mrd + 5
        &&& self.sunday.date.wf() && self.sunday.date.rd() == mrd + 6
        &&& self.week.year == self.thursday.date.year
        &&& self.week.number == (self.thursday.date.ordinal + 6) / 7
    }

    /// Every day of the week is free of lessons.
    pub open spec fn days_empty(self) -> bool {
        &&& self.monday.lessons@ == Seq::<Lesson>::empty()
        &&& self.tuesday.lessons@ == Seq::<Lesson>::empty()
        &&& self.wednesday.lessons@ == Seq::<Lesson>::empty()
        &&& self.thursday.lessons@ == Seq::<Lesson>::empty()
        &&& self.friday.lessons@ == Seq::<Lesson>::empty()
        &&& self.saturday.lessons@ == Seq::<Lesson>::empty()
        &&& self.sunday.lessons@ == Seq::<Lesson>::empty()
    }

    /// Create an empty week: the Monday on or before `start` opens
    /// it, and its seven days follow consecutively. Returns no week
    /// only when those days would leave the supported years.
    pub fn new_empty(start: Date) -> (r: Option<ScheduleWeek>)
        requires
            start.wf(),
        ensures
            r is Some ==> {
                let w = r->Some_0;
                &&& w.dates_at(monday_rd_of(start.rd()))
                &&& w.days_empty()
            },
            r is None ==> monday_rd_of(start.rd()) < 1 || monday_rd_of(start.rd()) + 6
                > days_before_year(10000),
    {
        let monday = match start.monday_of_week() {
            Some(d) => d,
            None => {
                return None;
            },
        };
        let tuesday = match monday.add_days(1) {
            Some(d) => d,
            None => {
                return None;
            },
        };
        let wednesday = match monday.add_days(2) {
            Some(d) => d,
            None => {
                return None;
            },
        };
        let thursday = match monday.add_days(3) {
            Some(d) => d,
            None => {
                return None;
            },
        };
        let friday = match monday.add_days(4) {
            Some(d) => d,
            None => {
                return None;
            },
        };
        let saturday = match monday.add_days(5) {
            Some(d) => d,
            None => {
                return None;
            },
        };
        let sunday = match monday.add_days(6) {
            Some(d) => d,
            None => {
                proof {
                    crate::date::lemma_days_before_year_monotonic(1, 10000);
                }
                return None;
            },
        };
        proof {
            crate::date::lemma_rd_year_bounds(sunday);
            crate::date::lemma_days_before_year_monotonic(sunday.year as int + 1, 10000);
        }
        let week = IsoWeek { year: thursday.year, number: ((thursday.ordinal + 6) / 7) as u8 };
        Some(
            ScheduleWeek {
                week,
                monday: ScheduleDay::new(monday),
                tuesday: ScheduleDay::new(tuesday),
                wednesday: ScheduleDay::new(wednesday),
                thursday: ScheduleDay::new(thursday),
                friday: ScheduleDay::new(friday),
                saturday: ScheduleDay::new(saturday),
                sunday: ScheduleDay::new(sunday),
            },
        )
    }

    /// Look up the day on the given weekday.
    pub fn get_day(&self, day: Weekday) -> (r: &ScheduleDay)
        ensures
            *r == self.spec_day(day),
    {
        match day {
            Weekday::Mon => &self.monday,
            Weekday::Tue => &self.tuesday,
            Weekday::Wed => &self.wednesday,
            Weekday::Thu => &self.thursday,
            Weekday::Fri => &self.friday,
            Weekday::Sat => &self.saturday,
            Weekday::Sun => &self.sunday,
        }
    }

    /// Append one lesson to the day on the given weekday.
    fn push_lesson(&mut self, day: Weekday, lesson: Lesson)
        ensures
            week_dates_eq(*final(self), *old(self)),
            final(self).spec_day(day).lessons@ == old(self).spec_day(day).lessons@.push(lesson),
            forall|d: Weekday|
                d != day ==> #[trigger] final(self).spec_day(d) == old(self).spec_day(d),
    {
        match day {
            Weekday::Mon => self.monday.lessons.push(lesson),
            Weekday::Tue => self.tuesday.lessons.push(lesson),
            Weekday::Wed => self.wednesday.lessons.push(lesson),
            Weekday::Thu => self.thursday.lessons.push(lesson),
            Weekday::Fri => self.friday.lessons.push(lesson),
            Weekday::Sat => self.saturday.lessons.push(lesson),
            Weekday::Sun => self.sunday.lessons.push(lesson),
        }
    }
}

/// Two weeks share their identity and all seven dates.
pub open spec fn week_dates_eq(a: ScheduleWeek, b: ScheduleWeek) -> bool {
    &&& a.week == b.week
    &&& a.monday.date == b.monday.date
    &&& a.tuesday.date == b.tuesday.date
    &&& a.wednesday.date == b.wednesday.date
    &&& a.thursday.date == b.thursday.date
    &&& a.friday.date == b.friday.date
    &&& a.saturday.date == b.saturday.date
    &&& a.sunday.date == b.sunday.date
}

/// The identifying views of a lesson sequence, in order.
pub open spec fn views_of(lessons: Seq<Lesson>) -> Seq<(Time, Time, Seq<char>, Seq<char>)> {
    Seq::new(lessons.len(), |i: int| lesson_view(lessons[i]))
}

/// How often week `w` occurs in a week list.
pub open spec fn occ_count(weeks: Seq<u8>, w: u8) -> nat
    decreases weeks.len(),
{
    if weeks.len() == 0 {
        0
    } else {
        occ_count(weeks.drop_last(), w) + (if weeks.last() == w {
            1nat
        } else {
            0nat
        })
    }
}

/// The lessons one occasion places on the day at `slot` and `day`:
/// one copy of its lesson per occurrence of week `slot + 1`, on the
/// occasion's weekday only.
pub open spec fn contribution(o: Occasion, slot: int, day: Weekday) -> Seq<
    (Time, Time, Seq<char>, Seq<char>),
> {
    if o.week_day == day {
        Seq::new(occ_count(o.weeks@, (slot + 1) as u8), |k: int| occasion_lesson_view(o))
    } else {
        Seq::empty()
    }
}

/// Like [`contribution`], counting only the first `k` weeks of the
/// occasion.
pub open spec fn contribution_upto(o: Occasion, k: int, slot: int, day: Weekday) -> Seq<
    (Time, Time, Seq<char>, Seq<char>),
> {
    if o.week_day == day {
        Seq::new(
            occ_count(o.weeks@.subrange(0, k), (slot + 1) as u8),
            |j: int| occasion_lesson_view(o),
        )
    } else {
        Seq::empty()
    }
}

/// The lessons a list of occasions places on the day at `slot` and
/// `day`, in occasion order.
pub open spec fn placed_views(occs: Seq<Occasion>, slot: int, day: Weekday) -> Seq<
    (Time, Time, Seq<char>, Seq<char>),
>
    decreases occs.len(),
{
    if occs.len() == 0 {
        Seq::empty()
    } else {
        placed_views(occs.drop_last(), slot, day) + contribution(occs.last(), slot, day)
    }
}

/// The (occasion id, week) pairs one occasion's out-of-calendar weeks
/// give rise to, in week order.
pub open spec fn occ_skips(weeks: Seq<u8>, id: u64) -> Seq<(u64, u8)>
    decreases weeks.len(),
{
    if weeks.len() == 0 {
        Seq::empty()
    } else {
        occ_skips(weeks.drop_last(), id) + (if !(1 <= weeks.last() <= 53) {
            seq![(id, weeks.last())]
        } else {
            Seq::empty()
        })
    }
}

/// The (occasion id, week) pairs a list of occasions' out-of-calendar
/// weeks give rise to, in occasion order.
pub open spec fn skipped_views(occs: Seq<Occasion>) -> Seq<(u64, u8)>
    decreases occs.len(),
{
    if occs.len() == 0 {
        Seq::empty()
    } else {
        skipped_views(occs.drop_last()) + occ_skips(occs.last().weeks@, occs.last().id)
    }
}

/// A one-longer prefix is the prefix plus the next element.
proof fn lemma_prefix_step<A>(s: Seq<A>, k: int)
    requires
        0 <= k < s.len(),
    ensures
        s.subrange(0, k + 1).drop_last() =~= s.subrange(0, k),
        s.subrange(0, k + 1).last() == s[k],
        s.subrange(0, k + 1).len() == k + 1,
{
}

/// Counting within a one-longer prefix adds the next element's match.
proof fn lemma_occ_count_prefix_step(s: Seq<u8>, k: int, w: u8)
    requires
        0 <= k < s.len(),
    ensures
        occ_count(s.subrange(0, k + 1), w) == occ_count(s.subrange(0, k), w) + (if s[k] == w {
            1nat
        } else {
            0nat
        }),
{
    lemma_prefix_step(s, k);
}

/// Placement over a one-longer prefix adds the next occasion's
/// contribution.
proof fn lemma_placed_prefix_step(occs: Seq<Occasion>, k: int)
    requires
        0 <= k < occs.len(),
    ensures
        forall|slot: int, day: Weekday| #[trigger]
            placed_views(occs.subrange(0, k + 1), slot, day) == placed_views(
                occs.subrange(0, k),
                slot,
                day,
            ) + contribution(occs[k], slot, day),
        skipped_views(occs.subrange(0, k + 1)) == skipped_views(occs.subrange(0, k)) + occ_skips(
            occs[k].weeks@,
            occs[k].id,
        ),
{
    lemma_prefix_step(occs, k);
}

/// Views distribute over appending a lesson.
proof fn lemma_views_push(lessons: Seq<Lesson>, l: Lesson)
    ensures
        views_of(lessons.push(l)) =~= views_of(lessons).push(lesson_view(l)),
{
}

/// An empty week has no lessons on any of its days.
proof fn lemma_week_day_cases(w: ScheduleWeek, d: Weekday)
    requires
        w.days_empty(),
    ensures
        w.spec_day(d).lessons@ == Seq::<Lesson>::empty(),
{
}

/// Equal dates carry a week's date layout from one week to another.
proof fn lemma_dates_eq_carries(a: ScheduleWeek, b: ScheduleWeek, mrd: int)
    requires
        week_dates_eq(a, b),
        b.dates_at(mrd),
    ensures
        a.dates_at(mrd),
{
}

/// Whether a date lies in the first half of its year: its day of the
/// year comes before day 182.
pub open spec fn first_half(d: Date) -> bool {
    d.ordinal < 182
}

/// Day count of the first of January of year `y`.
pub open spec fn jan1_rd(y: int) -> int {
    days_before_year(y) + 1
}

/// Seed day count of week slot `i`: the first day of the year in
/// play, moved forward seven days per slot. The front 26 slots take
/// the anchor's year (first half) or the next year (second half); the
/// back 27 slots take the previous year (first half) or the anchor's
/// year (second half).
pub open spec fn slot_seed_rd(anchor: Date, i: int) -> int {
    if first_half(anchor) {
        if i < 26 {
            jan1_rd(anchor.year as int) + 7 * i
        } else {
            jan1_rd(anchor.year as int - 1) + 7 * i
        }
    } else {
        if i < 26 {
            jan1_rd(anchor.year as int + 1) + 7 * i
        } else {
            jan1_rd(anchor.year as int) + 7 * i
        }
    }
}

/// Day count of the Monday of the week holding day count `r`.
pub open spec fn monday_rd_of(r: int) -> int {
    r - ((r - 1) % 7)
}

/// Day count of the Monday opening week slot `i`.
pub open spec fn slot_monday_rd(anchor: Date, i: int) -> int {
    monday_rd_of(slot_seed_rd(anchor, i))
}

/// The full schedule: 53 week slots.
#[derive(Debug, Clone, PartialEq, Eq)]
pub struct Schedule {
    pub weeks: Vec<ScheduleWeek>,
}

impl Schedule {
    /// The slots carry the dates that the anchor date determines.
    pub open spec fn dates_built_from(self, anchor: Date) -> bool {
        &&& self.weeks@.len() == 53
        &&& forall|i: int|
            0 <= i < 53 ==> (#[trigger] self.weeks@[i]).dates_at(slot_monday_rd(anchor, i))
    }

    /// An empty calendar built from the anchor date.
    pub open spec fn empty_built_from(self, anchor: Date) -> bool {
        &&& self.dates_built_from(anchor)
        &&& forall|i: int| 0 <= i < 53 ==> (#[trigger] self.weeks@[i]).days_empty()
    }

    /// Create a new empty schedule anchored at `start`.
    ///
    /// Week numbers are shifted down by one: week 1 of the year in
    /// play sits at slot 0. An anchor in the first half of the year
    /// is late in a school year, so the back slots come from the
    /// previous year; an anchor in the second half is early in one,
    /// so the front slots come from the next year.
    pub fn from(start: Date) -> (r: Schedule)
        requires
            start.wf(),
            2 <= start.year <= 9998,
        ensures
            r.empty_built_from(start),
    {
        let front_year: u32;
        let back_year: u32;
        if start.ordinal < 182 {
            front_year = start.year;
            back_year = start.year - 1;
        } else {
            front_year = start.year + 1;
            back_year = start.year;
        }
        let mut weeks: Vec<ScheduleWeek> = Vec::new();
        let mut i: usize = 0;
        while i < 53
            invariant
                start.wf(),
                2 <= start.year <= 9998,
                front_year == if first_half(start) {
                    start.year as int
                } else {
                    start.year as int + 1
                },
                back_year == if first_half(start) {
                    start.year as int - 1
                } else {
                    start.year as int
                },
                0 <= i <= 53,
                weeks@.len() == i,
                forall|j: int|
                    0 <= j < i ==> (#[trigger] weeks@[j]).dates_at(slot_monday_rd(start, j))
                        && weeks@[j].days_empty(),
            decreases 53 - i,
        {
            let year = if i < 26 {
                front_year
            } else {
                back_year
            };
            let jan1 = Date { year, ordinal: 1 };
            proof {
                crate::date::lemma_days_before_year_monotonic(1, year as int);
                crate::date::lemma_days_before_year_monotonic(year as int + 1, 10000);
                crate::date::lemma_days_before_year_step(year as int);
            }
            let seed = match jan1.add_days((7 * i) as u16) {
                Some(d) => d,
                None => {
                    // unreachable: the seed stays within the year
                    proof {
                        assert(false);
                    }
                    Date { year: 1, ordinal: 1 }
                },
            };
            proof {
                assert(seed.rd() == slot_seed_rd(start, i as int));
            }
            let week = match ScheduleWeek::new_empty(seed) {
                Some(w) => w,
                None => {
                    // unreachable: the week stays within the supported years
                    proof {
                        assert(0 <= (seed.rd() - 1) % 7 < 7);
                        crate::date::lemma_days_before_year_monotonic(1, year as int);
                        if i < 26 {
                            crate::date::lemma_days_before_year_step(1);
                            crate::date::lemma_days_before_year_monotonic(2, year as int);
                        }
                        assert(monday_rd_of(seed.rd()) >= 1);
                        assert(monday_rd_of(seed.rd()) + 6 <= days_before_year(10000));
                        assert(false);
                    }
                    ScheduleWeek {
                        week: IsoWeek { year: 1, number: 1 },
                        monday: ScheduleDay::new(jan1),
                        tuesday: ScheduleDay::new(jan1),
                        wednesday: ScheduleDay::new(jan1),
                        thursday: ScheduleDay::new(jan1),
                        friday: ScheduleDay::new(jan1),
                        saturday: ScheduleDay::new(jan1),
                        sunday: ScheduleDay::new(jan1),
                    }
                },
            };
            weeks.push(week);
            i = i + 1;
        }
        Schedule { weeks }
    }

    /// The identifying views of the lessons on the day at `slot` and
    /// `day`, in insertion order.
    pub open spec fn day_views(self, slot: int, day: Weekday) -> Seq<
        (Time, Time, Seq<char>, Seq<char>),
    > {
        views_of(self.weeks@[slot].spec_day(day).lessons@)
    }

    /// A schedule populated from the anchor date and the occasion
    /// list: the anchor's dates fill the slots and every day holds
    /// exactly the lessons placed on it, in order.
    pub open spec fn built_from(self, anchor: Date, occs: Seq<Occasion>) -> bool {
        &&& self.dates_built_from(anchor)
        &&& forall|i: int, d: Weekday|
            0 <= i < 53 ==> #[trigger] self.day_views(i, d) == placed_views(occs, i, d)
    }

    /// Place every occasion's lessons into the calendar: for each
    /// week number `w` of an occasion, one lesson is appended to the
    /// day of slot `w - 1` matching the occasion's weekday. Weeks
    /// without a slot are skipped and reported as (occasion id, week)
    /// pairs, in the order encountered.
    pub fn populate(&mut self, occasions: &Vec<Occasion>) -> (skipped: Vec<(u64, u8)>)
        requires
            old(self).weeks@.len() == 53,
        ensures
            final(self).weeks@.len() == 53,
            forall|i: int|
                0 <= i < 53 ==> week_dates_eq(
                    #[trigger] final(self).weeks@[i],
                    old(self).weeks@[i],
                ),
            forall|i: int, d: Weekday|
                0 <= i < 53 ==> #[trigger] final(self).day_views(i, d) == old(self).day_views(
                    i,
                    d,
                ) + placed_views(occasions@, i, d),
            skipped@ == skipped_views(occasions@),
    {
        let ghost orig = *self;
        let mut skipped: Vec<(u64, u8)> = Vec::new();
        let mut oi: usize = 0;
        proof {
            assert forall|i: int, d: Weekday| 0 <= i < 53 implies #[trigger] self.day_views(i, d)
                =~= orig.day_views(i, d) + placed_views(occasions@.subrange(0, 0), i, d) by {
                assert(occasions@.subrange(0, 0) =~= Seq::<Occasion>::empty());
                assert(placed_views(occasions@.subrange(0, 0), i, d) =~= Seq::<
                    (Time, Time, Seq<char>, Seq<char>),
                >::empty());
            }
            assert(skipped@ =~= skipped_views(occasions@.subrange(0, 0)));
        }
        while oi < occasions.len()
            invariant
                self.weeks@.len() == 53,
                orig.weeks@.len() == 53,
                0 <= oi <= occasions@.len(),
                forall|i: int|
                    0 <= i < 53 ==> week_dates_eq(#[trigger] self.weeks@[i], orig.weeks@[i]),
                forall|i: int, d: Weekday|
                    0 <= i < 53 ==> #[trigger] self.day_views(i, d) == orig.day_views(i, d)
                        + placed_views(occasions@.subrange(0, oi as int), i, d),
                skipped@ == skipped_views(occasions@.subrange(0, oi as int)),
            decreases occasions@.len() - oi,
        {
            let o = &occasions[oi];
            let ghost entry_views = Map::new(
                |p: (int, Weekday)| 0 <= p.0 < 53,
                |p: (int, Weekday)| self.day_views(p.0, p.1),
            );
            let mut wi: usize = 0;
            proof {
                assert forall|i: int, d: Weekday| 0 <= i < 53 implies #[trigger] self.day_views(
                    i,
                    d,
                ) =~= entry_views[(i, d)] + contribution_upto(*o, 0, i, d) by {
                    assert(o.weeks@.subrange(0, 0) =~= Seq::<u8>::empty());
                    assert(occ_count(o.weeks@.subrange(0, 0), (i + 1) as u8) == 0);
                }
                assert(occ_skips(o.weeks@.subrange(0, 0), o.id) =~= Seq::<(u64, u8)>::empty());
            }
            let ghost entry_skipped = skipped@;
            while wi < o.weeks.len()
                invariant
                    self.weeks@.len() == 53,
                    orig.weeks@.len() == 53,
                    0 <= wi <= o.weeks@.len(),
                    forall|i: int|
                        0 <= i < 53 ==> week_dates_eq(#[trigger] self.weeks@[i], orig.weeks@[i]),
                    forall|i: int, d: Weekday|
                        0 <= i < 53 ==> #[trigger] self.day_views(i, d) == entry_views[(i, d)]
                            + contribution_upto(*o, wi as int, i, d),
                    skipped@ == entry_skipped + occ_skips(o.weeks@.subrange(0, wi as int), o.id),
                decreases o.weeks@.len() - wi,
            {
                let w = o.weeks[wi];
                proof {
                    lemma_prefix_step(o.weeks@, wi as int);
                }
                if 1 <= w && w <= 53 {
                    let idx = (w - 1) as usize;
                    let lesson = Lesson::from(o);
                    let ghost before = *self;
                    let wk = &mut self.weeks[idx];
                    wk.push_lesson(o.week_day, lesson);
                    proof {
                        assert forall|i: int, d: Weekday| 0 <= i < 53 implies #[trigger] self
                            .day_views(i, d) =~= entry_views[(i, d)] + contribution_upto(
                            *o,
                            wi + 1,
                            i,
                            d,
                        ) by {
                            lemma_occ_count_prefix_step(o.weeks@, wi as int, (i + 1) as u8);
                            if i == idx as int && d == o.week_day {
                                lemma_views_push(
                                    before.weeks@[i].spec_day(d).lessons@,
                                    lesson,
                                );
                                assert(self.day_views(i, d) =~= before.day_views(i, d).push(
                                    occasion_lesson_view(*o),
                                ));
                            } else {
                                if i != idx as int {
                                    assert(self.weeks@[i] == before.weeks@[i]);
                                }
                                assert(self.day_views(i, d) =~= before.day_views(i, d));
                            }
                        }
                        assert(skipped@ == entry_skipped + occ_skips(
                            o.weeks@.subrange(0, wi + 1),
                            o.id,
                        ));
                    }
                } else {
                    skipped.push((o.id, w));
                    proof {
                        assert(skipped@ =~= entry_skipped + occ_skips(
                            o.weeks@.subrange(0, wi + 1),
                            o.id,
                        ));
                        assert forall|i: int, d: Weekday| 0 <= i < 53 implies #[trigger] self
                            .day_views(i, d) =~= entry_views[(i, d)] + contribution_upto(
                            *o,
                            wi + 1,
                            i,
                            d,
                        ) by {
                            lemma_occ_count_prefix_step(o.weeks@, wi as int, (i + 1) as u8);
                        }
                    }
                }
                wi = wi + 1;
            }
            proof {
                assert(o.weeks@.subrange(0, o.weeks@.len() as int) =~= o.weeks@);
                lemma_placed_prefix_step(occasions@, oi as int);
                assert forall|i: int, d: Weekday| 0 <= i < 53 implies #[trigger] self.day_views(
                    i,
                    d,
                ) =~= orig.day_views(i, d) + placed_views(
                    occasions@.subrange(0, oi + 1),
                    i,
                    d,
                ) by {
                    assert(contribution_upto(*o, o.weeks@.len() as int, i, d) =~= contribution(*o, i, d));
                    assert(entry_views[(i, d)] =~= orig.day_views(i, d) + placed_views(
                        occasions@.subrange(0, oi as int),
                        i,
                        d,
                    ));
                    assert((orig.day_views(i, d) + placed_views(
                        occasions@.subrange(0, oi as int),
                        i,
                        d,
                    )) + contribution(*o, i, d) =~= orig.day_views(i, d) + (placed_views(
                        occasions@.subrange(0, oi as int),
                        i,
                        d,
                    ) + contribution(*o, i, d)));
                }
                assert(skipped@ == skipped_views(occasions@.subrange(0, oi + 1)));
            }
            oi = oi + 1;
        }
        proof {
            assert(occasions@.subrange(0, occasions@.len() as int) =~= occasions@);
        }
        skipped
    }

    /// Build a schedule in one pass: an empty calendar anchored at
    /// `start`, populated from the occasions; the second result
    /// reports the skipped (occasion id, week) pairs.
    pub fn build(start: Date, occasions: &Vec<Occasion>) -> (r: (Schedule, Vec<(u64, u8)>))
        requires
            start.wf(),
            2 <= start.year <= 9998,
        ensures
            r.0.built_from(start, occasions@),
            r.1@ == skipped_views(occasions@),
    {
        let mut schedule = Schedule::from(start);
        let ghost empty = schedule;
        let skipped = schedule.populate(occasions);
        proof {
            assert forall|i: int, d: Weekday| 0 <= i < 53 implies #[trigger] schedule.day_views(
                i,
                d,
            ) == placed_views(occasions@, i, d) by {
                lemma_week_day_cases(empty.weeks@[i], d);
                assert(empty.day_views(i, d) =~= Seq::<(Time, Time, Seq<char>, Seq<char>)>::empty());
                assert(empty.day_views(i, d) + placed_views(occasions@, i, d) =~= placed_views(
                    occasions@,
                    i,
                    d,
                ));
            }
            assert forall|i: int| 0 <= i < 53 implies (#[trigger] schedule.weeks@[i]).dates_at(
                slot_monday_rd(start, i),
            ) by {
                lemma_dates_eq_carries(schedule.weeks@[i], empty.weeks@[i], slot_monday_rd(start, i));
            }
        }
        (schedule, skipped)
    }

    /// Look up a week slot; slots run from 0 through 52.
    pub fn week_at(&self, index: usize) -> (r: Option<&ScheduleWeek>)
        ensures
            r is Some <==> index < self.weeks@.len(),
            r is Some ==> *r->Some_0 == self.weeks@[index as int],
    {
        if index < self.weeks.len() {
            Some(&self.weeks[index])
        } else {
            None
        }
    }
}

/// Everything that identifies a week slot: its ISO identity and, for
/// each of its seven days, the day's date and its lessons' views in
/// order.
pub open spec fn week_model(w: ScheduleWeek) -> (
    IsoWeek,
    Seq<(Date, Seq<(Time, Time, Seq<char>, Seq<char>)>)>,
) {
    (
        w.week,
        Seq::new(
            7,
            |k: int|
                (
                    w.spec_day(Weekday::spec_from_index(k)).date,
                    views_of(w.spec_day(Weekday::spec_from_index(k)).lessons@),
                ),
        ),
    )
}

/// Everything that identifies a schedule: the models of its slots in
/// order.
pub open spec fn schedule_model(s: Schedule) -> Seq<
    (IsoWeek, Seq<(Date, Seq<(Time, Time, Seq<char>, Seq<char>)>)>),
> {
    Seq::new(s.weeks@.len(), |i: int| week_model(s.weeks@[i]))
}

/// Building is deterministic: two schedules built from the same
/// anchor date and the same occasion list agree on every slot's
/// dates, identity, and per-day lessons, in the same order.
pub proof fn lemma_build_deterministic(
    s1: Schedule,
    s2: Schedule,
    anchor: Date,
    occs: Seq<Occasion>,
)
    requires
        s1.built_from(anchor, occs),
        s2.built_from(anchor, occs),
    ensures
        schedule_model(s1) == schedule_model(s2),
{
    assert forall|i: int| 0 <= i < 53 implies week_model(s1.weeks@[i]) == week_model(
        s2.weeks@[i],
    ) by {
        let w1 = s1.weeks@[i];
        let w2 = s2.weeks@[i];
        crate::date::lemma_rd_injective(w1.monday.date, w2.monday.date);
        crate::date::lemma_rd_injective(w1.tuesday.date, w2.tuesday.date);
        crate::date::lemma_rd_injective(w1.wednesday.date, w2.wednesday.date);
        crate::date::lemma_rd_injective(w1.thursday.date, w2.thursday.date);
        crate::date::lemma_rd_injective(w1.friday.date, w2.friday.date);
        crate::date::lemma_rd_injective(w1.saturday.date, w2.saturday.date);
        crate::date::lemma_rd_injective(w1.sunday.date, w2.sunday.date);
        assert forall|k: int| 0 <= k < 7 implies week_model(w1).1[k] == week_model(w2).1[k] by {
            let d = Weekday::spec_from_index(k);
            assert(s1.day_views(i, d) == placed_views(occs, i, d));
            assert(s2.day_views(i, d) == placed_views(occs, i, d));
        }
        assert(week_model(w1).1 =~= week_model(w2).1);
    }
    assert(schedule_model(s1) =~= schedule_model(s2));
}

/// An anchor in the first half of year `Y` places slot 10's Monday in
/// year `Y` and slot 40's Monday in year `Y - 1`.
pub proof fn lemma_year_straddle_first_half(s: Schedule, anchor: Date)
    requires
        anchor.wf(),
        2 <= anchor.year <= 9998,
        first_half(anchor),
        s.dates_built_from(anchor),
    ensures
        s.weeks@[10].monday.date.year == anchor.year,
        s.weeks@[40].monday.date.year == anchor.year - 1,
{
    let y = anchor.year as int;
    assert(0 <= (slot_seed_rd(anchor, 10) - 1) % 7 < 7);
    assert(0 <= (slot_seed_rd(anchor, 40) - 1) % 7 < 7);
    crate::date::lemma_days_before_year_step(y);
    crate::date::lemma_days_before_year_step(y - 1);
    crate::date::lemma_year_of_rd(s.weeks@[10].monday.date, y);
    crate::date::lemma_year_of_rd(s.weeks@[40].monday.date, y - 1);
}

/// An anchor in the second half of year `Y` places slot 10's Monday
/// in year `Y + 1` and slot 40's Monday in year `Y`.
pub proof fn lemma_year_straddle_second_half(s: Schedule, anchor: Date)
    requires
        anchor.wf(),
        2 <= anchor.year <= 9998,
        !first_half(anchor),
        s.dates_built_from(anchor),
    ensures
        s.weeks@[10].monday.date.year == anchor.year + 1,
        s.weeks@[40].monday.date.year == anchor.year,
{
    let y = anchor.year as int;
    assert(0 <= (slot_seed_rd(anchor, 10) - 1) % 7 < 7);
    assert(0 <= (slot_seed_rd(anchor, 40) - 1) % 7 < 7);
    crate::date::lemma_days_before_year_step(y + 1);
    crate::date::lemma_days_before_year_step(y);
    crate::date::lemma_year_of_rd(s.weeks@[10].monday.date, y + 1);
    crate::date::lemma_year_of_rd(s.weeks@[40].monday.date, y);
}

/// An occasion recurring on weeks 3, 4 and 5 on a Monday places
/// exactly one lesson — its own — on the Monday of slots 2, 3 and 4,
/// and nothing anywhere else.
pub proof fn lemma_single_occasion_placement(o: Occasion, slot: int, day: Weekday)
    requires
        o.weeks@ == seq![3u8, 4u8, 5u8],
        o.week_day == Weekday::Mon,
        0 <= slot < 53,
    ensures
        (day == Weekday::Mon && (slot == 2 || slot == 3 || slot == 4)) ==> placed_views(
            seq![o],
            slot,
            day,
        ) == seq![occasion_lesson_view(o)],
        !(day == Weekday::Mon && (slot == 2 || slot == 3 || slot == 4)) ==> placed_views(
            seq![o],
            slot,
            day,
        ) == Seq::<(Time, Time, Seq<char>, Seq<char>)>::empty(),
{
    reveal_with_fuel(placed_views, 3);
    reveal_with_fuel(occ_count, 5);
    let one = seq![o];
    assert(one.drop_last() =~= Seq::<Occasion>::empty());
    assert(one.last() == o);
    assert(placed_views(one, slot, day) =~= contribution(o, slot, day));
    let w = (slot + 1) as u8;
    assert(seq![3u8, 4u8, 5u8].drop_last() =~= seq![3u8, 4u8]);
    assert(seq![3u8, 4u8].drop_last() =~= seq![3u8]);
    assert(seq![3u8].drop_last() =~= Seq::<u8>::empty());
    assert(occ_count(o.weeks@, w) == (if w == 3 || w == 4 || w == 5 {
        1nat
    } else {
        0nat
    }));
    if day == Weekday::Mon && (slot == 2 || slot == 3 || slot == 4) {
        assert(contribution(o, slot, day) =~= seq![occasion_lesson_view(o)]);
    } else {
        assert(contribution(o, slot, day) =~= Seq::<
            (Time, Time, Seq<char>, Seq<char>),
        >::empty());
    }
}

} // verus!
