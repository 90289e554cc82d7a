use schoolsoft::date::{Date, Weekday};
use schoolsoft::occasion::{Occasion, RawOccasion};
use schoolsoft::schedule::{Schedule, ScheduleWeek};
use schoolsoft::uuid::Uuid;

fn occasion_on(day_id: u8, weeks_string: &str) -> Occasion {
    let raw = RawOccasion {
        id: 1,
        guid: "afbae58f-c35e-4480-bfd1-574fc8de5572".to_string(),
        start_time: "1970-01-01 08:20:00.0".to_string(),
        end_time: "1970-01-01 09:30:00.0".to_string(),
        subject_name: "Mathematics".to_string(),
        room_name: "A113".to_string(),
        day_id,
        weeks_string: weeks_string.to_string(),
        excluding_weeks_string: String::new(),
        including_weeks_string: String::new(),
    };
    Occasion::try_from(raw).expect("Converting should work")
}

#[test]
fn dates_from_beginning() {
    let week = ScheduleWeek::new_empty(Date::from_ymd(2024, 3, 25).unwrap()).unwrap();

    assert_eq!(Date::from_ymd(2024, 3, 25).unwrap(), week.monday.date);
    assert_eq!(Date::from_ymd(2024, 3, 26).unwrap(), week.tuesday.date);
    assert_eq!(Date::from_ymd(2024, 3, 27).unwrap(), week.wednesday.date);
    assert_eq!(Date::from_ymd(2024, 3, 28).unwrap(), week.thursday.date);
    assert_eq!(Date::from_ymd(2024, 3, 29).unwrap(), week.friday.date);
    assert_eq!(Date::from_ymd(2024, 3, 30).unwrap(), week.saturday.date);
    assert_eq!(Date::from_ymd(2024, 3, 31).unwrap(), week.sunday.date);
}

#[test]
fn dates_from_middle() {
    let week = ScheduleWeek::new_empty(Date::from_ymd(2022, 8, 25).unwrap()).unwrap();

    assert_eq!(Date::from_ymd(2022, 8, 22).unwrap(), week.monday.date);
    assert_eq!(Date::from_ymd(2022, 8, 23).unwrap(), week.tuesday.date);
    assert_eq!(Date::from_ymd(2022, 8, 24).unwrap(), week.wednesday.date);
    assert_eq!(Date::from_ymd(2022, 8, 25).unwrap(), week.thursday.date);
    assert_eq!(Date::from_ymd(2022, 8, 26).unwrap(), week.friday.date);
    assert_eq!(Date::from_ymd(2022, 8, 27).unwrap(), week.saturday.date);
    assert_eq!(Date::from_ymd(2022, 8, 28).unwrap(), week.sunday.date);
}

#[test]
fn get_day_by_weekday() {
    let week = ScheduleWeek::new_empty(Date::from_ymd(2024, 3, 30).unwrap()).unwrap();
    let saturday = week.get_day(Weekday::Sat);
    assert_eq!(saturday.date, Date::from_ymd(2024, 3, 30).unwrap());
}

#[test]
fn anchor_in_first_half() {
    let april = Date::from_ymd(2024, 4, 1).unwrap();
    let schedule = Schedule::from(april);

    assert_eq!(schedule.weeks.len(), 53);
    assert_eq!(schedule.weeks[10].monday.date.year, 2024);
    assert_eq!(schedule.weeks[40].monday.date.year, 2023);
}

#[test]
fn anchor_in_second_half() {
    let september = Date::from_ymd(2024, 9, 1).unwrap();
    let schedule = Schedule::from(september);

    assert_eq!(schedule.weeks.len(), 53);
    assert_eq!(schedule.weeks[10].monday.date.year, 2025);
    assert_eq!(schedule.weeks[40].monday.date.year, 2024);
}

#[test]
fn first_half_slot_dates() {
    // 2024 opens on a Monday, so slot i's week starts 7 * i days in.
    let schedule = Schedule::from(Date::from_ymd(2024, 4, 1).unwrap());
    assert_eq!(schedule.weeks[0].monday.date, Date::from_ymd(2024, 1, 1).unwrap());
    assert_eq!(schedule.weeks[10].monday.date, Date::from_ymd(2024, 3, 11).unwrap());
    assert_eq!(schedule.weeks[10].week.year, 2024);
    assert_eq!(schedule.weeks[10].week.number, 11);
}

#[test]
fn building_twice_gives_identical_schedules() {
    let anchor = Date::from_ymd(2024, 4, 1).unwrap();
    let occasions = vec![occasion_on(0, "3-5"), occasion_on(4, "40-45, 50")];
    let twice = vec![occasion_on(0, "3-5"), occasion_on(4, "40-45, 50")];

    let mut first = Schedule::from(anchor);
    let skipped_first = first.populate(&occasions);
    let mut second = Schedule::from(anchor);
    let skipped_second = second.populate(&twice);

    assert_eq!(first, second);
    assert_eq!(skipped_first, skipped_second);
}

#[test]
fn placement_on_mondays() {
    let occasion = occasion_on(0, "3-5");
    let mut schedule = Schedule::from(Date::from_ymd(2024, 4, 1).unwrap());
    let skipped = schedule.populate(&vec![occasion]);
    assert_eq!(skipped, Vec::<(u64, u8)>::new());

    for (i, week) in schedule.weeks.iter().enumerate() {
        let expected = if i == 2 || i == 3 || i == 4 { 1 } else { 0 };
        assert_eq!(week.monday.lessons.len(), expected, "slot {}", i);
        assert_eq!(week.tuesday.lessons.len(), 0);
        assert_eq!(week.wednesday.lessons.len(), 0);
        assert_eq!(week.thursday.lessons.len(), 0);
        assert_eq!(week.friday.lessons.len(), 0);
        assert_eq!(week.saturday.lessons.len(), 0);
        assert_eq!(week.sunday.lessons.len(), 0);
    }
    let lesson = &schedule.weeks[2].monday.lessons[0];
    assert_eq!(lesson.name, "Mathematics");
    assert_eq!(lesson.room, "A113");
}

#[test]
fn out_of_calendar_week_is_skipped_with_diagnostic() {
    let in_range = occasion_on(1, "12");
    let mut out_of_range = occasion_on(1, "12");
    out_of_range.id = 77;
    out_of_range.weeks = vec![54];

    let mut schedule = Schedule::from(Date::from_ymd(2024, 4, 1).unwrap());
    let skipped = schedule.populate(&vec![in_range, out_of_range]);

    assert_eq!(skipped, vec![(77, 54)]);
    assert_eq!(schedule.weeks[11].tuesday.lessons.len(), 1);
    let placed: usize = schedule
        .weeks
        .iter()
        .map(|w| {
            w.monday.lessons.len()
                + w.tuesday.lessons.len()
                + w.wednesday.lessons.len()
                + w.thursday.lessons.len()
                + w.friday.lessons.len()
                + w.saturday.lessons.len()
                + w.sunday.lessons.len()
        })
        .sum();
    assert_eq!(placed, 1);
}

#[test]
fn lessons_keep_occasion_order() {
    let first = occasion_on(0, "3");
    let mut second = occasion_on(0, "3");
    second.id = 2;
    second.subject_name = "Physics".to_string();

    let mut schedule = Schedule::from(Date::from_ymd(2024, 4, 1).unwrap());
    schedule.populate(&vec![first, second]);

    let lessons = &schedule.weeks[2].monday.lessons;
    assert_eq!(lessons.len(), 2);
    assert_eq!(lessons[0].name, "Mathematics");
    assert_eq!(lessons[1].name, "Physics");
}

#[test]
fn week_at_is_bounds_checked() {
    let schedule = Schedule::from(Date::from_ymd(2024, 4, 1).unwrap());
    assert!(schedule.week_at(52).is_some());
    assert!(schedule.week_at(53).is_none());
}

#[test]
fn duplicate_lessons_are_kept() {
    let occasion = occasion_on(2, "8");
    let twin = occasion_on(2, "8");
    let mut schedule = Schedule::from(Date::from_ymd(2024, 4, 1).unwrap());
    schedule.populate(&vec![occasion, twin]);
    assert_eq!(schedule.weeks[7].wednesday.lessons.len(), 2);
    assert_eq!(
        schedule.weeks[7].wednesday.lessons[0],
        schedule.weeks[7].wednesday.lessons[1]
    );
}

fn uuid_of(text: &str) -> Uuid {
    Uuid::parse_str(text).expect("parsing should work")
}

#[test]
fn uuid_survives_resolution() {
    let occasion = occasion_on(0, "1");
    assert_eq!(occasion.uuid, uuid_of("afbae58f-c35e-4480-bfd1-574fc8de5572"));
}
