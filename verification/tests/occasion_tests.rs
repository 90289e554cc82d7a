use schoolsoft::date::{Time, Weekday};
use schoolsoft::errors::ScheduleParseError;
use schoolsoft::occasion::{resolve_weeks, Occasion, RawOccasion};

fn sample_raw() -> RawOccasion {
    RawOccasion {
        id: 36505,
        guid: "afbae58f-c35e-4480-bfd1-574fc8de5572".to_string(),
        start_time: "1970-01-01 08:20:00.0".to_string(),
        end_time: "1970-01-01 09:30:00.0".to_string(),
        subject_name: "IDRIDO02 - Idrott och hälsa 2 - specialisering".to_string(),
        room_name: "IKSU".to_string(),
        day_id: 0,
        weeks_string: "34-43, 45-51, 3-9, 11-13, 15-24".to_string(),
        excluding_weeks_string: String::new(),
        including_weeks_string: String::new(),
    }
}

#[test]
fn deserialize() {
    let occasion = Occasion::try_from(sample_raw()).expect("Converting should work");

    assert_eq!(occasion.id, 36505);
    assert_eq!(occasion.uuid.to_string(), "afbae58f-c35e-4480-bfd1-574fc8de5572");

    assert_eq!(occasion.room_name, "IKSU");
    assert_eq!(occasion.subject_name, "IDRIDO02 - Idrott och hälsa 2 - specialisering");

    assert_eq!(occasion.start_time, Time::new(8, 20, 0, 0).unwrap());
    assert_eq!(occasion.end_time, Time::new(9, 30, 0, 0).unwrap());

    assert_eq!(occasion.week_day, Weekday::Mon);
    assert_eq!(
        occasion.weeks,
        vec![
            3, 4, 5, 6, 7, 8, 9, 11, 12, 13, 15, 16, 17, 18, 19, 20, 21, 22, 23, 24, 34, 35, 36,
            37, 38, 39, 40, 41, 42, 43, 45, 46, 47, 48, 49, 50, 51
        ]
    );
}

#[test]
fn inclusion_wins_over_exclusion() {
    let mut raw = sample_raw();
    raw.weeks_string = "1-10".to_string();
    raw.excluding_weeks_string = "5".to_string();
    raw.including_weeks_string = "5".to_string();
    let occasion = Occasion::try_from(raw).expect("Converting should work");
    assert_eq!(occasion.weeks, vec![1, 2, 3, 4, 5, 6, 7, 8, 9, 10]);
}

#[test]
fn exclusion_removes_base_week() {
    let mut raw = sample_raw();
    raw.weeks_string = "1-10".to_string();
    raw.excluding_weeks_string = "5".to_string();
    raw.including_weeks_string = String::new();
    let occasion = Occasion::try_from(raw).expect("Converting should work");
    assert_eq!(occasion.weeks, vec![1, 2, 3, 4, 6, 7, 8, 9, 10]);
}

#[test]
fn inclusion_adds_outside_base() {
    let mut raw = sample_raw();
    raw.weeks_string = "1-3".to_string();
    raw.excluding_weeks_string = String::new();
    raw.including_weeks_string = "50".to_string();
    let occasion = Occasion::try_from(raw).expect("Converting should work");
    assert_eq!(occasion.weeks, vec![1, 2, 3, 50]);
}

#[test]
fn empty_week_strings_mean_no_weeks() {
    let mut raw = sample_raw();
    raw.weeks_string = String::new();
    let occasion = Occasion::try_from(raw).expect("Converting should work");
    assert_eq!(occasion.weeks, Vec::<u8>::new());
}

#[test]
fn resolve_weeks_directly() {
    let weeks = resolve_weeks(&vec![10, 11, 12], &vec![11], &vec![40]);
    assert_eq!(weeks, vec![10, 12, 40]);
}

#[test]
fn bad_uuid_is_an_error() {
    let mut raw = sample_raw();
    raw.guid = "not-a-uuid".to_string();
    let err = Occasion::try_from(raw).unwrap_err();
    assert!(matches!(err, ScheduleParseError::UuidParseError(s) if s == "not-a-uuid"));
}

#[test]
fn bad_day_id_is_an_error() {
    let mut raw = sample_raw();
    raw.day_id = 7;
    let err = Occasion::try_from(raw).unwrap_err();
    assert_eq!(err, ScheduleParseError::DayOfWeekError(7));
}

#[test]
fn bad_start_time_is_an_error() {
    let mut raw = sample_raw();
    raw.start_time = "08:20".to_string();
    let err = Occasion::try_from(raw).unwrap_err();
    assert!(matches!(err, ScheduleParseError::TimeParseError(s) if s == "08:20"));
}

#[test]
fn malformed_weeks_string_is_an_error() {
    let mut raw = sample_raw();
    raw.weeks_string = "34-".to_string();
    let err = Occasion::try_from(raw).unwrap_err();
    assert!(matches!(err, ScheduleParseError::WeekRangeError(s) if s == "34-"));
}

#[test]
fn week_out_of_range_is_an_error() {
    let mut raw = sample_raw();
    raw.weeks_string = "54".to_string();
    let err = Occasion::try_from(raw).unwrap_err();
    assert_eq!(err, ScheduleParseError::WeekOutOfRange(54));
}

#[test]
fn week_zero_is_an_error() {
    let mut raw = sample_raw();
    raw.including_weeks_string = "0".to_string();
    let err = Occasion::try_from(raw).unwrap_err();
    assert_eq!(err, ScheduleParseError::WeekOutOfRange(0));
}
