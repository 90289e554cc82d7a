use schoolsoft::date::{Date, Weekday};

#[test]
fn leap_year_rules() {
    assert!(Date::from_ymd(2024, 2, 29).is_some());
    assert!(Date::from_ymd(2023, 2, 29).is_none());
    assert!(Date::from_ymd(1900, 2, 29).is_none());
    assert!(Date::from_ymd(2000, 2, 29).is_some());
}

#[test]
fn month_bounds() {
    assert!(Date::from_ymd(2021, 0, 1).is_none());
    assert!(Date::from_ymd(2021, 13, 1).is_none());
    assert!(Date::from_ymd(2021, 4, 31).is_none());
    assert!(Date::from_ymd(2021, 12, 31).is_some());
}

#[test]
fn known_weekdays() {
    assert_eq!(Date::from_ymd(2024, 3, 25).unwrap().weekday(), Weekday::Mon);
    assert_eq!(Date::from_ymd(2024, 3, 30).unwrap().weekday(), Weekday::Sat);
    assert_eq!(Date::from_ymd(2024, 1, 1).unwrap().weekday(), Weekday::Mon);
    assert_eq!(Date::from_ymd(2022, 8, 25).unwrap().weekday(), Weekday::Thu);
    assert_eq!(Date::from_ymd(1970, 1, 1).unwrap().weekday(), Weekday::Thu);
}

#[test]
fn add_days_crosses_years() {
    let d = Date::from_ymd(2023, 12, 31).unwrap();
    assert_eq!(d.add_days(1).unwrap(), Date::from_ymd(2024, 1, 1).unwrap());
    assert_eq!(d.add_days(366).unwrap(), Date::from_ymd(2024, 12, 31).unwrap());
}

#[test]
fn sub_days_crosses_years() {
    let d = Date::from_ymd(2024, 1, 1).unwrap();
    assert_eq!(d.sub_days(1).unwrap(), Date::from_ymd(2023, 12, 31).unwrap());
    assert_eq!(d.sub_days(365).unwrap(), Date::from_ymd(2023, 1, 1).unwrap());
}

#[test]
fn monday_of_week_floors() {
    let thursday = Date::from_ymd(2022, 8, 25).unwrap();
    assert_eq!(thursday.monday_of_week().unwrap(), Date::from_ymd(2022, 8, 22).unwrap());
    let monday = Date::from_ymd(2024, 3, 25).unwrap();
    assert_eq!(monday.monday_of_week().unwrap(), monday);
}

#[test]
fn weekday_codes() {
    assert_eq!(Weekday::from_index(0), Some(Weekday::Mon));
    assert_eq!(Weekday::from_index(6), Some(Weekday::Sun));
    assert_eq!(Weekday::from_index(7), None);
    assert_eq!(Weekday::Sat.index(), 5);
}
