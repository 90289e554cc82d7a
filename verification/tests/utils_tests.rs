use schoolsoft::date::{Date, DateTime, Time};
use schoolsoft::errors::{DateParseError, RequestError};
use schoolsoft::types::UserType;
use schoolsoft::utils::{api, check_codes, parse_date, parse_datetime, rest_url, u32_to_string};

#[test]
fn rest_example() {
    let base = "https://example.com";
    assert_eq!(rest_url(base, "test"), "https://example.com/rest/app/test");
}

#[test]
fn date() {
    let date = "2021-01-01";
    let parsed = parse_date(date).unwrap();
    assert_eq!(parsed, Date::from_ymd(2021, 1, 1).unwrap());
}

#[test]
fn datetime() {
    let date = "2021-01-01 12:00:00.000";
    let parsed = parse_datetime(date).unwrap();
    assert_eq!(
        parsed,
        DateTime { date: Date::from_ymd(2021, 1, 1).unwrap(), time: Time::new(12, 0, 0, 0).unwrap() }
    );
}

#[test]
fn datetime_rejects_bad_shapes() {
    assert_eq!(parse_datetime("2021-01-01"), Err(DateParseError::BadFormat));
    assert_eq!(parse_datetime("2021-01-01 12:00"), Err(DateParseError::BadFormat));
    assert_eq!(parse_datetime("2021-01-01 25:00:00"), Err(DateParseError::BadFormat));
    assert_eq!(parse_datetime("2021-01-01 12:61:00"), Err(DateParseError::BadFormat));
    assert_eq!(parse_datetime("2021-01-01 12:00:00."), Err(DateParseError::BadFormat));
    assert_eq!(parse_datetime("2021-01-01 12:00:00.1234"), Err(DateParseError::BadFormat));
    assert_eq!(parse_datetime("2021-13-01 12:00:00"), Err(DateParseError::BadFormat));
}

#[test]
fn date_rejects_bad_shapes() {
    assert_eq!(parse_date("2021-1-01"), Err(DateParseError::BadFormat));
    assert_eq!(parse_date("2021-00-10"), Err(DateParseError::BadFormat));
    assert_eq!(parse_date("2021-02-29"), Err(DateParseError::BadFormat));
    assert_eq!(parse_date("0000-02-10"), Err(DateParseError::BadFormat));
}

#[test]
fn check_codes_success_range() {
    assert_eq!(check_codes(200), Ok(()));
    assert_eq!(check_codes(204), Ok(()));
    assert_eq!(check_codes(299), Ok(()));
}

#[test]
fn check_codes_unauthorized() {
    assert_eq!(check_codes(401), Err(RequestError::Unauthorized));
}

#[test]
fn check_codes_internal_server_error() {
    assert_eq!(check_codes(500), Err(RequestError::InternalServerError));
}

#[test]
fn check_codes_unchecked() {
    assert_eq!(check_codes(418), Err(RequestError::UncheckedCode(418)));
    assert_eq!(check_codes(100), Err(RequestError::UncheckedCode(100)));
    assert_eq!(check_codes(301), Err(RequestError::UncheckedCode(301)));
}

#[test]
fn api_route() {
    let url = api("https://sms.schoolsoft.se/mock", "lunchmenus", &UserType::Student, 1);
    assert_eq!(url, "https://sms.schoolsoft.se/mock/api/lunchmenus/student/1");
}

#[test]
fn api_route_teacher() {
    let url = api("https://example.com/school", "lessons", &UserType::Teacher, 4711);
    assert_eq!(url, "https://example.com/school/api/lessons/teacher/4711");
}

#[test]
fn decimal_text() {
    assert_eq!(u32_to_string(0), "0");
    assert_eq!(u32_to_string(7), "7");
    assert_eq!(u32_to_string(10), "10");
    assert_eq!(u32_to_string(4294967295), "4294967295");
}
