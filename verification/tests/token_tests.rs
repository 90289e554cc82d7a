use schoolsoft::date::{Date, DateTime, Time};
use schoolsoft::types::Token;
use schoolsoft::utils::parse_datetime;

fn instant(y: u32, mo: u8, d: u8, h: u8, mi: u8, s: u8) -> DateTime {
    DateTime {
        date: Date::from_ymd(y, mo, d).unwrap(),
        time: Time::new(h, mi, s, 0).unwrap(),
    }
}

#[test]
fn valid_triple_decimal() {
    let expires = parse_datetime("2024-01-01 12:00:00.123")
        .expect("Failed to parse timestamp with 3 decimal places");
    let token = Token::new_with_now(
        "123notrealtoken123_1337_1".to_string(),
        expires,
        instant(2024, 1, 1, 11, 0, 0),
    );

    assert_eq!(token.token, "123notrealtoken123_1337_1".to_string());
    assert_eq!(
        token.expires,
        DateTime {
            date: Date::from_ymd(2024, 1, 1).unwrap(),
            time: Time::new(12, 0, 0, 123).unwrap(),
        }
    );
}

#[test]
fn valid_double_decimal() {
    let expires = parse_datetime("2024-02-06 21:37:15.15")
        .expect("Failed to parse timestamp with 2 decimal places");
    assert_eq!(
        expires,
        DateTime {
            date: Date::from_ymd(2024, 2, 6).unwrap(),
            time: Time::new(21, 37, 15, 150).unwrap(),
        }
    );
}

#[test]
fn valid_single_decimal() {
    let expires = parse_datetime("2024-02-06 21:37:15.1")
        .expect("Failed to parse timestamp with 1 decimal place");
    assert_eq!(
        expires,
        DateTime {
            date: Date::from_ymd(2024, 2, 6).unwrap(),
            time: Time::new(21, 37, 15, 100).unwrap(),
        }
    );
}

#[test]
fn valid_no_decimal() {
    let expires = parse_datetime("2024-02-06 21:37:15")
        .expect("Failed to parse timestamp with no decimal places");
    assert_eq!(
        expires,
        DateTime {
            date: Date::from_ymd(2024, 2, 6).unwrap(),
            time: Time::new(21, 37, 15, 0).unwrap(),
        }
    );
}

#[test]
fn expiration_in_1h() {
    let token = Token::new_with_now(
        "123notrealtoken123_1337_1".to_string(),
        instant(2024, 1, 1, 12, 0, 0),
        instant(2024, 1, 1, 11, 0, 0),
    );
    assert_eq!(token.expires_in(), 3_600_000);
}

#[test]
fn expiration_in_1m() {
    let token = Token::new_with_now(
        "123notrealtoken123_1337_1".to_string(),
        instant(2024, 1, 1, 12, 0, 0),
        instant(2024, 1, 1, 11, 59, 0),
    );
    assert_eq!(token.expires_in(), 60_000);
    assert!(!token.is_expired());
    assert!(token.is_valid());
}

#[test]
fn expiration_now() {
    let token = Token::new_with_now(
        "123notrealtoken123_1337_1".to_string(),
        instant(2024, 1, 1, 12, 0, 0),
        instant(2024, 1, 1, 12, 0, 0),
    );
    assert_eq!(token.expires_in(), 0);
    assert!(!token.is_expired());
    assert!(token.is_valid());
}

#[test]
fn expiration_expired() {
    let token = Token::new_with_now(
        "123notrealtoken123_1337_1".to_string(),
        instant(2024, 1, 1, 12, 0, 0),
        instant(2024, 1, 1, 12, 0, 1),
    );
    assert_eq!(token.expires_in(), -1_000);
    assert_eq!(token.is_expired(), true);
    assert_eq!(token.is_valid(), false);
}

#[test]
fn safety_needs_a_minute() {
    let fresh = Token::new_with_now(
        "t".to_string(),
        instant(2024, 1, 1, 12, 0, 0),
        instant(2024, 1, 1, 11, 0, 0),
    );
    assert!(fresh.is_safe());

    let stale = Token::new_with_now(
        "t".to_string(),
        instant(2024, 1, 1, 12, 0, 0),
        instant(2024, 1, 1, 11, 59, 30),
    );
    assert_eq!(stale.is_safe(), false);
}

#[test]
fn expiry_across_days() {
    let token = Token::new_with_now(
        "t".to_string(),
        instant(2024, 1, 2, 0, 0, 0),
        instant(2024, 1, 1, 23, 0, 0),
    );
    assert_eq!(token.expires_in(), 3_600_000);
}
