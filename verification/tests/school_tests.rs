use schoolsoft::errors::SchoolListingError;
use schoolsoft::school::{parse_methods, RawSchoolListing, SchoolListing};

fn mock_raw() -> RawSchoolListing {
    RawSchoolListing {
        student_login_methods: "0,1,4".to_string(),
        parent_login_methods: "4".to_string(),
        teacher_login_methods: "0".to_string(),
        name: "Mock School".to_string(),
        url: "https://sms.schoolsoft.se/mock/".to_string(),
    }
}

#[test]
fn school_deserialize_valid_json() {
    let school_listing = SchoolListing::from_raw(&mock_raw()).expect("Failed to resolve record");

    assert_eq!(school_listing.name, "Mock School");
    assert_eq!(school_listing.url, "https://sms.schoolsoft.se/mock/");
    assert_eq!(school_listing.url_name, "mock");
    assert_eq!(school_listing.login_methods.student, vec![0, 1, 4]);
    assert_eq!(school_listing.login_methods.teacher, vec![0]);
    assert_eq!(school_listing.login_methods.parent, vec![4]);
}

#[test]
fn parse_methods_cases() {
    assert_eq!(parse_methods(""), Ok(vec![]));
    assert_eq!(parse_methods("4"), Ok(vec![4]));
    assert_eq!(parse_methods("0,1,4"), Ok(vec![0, 1, 4]));
    assert_eq!(parse_methods("0,"), Ok(vec![0]));
    assert_eq!(parse_methods(",,4"), Ok(vec![4]));
}

#[test]
fn parse_methods_rejects_non_numbers() {
    assert!(matches!(parse_methods("1a"), Err(SchoolListingError::ParseError(_))));
    assert!(matches!(parse_methods("300"), Err(SchoolListingError::ParseError(_))));
    assert!(matches!(parse_methods(" 1"), Err(SchoolListingError::ParseError(_))));
}

#[test]
fn url_without_separator_is_bad() {
    let mut raw = mock_raw();
    raw.url = "nourl".to_string();
    assert_eq!(SchoolListing::from_raw(&raw), Err(SchoolListingError::BadUrl));
}

#[test]
fn url_name_without_trailing_separator() {
    let mut raw = mock_raw();
    raw.url = "https://sms.schoolsoft.se/mock".to_string();
    let listing = SchoolListing::from_raw(&raw).expect("Failed to resolve record");
    // the name segment sits before the last separator
    assert_eq!(listing.url_name, "sms.schoolsoft.se");
}

#[test]
fn bad_methods_fail_resolution() {
    let mut raw = mock_raw();
    raw.teacher_login_methods = "x".to_string();
    let err = SchoolListing::from_raw(&raw).unwrap_err();
    assert!(matches!(err, SchoolListingError::ParseError(t) if t == "x"));
}

#[test]
fn many_records_resolve_in_order() {
    let mut other = mock_raw();
    other.name = "Other School".to_string();
    other.url = "https://sms.schoolsoft.se/other/".to_string();
    let schools =
        SchoolListing::from_raw_many(&vec![mock_raw(), other]).expect("Failed to resolve records");
    assert_eq!(schools.len(), 2);
    assert_eq!(schools[0].url_name, "mock");
    assert_eq!(schools[1].url_name, "other");
}

#[test]
fn many_records_fail_on_first_bad() {
    let mut bad = mock_raw();
    bad.student_login_methods = "oops".to_string();
    let err = SchoolListing::from_raw_many(&vec![mock_raw(), bad]).unwrap_err();
    assert!(matches!(err, SchoolListingError::ParseError(t) if t == "oops"));
}
