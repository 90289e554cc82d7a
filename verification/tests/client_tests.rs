use schoolsoft::types::{Org, RawOrg, UserType};
use schoolsoft::ClientBuilder;

#[test]
fn with_base_url() {
    let builder = ClientBuilder::new().base_url("https://sms.schoolsoft.se".to_string());
    assert_eq!(builder.resolved_base_url(), "https://sms.schoolsoft.se");
}

#[test]
fn default_configuration() {
    let builder = ClientBuilder::new();
    assert_eq!(builder.resolved_base_url(), "https://sms.schoolsoft.se");
    assert_eq!(builder.resolved_device_id(), "");
}

#[test]
fn custom_configuration() {
    let builder = ClientBuilder::new()
        .base_url("https://example.com".to_string())
        .device_id("1234567890".to_string());
    assert_eq!(builder.resolved_base_url(), "https://example.com");
    assert_eq!(builder.resolved_device_id(), "1234567890");
}

#[test]
fn user_type_codes() {
    assert_eq!(UserType::from_u8(1), Some(UserType::Student));
    assert_eq!(UserType::from_u8(2), Some(UserType::Parent));
    assert_eq!(UserType::from_u8(3), Some(UserType::Teacher));
    assert_eq!(UserType::from_u8(0), None);
    assert_eq!(UserType::from_u8(4), None);
}

#[test]
fn user_type_names() {
    assert_eq!(UserType::Student.to_string(), "student");
    assert_eq!(UserType::Parent.to_string(), "parent");
    assert_eq!(UserType::Teacher.to_string(), "teacher");
}

#[test]
fn org_from_raw() {
    let raw = RawOrg {
        name: "Mock School".to_string(),
        blogger: false,
        school_type: 9,
        leisure_school: 0,
        class: "F35b".to_string(),
        org_id: 1,
        token_login: "https://sms1.schoolsoft.se/mock_school/jsp/app/TokenLogin.jsp".to_string(),
    };
    let org = Org::from(raw);
    assert_eq!(org.id, 1);
    assert_eq!(org.name, "Mock School");
    assert!(!org.blogger);
    assert_eq!(org.school_type, 9);
    assert_eq!(org.leisure_school, 0);
    assert_eq!(org.class, "F35b");
    assert_eq!(org.token_login, "https://sms1.schoolsoft.se/mock_school/jsp/app/TokenLogin.jsp");
}
