use schoolsoft::date::{Date, DateTime, Time};
use schoolsoft::errors::LunchMenuParseError;
use schoolsoft::types::{LunchMenu, RawLunchMenu};

fn sample_menu() -> RawLunchMenu {
    RawLunchMenu {
        week: 8,
        cre_date: "2024-02-16 15:03:15.0".to_string(),
        dish_category_name: "Lunch".to_string(),
        dates: vec![
            "2024-02-19".to_string(),
            "2024-02-20".to_string(),
            "2024-02-21".to_string(),
            "2024-02-22".to_string(),
            "2024-02-23".to_string(),
            "2024-02-24".to_string(),
            "2024-02-25".to_string(),
        ],
        monday: "Pasta med strimlat fläskkött och pepparsås.\r\n\r\nVeg:\r\nPasta med vegobitar och pepparsås.".to_string(),
        tuesday: "Het köttfärssoppa med kökets bröd.\r\n\r\nVeg:\r\nHet bön och rotfruktssoppa med kökets bröd.".to_string(),
        wednesday: "Kyckling- och gröncurry thai med ris.\r\n\r\nVeg:\r\nBlomkål- och gröncurry thai med ris.".to_string(),
        thursday: "Pestobakad fisk med vitvinsås och pasta penne.\r\n\r\nVeg:\r\nGrönsaksbiffar med vitvinsås och pasta penne.".to_string(),
        friday: "Kryddiga korvar med potatissallad och paprikamajo.\r\n\r\nVeg:\r\nKryddig sojakorv med potatissallad och paprikamajo.".to_string(),
    }
}

#[test]
fn test_deserialize() {
    let lunch_menu = LunchMenu::from_raw_list(&vec![sample_menu()]).unwrap();
    assert_eq!(lunch_menu.week, 8);
    assert_eq!(
        lunch_menu.created_at,
        DateTime {
            date: Date::from_ymd(2024, 2, 16).unwrap(),
            time: Time::new(15, 3, 15, 0).unwrap(),
        }
    );

    assert_eq!(lunch_menu.monday.date, Date::from_ymd(2024, 2, 19).unwrap());
    assert_eq!(lunch_menu.monday.food, "Pasta med strimlat fläskkött och pepparsås.\r\n\r\nVeg:\r\nPasta med vegobitar och pepparsås.");

    assert_eq!(lunch_menu.tuesday.date, Date::from_ymd(2024, 2, 20).unwrap());
    assert_eq!(lunch_menu.tuesday.food, "Het köttfärssoppa med kökets bröd.\r\n\r\nVeg:\r\nHet bön och rotfruktssoppa med kökets bröd.");

    assert_eq!(lunch_menu.wednesday.date, Date::from_ymd(2024, 2, 21).unwrap());
    assert_eq!(lunch_menu.wednesday.food, "Kyckling- och gröncurry thai med ris.\r\n\r\nVeg:\r\nBlomkål- och gröncurry thai med ris.");

    assert_eq!(lunch_menu.thursday.date, Date::from_ymd(2024, 2, 22).unwrap());
    assert_eq!(lunch_menu.thursday.food, "Pestobakad fisk med vitvinsås och pasta penne.\r\n\r\nVeg:\r\nGrönsaksbiffar med vitvinsås och pasta penne.");

    assert_eq!(lunch_menu.friday.date, Date::from_ymd(2024, 2, 23).unwrap());
    assert_eq!(lunch_menu.friday.food, "Kryddiga korvar med potatissallad och paprikamajo.\r\n\r\nVeg:\r\nKryddig sojakorv med potatissallad och paprikamajo.");

    assert_eq!(lunch_menu.category, "Lunch");
}

#[test]
fn empty_response_means_no_menu() {
    let menus: Vec<RawLunchMenu> = vec![];
    assert_eq!(LunchMenu::from_raw_list(&menus), Err(LunchMenuParseError::NoLunchMenu));
}

#[test]
fn bad_date_is_reported_with_its_text() {
    let mut raw = sample_menu();
    raw.dates[2] = "2024-02-31".to_string();
    let err = LunchMenu::from_raw(&raw).unwrap_err();
    assert!(matches!(err, LunchMenuParseError::DateParseError(t) if t == "2024-02-31"));
}

#[test]
fn bad_creation_timestamp_is_reported() {
    let mut raw = sample_menu();
    raw.cre_date = "not a timestamp".to_string();
    let err = LunchMenu::from_raw(&raw).unwrap_err();
    assert!(matches!(err, LunchMenuParseError::DateParseError(t) if t == "not a timestamp"));
}

#[test]
fn short_date_list_is_rejected() {
    let mut raw = sample_menu();
    raw.dates.truncate(5);
    let err = LunchMenu::from_raw(&raw).unwrap_err();
    assert!(matches!(err, LunchMenuParseError::SerdeError(_)));
}
