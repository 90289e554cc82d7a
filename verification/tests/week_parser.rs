use schoolsoft::errors::WeekRangeError;
use schoolsoft::utils::WeekRange;

#[test]
fn utils_single() {
    let input = "11";
    let expected: Vec<u8> = vec![11];
    let actual: Vec<u8> = WeekRange::from(input).collect_weeks().expect("parsing should work");
    assert_eq!(expected, actual);
}

#[test]
fn range() {
    let input = "13-17";
    let expected: Vec<u8> = vec![13, 14, 15, 16, 17];
    let actual: Vec<u8> = WeekRange::from(input).collect_weeks().expect("parsing should work");
    assert_eq!(expected, actual);
}

#[test]
fn complex() {
    let input = "30-37, 39, 40-42, 44-50";
    let expected: Vec<u8> =
        vec![30, 31, 32, 33, 34, 35, 36, 37, 39, 40, 41, 42, 44, 45, 46, 47, 48, 49, 50];
    let actual: Vec<u8> = WeekRange::from(input).collect_weeks().expect("parsing should work");
    assert_eq!(expected, actual);
}

#[test]
fn empty_input_yields_no_weeks() {
    let actual: Vec<u8> = WeekRange::from("").collect_weeks().expect("parsing should work");
    assert_eq!(actual, Vec::<u8>::new());
}

#[test]
fn single_element_range() {
    let actual: Vec<u8> = WeekRange::from("7-7").collect_weeks().expect("parsing should work");
    assert_eq!(actual, vec![7]);
}

#[test]
fn comma_without_space() {
    let actual: Vec<u8> = WeekRange::from("1,2").collect_weeks().expect("parsing should work");
    assert_eq!(actual, vec![1, 2]);
}

#[test]
fn comma_with_many_spaces() {
    let actual: Vec<u8> = WeekRange::from("1,   2").collect_weeks().expect("parsing should work");
    assert_eq!(actual, vec![1, 2]);
}

#[test]
fn duplicates_are_kept() {
    let actual: Vec<u8> = WeekRange::from("4-6, 5").collect_weeks().expect("parsing should work");
    assert_eq!(actual, vec![4, 5, 6, 5]);
}

#[test]
fn dangling_dash_is_malformed() {
    assert_eq!(WeekRange::from("13-").collect_weeks(), Err(WeekRangeError::Malformed));
}

#[test]
fn dangling_comma_is_malformed() {
    assert_eq!(WeekRange::from("13, ").collect_weeks(), Err(WeekRangeError::Malformed));
}

#[test]
fn reversed_range_is_malformed() {
    assert_eq!(WeekRange::from("17-13").collect_weeks(), Err(WeekRangeError::Malformed));
}

#[test]
fn oversized_number_is_malformed() {
    assert_eq!(WeekRange::from("300").collect_weeks(), Err(WeekRangeError::Malformed));
}

#[test]
fn letters_are_malformed() {
    assert_eq!(WeekRange::from("3a").collect_weeks(), Err(WeekRangeError::Malformed));
}
