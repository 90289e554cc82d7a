use schoolsoft::errors::UuidParseError;
use schoolsoft::uuid::Uuid;

#[test]
fn canonical_round_trip() {
    let text = "afbae58f-c35e-4480-bfd1-574fc8de5572";
    let id = Uuid::parse_str(text).expect("parsing should work");
    assert_eq!(id.to_string(), text);
}

#[test]
fn uppercase_parses_to_lowercase() {
    let id = Uuid::parse_str("AFBAE58F-C35E-4480-BFD1-574FC8DE5572").expect("parsing should work");
    assert_eq!(id.to_string(), "afbae58f-c35e-4480-bfd1-574fc8de5572");
}

#[test]
fn agrees_with_reference_implementation() {
    let text = "afbae58f-c35e-4480-bfd1-574fc8de5572";
    let ours = Uuid::parse_str(text).expect("parsing should work");
    let reference = uuid::Uuid::parse_str(text).expect("parsing should work");
    assert_eq!(ours.to_string(), reference.to_string());
    assert_eq!(ours.bytes, reference.as_bytes().to_vec());
}

#[test]
fn wrong_length_is_invalid() {
    assert_eq!(Uuid::parse_str("afbae58f"), Err(UuidParseError::Invalid));
    assert_eq!(
        Uuid::parse_str("afbae58f-c35e-4480-bfd1-574fc8de55721"),
        Err(UuidParseError::Invalid)
    );
}

#[test]
fn misplaced_hyphens_are_invalid() {
    assert_eq!(
        Uuid::parse_str("afbae58fc-35e-4480-bfd1-574fc8de5572"),
        Err(UuidParseError::Invalid)
    );
}

#[test]
fn non_hex_digits_are_invalid() {
    assert_eq!(
        Uuid::parse_str("afbae58g-c35e-4480-bfd1-574fc8de5572"),
        Err(UuidParseError::Invalid)
    );
}
