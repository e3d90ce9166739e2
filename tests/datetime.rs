use wdapty::{extract_date_parts, parse_i32, DateField, DateParts, DateTimeError};

#[test]
fn check_extract_date_parts() {
    let DateParts(year, month, day, hour, minute, second) =
        extract_date_parts("2024-02-01 17:02:00").expect("Value should be parsed correctly");

    assert_eq!(year, 2024);
    assert_eq!(month, 02);
    assert_eq!(day, 01);
    assert_eq!(hour, 17);
    assert_eq!(minute, 02);
    assert_eq!(second, 00);
}

#[test]
fn check_extract_date_parts_throws() {
    assert!(extract_date_parts("2024-01 17:02:00").is_err());
    assert!(extract_date_parts("2024-02-01 sadsd:02:00").is_err());
    assert!(extract_date_parts("2024-01-01 17:02").is_err());
    assert!(extract_date_parts("2024-01-01 17:02:").is_err());
    assert!(extract_date_parts("2024-01 17:02").is_err());
    assert!(extract_date_parts("2024-01 17:02:").is_err());
}

#[test]
fn datetime_errors_name_their_cause() {
    assert_eq!(extract_date_parts("2024-01 17:02:00"), Err(DateTimeError::Format));
    assert_eq!(extract_date_parts("2024-01-01 17:02"), Err(DateTimeError::Format));
    assert_eq!(
        extract_date_parts("2024-02-01 sadsd:02:00"),
        Err(DateTimeError::FailedToParse(DateField::Hour))
    );
    assert_eq!(
        extract_date_parts("2024-01-01 17:02:"),
        Err(DateTimeError::FailedToParse(DateField::Second))
    );
    assert_eq!(
        extract_date_parts("x-01-01 17:02:00"),
        Err(DateTimeError::FailedToParse(DateField::Year))
    );
    assert_eq!(
        extract_date_parts("2024-1x-01 17:02:00"),
        Err(DateTimeError::FailedToParse(DateField::Month))
    );
}

#[test]
fn datetime_needs_exactly_one_space() {
    assert_eq!(extract_date_parts("2024-01-01"), Err(DateTimeError::Format));
    assert_eq!(extract_date_parts("2024-01-01  17:02:00"), Err(DateTimeError::Format));
    assert_eq!(extract_date_parts("2024-01-01 17:02:00 x"), Err(DateTimeError::Format));
    assert_eq!(extract_date_parts(""), Err(DateTimeError::Format));
}

#[test]
fn datetime_ranges_are_not_checked() {
    assert_eq!(
        extract_date_parts("2024-13-45 99:61:-5"),
        Ok(DateParts(2024, 13, 45, 99, 61, -5))
    );
    assert_eq!(
        extract_date_parts("+7-0-0 0:0:0"),
        Ok(DateParts(7, 0, 0, 0, 0, 0))
    );
}

#[test]
fn datetime_error_messages() {
    assert_eq!(
        DateTimeError::Format.message(),
        "Wrong datetime format. Needs to be 'YYYY-MM-DD hh-mm-ss'"
    );
    assert_eq!(
        DateTimeError::FailedToParse(DateField::Minute).message(),
        "Failed to parse minute"
    );
}

#[test]
fn parse_i32_reads_like_from_str() {
    assert_eq!(parse_i32("0"), Some(0));
    assert_eq!(parse_i32("-17"), Some(-17));
    assert_eq!(parse_i32("+17"), Some(17));
    assert_eq!(parse_i32("000000000000000000042"), Some(42));
    assert_eq!(parse_i32("2147483647"), Some(i32::MAX));
    assert_eq!(parse_i32("-2147483648"), Some(i32::MIN));
    assert_eq!(parse_i32("2147483648"), None);
    assert_eq!(parse_i32("-2147483649"), None);
    assert_eq!(parse_i32("99999999999999999999"), None);
    assert_eq!(parse_i32(""), None);
    assert_eq!(parse_i32("-"), None);
    assert_eq!(parse_i32("+"), None);
    assert_eq!(parse_i32(" 1"), None);
    assert_eq!(parse_i32("1a"), None);
    assert_eq!(parse_i32("--1"), None);
}
