use atmo_core::datetime::{
    days_in_month, find_digits_end, is_leap_year, is_valid_date_time, is_valid_datetime,
    is_valid_offset, read_two_digits, DateTime, Moment,
};
use atmo_core::error::ParseError;

fn moment(year: u32, month: u32, day: u32, hour: u32, minute: u32, second: u32) -> Moment {
    Moment { year, month, day, hour, minute, second }
}

#[test]
fn datetime_without_offset_is_rejected() {
    assert_eq!(DateTime::from_str("2024-01-01T00:00:00"), Err(ParseError::DateTime));
    assert_eq!(DateTime::from_str("2024-01-01T00:00:00.123"), Err(ParseError::DateTime));
}

#[test]
fn datetime_with_z_is_accepted_and_kept() {
    let d = DateTime::from_str("2024-01-01T00:00:00Z").unwrap();
    assert_eq!(d.as_str(), "2024-01-01T00:00:00Z");
    assert_eq!(d.to_string(), "2024-01-01T00:00:00Z");
    let d = DateTime::from_str("1985-04-12T23:20:50.123Z").unwrap();
    assert_eq!(d.as_str(), "1985-04-12T23:20:50.123Z");
    let d = DateTime::from_str("0000-01-01T00:00:00.000000001Z").unwrap();
    assert_eq!(d.as_str(), "0000-01-01T00:00:00.000000001Z");
}

#[test]
fn datetime_offset_is_taken_off() {
    let d = DateTime::from_str("2024-01-01T00:30:00+01:00").unwrap();
    assert_eq!(d.as_str(), "2023-12-31T23:30:00Z");
    let d = DateTime::from_str("2023-12-31T23:30:15.5-01:00").unwrap();
    assert_eq!(d.as_str(), "2024-01-01T00:30:15.5Z");
    let d = DateTime::from_str("1985-04-12T23:20:50.123-07:00").unwrap();
    assert_eq!(d.as_str(), "1985-04-13T06:20:50.123Z");
    let d = DateTime::from_str("2024-03-01T00:00:00+00:01").unwrap();
    assert_eq!(d.as_str(), "2024-02-29T23:59:00Z");
    let d = DateTime::from_str("2023-03-01T00:00:00+00:01").unwrap();
    assert_eq!(d.as_str(), "2023-02-28T23:59:00Z");
    let d = DateTime::from_str("2024-02-28T23:00:00-02:30").unwrap();
    assert_eq!(d.as_str(), "2024-02-29T01:30:00Z");
    let d = DateTime::from_str("2024-06-15T12:00:00+05:30").unwrap();
    assert_eq!(d.as_str(), "2024-06-15T06:30:00Z");
    let d = DateTime::from_str("2024-06-15T12:00:00+00:00").unwrap();
    assert_eq!(d.as_str(), "2024-06-15T12:00:00Z");
    let d = DateTime::from_str("2024-06-15T12:00:00-00:00").unwrap();
    assert_eq!(d.as_str(), "2024-06-15T12:00:00Z");
    let d = DateTime::from_str("2024-05-01T00:00:00+23:59").unwrap();
    assert_eq!(d.as_str(), "2024-04-30T00:01:00Z");
}

#[test]
fn datetime_outside_four_digit_years_is_rejected() {
    assert!(DateTime::from_str("0000-01-01T00:00:00+00:01").is_err());
    assert!(DateTime::from_str("9999-12-31T23:59:59-00:01").is_err());
    assert!(DateTime::from_str("0000-01-01T00:00:00-00:01").is_ok());
    assert_eq!(
        DateTime::from_str("9999-12-31T23:59:59+00:01").unwrap().as_str(),
        "9999-12-31T23:58:59Z"
    );
}

#[test]
fn datetime_shape_is_exact() {
    assert!(DateTime::from_str("").is_err());
    assert!(DateTime::from_str("2024-01-01").is_err());
    assert!(DateTime::from_str("2024-01-01 00:00:00Z").is_err());
    assert!(DateTime::from_str("2024-01-01t00:00:00Z").is_err());
    assert!(DateTime::from_str("2024-01-01T00:00:00z").is_err());
    assert!(DateTime::from_str("2024-01-01T00:00Z").is_err());
    assert!(DateTime::from_str("2024-1-01T00:00:00Z").is_err());
    assert!(DateTime::from_str("2024/01/01T00:00:00Z").is_err());
    assert!(DateTime::from_str("2024-01-01T00:00:00.Z").is_err());
    assert!(DateTime::from_str("2024-01-01T00:00:00,5Z").is_err());
    assert!(DateTime::from_str("2024-01-01T00:00:00ZZ").is_err());
    assert!(DateTime::from_str("2024-01-01T00:00:00Z ").is_err());
    assert!(DateTime::from_str("2024-01-01T00:00:00+0100").is_err());
    assert!(DateTime::from_str("2024-01-01T00:00:00+01").is_err());
    assert!(DateTime::from_str("2024-01-01T00:00:00+01:0").is_err());
    assert!(DateTime::from_str("x024-01-01T00:00:00Z").is_err());
    assert!(DateTime::from_str("2024-01-01T00:00:00\u{e9}").is_err());
}

#[test]
fn datetime_ranges() {
    assert!(DateTime::from_str("2024-00-01T00:00:00Z").is_err());
    assert!(DateTime::from_str("2024-13-01T00:00:00Z").is_err());
    assert!(DateTime::from_str("2024-01-00T00:00:00Z").is_err());
    assert!(DateTime::from_str("2024-01-32T00:00:00Z").is_err());
    assert!(DateTime::from_str("2024-04-31T00:00:00Z").is_err());
    assert!(DateTime::from_str("2024-02-29T00:00:00Z").is_ok());
    assert!(DateTime::from_str("2023-02-29T00:00:00Z").is_err());
    assert!(DateTime::from_str("1900-02-29T00:00:00Z").is_err());
    assert!(DateTime::from_str("2000-02-29T00:00:00Z").is_ok());
    assert!(DateTime::from_str("2024-01-01T24:00:00Z").is_err());
    assert!(DateTime::from_str("2024-01-01T23:60:00Z").is_err());
    assert!(DateTime::from_str("2024-01-01T23:59:60Z").is_err());
    assert!(DateTime::from_str("2024-01-01T23:59:59Z").is_ok());
    assert!(DateTime::from_str("2024-01-01T00:00:00+24:00").is_err());
    assert!(DateTime::from_str("2024-01-01T00:00:00+00:60").is_err());
}

#[test]
fn datetime_round_trip() {
    let d = DateTime::from_str("2024-01-01T00:30:00.25+01:00").unwrap();
    let again = DateTime::from_str(d.as_str()).unwrap();
    assert_eq!(d, again);
    assert_eq!(again.as_str(), "2023-12-31T23:30:00.25Z");
    assert_eq!(d.clone(), d);
    assert_ne!(d, DateTime::from_str("2023-12-31T23:30:00.250Z").unwrap());
    assert_eq!(
        DateTime::from_str("2024-01-01T01:00:00+01:00").unwrap(),
        DateTime::from_str("2023-12-31T19:00:00-05:00").unwrap()
    );
}

#[test]
fn datetime_bytes_validators() {
    assert!(is_valid_datetime(b"2024-01-01T00:00:00Z"));
    assert!(is_valid_datetime(b"0000-01-01T00:00:00+00:01"));
    assert!(!is_valid_datetime(b"2024-01-01T00:00:00"));
    assert!(is_valid_date_time(b"2024-01-01T00:00:00"));
    assert!(is_valid_date_time(b"2024-01-01T00:00:00 and more"));
    assert!(!is_valid_date_time(b"2024-01-01T00:00:0"));
    assert!(!is_valid_date_time(b"2024-02-30T00:00:00"));
    assert!(is_valid_offset(b"Z"));
    assert!(is_valid_offset(b"+23:59"));
    assert!(is_valid_offset(b"-00:00"));
    assert!(!is_valid_offset(b""));
    assert!(!is_valid_offset(b"z"));
    assert!(!is_valid_offset(b"+1:00"));
    assert!(!is_valid_offset(b"*01:00"));
}

#[test]
fn calendar_rules() {
    assert!(is_leap_year(2024));
    assert!(is_leap_year(2000));
    assert!(is_leap_year(0));
    assert!(!is_leap_year(1900));
    assert!(!is_leap_year(2023));
    assert_eq!(days_in_month(2024, 2), 29);
    assert_eq!(days_in_month(2023, 2), 28);
    assert_eq!(days_in_month(2023, 1), 31);
    assert_eq!(days_in_month(2023, 4), 30);
    assert_eq!(days_in_month(2023, 6), 30);
    assert_eq!(days_in_month(2023, 9), 30);
    assert_eq!(days_in_month(2023, 11), 30);
    assert_eq!(days_in_month(2023, 12), 31);
}

#[test]
fn digits_are_read() {
    assert_eq!(read_two_digits(b"x42y", 1), Some(42));
    assert_eq!(read_two_digits(b"07", 0), Some(7));
    assert_eq!(read_two_digits(b"4a", 0), None);
    assert_eq!(read_two_digits(b"a4", 0), None);
    assert_eq!(find_digits_end(b"ab123c", 2), 5);
    assert_eq!(find_digits_end(b"ab123", 2), 5);
    assert_eq!(find_digits_end(b"abc", 1), 1);
    assert_eq!(find_digits_end(b"abc", 3), 3);
}

#[test]
fn moment_to_utc() {
    let m = moment(2024, 1, 1, 0, 30, 7);
    assert_eq!(m.to_utc(60), Some(moment(2023, 12, 31, 23, 30, 7)));
    assert_eq!(m.to_utc(0), Some(m));
    assert_eq!(m.to_utc(-90), Some(moment(2024, 1, 1, 2, 0, 7)));
    assert_eq!(m.to_utc(30), Some(moment(2024, 1, 1, 0, 0, 7)));
    assert_eq!(m.to_utc(31), Some(moment(2023, 12, 31, 23, 59, 7)));
    let m = moment(2024, 2, 29, 23, 59, 0);
    assert_eq!(m.to_utc(-1), Some(moment(2024, 3, 1, 0, 0, 0)));
    let m = moment(2024, 3, 1, 0, 0, 0);
    assert_eq!(m.to_utc(1), Some(moment(2024, 2, 29, 23, 59, 0)));
    assert_eq!(moment(0, 1, 1, 0, 0, 0).to_utc(1), None);
    assert_eq!(moment(9999, 12, 31, 23, 59, 0).to_utc(-1), None);
    assert_eq!(moment(9999, 12, 31, 23, 59, 0).to_utc(-1439).is_none(), true);
    assert_eq!(
        moment(2024, 12, 31, 23, 59, 0).to_utc(-1439),
        Some(moment(2025, 1, 1, 23, 58, 0))
    );
}

#[test]
fn datetime_error_message() {
    assert_eq!(ParseError::datetime(), ParseError::DateTime);
    assert_eq!(ParseError::DateTime.message(), "invalid datetime");
}

#[test]
fn datetime_moment_is_in_utc() {
    let d = DateTime::from_str("2024-01-01T00:30:07.5+01:00").unwrap();
    assert_eq!(d.moment(), moment(2023, 12, 31, 23, 30, 7));
    let d = DateTime::from_str("1985-04-12T23:20:50Z").unwrap();
    assert_eq!(d.moment(), moment(1985, 4, 12, 23, 20, 50));
}
