use ubpa_hermes::datetime::{elapsed_days, parse_datetime, CREATED_AT_FORMAT, SECONDS_PER_DAY};

#[test]
fn parses_database_timestamps() {
    let p = parse_datetime("2024-03-01 12:30:45", CREATED_AT_FORMAT).unwrap();
    assert_eq!(p.timestamp, 1709296245);
    assert_eq!(p.text, "2024-03-01 12:30:45");
}

#[test]
fn rejects_malformed_timestamps() {
    assert!(parse_datetime("2024-03-01T12:30:45", CREATED_AT_FORMAT).is_none());
    assert!(parse_datetime("yesterday", CREATED_AT_FORMAT).is_none());
    assert!(parse_datetime("", CREATED_AT_FORMAT).is_none());
}

#[test]
fn counts_whole_days_toward_zero() {
    assert_eq!(elapsed_days(0, 0), 0);
    assert_eq!(elapsed_days(SECONDS_PER_DAY - 1, 0), 0);
    assert_eq!(elapsed_days(SECONDS_PER_DAY, 0), 1);
    assert_eq!(elapsed_days(2 * SECONDS_PER_DAY - 1, 0), 1);
    assert_eq!(elapsed_days(2 * SECONDS_PER_DAY, 0), 2);
    assert_eq!(elapsed_days(0, SECONDS_PER_DAY + 5), -1);
    assert_eq!(elapsed_days(0, SECONDS_PER_DAY - 5), 0);
    assert_eq!(elapsed_days(i64::MAX, i64::MIN), (u64::MAX / 86400) as i64);
}
