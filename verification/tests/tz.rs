//! Asia/Taipei date helpers.

use chrono::{DateTime, Datelike, FixedOffset};
use line_hub_core::tz::{
    format_date, local_midnight_to_utc, utc_to_local_date, DAY_MS, EARLIEST_MS, LATEST_MS,
};

#[test]
fn local_midnight_round_trip() {
    // 2026-09-12 00:00 Taipei = 2026-09-11 16:00 UTC
    let utc = local_midnight_to_utc("2026-09-12").expect("ok");
    let instant = DateTime::from_timestamp_millis(utc).expect("in range");
    assert_eq!(instant.format("%Y-%m-%dT%H:%M:%SZ").to_string(), "2026-09-11T16:00:00Z");
    assert_eq!(utc_to_local_date(utc), "2026-09-12");
}

#[test]
fn rejects_bad_date() {
    assert!(local_midnight_to_utc("2026-13-99").is_err());
    assert!(local_midnight_to_utc("hello").is_err());
}

#[test]
fn midnight_is_eight_hours_before_utc_midnight() {
    assert_eq!(local_midnight_to_utc("1970-01-01"), Ok(-28_800_000));
    assert_eq!(local_midnight_to_utc("2026-09-12"), Ok(1_789_142_400_000));
}

#[test]
fn parse_error_names_the_input() {
    let err = local_midnight_to_utc("hello").unwrap_err();
    assert!(err.starts_with("invalid date 'hello' (expected YYYY-MM-DD): "), "{err}");
    assert!(err.len() > "invalid date 'hello' (expected YYYY-MM-DD): ".len());
}

#[test]
fn local_date_turns_at_sixteen_hundred_utc() {
    assert_eq!(utc_to_local_date(1_789_142_399_999), "2026-09-11");
    assert_eq!(utc_to_local_date(1_789_142_400_000), "2026-09-12");
    assert_eq!(utc_to_local_date(0), "1970-01-01");
}

#[test]
fn dates_are_zero_padded() {
    assert_eq!(format_date(2026, 9, 1), "2026-09-01");
    assert_eq!(format_date(33, 12, 31), "0033-12-31");
    assert_eq!(format_date(-5, 1, 2), "-005-01-02");
    assert_eq!(format_date(12345, 10, 10), "12345-10-10");
}

#[test]
fn local_dates_agree_with_chrono_across_its_range() {
    let taipei = FixedOffset::east_opt(8 * 3600).expect("offset");
    for ms in [EARLIEST_MS, EARLIEST_MS + DAY_MS - 28_800_000, -62_167_219_200_000, 0, 1_789_142_400_000, LATEST_MS - 28_800_000, LATEST_MS - 1, LATEST_MS] {
        let local = DateTime::from_timestamp_millis(ms).unwrap_or_else(|| panic!("out of range: {ms}")).with_timezone(&taipei);
        let expected = format!("{:04}-{:02}-{:02}", local.year(), local.month(), local.day());
        assert_eq!(utc_to_local_date(ms), expected, "{ms}");
    }
    assert_eq!(utc_to_local_date(LATEST_MS), "262143-01-01");
    assert!(DateTime::from_timestamp_millis(EARLIEST_MS - 1).is_none());
    assert!(DateTime::from_timestamp_millis(LATEST_MS + 1).is_none());
}

#[test]
fn padded_dates_round_trip() {
    for d in ["0000-01-01", "0033-02-28", "2024-02-29", "1999-12-31", "9999-12-31"] {
        let ms = local_midnight_to_utc(d).expect(d);
        assert_eq!(utc_to_local_date(ms), d);
        assert_eq!(local_midnight_to_utc(&utc_to_local_date(ms + DAY_MS - 1)), Ok(ms));
    }
    assert!(local_midnight_to_utc("2023-02-29").is_err());
}
