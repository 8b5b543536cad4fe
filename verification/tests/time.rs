use chrono::{DateTime, Datelike, NaiveDate, SecondsFormat, Timelike, Utc};
use quicken::Timestamp;

fn both(
    year: i32,
    month: u32,
    day: u32,
    hour: u32,
    minute: u32,
    second: u32,
    nano: u32,
) -> (Timestamp, DateTime<Utc>) {
    let t = Timestamp::new(year, month, day, hour, minute, second, nano).expect("a moment");
    let d = NaiveDate::from_ymd_opt(year, month, day)
        .and_then(|d| d.and_hms_nano_opt(hour, minute, second, nano))
        .expect("a date and time")
        .and_utc();
    (t, d)
}

#[test]
fn stamps_agree_with_chrono() {
    for (t, d) in [
        both(2026, 6, 5, 10, 30, 45, 123_000_000),
        both(2026, 6, 5, 0, 0, 0, 0),
        both(1, 1, 1, 1, 1, 1, 1),
        both(0, 2, 29, 23, 59, 59, 999_999_999),
        both(-1, 12, 31, 23, 59, 59, 1_000),
        both(12345, 7, 8, 9, 10, 11, 500_000_000),
        both(2016, 12, 31, 23, 59, 59, 1_500_000_000),
        both(262142, 12, 31, 23, 59, 59, 0),
        both(-262143, 1, 1, 0, 0, 0, 0),
    ] {
        assert_eq!(t.to_rfc3339(), d.to_rfc3339());
        assert_eq!(t.to_rfc3339_zulu(), d.to_rfc3339_opts(SecondsFormat::AutoSi, true));
        assert_eq!(t.file_stamp(), d.format("%Y-%m-%dT%H_%M_%S%.3fZ").to_string());
        assert_eq!(t.heading_stamp(), d.format("%Y-%m-%d %H:%M:%S UTC").to_string());
    }
}

#[test]
fn stamps_have_exact_texts() {
    let (t, _) = both(2026, 6, 5, 10, 30, 45, 123_000_000);
    assert_eq!(t.to_rfc3339(), "2026-06-05T10:30:45.123+00:00");
    assert_eq!(t.to_rfc3339_zulu(), "2026-06-05T10:30:45.123Z");
    assert_eq!(t.file_stamp(), "2026-06-05T10_30_45.123Z");
    assert_eq!(t.heading_stamp(), "2026-06-05 10:30:45 UTC");
    let (t, _) = both(2026, 6, 5, 10, 30, 45, 0);
    assert_eq!(t.to_rfc3339_zulu(), "2026-06-05T10:30:45Z");
    let (t, _) = both(2026, 6, 5, 10, 30, 45, 1_000);
    assert_eq!(t.to_rfc3339_zulu(), "2026-06-05T10:30:45.000001Z");
    let (t, _) = both(2026, 6, 5, 10, 30, 45, 1);
    assert_eq!(t.to_rfc3339_zulu(), "2026-06-05T10:30:45.000000001Z");
    let (t, _) = both(2016, 12, 31, 23, 59, 59, 1_500_000_000);
    assert_eq!(t.to_rfc3339_zulu(), "2016-12-31T23:59:60.500Z");
    assert_eq!(t.file_stamp(), "2016-12-31T23_59_60.500Z");
}

#[test]
fn years_outside_four_digits_have_a_sign() {
    let (t, _) = both(0, 2, 29, 23, 59, 59, 999_999_999);
    assert_eq!(t.file_stamp(), "0000-02-29T23_59_59.999Z");
    assert_eq!(t.to_rfc3339(), "0000-02-29T23:59:59.999999999+00:00");
    let (t, _) = both(-1, 12, 31, 0, 0, 0, 0);
    assert_eq!(t.file_stamp(), "-0001-12-31T00_00_00.000Z");
    assert_eq!(t.heading_stamp(), "-0001-12-31 00:00:00 UTC");
    assert_eq!(t.to_rfc3339_zulu(), "-0001-12-31T00:00:00Z");
    let (t, _) = both(-12345, 1, 2, 3, 4, 5, 0);
    assert_eq!(t.file_stamp(), "-12345-01-02T03_04_05.000Z");
    assert_eq!(t.to_rfc3339_zulu(), "-12345-01-02T03:04:05Z");
    let (t, _) = both(12345, 7, 8, 9, 10, 11, 500_000_000);
    assert_eq!(t.file_stamp(), "+12345-07-08T09_10_11.500Z");
    assert_eq!(t.heading_stamp(), "+12345-07-08 09:10:11 UTC");
    assert_eq!(t.to_rfc3339_zulu(), "+12345-07-08T09:10:11.500Z");
}

#[test]
fn moments_that_do_not_exist_are_refused() {
    assert!(Timestamp::new(2023, 2, 29, 0, 0, 0, 0).is_none());
    assert!(Timestamp::new(2024, 2, 29, 0, 0, 0, 0).is_some());
    assert!(Timestamp::new(1900, 2, 29, 0, 0, 0, 0).is_none());
    assert!(Timestamp::new(2000, 2, 29, 0, 0, 0, 0).is_some());
    assert!(Timestamp::new(-4, 2, 29, 0, 0, 0, 0).is_some());
    assert!(Timestamp::new(2026, 0, 1, 0, 0, 0, 0).is_none());
    assert!(Timestamp::new(2026, 13, 1, 0, 0, 0, 0).is_none());
    assert!(Timestamp::new(2026, 4, 31, 0, 0, 0, 0).is_none());
    assert!(Timestamp::new(2026, 4, 0, 0, 0, 0, 0).is_none());
    assert!(Timestamp::new(2026, 4, 1, 24, 0, 0, 0).is_none());
    assert!(Timestamp::new(2026, 4, 1, 0, 60, 0, 0).is_none());
    assert!(Timestamp::new(2026, 4, 1, 0, 0, 60, 0).is_none());
    assert!(Timestamp::new(2026, 4, 1, 0, 0, 0, 1_000_000_000).is_none());
    assert!(Timestamp::new(2026, 4, 1, 0, 0, 59, 1_999_999_999).is_some());
    assert!(Timestamp::new(2026, 4, 1, 0, 0, 59, 2_000_000_000).is_none());
    assert!(Timestamp::new(262143, 1, 1, 0, 0, 0, 0).is_none());
    assert!(Timestamp::new(-262144, 1, 1, 0, 0, 0, 0).is_none());
}

#[test]
fn parts_give_back_the_fields() {
    let (t, _) = both(2026, 6, 5, 10, 30, 45, 7);
    assert_eq!(t.parts(), (2026, 6, 5, 10, 30, 45, 7));
}

#[test]
fn now_is_close_to_the_clock() {
    let before = Utc::now();
    let (year, month, day, hour, minute, second, nano) = Timestamp::now().parts();
    let now = NaiveDate::from_ymd_opt(year, month, day)
        .and_then(|d| d.and_hms_nano_opt(hour, minute, second, nano))
        .expect("a date and time")
        .and_utc();
    let after = Utc::now();
    assert!(before <= now && now <= after);
    assert_eq!(now.year(), year);
    assert_eq!(now.nanosecond(), nano);
}

#[test]
fn names_sort_as_moments_do() {
    let moments = [
        both(0, 1, 1, 0, 0, 0, 0),
        both(999, 12, 31, 23, 59, 59, 0),
        both(2025, 12, 31, 23, 59, 59, 999_000_000),
        both(2026, 1, 1, 0, 0, 0, 0),
        both(2026, 1, 1, 0, 0, 0, 1_000_000),
        both(2026, 1, 9, 0, 0, 0, 0),
        both(2026, 1, 10, 0, 0, 0, 0),
        both(2026, 10, 1, 0, 0, 0, 0),
        both(9999, 12, 31, 23, 59, 59, 1_999_999_999),
    ];
    for pair in moments.windows(2) {
        assert!(pair[0].0.file_stamp() < pair[1].0.file_stamp());
        assert!(pair[0].1 < pair[1].1);
    }
}
