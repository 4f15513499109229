use capture_control::framework::clock::ClockReading;
use chrono::{Datelike, NaiveDate, Timelike};

fn reading(year: i32, month: u32, day: u32, hour: u32, minute: u32, second: u32) -> ClockReading {
    ClockReading { year, month, day, hour, minute, second, nanosecond: 0, timestamp_millis: 0 }
}

#[test]
fn session_id_is_exact() {
    assert_eq!(reading(2024, 3, 9, 7, 5, 1).session_id(), "20240309070501");
    assert_eq!(reading(1999, 12, 31, 23, 59, 59).session_id(), "19991231235959");
    assert_eq!(reading(2026, 10, 28, 0, 0, 0).session_id(), "20261028000000");
}

#[test]
fn session_id_pads_early_years() {
    assert_eq!(reading(0, 1, 1, 0, 0, 0).session_id(), "00000101000000");
    assert_eq!(reading(7, 1, 2, 3, 4, 5).session_id(), "00070102030405");
    assert_eq!(reading(987, 6, 5, 4, 3, 2).session_id(), "09870605040302");
    assert_eq!(reading(9999, 1, 1, 0, 0, 0).session_id(), "99990101000000");
}

#[test]
fn session_id_signs_years_outside_four_digits() {
    assert_eq!(reading(10000, 1, 1, 0, 0, 0).session_id(), "+100000101000000");
    assert_eq!(reading(-1, 1, 1, 0, 0, 0).session_id(), "-00010101000000");
    assert_eq!(reading(-12345, 1, 1, 0, 0, 0).session_id(), "-123450101000000");
    assert_eq!(reading(i32::MAX, 1, 1, 0, 0, 0).session_id(), "+21474836470101000000");
    assert_eq!(reading(i32::MIN, 1, 1, 0, 0, 0).session_id(), "-21474836480101000000");
}

#[test]
fn session_id_shows_a_leap_second_as_60() {
    let mut now = reading(2016, 12, 31, 23, 59, 59);
    now.nanosecond = 1_500_000_000;
    assert_eq!(now.session_id(), "20161231235960");
    now.nanosecond = 999_999_999;
    assert_eq!(now.session_id(), "20161231235959");
}

#[test]
fn session_id_matches_chrono() {
    let years = [-262143, -10000, -9999, -1, 0, 1, 9, 10, 99, 100, 999, 1000, 1970, 2024, 9999,
        10000, 99999, 262142];
    let days = [(1, 1), (2, 29), (6, 15), (10, 9), (12, 31)];
    let times = [(0, 0, 0), (9, 9, 9), (10, 10, 10), (23, 59, 59), (12, 0, 30)];
    for year in years {
        for (month, day) in days {
            for (hour, minute, second) in times {
                for nano in [0u32, 999_999_999, 1_000_000_000, 1_999_999_999] {
                    let Some(date) = NaiveDate::from_ymd_opt(year, month, day) else {
                        continue;
                    };
                    let Some(at) = date.and_hms_nano_opt(hour, minute, second, nano) else {
                        continue;
                    };
                    let now = ClockReading {
                        year: at.year(),
                        month: at.month(),
                        day: at.day(),
                        hour: at.hour(),
                        minute: at.minute(),
                        second: at.second(),
                        nanosecond: at.nanosecond(),
                        timestamp_millis: at.and_utc().timestamp_millis(),
                    };
                    assert!(now.is_valid());
                    assert_eq!(now.session_id(), at.format("%Y%m%d%H%M%S").to_string());
                }
            }
        }
    }
}

#[test]
fn session_ids_sort_as_the_readings_do() {
    let ordered = [
        reading(1999, 12, 31, 23, 59, 59),
        reading(2000, 1, 1, 0, 0, 0),
        reading(2000, 1, 1, 0, 0, 1),
        reading(2000, 1, 1, 0, 1, 0),
        reading(2000, 1, 1, 1, 0, 0),
        reading(2000, 1, 2, 0, 0, 0),
        reading(2000, 2, 1, 0, 0, 0),
        reading(2000, 10, 1, 0, 0, 0),
        reading(2001, 1, 1, 0, 0, 0),
    ];
    for pair in ordered.windows(2) {
        assert!(pair[0].session_id() < pair[1].session_id());
    }
}

#[test]
fn validity_is_checked_for_each_component() {
    assert!(reading(2024, 1, 1, 0, 0, 0).is_valid());
    assert!(reading(2024, 12, 31, 23, 59, 59).is_valid());
    assert!(!reading(2024, 0, 1, 0, 0, 0).is_valid());
    assert!(!reading(2024, 13, 1, 0, 0, 0).is_valid());
    assert!(!reading(2024, 1, 0, 0, 0, 0).is_valid());
    assert!(!reading(2024, 1, 32, 0, 0, 0).is_valid());
    assert!(!reading(2024, 1, 1, 24, 0, 0).is_valid());
    assert!(!reading(2024, 1, 1, 0, 60, 0).is_valid());
    assert!(!reading(2024, 1, 1, 0, 0, 60).is_valid());
    let mut now = reading(2024, 1, 1, 0, 0, 0);
    now.nanosecond = 2_000_000_000;
    assert!(!now.is_valid());
}
