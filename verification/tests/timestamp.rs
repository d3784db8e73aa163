use chrono::{Datelike, Local, Timelike};
use vrc_tail::timestamp::{formatted_timestamp, LocalTime};

fn now() -> LocalTime {
    let now = Local::now().naive_local();
    LocalTime::new(
        now.year(),
        now.month(),
        now.day(),
        now.hour(),
        now.minute(),
        now.second(),
        now.nanosecond(),
    )
    .unwrap()
}

fn at(year: i32, month: u32, day: u32, hour: u32, minute: u32, second: u32, nanos: u32) -> String {
    formatted_timestamp(&LocalTime::new(year, month, day, hour, minute, second, nanos).unwrap())
}

#[test]
fn timestamp_has_fixed_zero_padded_shape() {
    let timestamp = formatted_timestamp(&now());

    assert_eq!(timestamp.len(), 24);
    assert!(timestamp.bytes().enumerate().all(|(index, byte)| {
        match index {
            4 | 7 => byte == b'-',
            10 => byte == b' ',
            13 | 16 => byte == b':',
            19 => byte == b'.',
            _ => byte.is_ascii_digit(),
        }
    }));
    assert_eq!(timestamp.as_bytes()[20], b'0');
}

#[test]
fn timestamp_pads_every_field_and_shows_milliseconds() {
    assert_eq!(at(2026, 9, 5, 12, 34, 56, 123_456_789), "2026-09-05 12:34:56.0123");
    assert_eq!(at(2026, 1, 2, 3, 4, 5, 6_000_000), "2026-01-02 03:04:05.0006");
    assert_eq!(at(5, 1, 1, 0, 0, 0, 0), "0005-01-01 00:00:00.0000");
}

#[test]
fn timestamp_counts_a_leap_second_as_sixty() {
    assert_eq!(at(2016, 12, 31, 23, 59, 59, 1_500_000_000), "2016-12-31 23:59:60.0500");
}

#[test]
fn timestamp_signs_years_beyond_four_digits() {
    assert_eq!(at(12345, 6, 7, 8, 9, 10, 0), "+12345-06-07 08:09:10.0000");
    assert_eq!(at(-1, 6, 7, 8, 9, 10, 0), "-0001-06-07 08:09:10.0000");
}

#[test]
fn local_time_refuses_days_and_times_that_do_not_exist() {
    assert!(LocalTime::new(2023, 2, 29, 0, 0, 0, 0).is_none());
    assert!(LocalTime::new(2024, 2, 29, 0, 0, 0, 0).is_some());
    assert!(LocalTime::new(1900, 2, 29, 0, 0, 0, 0).is_none());
    assert!(LocalTime::new(2000, 2, 29, 0, 0, 0, 0).is_some());
    assert!(LocalTime::new(-4, 2, 29, 0, 0, 0, 0).is_some());
    assert!(LocalTime::new(2026, 4, 31, 0, 0, 0, 0).is_none());
    assert!(LocalTime::new(2026, 13, 1, 0, 0, 0, 0).is_none());
    assert!(LocalTime::new(2026, 1, 0, 0, 0, 0, 0).is_none());
    assert!(LocalTime::new(2026, 1, 1, 24, 0, 0, 0).is_none());
    assert!(LocalTime::new(2026, 1, 1, 0, 60, 0, 0).is_none());
    assert!(LocalTime::new(2026, 1, 1, 0, 0, 60, 0).is_none());
    assert!(LocalTime::new(2026, 1, 1, 0, 0, 58, 1_000_000_000).is_none());
    assert!(LocalTime::new(2026, 1, 1, 0, 0, 59, 2_000_000_000).is_none());
    assert!(LocalTime::new(262142, 12, 31, 0, 0, 0, 0).is_some());
    assert!(LocalTime::new(262143, 1, 1, 0, 0, 0, 0).is_none());
    assert!(LocalTime::new(-262143, 1, 1, 0, 0, 0, 0).is_some());
    assert!(LocalTime::new(-262144, 12, 31, 0, 0, 0, 0).is_none());
}
