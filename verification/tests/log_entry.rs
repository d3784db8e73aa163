use chrono::{NaiveDate, NaiveDateTime};
use vrc_tail::log_entry::{
    latest_group, log_entries, parse_log_name, scan_group, try_scan_group, LogEntry,
    DATETIME_MAX_SECS, DATETIME_MIN_SECS,
};

fn timestamp(hour: u32, minute: u32, second: u32) -> i64 {
    NaiveDate::from_ymd_opt(2026, 9, 5)
        .unwrap()
        .and_hms_opt(hour, minute, second)
        .unwrap()
        .and_utc()
        .timestamp()
}

fn entry(time: &str) -> LogEntry {
    let name = format!("output_log_2026-09-05_{time}.txt");
    parse_log_name(&name, name.clone()).unwrap()
}

#[test]
fn rejects_non_log_names_and_wrong_delimiters() {
    for name in [
        "readme.txt",
        "output_log_2026_09_05_12_00_00.txt",
        "output_log_2026-9-05_12-00-00.txt",
    ] {
        assert!(parse_log_name(name, name.to_string()).is_none());
    }
}

#[test]
fn parses_exact_log_filename_into_naive_datetime() {
    let name = "output_log_2026-09-05_12-00-00.txt";
    let parsed = parse_log_name(name, name.to_string()).unwrap();

    assert_eq!(parsed.time(), timestamp(12, 0, 0));
}

#[test]
fn validates_leap_days() {
    let valid = "output_log_2024-02-29_00-00-00.txt";
    let invalid = "output_log_2025-02-29_00-00-00.txt";

    assert!(parse_log_name(valid, valid.to_string()).is_some());
    assert!(parse_log_name(invalid, invalid.to_string()).is_none());
}

#[test]
fn keeps_the_newest_relative_window_in_chronological_order() {
    let entries = vec![
        entry("12-01-00"),
        entry("12-00-20"),
        entry("12-00-00"),
        entry("12-00-40"),
    ];

    let group = latest_group(entries, 30);

    assert_eq!(
        group.iter().map(|entry| entry.time()).collect::<Vec<_>>(),
        vec![timestamp(12, 0, 40), timestamp(12, 1, 0)]
    );
}

#[test]
fn chrono_range_bounds_match_the_declared_seconds() {
    assert_eq!(NaiveDateTime::MIN.and_utc().timestamp(), DATETIME_MIN_SECS);
    assert_eq!(NaiveDateTime::MAX.and_utc().timestamp(), DATETIME_MAX_SECS);
}

#[test]
fn readme_group_example_reads_two_files_in_order() {
    let names = [
        "output_log_2023-09-10_12-12-00.txt",
        "output_log_2023-09-10_12-11-40.txt",
        "output_log_2023-09-10_12-11-10.txt",
        "output_log_2023-09-10_12-10-50.txt",
        "output_log_2023-09-10_12-10-00.txt",
    ];
    let listing: Vec<(String, String)> = names
        .iter()
        .map(|n| (n.to_string(), format!(r"C:\logs\{n}")))
        .collect();
    let group = scan_group(listing, 30);
    let paths: Vec<&str> = group.iter().map(|e| e.path()).collect();
    assert_eq!(
        paths,
        vec![
            r"C:\logs\output_log_2023-09-10_12-11-40.txt",
            r"C:\logs\output_log_2023-09-10_12-12-00.txt"
        ]
    );
}

#[test]
fn scan_skips_names_that_are_not_log_files() {
    let listing = vec![
        ("notes.txt".to_string(), "notes.txt".to_string()),
        (
            "output_log_2024-01-01_00-00-00.txt".to_string(),
            "a".to_string(),
        ),
        ("output_log_2024-13-01_00-00-00.txt".to_string(), "b".to_string()),
    ];
    let group = scan_group(listing, 30);
    assert_eq!(group.len(), 1);
    assert_eq!(group[0].path(), "a");
}

#[test]
fn group_of_no_files_is_empty() {
    assert!(latest_group(Vec::new(), 30).is_empty());
}

#[test]
fn files_started_in_the_same_second_keep_their_order() {
    let first = parse_log_name("output_log_2024-01-01_00-00-10.txt", "first".to_string()).unwrap();
    let older = parse_log_name("output_log_2024-01-01_00-00-00.txt", "older".to_string()).unwrap();
    let second = parse_log_name("output_log_2024-01-01_00-00-10.txt", "second".to_string()).unwrap();
    let group = latest_group(vec![first, older, second], 60);
    let paths: Vec<&str> = group.iter().map(|e| e.path()).collect();
    assert_eq!(paths, vec!["older", "first", "second"]);
}

#[test]
fn window_edge_is_inclusive_and_zero_period_keeps_the_newest_second() {
    let group = latest_group(vec![entry("12-00-00"), entry("12-00-30"), entry("12-00-29")], 30);
    assert_eq!(group.len(), 3);
    let group = latest_group(vec![entry("12-00-00"), entry("12-00-30"), entry("12-00-29")], 0);
    assert_eq!(
        group.iter().map(|e| e.time()).collect::<Vec<_>>(),
        vec![timestamp(12, 0, 30)]
    );
}

#[test]
fn window_reaching_before_chrono_range_keeps_every_file() {
    let group = latest_group(vec![entry("12-00-00"), entry("11-00-00")], 9_000_000_000_000_000);
    assert_eq!(group.len(), 2);
}

#[test]
fn negative_period_keeps_nothing_within_range() {
    let group = latest_group(vec![entry("12-00-00"), entry("11-00-00")], -1);
    assert!(group.is_empty());
}

#[test]
fn choosing_the_group_again_changes_nothing() {
    let group = latest_group(vec![entry("12-01-00"), entry("12-00-20"), entry("12-00-40")], 30);
    let times: Vec<i64> = group.iter().map(|e| e.time()).collect();
    let again = latest_group(group, 30);
    assert_eq!(again.iter().map(|e| e.time()).collect::<Vec<_>>(), times);
}

#[test]
fn any_period_is_accepted_when_there_is_no_log_file() {
    assert!(latest_group(Vec::new(), i64::MAX).is_empty());
    let listing = vec![("notes.txt".to_string(), "notes.txt".to_string())];
    assert!(scan_group(listing.clone(), i64::MIN).is_empty());
    assert_eq!(try_scan_group(listing, i64::MAX).map(|g| g.len()), Some(0));
}

#[test]
fn a_period_beyond_chrono_is_refused_when_a_log_file_is_listed() {
    let listing = vec![(
        "output_log_2024-01-01_00-00-00.txt".to_string(),
        "a".to_string(),
    )];
    assert!(try_scan_group(listing.clone(), i64::MAX).is_none());
    assert!(try_scan_group(listing.clone(), -9_223_372_036_854_776).is_none());
    let group = try_scan_group(listing, 9_223_372_036_854_775).unwrap();
    assert_eq!(group.len(), 1);
}

#[test]
fn log_entries_keep_the_listing_order() {
    let listing = vec![
        ("output_log_2024-01-01_00-00-09.txt".to_string(), "late".to_string()),
        ("notes.txt".to_string(), "notes.txt".to_string()),
        ("output_log_2024-01-01_00-00-01.txt".to_string(), "early".to_string()),
    ];
    let entries = log_entries(&listing);
    let paths: Vec<&str> = entries.iter().map(|e| e.path()).collect();
    assert_eq!(paths, vec!["late", "early"]);
    assert_eq!(entries[0].time() - entries[1].time(), 8);
}

fn named(stamp: &str) -> LogEntry {
    let name = format!("output_log_{stamp}.txt");
    parse_log_name(&name, stamp.to_string()).unwrap()
}

fn paths(group: &[LogEntry]) -> Vec<&str> {
    group.iter().map(|e| e.path()).collect()
}

#[test]
fn a_leap_second_is_kept_after_its_fifty_ninth_second() {
    let leap = named("2016-12-31_23-59-60");
    let before = named("2016-12-31_23-59-59");
    assert_eq!(leap.time(), before.time());
    assert_eq!(leap.nanos(), 1_000_000_000);
    assert_eq!(before.nanos(), 0);
    assert!(leap.instant() > before.instant());
    let earlier = named("2016-12-31_23-58-60");
    assert_eq!(earlier.time(), leap.time() - 60);
    assert_eq!(earlier.nanos(), 1_000_000_000);
}

#[test]
fn a_leap_second_orders_and_cuts_as_chrono_does() {
    let group = latest_group(vec![named("2016-12-31_23-59-60"), named("2016-12-31_23-59-59")], 0);
    assert_eq!(paths(&group), vec!["2016-12-31_23-59-60"]);

    let group = latest_group(vec![named("2016-12-31_23-59-60"), named("2016-12-31_23-59-59")], 1);
    assert_eq!(paths(&group), vec!["2016-12-31_23-59-59", "2016-12-31_23-59-60"]);

    let group = latest_group(
        vec![
            named("2017-01-01_00-00-00"),
            named("2016-12-31_23-59-60"),
            named("2016-12-31_23-59-58"),
            named("2016-12-31_23-59-59"),
        ],
        1,
    );
    assert_eq!(
        paths(&group),
        vec!["2016-12-31_23-59-59", "2016-12-31_23-59-60", "2017-01-01_00-00-00"]
    );
}

#[test]
fn log_names_are_read_as_calendar_times() {
    assert_eq!(named("0000-01-01_00-00-00").time(), -62_167_219_200);
    assert_eq!(named("1969-12-31_23-59-59").time(), -1);
    assert_eq!(named("2000-03-01_00-00-00").time(), 951_868_800);
    assert_eq!(named("1900-03-01_00-00-00").time(), -2_203_891_200);
    assert_eq!(named("9999-12-31_23-59-59").time(), 253_402_300_799);
    assert_eq!(named("2024-02-29_23-59-59").time(), 1_709_251_199);
    for stamp in [
        "2026-00-05_12-00-00",
        "2026-13-05_12-00-00",
        "2026-09-00_12-00-00",
        "2026-09-31_12-00-00",
        "1900-02-29_12-00-00",
        "2026-09-05_24-00-00",
        "2026-09-05_12-60-00",
        "2026-09-05_12-00-61",
    ] {
        let name = format!("output_log_{stamp}.txt");
        assert!(parse_log_name(&name, name.clone()).is_none(), "{stamp}");
    }
}

#[test]
fn a_cloned_entry_is_the_same_file_and_time() {
    let entry = named("2016-12-31_23-59-60");
    let copy = entry.clone();
    assert_eq!(copy.path(), entry.path());
    assert_eq!(copy.time(), entry.time());
    assert_eq!(copy.nanos(), entry.nanos());
    assert_eq!(copy.instant(), entry.instant());
}
