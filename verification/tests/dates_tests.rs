use chrono::{Datelike, TimeZone, Timelike};
use roadwork::dates::{adjust_end_millis, apply_reset_hour, DateParser, Parser};
use roadwork::errors::DateParseError;

fn paris_fields(millis: i64) -> (i32, u32, u32, u32, u32, u32) {
    let date = chrono::DateTime::from_timestamp_millis(millis)
        .unwrap()
        .with_timezone(&chrono_tz::Europe::Paris);
    (date.year(), date.month(), date.day(), date.hour(), date.minute(), date.second())
}

fn paris_millis(y: i32, mo: u32, d: u32, h: u32, mi: u32, s: u32) -> i64 {
    chrono_tz::Europe::Paris
        .with_ymd_and_hms(y, mo, d, h, mi, s)
        .unwrap()
        .timestamp_millis()
}

#[test]
fn test_parse_date() {
    let parser = Parser {
        matcher: String::from(".*"),
        format: Some(String::from("%Y-%m-%d")),
        add_year: false,
        reset_hour: false,
    };
    let date = parser.parse("2025-02-10", "Europe/Paris").unwrap();
    let (y, mo, d, h, mi, s) = paris_fields(date.millis);
    assert_eq!(y, 2025);
    assert_eq!(mo, 2);
    assert_eq!(d, 10);
    assert_eq!(h, 0);
    assert_eq!(mi, 0);
    assert_eq!(s, 0);
}

#[test]
fn test_parse_timestamp() {
    let parser = Parser {
        matcher: String::from(".*"),
        format: None,
        add_year: false,
        reset_hour: false,
    };
    let date = parser.parse("1746113416000", "Europe/Paris").unwrap();
    let (y, mo, d, h, mi, s) = paris_fields(date.millis);
    assert_eq!(y, 2025);
    assert_eq!(mo, 5);
    assert_eq!(d, 1);
    assert_eq!(h, 17);
    assert_eq!(mi, 30);
    assert_eq!(s, 16);
}

#[test]
fn test_parse_timestamp_sec() {
    let parser = Parser {
        matcher: String::from(".*"),
        format: None,
        add_year: false,
        reset_hour: false,
    };
    let date = parser.parse("1746113416", "Europe/Paris").unwrap();
    let (y, mo, d, h, mi, s) = paris_fields(date.millis);
    assert_eq!(y, 2025);
    assert_eq!(mo, 5);
    assert_eq!(d, 1);
    assert_eq!(h, 17);
    assert_eq!(mi, 30);
    assert_eq!(s, 16);
}

#[test]
fn seconds_and_millis_texts_agree() {
    let parser = Parser {
        matcher: String::from(".*"),
        format: None,
        add_year: false,
        reset_hour: false,
    };
    let seconds = parser.parse("1746113416", "Europe/Paris").unwrap();
    let millis = parser.parse("1746113416000", "Europe/Paris").unwrap();
    assert_eq!(seconds.millis, millis.millis);
    assert_eq!(seconds.millis, 1746113416000);
}

#[test]
fn capture_group_selection() {
    // One capture group in the pattern: group 1 is taken, not the whole text.
    let grouped = Parser {
        matcher: String::from(r"(\d+)"),
        format: None,
        add_year: false,
        reset_hour: false,
    };
    let date = grouped.parse("abc 123 def", "Europe/Paris").unwrap();
    assert_eq!(date.millis, 123000);
    // No groups: the whole match is taken.
    let plain = Parser {
        matcher: String::from(r"\d+"),
        format: None,
        add_year: false,
        reset_hour: false,
    };
    let date = plain.parse("abc 123 def", "Europe/Paris").unwrap();
    assert_eq!(date.millis, 123000);
}

#[test]
fn first_matching_rule_wins() {
    let rules = DateParser {
        path: String::from("$.date"),
        parsers: vec![
            Parser {
                matcher: String::from(r"^(\d{4}-\d{2}-\d{2})$"),
                format: Some(String::from("%Y-%m-%d")),
                add_year: false,
                reset_hour: false,
            },
            Parser {
                matcher: String::from(r"\d+"),
                format: None,
                add_year: true,
                reset_hour: true,
            },
        ],
    };
    // Matches the first rule: its flags come back, not the second's.
    let r = rules.parse("2025-02-10", "Europe/Paris").unwrap();
    assert!(!r.add_year);
    assert!(!r.reset_hour);
    // Falls through to the second rule.
    let r = rules.parse("~1746113416~", "Europe/Paris").unwrap();
    assert!(r.add_year);
    assert!(r.reset_hour);
    assert_eq!(r.millis, 1746113416000);
}

#[test]
fn no_rule_matched_names_formats() {
    let rules = DateParser {
        path: String::from("$.date"),
        parsers: vec![
            Parser {
                matcher: String::from(r"^\d{4}$"),
                format: Some(String::from("%Y")),
                add_year: false,
                reset_hour: false,
            },
            Parser {
                matcher: String::from(r"^z$"),
                format: Some(String::from("%m")),
                add_year: false,
                reset_hour: false,
            },
        ],
    };
    let err = rules.parse("not a date", "Europe/Paris").unwrap_err();
    let DateParseError::NoRuleMatched(msg) = err;
    assert_eq!(msg, "%Y|%m");
}

#[test]
fn formats_join_skips_raw_epoch_rules() {
    let rules = DateParser {
        path: String::from("$.date"),
        parsers: vec![
            Parser { matcher: String::from("a"), format: None, add_year: false, reset_hour: false },
            Parser {
                matcher: String::from("b"),
                format: Some(String::from("%d")),
                add_year: false,
                reset_hour: false,
            },
        ],
    };
    assert_eq!(rules.to_string_parsers(), "%d");
}

#[test]
fn reset_hour_drops_time_of_day() {
    let afternoon = paris_millis(2025, 5, 1, 17, 30, 16);
    let midnight = paris_millis(2025, 5, 1, 0, 0, 0);
    assert_eq!(apply_reset_hour(afternoon, true, "Europe/Paris"), midnight);
    assert_eq!(apply_reset_hour(afternoon, false, "Europe/Paris"), afternoon);
}

#[test]
fn year_rollover_advances_one_more_year() {
    // Start in November of the current year; the end, rewritten to the
    // current year, lands in January before the start, so it is advanced
    // exactly one more year.
    let start = paris_millis(2025, 11, 15, 0, 0, 0);
    let end_raw = paris_millis(2000, 1, 5, 12, 0, 0);
    let adjusted = adjust_end_millis(start, end_raw, true, 2025, "Europe/Paris");
    assert_eq!(adjusted, paris_millis(2026, 1, 5, 12, 0, 0));
    // An end already after the start only gets the current year.
    let end_late = paris_millis(2000, 12, 24, 12, 0, 0);
    let adjusted = adjust_end_millis(start, end_late, true, 2025, "Europe/Paris");
    assert_eq!(adjusted, paris_millis(2025, 12, 24, 12, 0, 0));
    // Without the add-year flag the end is untouched.
    assert_eq!(adjust_end_millis(start, end_raw, false, 2025, "Europe/Paris"), end_raw);
}

#[test]
fn locale_shifts_local_dates() {
    let parser = Parser {
        matcher: String::from(".*"),
        format: Some(String::from("%Y-%m-%d")),
        add_year: false,
        reset_hour: false,
    };
    let paris = parser.parse("2025-02-10", "Europe/Paris").unwrap();
    let utc = parser.parse("2025-02-10", "UTC").unwrap();
    // Paris midnight in February is one hour before UTC midnight.
    assert_eq!(utc.millis - paris.millis, 3600000);
}
