use milestone_scheduler::date::{parse_iso_date, parse_short_date, parse_start_date, CivilDate};

#[test]
fn iso_date_parses() {
    let d = parse_iso_date(b"2025-01-31").unwrap();
    assert_eq!((d.year, d.month, d.day), (2025, 1, 31));
}

#[test]
fn iso_leap_day_valid_only_in_leap_years() {
    assert!(parse_iso_date(b"2024-02-29").is_some());
    assert!(parse_iso_date(b"2023-02-29").is_none());
}

#[test]
fn iso_rejects_malformed_text() {
    assert!(parse_iso_date(b"2025-13-01").is_none());
    assert!(parse_iso_date(b"2025-00-10").is_none());
    assert!(parse_iso_date(b"2025-04-31").is_none());
    assert!(parse_iso_date(b"2025-1-1").is_none());
    assert!(parse_iso_date(b"20250101").is_none());
    assert!(parse_iso_date(b"2025/01/01").is_none());
    assert!(parse_iso_date(b"").is_none());
    assert!(parse_iso_date(b"0000-01-01").is_none());
}

#[test]
fn short_date_parses_with_assumed_year() {
    let d = parse_short_date(b"14-Dec", 2025).unwrap();
    assert_eq!((d.year, d.month, d.day), (2025, 12, 14));
    let d = parse_short_date(b"1-Jan", 2024).unwrap();
    assert_eq!((d.year, d.month, d.day), (2024, 1, 1));
}

#[test]
fn short_date_month_abbreviation_is_case_insensitive() {
    let d = parse_short_date(b"5-mar", 2025).unwrap();
    assert_eq!((d.year, d.month, d.day), (2025, 3, 5));
    let d = parse_short_date(b"5-MAR", 2025).unwrap();
    assert_eq!((d.year, d.month, d.day), (2025, 3, 5));
}

#[test]
fn short_leap_day_depends_on_assumed_year() {
    assert!(parse_short_date(b"29-Feb", 2024).is_some());
    assert!(parse_short_date(b"29-Feb", 2023).is_none());
}

#[test]
fn short_date_rejects_malformed_text() {
    assert!(parse_short_date(b"14-Foo", 2025).is_none());
    assert!(parse_short_date(b"-Dec", 2025).is_none());
    assert!(parse_short_date(b"14Dec", 2025).is_none());
    assert!(parse_short_date(b"14-De", 2025).is_none());
    assert!(parse_short_date(b"14-Dec", 0).is_none());
    assert!(parse_short_date(b"14-Dec", 10000).is_none());
}

#[test]
fn start_date_form_selection() {
    // Short form: holds a hyphen and is at most six bytes.
    let d = parse_start_date(b"14-Dec", 2025).unwrap();
    assert_eq!((d.year, d.month, d.day), (2025, 12, 14));
    // Ten bytes: read as ISO.
    let d = parse_start_date(b"2025-01-02", 2030).unwrap();
    assert_eq!((d.year, d.month, d.day), (2025, 1, 2));
    // Six bytes without a hyphen: read as ISO, hence rejected.
    assert!(parse_start_date(b"14.Dec", 2025).is_none());
}

#[test]
fn day_numbers_count_calendar_days() {
    let n = |y: u64, m: u8, d: u8| CivilDate { year: y, month: m, day: d }.day_number();
    assert_eq!(n(2025, 1, 2) - n(2025, 1, 1), 1);
    assert_eq!(n(2024, 3, 1) - n(2024, 2, 28), 2);
    assert_eq!(n(2023, 3, 1) - n(2023, 2, 28), 1);
    assert_eq!(n(2025, 1, 1) - n(2024, 12, 31), 1);
    assert_eq!(n(2025, 1, 1) - n(2024, 1, 1), 366);
    assert_eq!(n(2026, 1, 1) - n(2025, 1, 1), 365);
    assert_eq!(n(2100, 3, 1) - n(2100, 2, 28), 1);
    assert_eq!(n(2000, 3, 1) - n(2000, 2, 28), 2);
}
