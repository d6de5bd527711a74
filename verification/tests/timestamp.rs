use diag_server::rfc3339::timestamp_is_rfc3339;

#[test]
fn accepts_plain_utc_offset() {
    assert!(timestamp_is_rfc3339("2026-10-11T12:00:00+00:00"));
}

#[test]
fn accepts_negative_offset() {
    assert!(timestamp_is_rfc3339("1996-12-19T16:39:57-08:00"));
}

#[test]
fn accepts_zulu() {
    assert!(timestamp_is_rfc3339("2024-02-29T00:00:00Z"));
}

#[test]
fn accepts_fractional_seconds() {
    assert!(timestamp_is_rfc3339("2018-01-26T18:30:09.453+00:00"));
    assert!(timestamp_is_rfc3339("2018-01-26T18:30:09.453829+00:00"));
    assert!(timestamp_is_rfc3339("2018-01-26T18:30:09.453829123+00:00"));
}

#[test]
fn accepts_leap_second() {
    assert!(timestamp_is_rfc3339("1998-12-31T23:59:60Z"));
}

#[test]
fn accepts_year_zero() {
    assert!(timestamp_is_rfc3339("0000-01-01T00:00:00Z"));
}

#[test]
fn accepts_expanded_year() {
    assert!(timestamp_is_rfc3339("+262143-12-31T23:59:59.999999999+00:00"));
    assert!(timestamp_is_rfc3339("-044300-01-01T00:00:00Z"));
}

#[test]
fn leap_year_rules() {
    assert!(timestamp_is_rfc3339("2000-02-29T00:00:00Z"));
    assert!(!timestamp_is_rfc3339("1900-02-29T00:00:00Z"));
    assert!(timestamp_is_rfc3339("1900-02-28T00:00:00Z"));
    assert!(!timestamp_is_rfc3339("2023-02-29T00:00:00Z"));
}

#[test]
fn rejects_day_out_of_month() {
    assert!(!timestamp_is_rfc3339("2026-04-31T00:00:00Z"));
    assert!(timestamp_is_rfc3339("2026-04-30T00:00:00Z"));
    assert!(!timestamp_is_rfc3339("2026-01-32T00:00:00Z"));
    assert!(!timestamp_is_rfc3339("2026-01-00T00:00:00Z"));
}

#[test]
fn rejects_month_out_of_range() {
    assert!(!timestamp_is_rfc3339("2026-13-01T00:00:00Z"));
    assert!(!timestamp_is_rfc3339("2026-00-01T00:00:00Z"));
}

#[test]
fn rejects_time_out_of_range() {
    assert!(!timestamp_is_rfc3339("2026-01-01T24:00:00Z"));
    assert!(!timestamp_is_rfc3339("2026-01-01T00:60:00Z"));
    assert!(!timestamp_is_rfc3339("2026-01-01T00:00:61Z"));
}

#[test]
fn rejects_malformed_shapes() {
    assert!(!timestamp_is_rfc3339(""));
    assert!(!timestamp_is_rfc3339("2026-01-01"));
    assert!(!timestamp_is_rfc3339("2026-01-01T00:00:00"));
    assert!(!timestamp_is_rfc3339("2026-01-01 00:00:00Z"));
    assert!(!timestamp_is_rfc3339("2026-1-1T00:00:00Z"));
    assert!(!timestamp_is_rfc3339("2026-01-01T00:00:00Zx"));
    assert!(!timestamp_is_rfc3339("2026-01-01T00:00:00.+00:00"));
    assert!(!timestamp_is_rfc3339("2026-01-01T00:00:00+0000"));
    assert!(!timestamp_is_rfc3339("2026-01-01T00:00:00+24:00"));
    assert!(!timestamp_is_rfc3339("2026-01-01T00:00:00+00:60"));
    assert!(!timestamp_is_rfc3339("12026-01-01T00:00:00Z"));
    assert!(!timestamp_is_rfc3339("+123-01-01T00:00:00Z"));
    assert!(!timestamp_is_rfc3339("not a timestamp"));
}

#[test]
fn agrees_with_chrono_on_strict_strings() {
    let valid = ["2026-10-11T12:00:00+00:00", "1996-12-19T16:39:57-08:00", "2024-02-29T00:00:00Z"];
    for s in valid {
        assert!(chrono::DateTime::parse_from_rfc3339(s).is_ok());
        assert!(timestamp_is_rfc3339(s));
    }
    let invalid = ["2023-02-29T00:00:00Z", "2026-01-01T24:00:00Z", "2026-13-01T00:00:00Z"];
    for s in invalid {
        assert!(chrono::DateTime::parse_from_rfc3339(s).is_err());
        assert!(!timestamp_is_rfc3339(s));
    }
}

#[test]
fn accepts_what_chrono_emits() {
    let now = chrono::Utc::now().to_rfc3339();
    assert!(timestamp_is_rfc3339(&now));
}
