use kirin_measure::clock::{instant_age_within, parse_rfc3339_instant, parse_rfc3339_millis, t_age_within, UnixInstant};

fn at(secs: i64, nanos: u32) -> UnixInstant {
    UnixInstant { secs, nanos }
}

#[test]
fn rfc3339_parses_to_unix_instants() {
    assert_eq!(parse_rfc3339_instant("1970-01-01T00:00:01Z"), Some(at(1, 0)));
    assert_eq!(parse_rfc3339_instant("1970-01-01T09:00:00.000000250+09:00"), Some(at(0, 250)));
    assert_eq!(parse_rfc3339_instant("not a time"), None);
    assert_eq!(parse_rfc3339_millis("1970-01-01T00:00:01Z"), Some(1_000));
    assert_eq!(parse_rfc3339_millis("1970-01-01T09:00:00.250999+09:00"), Some(250));
    assert_eq!(parse_rfc3339_millis("1969-12-31T23:59:59.5Z"), Some(-500));
    assert_eq!(parse_rfc3339_millis("not a time"), None);
}

#[test]
fn age_is_truncated_toward_zero_to_whole_seconds() {
    // 9.999999999 s old is 9 whole seconds: fresh under 10.
    assert!(instant_age_within(at(0, 1), at(10, 0), 10));
    assert!(!instant_age_within(at(0, 0), at(10, 0), 10));
    // A future instant less than a second ahead truncates to 0 seconds.
    assert!(!instant_age_within(at(1, 0), at(0, 1), 0));
    assert!(instant_age_within(at(1, 0), at(0, 0), 0));
    assert!(!instant_age_within(at(1, 999_999_999), at(1, 0), 0));
    assert!(instant_age_within(at(2, 0), at(1, 0), 0));
    assert!(instant_age_within(at(5, 0), at(0, 0), -4));
    assert!(!instant_age_within(at(5, 0), at(0, 0), -5));
    assert!(instant_age_within(at(i64::MAX, 0), at(i64::MIN, 0), i64::MIN + 1));
    assert!(!instant_age_within(at(i64::MIN, 0), at(i64::MAX, 0), i64::MAX));
}

#[test]
fn timestamp_freshness_needs_a_parse() {
    assert!(t_age_within("1970-01-01T00:00:01.000000001Z", at(11, 0), 10));
    assert!(!t_age_within("1970-01-01T00:00:01Z", at(11, 0), 10));
    assert!(!t_age_within("1970-01-01 00:00:01", at(1, 0), 10));
    assert!(!t_age_within("1970-01-01T00:00:01Z", at(1, 0), 0));
    assert!(t_age_within("1970-01-01T00:00:01Z", at(0, 0), 0));
}
