use memorize_mcp::clock::{chrono_now, format_timestamp, is_leap};

#[test]
fn epoch_start() {
    assert_eq!(format_timestamp(0), "1970-01-01T00:00:00Z");
}

#[test]
fn leap_day_of_2000() {
    assert_eq!(format_timestamp(951782400), "2000-02-29T00:00:00Z");
    assert_eq!(format_timestamp(951868799), "2000-02-29T23:59:59Z");
}

#[test]
fn known_instants() {
    assert_eq!(format_timestamp(1700000000), "2023-11-14T22:13:20Z");
    assert_eq!(format_timestamp(1735689599), "2024-12-31T23:59:59Z");
    assert_eq!(format_timestamp(1735689600), "2025-01-01T00:00:00Z");
}

#[test]
fn leap_years() {
    assert!(is_leap(2000));
    assert!(is_leap(2024));
    assert!(!is_leap(1900));
    assert!(!is_leap(2023));
}

#[test]
fn now_has_timestamp_shape() {
    let now = chrono_now();
    let b = now.as_bytes();
    assert_eq!(b.len(), 20);
    assert_eq!(b[4], b'-');
    assert_eq!(b[10], b'T');
    assert_eq!(b[19], b'Z');
    assert!(now.as_str() > "2020-01-01T00:00:00Z");
}
