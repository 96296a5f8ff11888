use std::collections::hash_map::DefaultHasher;
use std::hash::Hasher;

use poster::text::parse_u64_decimal;
use poster::utils::{
    current_time_as_padded_string, hash_password, padded_seconds_since_epoch,
    padded_time_to_date_string,
};

fn reference_hash(password: &str) -> String {
    let mut hasher = DefaultHasher::new();
    hasher.write(password.as_bytes());
    hasher.finish().to_string()
}

#[test]
fn password_hash_is_the_default_hasher_in_decimal() {
    for p in ["password", "", "hunter2", "p\u{e4}ss"] {
        assert_eq!(hash_password(p), reference_hash(p));
    }
    assert_eq!(hash_password("same"), hash_password("same"));
    assert_ne!(hash_password("one"), hash_password("two"));
    assert_ne!(hash_password("password"), "password");
}

#[test]
fn current_time_is_padded_to_twenty_digits() {
    let date = current_time_as_padded_string().expect("clock after the epoch");
    assert_eq!(date.len(), 20);
    let secs = parse_u64_decimal(&date).unwrap();
    let now = std::time::SystemTime::now()
        .duration_since(std::time::UNIX_EPOCH)
        .unwrap()
        .as_secs();
    assert!(secs <= now && now - secs < 60);
}

#[test]
fn dates_are_written_in_utc() {
    let fmt = "%b %-d, %Y, at %-k:%M";
    assert_eq!(
        padded_time_to_date_string("00000000001431648000", fmt),
        Some("May 15, 2015, at 0:00".to_string())
    );
    assert_eq!(
        padded_time_to_date_string("00000000001700000000", fmt),
        Some("Nov 14, 2023, at 22:13".to_string())
    );
    assert_eq!(
        padded_time_to_date_string("00000000000000000000", "%Y-%m-%d %H:%M:%S"),
        Some("1970-01-01 00:00:00".to_string())
    );
}

#[test]
fn unreadable_dates_have_no_text() {
    let fmt = "%b %-d, %Y";
    assert_eq!(padded_time_to_date_string("not a date", fmt), None);
    assert_eq!(padded_time_to_date_string("", fmt), None);
    // Beyond i64::MAX seconds.
    assert_eq!(padded_time_to_date_string("18446744073709551615", fmt), None);
    // Beyond chrono's range of dates.
    assert_eq!(padded_time_to_date_string("09223372036854775807", fmt), None);
}

#[test]
fn clock_readings_in_stored_form() {
    assert_eq!(padded_seconds_since_epoch(None), None);
    assert_eq!(padded_seconds_since_epoch(Some(1431648000)), Some("00000000001431648000".to_string()));
    assert_eq!(padded_seconds_since_epoch(Some(0)), Some("00000000000000000000".to_string()));
}
