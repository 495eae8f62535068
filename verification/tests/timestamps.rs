use identity_core::timefmt::{format_timestamp, is_leap_year};

#[test]
fn leap_year_rule() {
    assert!(is_leap_year(2000));
    assert!(!is_leap_year(1900));
    assert!(is_leap_year(2024));
    assert!(!is_leap_year(2023));
    assert!(is_leap_year(1972));
    assert!(!is_leap_year(2100));
}

#[test]
fn epoch_start_renders_as_midnight() {
    assert_eq!(format_timestamp(0), "1970-01-01 00:00");
}

#[test]
fn known_timestamps_render_exactly() {
    // 2023-11-14 22:13:20 UTC; seconds are dropped.
    assert_eq!(format_timestamp(1_700_000_000), "2023-11-14 22:13");
    // The leap day of 2000.
    assert_eq!(format_timestamp(951_782_400), "2000-02-29 00:00");
    // Last second of a year.
    assert_eq!(format_timestamp(1_704_067_199), "2023-12-31 23:59");
    // First second of the next.
    assert_eq!(format_timestamp(1_704_067_200), "2024-01-01 00:00");
}

#[test]
fn single_digit_fields_are_zero_padded() {
    // 2021-02-03 04:05:06 UTC.
    assert_eq!(format_timestamp(1_612_325_106), "2021-02-03 04:05");
}
