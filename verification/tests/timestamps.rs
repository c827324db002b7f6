//! Civil instants, epoch seconds and snapshot names.

use blkcapt::time::{format_snapshot_name, parse_snapshot_name, CivilDateTime};

#[test]
fn the_epoch_is_second_zero() {
    assert_eq!(CivilDateTime::new(1970, 1, 1, 0, 0, 0).to_epoch_secs(), 0);
}

#[test]
fn new_years_day_of_2024_in_epoch_seconds() {
    assert_eq!(CivilDateTime::new(2024, 1, 1, 0, 0, 0).to_epoch_secs(), 1704067200);
}

#[test]
fn leap_day_counts_correctly() {
    // 2024-02-29 12:30:45.
    assert_eq!(
        CivilDateTime::new(2024, 2, 29, 12, 30, 45).to_epoch_secs(),
        1709209845
    );
}

#[test]
fn snapshot_names_render_in_the_fixed_form() {
    let c = CivilDateTime::new(2024, 1, 1, 0, 15, 0);
    assert_eq!(format_snapshot_name(&c), "2024-01-01T00-15-00Z");
}

#[test]
fn snapshot_names_parse_back_to_their_instant() {
    let c = CivilDateTime::new(2031, 12, 31, 23, 59, 59);
    let name = format_snapshot_name(&c);
    assert_eq!(parse_snapshot_name(&name), Some(c));
}

#[test]
fn malformed_snapshot_names_are_rejected() {
    assert_eq!(parse_snapshot_name("2024-01-01T00:15:00Z"), None); // wrong marks
    assert_eq!(parse_snapshot_name("2024-01-01T00-15-00"), None); // too short
    assert_eq!(parse_snapshot_name("2023-02-29T00-00-00Z"), None); // no such day
    assert_eq!(parse_snapshot_name("2024-13-01T00-00-00Z"), None); // no such month
    assert_eq!(parse_snapshot_name("2024-01-01T24-00-00Z"), None); // no such hour
    assert_eq!(parse_snapshot_name("1969-12-31T23-59-59Z"), None); // before the epoch
}
