use lighter_mm_dryrun::clock::{
    render_reading, utc_now_text, ClockError, ROTATION_STAMP_PATTERN, ROW_TIMESTAMP_PATTERN,
};
use lighter_mm_dryrun::order_ids::nanos_since_epoch;

#[test]
fn row_stamp_has_fixed_separators() {
    let t = utc_now_text(ROW_TIMESTAMP_PATTERN).unwrap();
    assert_eq!(t.len(), 24);
    assert_eq!(&t[4..5], "-");
    assert_eq!(&t[10..11], "T");
    assert_eq!(&t[19..20], ".");
    assert!(t.ends_with('Z'));
    assert!(!t.contains(',') && !t.contains('\n'));
}

#[test]
fn rotation_stamp_is_digits_t_and_z() {
    let t = utc_now_text(ROTATION_STAMP_PATTERN).unwrap();
    assert_eq!(t.len(), 19);
    assert!(t.chars().all(|c| c.is_ascii_digit() || c == 'T' || c == 'Z'));
}

#[test]
fn nanos_since_epoch_truncates_like_as_nanos() {
    assert_eq!(nanos_since_epoch(1, 5), 1_000_000_005);
    assert_eq!(nanos_since_epoch(1_700_000_000, 123), 1_700_000_000_000_000_123);
    let big = u64::MAX;
    let expected = (big as u128 * 1_000_000_000u128 + 7) as i64;
    assert_eq!(nanos_since_epoch(big, 7), expected);
}

#[test]
fn readings_render_or_fail_as_stated() {
    assert_eq!(render_reading(None, ROW_TIMESTAMP_PATTERN), Err(ClockError::BeforeUnixEpoch));
    assert_eq!(
        render_reading(Some((u64::MAX, 0)), ROW_TIMESTAMP_PATTERN),
        Err(ClockError::OutOfRange)
    );
    assert_eq!(
        render_reading(Some((i64::MAX as u64, 0)), ROTATION_STAMP_PATTERN),
        Err(ClockError::OutOfRange)
    );
    assert_eq!(
        render_reading(Some((1_700_000_000, 123_456_789)), ROW_TIMESTAMP_PATTERN).unwrap(),
        "2023-11-14T22:13:20.123Z"
    );
    assert_eq!(
        render_reading(Some((0, 5_000_000)), ROTATION_STAMP_PATTERN).unwrap(),
        "19700101T000000005Z"
    );
    assert_eq!(
        render_reading(Some((253_402_300_800, 0)), ROTATION_STAMP_PATTERN).unwrap(),
        "+100000101T000000000Z"
    );
}
