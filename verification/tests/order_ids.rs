use lighter_mm_dryrun::order_ids::{
    next_client_order_id, next_client_order_index, next_id_for, MAX_CLIENT_ORDER_INDEX,
};

#[test]
fn clock_reading_is_used_when_above_last_id() {
    assert_eq!(next_client_order_id(1_000, 0), 1_000);
    assert_eq!(next_client_order_id(MAX_CLIENT_ORDER_INDEX + 8, 3), 7);
    assert_eq!(next_client_order_id(1_700_000_000_123_456_789, 0), 1_700_000_000_123_456_789 % (1 << 48));
}

#[test]
fn stale_clock_falls_back_to_last_plus_one() {
    assert_eq!(next_client_order_id(5, 10), 11);
    assert_eq!(next_client_order_id(10, 10), 11);
    assert_eq!(next_client_order_id(-5, 0), 1);
}

#[test]
fn ids_wrap_after_the_48_bit_maximum() {
    assert_eq!(MAX_CLIENT_ORDER_INDEX, (1i64 << 48) - 1);
    assert_eq!(next_client_order_id(123, MAX_CLIENT_ORDER_INDEX), 0);
}

#[test]
fn clock_ids_increase() {
    let mut last = 0i64;
    let mut prev = -1i64;
    for _ in 0..100 {
        let id = next_client_order_index(&mut last);
        assert_eq!(id, last);
        assert!(id > prev);
        assert!(id <= MAX_CLIENT_ORDER_INDEX);
        prev = id;
    }
}

#[test]
fn readings_give_ids_as_stated() {
    assert_eq!(next_id_for(None, 41), 42);
    assert_eq!(next_id_for(None, MAX_CLIENT_ORDER_INDEX), 0);
    assert_eq!(next_id_for(Some((0, 1_000)), 0), 1_000);
    assert_eq!(next_id_for(Some((0, 10)), 50), 51);
    assert_eq!(next_id_for(Some((1, 0)), 0), 1_000_000_000);
}
