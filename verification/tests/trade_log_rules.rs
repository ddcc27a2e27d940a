use std::path::PathBuf;

use lighter_mm_dryrun::trade_log::{
    active_file_name, header_missing, TradeLogOptions, TradeLogger, HEADER, ROTATION_ATTEMPTS,
};

fn logger(enabled: bool, rotate_bytes: u64, compress: bool, symbol: &str) -> TradeLogger {
    TradeLogger::with_path(
        PathBuf::from("/tmp/grid").join(active_file_name(symbol)),
        symbol,
        TradeLogOptions { enabled, rotate_bytes, compress_rotated: compress },
    )
}

#[test]
fn active_file_is_named_after_symbol() {
    assert_eq!(active_file_name("BTC_v48_m8"), "trades_BTC_v48_m8.csv");
    let l = logger(true, 100, true, "BTC_test");
    assert_eq!(l.path(), &PathBuf::from("/tmp/grid/trades_BTC_test.csv"));
    assert_eq!(l.symbol(), "BTC_test");
    assert!(l.enabled());
    assert_eq!(l.rotate_bytes(), 100);
    assert!(l.compress_rotated());
}

#[test]
fn rows_are_buffered_in_order_and_taken_once() {
    let mut l = logger(true, 0, true, "BTC_test");
    l.append_fill_row(
        "2024-01-01T00:00:00.000Z", "buy", "100.0000000000", "0.100000", 0,
        "0.100000", "0.0000", "990.00", "1000.00", true,
    );
    l.append_fill_row(
        "2024-01-01T00:00:01.000Z", "sell", "101.0000000000", "0.050000", 12,
        "0.050000", "0.0500", "995.10", "1000.05", false,
    );
    let rows = l.pending().to_string();
    l.clear_pending();
    assert_eq!(
        rows,
        "2024-01-01T00:00:00.000Z,BTC_test,buy,100.0000000000,0.100000,0,0.100000,0.0000,990.00,1000.00,true\n\
         2024-01-01T00:00:01.000Z,BTC_test,sell,101.0000000000,0.050000,12,0.050000,0.0500,995.10,1000.05,false\n"
    );
    assert_eq!(l.pending(), "");
}

#[test]
fn recorded_fill_carries_a_timestamp() {
    let mut l = logger(true, 0, true, "ETH");
    l.record_fill("buy", "100.0", "0.1", 1, "0.1", "0.0", "990.00", "1000.00", true).unwrap();
    let rows = l.pending().to_string();
    let tail = ",ETH,buy,100.0,0.1,1,0.1,0.0,990.00,1000.00,true\n";
    assert!(rows.ends_with(tail));
    assert_eq!(rows.matches(',').count(), 10);
    let ts = &rows[..rows.len() - tail.len()];
    // YYYY-MM-DDTHH:MM:SS.fffZ
    assert_eq!(ts.len(), 24);
    let b = ts.as_bytes();
    for (i, c) in b.iter().enumerate() {
        match i {
            4 | 7 => assert_eq!(*c, b'-'),
            10 => assert_eq!(*c, b'T'),
            13 | 16 => assert_eq!(*c, b':'),
            19 => assert_eq!(*c, b'.'),
            23 => assert_eq!(*c, b'Z'),
            _ => assert!(c.is_ascii_digit()),
        }
    }
}

#[test]
fn disabled_logger_records_nothing() {
    let mut l = logger(false, 1, true, "BTC_disabled");
    assert!(l.record_fill("buy", "100", "0.1", 0, "0.1", "0", "990", "1000", true).is_ok());
    l.append_fill_row("t", "buy", "100", "0.1", 0, "0.1", "0", "990", "1000", true);
    assert_eq!(l.pending(), "");
    assert!(!l.rotation_possible(true));
    assert!(!l.rotation_due(true, 1_000_000));
}

#[test]
fn rotation_needs_size_and_more_than_header() {
    assert_eq!(HEADER.len(), 111);
    let l = logger(true, HEADER.len() as u64 + 20, true, "BTC_test");
    assert!(!l.rotation_due(false, 10_000));
    assert!(!l.rotation_due(true, 130));
    assert!(l.rotation_due(true, 131));
    let small = logger(true, 10, true, "BTC_test");
    assert!(!small.rotation_due(true, 111));
    assert!(small.rotation_due(true, 112));
    assert!(l.rotation_possible(true));
    assert!(!l.rotation_possible(false));
    let never = logger(true, 0, true, "BTC_test");
    assert!(!never.rotation_possible(true));
    assert!(!never.rotation_due(true, u64::MAX));
}

#[test]
fn header_is_written_to_missing_or_empty_files() {
    assert!(header_missing(false, None));
    assert!(header_missing(true, None));
    assert!(header_missing(true, Some(0)));
    assert!(!header_missing(true, Some(111)));
    assert!(HEADER.starts_with("timestamp,symbol,side,price,size,level,"));
    assert!(HEADER.ends_with("portfolio_value,simulated\n"));
}

#[test]
fn symbols_are_sanitized_for_scratch_files() {
    let l = logger(true, 0, true, "BTC-USD/v1.5_x");
    assert_eq!(l.sanitized_symbol(), "BTC_USD_v1_5_x");
    assert_eq!(l.compression_scratch_name(4242), ".tmp_trades_BTC_USD_v1_5_x_4242.gz");
    let u = logger(true, 0, true, "Ünï");
    assert_eq!(u.sanitized_symbol(), "_n_");
}

#[test]
fn rotated_names_number_their_attempts() {
    let l = logger(true, 0, true, "BTC_test");
    let mut target = l.begin_rotation().unwrap();
    assert_eq!(target.symbol, "BTC_test");
    assert!(target.compressed);
    // YYYYMMDDTHHMMSSfffZ
    assert_eq!(target.stamp.len(), 19);
    for (i, c) in target.stamp.bytes().enumerate() {
        match i {
            8 => assert_eq!(c, b'T'),
            18 => assert_eq!(c, b'Z'),
            _ => assert!(c.is_ascii_digit()),
        }
    }
    target.stamp = "20240102T030405006Z".to_string();
    assert_eq!(target.file_name(0), "trades_BTC_test__rotated_20240102T030405006Z.csv.gz");
    assert_eq!(target.file_name(3), "trades_BTC_test__rotated_20240102T030405006Z_3.csv.gz");
    assert_eq!(target.fallback_file_name(777), "trades_BTC_test__rotated_20240102T030405006Z_777.csv.gz");
    assert_eq!(ROTATION_ATTEMPTS, 1000);
    let plain = logger(true, 0, false, "ETH");
    let mut t = plain.begin_rotation().unwrap();
    t.stamp = "S".to_string();
    assert_eq!(t.file_name(0), "trades_ETH__rotated_S.csv");
}

#[test]
fn rotation_takes_the_first_free_candidate() {
    let l = logger(true, 0, true, "BTC");
    let mut target = l.begin_rotation().unwrap();
    target.stamp = "S".to_string();
    assert_eq!(target.pick_file_name(|_| true, 9), "trades_BTC__rotated_S.csv.gz");
    assert_eq!(target.pick_file_name(|k| k >= 2, 9), "trades_BTC__rotated_S_2.csv.gz");
    assert_eq!(target.pick_file_name(|k| k == 999, 9), "trades_BTC__rotated_S_999.csv.gz");
    assert_eq!(target.pick_file_name(|_| false, 4242), "trades_BTC__rotated_S_4242.csv.gz");
}
