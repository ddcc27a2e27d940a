use lighter_mm_dryrun::config::{
    default_alpha_min_samples, default_alpha_source, default_bbo_min_samples,
    default_depth_snapshot_limit, default_generated_output_max_bytes, default_leverage,
    default_levels, default_min_warmup, default_ping_interval, default_reconnect_base,
    default_reconnect_max, default_results_max_files, default_step_ns,
    default_summary_log_max_files, default_summary_log_rotate_bytes,
    default_trade_log_compress_rotated, default_trade_log_enabled,
    default_trade_log_rotate_bytes, default_window_steps,
};

#[test]
fn trading_defaults() {
    assert_eq!(default_leverage(), 1);
    assert_eq!(default_levels(), 2);
    assert_eq!(default_window_steps(), 6000);
    assert_eq!(default_step_ns(), 100_000_000);
    assert_eq!(default_min_warmup(), 100);
}

#[test]
fn alpha_defaults() {
    assert_eq!(default_alpha_source(), "binance");
    assert_eq!(default_alpha_min_samples(), 150);
    assert_eq!(default_bbo_min_samples(), 10);
    assert_eq!(default_depth_snapshot_limit(), 1000);
}

#[test]
fn websocket_defaults() {
    assert_eq!(default_ping_interval(), 20);
    assert_eq!(default_reconnect_base(), 5);
    assert_eq!(default_reconnect_max(), 60);
}

#[test]
fn output_defaults() {
    assert!(default_trade_log_enabled());
    assert_eq!(default_trade_log_rotate_bytes(), 131_072);
    assert!(default_trade_log_compress_rotated());
    assert_eq!(default_generated_output_max_bytes(), 524_288_000);
    assert_eq!(default_summary_log_rotate_bytes(), 10_485_760);
    assert_eq!(default_summary_log_max_files(), 3);
    assert_eq!(default_results_max_files(), 50);
}
