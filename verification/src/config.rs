//! Default values that `config.json` and `grid_config.json` fall back to when
//! a field is left out.
use vstd::prelude::*;

verus! {

/// Default leverage.
pub fn default_leverage() -> (r: u32)
    ensures
        r == 1,
{
    1
}

/// Default number of quoting levels per side.
pub fn default_levels() -> (r: usize)
    ensures
        r == 2,
{
    2
}

/// Default length of the volatility / imbalance window, in steps.
pub fn default_window_steps() -> (r: usize)
    ensures
        r == 6000,
{
    6000
}

/// Default step of the volatility / imbalance window: 100 ms in nanoseconds.
pub fn default_step_ns() -> (r: u64)
    ensures
        r == 100_000_000,
{
    100_000_000
}

/// Default number of samples before the calculator counts as warmed up.
pub fn default_min_warmup() -> (r: u64)
    ensures
        r == 100,
{
    100
}

/// Default source of the alpha signal.
pub fn default_alpha_source() -> (r: String)
    ensures
        r@ == "binance"@,
{
    String::from_str("binance")
}

/// Default number of alpha samples before the alpha feed counts as warmed up.
pub fn default_alpha_min_samples() -> (r: u64)
    ensures
        r == 150,
{
    150
}

/// Default number of best-bid/offer samples before that feed counts as warmed up.
pub fn default_bbo_min_samples() -> (r: u64)
    ensures
        r == 10,
{
    10
}

/// Default depth of the order-book snapshot requested from the depth feed.
pub fn default_depth_snapshot_limit() -> (r: usize)
    ensures
        r == 1000,
{
    1000
}

/// Default websocket ping interval, in seconds.
pub fn default_ping_interval() -> (r: u64)
    ensures
        r == 20,
{
    20
}

/// Default base delay before a websocket reconnect, in seconds.
pub fn default_reconnect_base() -> (r: u64)
    ensures
        r == 5,
{
    5
}

/// Default maximum delay before a websocket reconnect, in seconds.
pub fn default_reconnect_max() -> (r: u64)
    ensures
        r == 60,
{
    60
}

/// Per-fill trade logs are written unless disabled.
pub fn default_trade_log_enabled() -> (r: bool)
    ensures
        r,
{
    true
}

/// The active trade CSV rotates once it reaches 128 KiB.
pub fn default_trade_log_rotate_bytes() -> (r: u64)
    ensures
        r == 128 * 1024,
{
    128 * 1024
}

/// Rotated trade CSVs are gzip-compressed unless disabled.
pub fn default_trade_log_compress_rotated() -> (r: bool)
    ensures
        r,
{
    true
}

/// Generated output is capped at 500 MiB.
pub fn default_generated_output_max_bytes() -> (r: u64)
    ensures
        r == 500 * 1024 * 1024,
{
    500 * 1024 * 1024
}

/// The summary log rotates once it reaches 10 MiB.
pub fn default_summary_log_rotate_bytes() -> (r: u64)
    ensures
        r == 10 * 1024 * 1024,
{
    10 * 1024 * 1024
}

/// At most this many summary log files are kept.
pub fn default_summary_log_max_files() -> (r: usize)
    ensures
        r == 3,
{
    3
}

/// At most this many result files are kept.
pub fn default_results_max_files() -> (r: usize)
    ensures
        r == 50,
{
    50
}

} // verus!
