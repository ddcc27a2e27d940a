//! Verified core of a market-making dry-run engine: configuration defaults,
//! parameter-grid enumeration, order-id allocation, warm-up tracking and the
//! trade-log buffering and rotation rules.

pub mod config;
pub mod clock;
pub mod system_clock;
pub mod text;
pub mod grid;
pub mod order_ids;
pub mod warmup;
pub mod trade_log;
pub mod axes;
pub mod run_loop;
