# lighter_mm_dryrun

Verified core of a market-making dry-run engine that sweeps a grid of quoting
parameters against live order-book feeds.

`src/` is the library, verified with Verus:

- `config` — the integer, boolean and text defaults of `config.json`.
- `axes`, `grid` — the parameter grid: axes in name order, every combination
  in odometer order (last axis fastest), the 2000-combination limit, slot
  labels, and the summary-log rotation rule.
- `clock` — the system clock read without panicking, and the shape of the
  UTC stamps chrono renders for trade rows and rotated files.
- `order_ids` — 48-bit client order ids drawn from the clock, increasing until
  they wrap.
- `warmup` — when an external feed counts as warmed up.
- `trade_log` — the buffered trade CSV: row layout, header, rotation decision
  the names of rotated and scratch files, and the choice of the first free
  rotated name.
- `run_loop` — what the main loop does with each order-book update, feed
  notice and stop signal, and on shutdown.
- `text` — decimal rendering of integers.

`app/` is the program around it: command line, JSON configuration, the
floating-point prices, sizes and parameters, and the file operations of the
trade log.  The exchange feeds, order book, quote calculator and order
simulation are not part of this crate.
