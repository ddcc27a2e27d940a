//! Buffered CSV trade log: one row per simulated fill, kept in memory until
//! flushed, and an active file that is rotated once it grows past a limit.
//!
//! This module holds what the log decides and the text it produces; the file
//! system calls that act on those decisions are made by the caller.
use vstd::prelude::*;
use std::path::PathBuf;
use crate::text::{decimal, push_char, push_decimal, lemma_zero_padded_injective};
use crate::clock::{
    chrono_utc_text, lemma_stamp_has_no_separator, lemma_tails_have_no_separator, row_stamp_shape,
    row_stamp_tail, rotation_stamp_shape, utc_now_text, rendered_reading, valid_reading, ClockError, ClockReading, ROTATION_STAMP_PATTERN,
    ROW_TIMESTAMP_PATTERN,
};

verus! {

#[verifier::external_type_specification]
#[verifier::external_body]
pub struct ExPathBuf(PathBuf);

/// First line of every trade CSV.
pub const HEADER: &'static str = "timestamp,symbol,side,price,size,level,position_after,realized_pnl,available_capital,portfolio_value,simulated\n";

/// Rotated files are named with an attempt number; this many attempts are
/// tried before falling back to the process id.
pub const ROTATION_ATTEMPTS: usize = 1000;

/// How a trade log behaves.
#[derive(Clone, Copy)]
pub struct TradeLogOptions {
    /// Whether rows are recorded at all.
    pub enabled: bool,
    /// Size at which the active file is rotated; zero never rotates.
    pub rotate_bytes: u64,
    /// Whether rotated files are gzip-compressed.
    pub compress_rotated: bool,
}

/// A trade logger for one symbol.
pub struct TradeLogger {
    path: PathBuf,
    symbol: String,
    buffer: String,
    enabled: bool,
    rotate_bytes: u64,
    compress_rotated: bool,
}

/// What a `TradeLogger` holds, its file path aside.
pub struct TradeLoggerView {
    pub symbol: Seq<char>,
    /// Rows recorded and not yet flushed.
    pub pending: Seq<char>,
    pub enabled: bool,
    pub rotate_bytes: nat,
    pub compress_rotated: bool,
}

impl View for TradeLogger {
    type V = TradeLoggerView;

    closed spec fn view(&self) -> TradeLoggerView {
        TradeLoggerView {
            symbol: self.symbol@,
            pending: self.buffer@,
            enabled: self.enabled,
            rotate_bytes: self.rotate_bytes as nat,
            compress_rotated: self.compress_rotated,
        }
    }
}

/// File name of the active trade CSV of `symbol`.
pub open spec fn active_file_name_spec(symbol: Seq<char>) -> Seq<char> {
    "trades_"@ + symbol + ".csv"@
}

/// `true` and `false` as `{}` prints them.
pub open spec fn bool_text(b: bool) -> Seq<char> {
    if b {
        "true"@
    } else {
        "false"@
    }
}

/// One CSV row of a fill, the numeric fields already rendered as text.
pub open spec fn fill_row(
    timestamp: Seq<char>,
    symbol: Seq<char>,
    side: Seq<char>,
    price: Seq<char>,
    size: Seq<char>,
    level: nat,
    position_after: Seq<char>,
    realized_pnl: Seq<char>,
    available_capital: Seq<char>,
    portfolio_value: Seq<char>,
    simulated: bool,
) -> Seq<char> {
    timestamp + ","@ + symbol + ","@ + side + ","@ + price + ","@ + size + ","@ + decimal(level)
        + ","@ + position_after + ","@ + realized_pnl + ","@ + available_capital + ","@
        + portfolio_value + ","@ + bool_text(simulated) + "\n"@
}

/// `c` is an ASCII letter or digit.
pub open spec fn ascii_alphanumeric(c: char) -> bool {
    ('0' <= c <= '9') || ('a' <= c <= 'z') || ('A' <= c <= 'Z')
}

/// `symbol` with every character that is not an ASCII letter or digit
/// replaced by `_`.
pub open spec fn sanitize(symbol: Seq<char>) -> Seq<char> {
    Seq::new(symbol.len(), |i: int| if ascii_alphanumeric(symbol[i]) { symbol[i] } else { '_' })
}

/// Extension of rotated files.
pub open spec fn rotated_extension(compressed: bool) -> Seq<char> {
    if compressed {
        "csv.gz"@
    } else {
        "csv"@
    }
}

/// Name of a rotated trade file: `trades_<symbol>__rotated_<stamp><suffix>.<ext>`,
/// where the suffix is empty or `_` and a number.
pub open spec fn rotated_file_name_spec(
    symbol: Seq<char>,
    stamp: Seq<char>,
    suffix: Option<nat>,
    compressed: bool,
) -> Seq<char> {
    "trades_"@ + symbol + "__rotated_"@ + stamp + match suffix {
        None => Seq::<char>::empty(),
        Some(n) => "_"@ + decimal(n),
    } + "."@ + rotated_extension(compressed)
}

/// Different suffixes never give the same rotated file name, so the numbered
/// attempts of one rotation, and the fallback, are all different files.
pub proof fn lemma_rotated_names_distinct(
    symbol: Seq<char>,
    stamp: Seq<char>,
    a: Option<nat>,
    b: Option<nat>,
    compressed: bool,
)
    requires
        a != b,
    ensures
        rotated_file_name_spec(symbol, stamp, a, compressed) != rotated_file_name_spec(
            symbol,
            stamp,
            b,
            compressed,
        ),
{
    reveal_strlit("_");
    let p = "trades_"@ + symbol + "__rotated_"@ + stamp;
    let q = "."@ + rotated_extension(compressed);
    let ma = match a {
        None => Seq::<char>::empty(),
        Some(n) => "_"@ + decimal(n),
    };
    let mb = match b {
        None => Seq::<char>::empty(),
        Some(n) => "_"@ + decimal(n),
    };
    let na = rotated_file_name_spec(symbol, stamp, a, compressed);
    let nb = rotated_file_name_spec(symbol, stamp, b, compressed);
    assert(na =~= p + ma + q);
    assert(nb =~= p + mb + q);
    if na == nb {
        assert(ma.len() == mb.len());
        assert(ma =~= na.subrange(p.len() as int, (p.len() + ma.len()) as int));
        assert(mb =~= nb.subrange(p.len() as int, (p.len() + mb.len()) as int));
        match (a, b) {
            (Some(x), Some(y)) => {
                assert(decimal(x) =~= ma.skip(1));
                assert(decimal(y) =~= mb.skip(1));
                lemma_zero_padded_injective(x, y, 0);
            },
            (Some(x), None) => {
                assert(ma.len() >= 1);
            },
            (None, Some(y)) => {
                assert(mb.len() >= 1);
            },
            (None, None) => {},
        }
    }
}

/// Suffix of rotation attempt `k`: none for the first attempt, `_k` after.
pub open spec fn attempt_suffix(k: nat) -> Option<nat> {
    if k == 0 {
        None
    } else {
        Some(k)
    }
}

/// File name of the active trade CSV of `symbol`: `trades_<symbol>.csv`.
pub fn active_file_name(symbol: &str) -> (name: String)
    ensures
        name@ == active_file_name_spec(symbol@),
{
    let mut name = String::from_str("trades_");
    name.append(symbol);
    name.append(".csv");
    name
}

/// Whether the active file must be given its header line: it is missing, its
/// length cannot be read, or it is empty.
pub fn header_missing(file_exists: bool, file_len: Option<u64>) -> (missing: bool)
    ensures
        missing == (!file_exists || file_len is None || file_len == Some(0u64)),
{
    if !file_exists {
        return true;
    }
    match file_len {
        None => true,
        Some(len) => len == 0,
    }
}

fn push_field(out: &mut String, field: &str)
    ensures
        final(out)@ == old(out)@ + ","@ + field@,
{
    push_char(out, ',');
    out.append(field);
    assert(out@ =~= old(out)@ + ","@ + field@) by {
        reveal_strlit(",");
    }
}

impl TradeLogger {
    /// The path of the active file.
    pub closed spec fn log_path(&self) -> PathBuf {
        self.path
    }

    /// A logger writing to `path`, with nothing recorded yet.
    pub fn with_path(path: PathBuf, symbol: &str, options: TradeLogOptions) -> (logger: Self)
        ensures
            logger.log_path() == path,
            logger@.symbol == symbol@,
            logger@.pending.len() == 0,
            logger@.enabled == options.enabled,
            logger@.rotate_bytes == options.rotate_bytes,
            logger@.compress_rotated == options.compress_rotated,
    {
        TradeLogger {
            path,
            symbol: String::from_str(symbol),
            buffer: String::new(),
            enabled: options.enabled,
            rotate_bytes: options.rotate_bytes,
            compress_rotated: options.compress_rotated,
        }
    }

    /// The path of the active trade CSV.
    pub fn path(&self) -> (p: &PathBuf)
        ensures
            *p == self.log_path(),
    {
        &self.path
    }

    /// The symbol the logger writes for.
    pub fn symbol(&self) -> (s: &str)
        ensures
            s@ == self@.symbol,
    {
        self.symbol.as_str()
    }

    /// Whether rows are recorded.
    pub fn enabled(&self) -> (e: bool)
        ensures
            e == self@.enabled,
    {
        self.enabled
    }

    /// Size at which the active file is rotated (zero: never).
    pub fn rotate_bytes(&self) -> (n: u64)
        ensures
            n == self@.rotate_bytes,
    {
        self.rotate_bytes
    }

    /// Whether rotated files are compressed.
    pub fn compress_rotated(&self) -> (c: bool)
        ensures
            c == self@.compress_rotated,
    {
        self.compress_rotated
    }

    /// Appends the row of one fill, stamped `timestamp`, to the pending rows;
    /// a disabled logger records nothing.
    pub fn append_fill_row(
        &mut self,
        timestamp: &str,
        side: &str,
        price: &str,
        size: &str,
        level: usize,
        position_after: &str,
        realized_pnl: &str,
        available_capital: &str,
        portfolio_value: &str,
        simulated: bool,
    )
        ensures
            final(self).log_path() == old(self).log_path(),
            final(self)@.symbol == old(self)@.symbol,
            final(self)@.enabled == old(self)@.enabled,
            final(self)@.rotate_bytes == old(self)@.rotate_bytes,
            final(self)@.compress_rotated == old(self)@.compress_rotated,
            final(self)@.pending == if old(self)@.enabled {
                old(self)@.pending + fill_row(
                    timestamp@,
                    old(self)@.symbol,
                    side@,
                    price@,
                    size@,
                    level as nat,
                    position_after@,
                    realized_pnl@,
                    available_capital@,
                    portfolio_value@,
                    simulated,
                )
            } else {
                old(self)@.pending
            },
    {
        if !self.enabled {
            return;
        }
        let mut row = String::from_str(timestamp);
        push_field(&mut row, self.symbol.as_str());
        push_field(&mut row, side);
        push_field(&mut row, price);
        push_field(&mut row, size);
        push_char(&mut row, ',');
        push_decimal(&mut row, level as u64);
        push_field(&mut row, position_after);
        push_field(&mut row, realized_pnl);
        push_field(&mut row, available_capital);
        push_field(&mut row, portfolio_value);
        if simulated {
            push_field(&mut row, "true");
        } else {
            push_field(&mut row, "false");
        }
        push_char(&mut row, '\n');
        proof {
            reveal_strlit(",");
            reveal_strlit("\n");
            reveal_strlit("true");
            reveal_strlit("false");
        }
        assert(row@ =~= fill_row(
            timestamp@,
            self.symbol@,
            side@,
            price@,
            size@,
            level as nat,
            position_after@,
            realized_pnl@,
            available_capital@,
            portfolio_value@,
            simulated,
        ));
        self.buffer.append(row.as_str());
    }

    /// Records one fill, stamped with the UTC time the system clock reads
    /// during this call, in
    /// `ROW_TIMESTAMP_PATTERN`; a disabled logger records nothing (and reads
    /// no clock).  When the clock cannot give a time stamp nothing is recorded
    /// and the reason is returned.
    pub fn record_fill(
        &mut self,
        side: &str,
        price: &str,
        size: &str,
        level: usize,
        position_after: &str,
        realized_pnl: &str,
        available_capital: &str,
        portfolio_value: &str,
        simulated: bool,
    ) -> (result: Result<(), ClockError>)
        ensures
            final(self).log_path() == old(self).log_path(),
            final(self)@.symbol == old(self)@.symbol,
            final(self)@.enabled == old(self)@.enabled,
            final(self)@.rotate_bytes == old(self)@.rotate_bytes,
            final(self)@.compress_rotated == old(self)@.compress_rotated,
            !old(self)@.enabled ==> result is Ok && final(self)@.pending == old(self)@.pending,
            result is Err ==> final(self)@.pending == old(self)@.pending,
            old(self)@.enabled ==> exists|clock: ClockReading|
                valid_reading(clock@) && match #[trigger] rendered_reading(clock@, ROW_TIMESTAMP_PATTERN@) {
                    Ok(timestamp) => result is Ok && final(self)@.pending == old(self)@.pending + fill_row(
                        timestamp,
                        old(self)@.symbol,
                        side@,
                        price@,
                        size@,
                        level as nat,
                        position_after@,
                        realized_pnl@,
                        available_capital@,
                        portfolio_value@,
                        simulated,
                    ),
                    Err(e) => result == Err::<(), ClockError>(e),
                },
            old(self)@.enabled ==> exists|reading: Option<(u64, u32)>|
                valid_reading(reading) && match #[trigger] rendered_reading(reading, ROW_TIMESTAMP_PATTERN@) {
                    Ok(timestamp) => result is Ok && final(self)@.pending == old(self)@.pending + fill_row(
                        timestamp,
                        old(self)@.symbol,
                        side@,
                        price@,
                        size@,
                        level as nat,
                        position_after@,
                        realized_pnl@,
                        available_capital@,
                        portfolio_value@,
                        simulated,
                    ),
                    Err(e) => result == Err::<(), ClockError>(e),
                },
            old(self)@.enabled && result is Ok ==> exists|timestamp: Seq<char>|
                {
                    &&& row_stamp_shape(timestamp)
                    &&& !timestamp.contains(',')
                    &&& !timestamp.contains('\n')
                    &&& exists|secs: i64, nanos: u32|
                        secs >= 0 && nanos < 1_000_000_000 && chrono_utc_text(
                            secs,
                            nanos,
                            ROW_TIMESTAMP_PATTERN@,
                        ) == Some(timestamp)
                    &&& final(self)@.pending == old(self)@.pending + fill_row(
                        timestamp,
                        old(self)@.symbol,
                        side@,
                        price@,
                        size@,
                        level as nat,
                        position_after@,
                        realized_pnl@,
                        available_capital@,
                        portfolio_value@,
                        simulated,
                    )
                },
    {
        if !self.enabled {
            return Ok(());
        }
        let timestamp = match utc_now_text(ROW_TIMESTAMP_PATTERN) {
            Ok(t) => t,
            Err(e) => {
                return Err(e);
            },
        };
        proof {
            lemma_tails_have_no_separator();
            lemma_stamp_has_no_separator(timestamp@, row_stamp_tail());
        }
        self.append_fill_row(
            timestamp.as_str(),
            side,
            price,
            size,
            level,
            position_after,
            realized_pnl,
            available_capital,
            portfolio_value,
            simulated,
        );
        Ok(())
    }

    /// The rows recorded and not yet flushed, in the order they were recorded.
    pub fn pending(&self) -> (rows: &str)
        ensures
            rows@ == self@.pending,
    {
        self.buffer.as_str()
    }

    /// Forgets the pending rows (once they are written, or when the log is
    /// disabled or cleared).
    pub fn clear_pending(&mut self)
        ensures
            final(self)@.pending.len() == 0,
            final(self).log_path() == old(self).log_path(),
            final(self)@.symbol == old(self)@.symbol,
            final(self)@.enabled == old(self)@.enabled,
            final(self)@.rotate_bytes == old(self)@.rotate_bytes,
            final(self)@.compress_rotated == old(self)@.compress_rotated,
    {
        self.buffer = String::new();
    }

    /// Whether the active file may need rotating at all: the log is enabled,
    /// rotation is on and the file exists.  Only then is its size looked at.
    pub fn rotation_possible(&self, file_exists: bool) -> (possible: bool)
        ensures
            possible == (self@.enabled && self@.rotate_bytes != 0 && file_exists),
    {
        self.enabled && self.rotate_bytes != 0 && file_exists
    }

    /// Whether the active file, `file_len` bytes long, is due for rotation:
    /// the log is enabled, rotation is on, the file exists, it has reached the
    /// rotation size and it holds more than its header.
    pub fn rotation_due(&self, file_exists: bool, file_len: u64) -> (due: bool)
        ensures
            due == (self@.enabled && self@.rotate_bytes != 0 && file_exists && file_len
                >= self@.rotate_bytes && file_len > HEADER.len()),
    {
        if !self.enabled || self.rotate_bytes == 0 || !file_exists {
            return false;
        }
        file_len >= self.rotate_bytes && file_len > HEADER.len() as u64
    }

    /// `symbol` with everything but ASCII letters and digits replaced by `_`.
    pub fn sanitized_symbol(&self) -> (s: String)
        ensures
            s@ == sanitize(self@.symbol),
    {
        broadcast use vstd::string::group_string_axioms;

        let mut out = String::new();
        for c in it: self.symbol.as_str().chars()
            invariant
                it.seq() == self.symbol@,
                out@ == sanitize(self.symbol@.take(it.index() as int)),
        {
            let keep = ('0' <= c && c <= '9') || ('a' <= c && c <= 'z') || ('A' <= c && c <= 'Z');
            if keep {
                push_char(&mut out, c);
            } else {
                push_char(&mut out, '_');
            }
            assert(out@ =~= sanitize(self.symbol@.take(it.index() + 1)));
        }
        assert(self.symbol@.take(self.symbol@.len() as int) =~= self.symbol@);
        out
    }

    /// Name of the scratch file a rotated log is compressed into:
    /// `.tmp_trades_<sanitized symbol>_<pid>.gz`.
    pub fn compression_scratch_name(&self, pid: u32) -> (name: String)
        ensures
            name@ == ".tmp_trades_"@ + sanitize(self@.symbol) + "_"@ + decimal(pid as nat) + ".gz"@,
    {
        let mut name = String::from_str(".tmp_trades_");
        let s = self.sanitized_symbol();
        name.append(s.as_str());
        push_char(&mut name, '_');
        push_decimal(&mut name, pid as u64);
        name.append(".gz");
        proof {
            reveal_strlit("_");
        }
        assert(name@ =~= ".tmp_trades_"@ + sanitize(self@.symbol) + "_"@ + decimal(pid as nat) + ".gz"@);
        name
    }

    /// Starts a rotation: fixes the time stamp, the current UTC time in
    /// `ROTATION_STAMP_PATTERN`, that names the rotated file; or tells why the
    /// clock cannot give one.
    pub fn begin_rotation(&self) -> (target: Result<RotationTarget, ClockError>)
        ensures
            exists|clock: ClockReading|
                valid_reading(clock@) && match #[trigger] rendered_reading(clock@, ROTATION_STAMP_PATTERN@) {
                    Ok(stamp) => target matches Ok(t) && t.stamp@ == stamp,
                    Err(e) => target matches Err(f) && f == e,
                },
            exists|reading: Option<(u64, u32)>|
                valid_reading(reading) && match #[trigger] rendered_reading(reading, ROTATION_STAMP_PATTERN@) {
                    Ok(stamp) => target matches Ok(t) && t.stamp@ == stamp,
                    Err(e) => target matches Err(f) && f == e,
                },
            target matches Ok(t) ==> {
                &&& t.symbol@ == self@.symbol
                &&& t.compressed == self@.compress_rotated
                &&& rotation_stamp_shape(t.stamp@)
                &&& exists|secs: i64, nanos: u32|
                    secs >= 0 && nanos < 1_000_000_000 && chrono_utc_text(
                        secs,
                        nanos,
                        ROTATION_STAMP_PATTERN@,
                    ) == Some(t.stamp@)
            },
    {
        let stamp = match utc_now_text(ROTATION_STAMP_PATTERN) {
            Ok(t) => t,
            Err(e) => {
                return Err(e);
            },
        };
        Ok(RotationTarget { symbol: self.symbol.clone(), stamp, compressed: self.compress_rotated })
    }
}

/// Consecutive states of one logger, as its `&mut self` methods leave them,
/// each writing the same file as the one before.
pub open spec fn keeps_file(states: Seq<TradeLogger>, i: int) -> bool {
    states[i + 1].log_path() == states[i].log_path()
}

/// A logger writes to one file for its whole life: every `&mut self` method
/// keeps `log_path`, so along any sequence of calls the path stays the one
/// `with_path` was given.
pub proof fn lemma_path_fixed_along(states: Seq<TradeLogger>)
    requires
        forall|i: int| 0 <= i < states.len() - 1 ==> #[trigger] keeps_file(states, i),
    ensures
        forall|i: int| 0 <= i < states.len() ==> #[trigger] states[i].log_path() == states[0].log_path(),
    decreases states.len(),
{
    if states.len() > 1 {
        let prefix = states.drop_last();
        assert forall|i: int| 0 <= i < prefix.len() - 1 implies #[trigger] keeps_file(prefix, i) by {
            assert(keeps_file(states, i));
        }
        lemma_path_fixed_along(prefix);
        assert forall|i: int| 0 <= i < states.len() implies #[trigger] states[i].log_path()
            == states[0].log_path() by {
            if i < states.len() - 1 {
                assert(states[i] == prefix[i]);
            } else {
                assert(keeps_file(states, i - 1));
                assert(states[i - 1] == prefix[i - 1]);
            }
        }
    }
}

/// The naming of one rotated trade file.
pub struct RotationTarget {
    pub symbol: String,
    pub stamp: String,
    pub compressed: bool,
}

impl RotationTarget {
    fn name_with(&self, suffix: Option<u64>) -> (name: String)
        ensures
            name@ == rotated_file_name_spec(
                self.symbol@,
                self.stamp@,
                match suffix {
                    None => None,
                    Some(n) => Some(n as nat),
                },
                self.compressed,
            ),
    {
        let mut name = String::from_str("trades_");
        name.append(self.symbol.as_str());
        name.append("__rotated_");
        name.append(self.stamp.as_str());
        match suffix {
            None => {},
            Some(n) => {
                push_char(&mut name, '_');
                push_decimal(&mut name, n);
            },
        }
        push_char(&mut name, '.');
        if self.compressed {
            name.append("csv.gz");
        } else {
            name.append("csv");
        }
        proof {
            reveal_strlit("_");
            reveal_strlit(".");
        }
        assert(name@ =~= rotated_file_name_spec(
            self.symbol@,
            self.stamp@,
            match suffix {
                None => None,
                Some(n) => Some(n as nat),
            },
            self.compressed,
        ));
        name
    }

    /// Candidate name number `attempt`: attempt zero carries no suffix, the
    /// others `_<attempt>`.
    pub fn file_name(&self, attempt: usize) -> (name: String)
        ensures
            name@ == rotated_file_name_spec(
                self.symbol@,
                self.stamp@,
                attempt_suffix(attempt as nat),
                self.compressed,
            ),
    {
        if attempt == 0 {
            self.name_with(None)
        } else {
            self.name_with(Some(attempt as u64))
        }
    }

    /// Name used when every numbered candidate is taken: suffixed with the
    /// process id.
    pub fn fallback_file_name(&self, pid: u32) -> (name: String)
        ensures
            name@ == rotated_file_name_spec(self.symbol@, self.stamp@, Some(pid as nat), self.compressed),
    {
        self.name_with(Some(pid as u64))
    }

    /// Name of the rotated file: the first numbered candidate, in attempt
    /// order, that `is_free` accepts, or the process-id fallback when it
    /// accepts none of the `ROTATION_ATTEMPTS` candidates.
    pub fn pick_file_name<F: Fn(usize) -> bool>(&self, is_free: F, pid: u32) -> (name: String)
        requires
            forall|k: usize| k < ROTATION_ATTEMPTS ==> #[trigger] is_free.requires((k,)),
        ensures
            (exists|k: usize|
                {
                    &&& k < ROTATION_ATTEMPTS
                    &&& is_free.ensures((k,), true)
                    &&& forall|j: usize| j < k ==> #[trigger] is_free.ensures((j,), false)
                    &&& name@ == rotated_file_name_spec(
                        self.symbol@,
                        self.stamp@,
                        attempt_suffix(k as nat),
                        self.compressed,
                    )
                }) || {
                &&& forall|j: usize| j < ROTATION_ATTEMPTS ==> #[trigger] is_free.ensures((j,), false)
                &&& name@ == rotated_file_name_spec(
                    self.symbol@,
                    self.stamp@,
                    Some(pid as nat),
                    self.compressed,
                )
            },
    {
        let mut k: usize = 0;
        while k < ROTATION_ATTEMPTS
            invariant
                k <= ROTATION_ATTEMPTS,
                forall|j: usize| j < ROTATION_ATTEMPTS ==> #[trigger] is_free.requires((j,)),
                forall|j: usize| j < k ==> #[trigger] is_free.ensures((j,), false),
            decreases ROTATION_ATTEMPTS - k,
        {
            let free = is_free(k);
            if free {
                let name = self.file_name(k);
                assert(is_free.ensures((k,), true));
                assert(name@ == rotated_file_name_spec(
                    self.symbol@,
                    self.stamp@,
                    attempt_suffix(k as nat),
                    self.compressed,
                ));
                return name;
            }
            k = k + 1;
        }
        self.fallback_file_name(pid)
    }
}

} // verus!
