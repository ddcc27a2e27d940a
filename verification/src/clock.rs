//! The system clock, read without panicking, and UTC time stamps rendered by
//! chrono.
use vstd::prelude::*;
use chrono::DateTime;
pub use crate::system_clock::ClockReading;
use crate::system_clock::unix_clock;

verus! {

/// Why the clock could not give a time stamp.
#[derive(Clone, Copy, Debug, PartialEq, Eq)]
pub enum ClockError {
    /// The system clock is set before 1970-01-01T00:00:00Z.
    BeforeUnixEpoch,
    /// The reading is too far in the future to be rendered as a date.
    OutOfRange,
}

/// Pattern of the timestamp column of a trade row.
pub const ROW_TIMESTAMP_PATTERN: &'static str = "%Y-%m-%dT%H:%M:%S%.3fZ";

/// Pattern of the stamp in a rotated trade file name.
pub const ROTATION_STAMP_PATTERN: &'static str = "%Y%m%dT%H%M%S%3fZ";

/// Chrono's rendering of the instant `secs` seconds and `nanos` nanoseconds
/// after the Unix epoch, in UTC, with strftime pattern `pattern`
/// (`DateTime::from_timestamp(secs, nanos)`, then `format(pattern).to_string()`);
/// `None` when chrono cannot represent the instant.
pub uninterp spec fn chrono_utc_text(secs: i64, nanos: u32, pattern: Seq<char>) -> Option<Seq<char>>;

/// `c` is an ASCII digit.
pub open spec fn is_digit(c: char) -> bool {
    '0' <= c <= '9'
}

/// `%Y` of a year from 1970 on: four digits, or, after 9999, a `+` and at
/// least five digits.
pub open spec fn year_field(y: Seq<char>) -> bool {
    ||| (y.len() == 4 && forall|i: int| 0 <= i < 4 ==> is_digit(#[trigger] y[i]))
    ||| (y.len() >= 6 && y[0] == '+' && forall|i: int| 1 <= i < y.len() ==> is_digit(#[trigger] y[i]))
}

/// `s` follows `template` character by character, where `9` stands for any
/// ASCII digit and every other character for itself.
pub open spec fn fits(s: Seq<char>, template: Seq<char>) -> bool {
    &&& s.len() == template.len()
    &&& forall|i: int|
        0 <= i < s.len() ==> if template[i] == '9' {
            is_digit(#[trigger] s[i])
        } else {
            s[i] == template[i]
        }
}

/// What the fields after the year look like in `ROW_TIMESTAMP_PATTERN`.
pub open spec fn row_stamp_tail() -> Seq<char> {
    seq!['-', '9', '9', '-', '9', '9', 'T', '9', '9', ':', '9', '9', ':', '9', '9', '.', '9', '9', '9', 'Z']
}

/// What the fields after the year look like in `ROTATION_STAMP_PATTERN`.
pub open spec fn rotation_stamp_tail() -> Seq<char> {
    seq!['9', '9', '9', '9', 'T', '9', '9', '9', '9', '9', '9', '9', '9', '9', 'Z']
}

/// A year followed by `tail`.
pub open spec fn stamp_shape(t: Seq<char>, tail: Seq<char>) -> bool {
    &&& t.len() >= tail.len()
    &&& year_field(t.take(t.len() - tail.len()))
    &&& fits(t.skip(t.len() - tail.len()), tail)
}

/// The shape of every rendering with `ROW_TIMESTAMP_PATTERN`, as chrono
/// documents its fields: `YYYY-MM-DDTHH:MM:SS.fffZ`.
pub open spec fn row_stamp_shape(t: Seq<char>) -> bool {
    stamp_shape(t, row_stamp_tail())
}

/// The shape of every rendering with `ROTATION_STAMP_PATTERN`, as chrono
/// documents its fields: `YYYYMMDDTHHMMSSfffZ`.
pub open spec fn rotation_stamp_shape(t: Seq<char>) -> bool {
    stamp_shape(t, rotation_stamp_tail())
}

/// A stamp of either shape holds neither a comma nor a line break, so it
/// never splits a CSV row.
pub proof fn lemma_stamp_has_no_separator(t: Seq<char>, tail: Seq<char>)
    requires
        stamp_shape(t, tail),
        !tail.contains(','),
        !tail.contains('\n'),
    ensures
        !t.contains(','),
        !t.contains('\n'),
{
    let n = (t.len() - tail.len()) as int;
    assert forall|i: int| 0 <= i < t.len() implies t[i] != ',' && t[i] != '\n' by {
        if i < n {
            assert(t[i] == t.take(n)[i]);
        } else {
            assert(t[i] == t.skip(n)[i - n]);
            if tail[i - n] != '9' {
                assert(tail.contains(tail[i - n]));
            }
        }
    }
}

/// The tails of both patterns hold no comma and no line break.
pub proof fn lemma_tails_have_no_separator()
    ensures
        !row_stamp_tail().contains(','),
        !row_stamp_tail().contains('\n'),
        !rotation_stamp_tail().contains(','),
        !rotation_stamp_tail().contains('\n'),
{
    assert forall|i: int| 0 <= i < row_stamp_tail().len() implies row_stamp_tail()[i] != ','
        && row_stamp_tail()[i] != '\n' by {}
    assert forall|i: int| 0 <= i < rotation_stamp_tail().len() implies rotation_stamp_tail()[i] != ','
        && rotation_stamp_tail()[i] != '\n' by {}
}

/// Chrono's rendering of an instant from 1970 on with one of the two patterns
/// of this crate (`DateTime::<Utc>::from_timestamp`, then `format` and
/// `to_string`).  `None` where `from_timestamp` returns `None`.  The text is
/// `chrono_utc_text` of the arguments; beyond that, only the field widths that
/// chrono's strftime documentation gives are stated (zero-padded two-digit
/// month, day, hour, minute and second, three-digit milliseconds, a four-digit
/// year or a signed one after 9999).  Both patterns are valid, so `to_string`
/// cannot fail.
#[verifier::external_body]
fn format_utc(secs: i64, nanos: u32, pattern: &str) -> (text: Option<String>)
    requires
        secs >= 0,
        nanos < 1_000_000_000,
        pattern@ == ROW_TIMESTAMP_PATTERN@ || pattern@ == ROTATION_STAMP_PATTERN@,
    ensures
        match text {
            None => chrono_utc_text(secs, nanos, pattern@) is None,
            Some(t) => chrono_utc_text(secs, nanos, pattern@) == Some(t@),
        },
        pattern@ == ROW_TIMESTAMP_PATTERN@ ==> (text matches Some(t) ==> row_stamp_shape(t@)),
        pattern@ == ROTATION_STAMP_PATTERN@ ==> (text matches Some(t) ==> rotation_stamp_shape(t@)),
{
    match DateTime::from_timestamp(secs, nanos) {
        Some(t) => Some(t.format(pattern).to_string()),
        None => None,
    }
}

/// A clock reading, as `unix_clock` gives it, whose nanoseconds are below
/// one second.
pub open spec fn valid_reading(reading: Option<(u64, u32)>) -> bool {
    reading matches Some((secs, nanos)) ==> nanos < 1_000_000_000
}

/// The stamp for clock reading `reading` with `pattern`: no reading means the
/// clock is before the epoch; seconds beyond `i64` or an instant chrono
/// cannot represent are out of range; otherwise chrono's rendering.
pub open spec fn rendered_reading(reading: Option<(u64, u32)>, pattern: Seq<char>) -> Result<
    Seq<char>,
    ClockError,
> {
    match reading {
        None => Err(ClockError::BeforeUnixEpoch),
        Some((secs, nanos)) => if secs > i64::MAX {
            Err(ClockError::OutOfRange)
        } else {
            match chrono_utc_text(secs as i64, nanos, pattern) {
                None => Err(ClockError::OutOfRange),
                Some(t) => Ok(t),
            }
        },
    }
}

/// Renders the clock reading `reading` with `pattern`.
pub fn render_reading(reading: Option<(u64, u32)>, pattern: &str) -> (text: Result<String, ClockError>)
    requires
        valid_reading(reading),
        pattern@ == ROW_TIMESTAMP_PATTERN@ || pattern@ == ROTATION_STAMP_PATTERN@,
    ensures
        match (text, rendered_reading(reading, pattern@)) {
            (Ok(t), Ok(u)) => t@ == u,
            (Err(e), Err(f)) => e == f,
            _ => false,
        },
        pattern@ == ROW_TIMESTAMP_PATTERN@ ==> (text matches Ok(t) ==> row_stamp_shape(t@)),
        pattern@ == ROTATION_STAMP_PATTERN@ ==> (text matches Ok(t) ==> rotation_stamp_shape(t@)),
{
    match reading {
        None => Err(ClockError::BeforeUnixEpoch),
        Some((secs, nanos)) => {
            if secs > i64::MAX as u64 {
                return Err(ClockError::OutOfRange);
            }
            let s = secs as i64;
            match format_utc(s, nanos, pattern) {
                Some(t) => Ok(t),
                None => Err(ClockError::OutOfRange),
            }
        },
    }
}

/// The current UTC time rendered with `pattern`, or why it cannot be: the
/// rendering of the reading the system clock gave during this call.
pub fn utc_now_text(pattern: &str) -> (text: Result<String, ClockError>)
    requires
        pattern@ == ROW_TIMESTAMP_PATTERN@ || pattern@ == ROTATION_STAMP_PATTERN@,
    ensures
        exists|clock: ClockReading|
            valid_reading(clock@) && match (text, #[trigger] rendered_reading(clock@, pattern@)) {
                (Ok(t), Ok(u)) => t@ == u,
                (Err(e), Err(f)) => e == f,
                _ => false,
            },
        exists|reading: Option<(u64, u32)>|
            valid_reading(reading) && match (text, #[trigger] rendered_reading(reading, pattern@)) {
                (Ok(t), Ok(u)) => t@ == u,
                (Err(e), Err(f)) => e == f,
                _ => false,
            },
        text matches Ok(t) ==> exists|secs: i64, nanos: u32|
            secs >= 0 && nanos < 1_000_000_000 && chrono_utc_text(secs, nanos, pattern@) == Some(t@),
        pattern@ == ROW_TIMESTAMP_PATTERN@ ==> (text matches Ok(t) ==> row_stamp_shape(t@)),
        pattern@ == ROTATION_STAMP_PATTERN@ ==> (text matches Ok(t) ==> rotation_stamp_shape(t@)),
{
    let clock = unix_clock();
    let reading = clock.value();
    let text = render_reading(reading, pattern);
    proof {
        if let Some((secs, nanos)) = reading {
            if secs <= i64::MAX {
                assert(secs as i64 >= 0);
            }
        }
    }
    text
}

} // verus!
