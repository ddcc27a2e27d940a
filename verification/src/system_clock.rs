//! The system clock.  This module holds nothing but the reading type and the
//! one function that makes readings, so no code elsewhere can build or
//! forge one.
use vstd::prelude::*;
use std::time::{SystemTime, UNIX_EPOCH};
use crate::clock::valid_reading;

verus! {

/// One reading of the system clock: whole seconds and nanoseconds since the
/// Unix epoch, or `None` for a clock set before the epoch.  Its field is
/// private and `unix_clock` is the only function that makes one, so every
/// value of this type is a reading the system clock actually gave; its view is
/// closed, so no proof outside this module can pass another value off as one.
pub struct ClockReading {
    reading: Option<(u64, u32)>,
}

impl View for ClockReading {
    type V = Option<(u64, u32)>;

    closed spec fn view(&self) -> Option<(u64, u32)> {
        self.reading
    }
}

impl ClockReading {
    /// The seconds and nanoseconds of the reading, `None` before the epoch.
    pub fn value(&self) -> (reading: Option<(u64, u32)>)
        ensures
            reading == self@,
    {
        self.reading
    }
}

/// Reads the system clock: time since the Unix epoch as whole seconds and the
/// nanoseconds within the second (`SystemTime::now().duration_since(UNIX_EPOCH)`,
/// then `Duration::as_secs` and `Duration::subsec_nanos`); `None` when the
/// clock is set before the epoch (the `Err` of `duration_since`).  The
/// reading depends on the clock, so only what `subsec_nanos` documents is
/// stated: the nanoseconds are below one second.
#[verifier::external_body]
pub(crate) fn unix_clock() -> (reading: ClockReading)
    ensures
        valid_reading(reading@),
{
    match SystemTime::now().duration_since(UNIX_EPOCH) {
        Ok(d) => ClockReading { reading: Some((d.as_secs(), d.subsec_nanos())) },
        Err(_) => ClockReading { reading: None },
    }
}

} // verus!
