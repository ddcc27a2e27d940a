//! Client order ids: unique, increasing 48-bit ids taken from the wall clock.
use vstd::prelude::*;
use crate::clock::valid_reading;
use crate::system_clock::{unix_clock, ClockReading};

verus! {

/// Largest client order index the exchange accepts: `2^48 - 1`.
pub const MAX_CLIENT_ORDER_INDEX: i64 = 281_474_976_710_655;

/// Rust's `%` on integers: the remainder takes the sign of the dividend.
pub open spec fn truncated_rem(a: int, m: int) -> int {
    if a >= 0 {
        a % m
    } else {
        -((-a) % m)
    }
}

/// The id that follows `last_cid` when the clock reads `now_nanos`: the clock
/// reading modulo `2^48`, unless that is not above `last_cid`, in which case
/// `last_cid + 1` modulo `2^48`.
pub open spec fn next_client_order_id_spec(now_nanos: i64, last_cid: i64) -> int {
    let m = MAX_CLIENT_ORDER_INDEX + 1;
    let from_clock = truncated_rem(now_nanos as int, m);
    if from_clock <= last_cid {
        truncated_rem(last_cid + 1, m)
    } else {
        from_clock
    }
}

/// The id that follows `last_cid` when the clock reads `now_nanos`.
pub fn next_client_order_id(now_nanos: i64, last_cid: i64) -> (id: i64)
    requires
        last_cid < i64::MAX,
    ensures
        id == next_client_order_id_spec(now_nanos, last_cid),
{
    let modulus: i64 = MAX_CLIENT_ORDER_INDEX + 1;
    let mut new_id = now_nanos % modulus;
    if new_id <= last_cid {
        new_id = (last_cid + 1) % modulus;
    }
    new_id
}

/// Successive ids climb: after any id below `MAX_CLIENT_ORDER_INDEX` the next
/// one is larger and still at most `MAX_CLIENT_ORDER_INDEX`, whatever the
/// clock reads; after `MAX_CLIENT_ORDER_INDEX` the ids start again at zero.
pub proof fn lemma_client_ids_climb_then_wrap(now_nanos: i64, last_cid: i64)
    ensures
        0 <= last_cid < MAX_CLIENT_ORDER_INDEX ==> last_cid < next_client_order_id_spec(now_nanos, last_cid)
            <= MAX_CLIENT_ORDER_INDEX,
        last_cid == MAX_CLIENT_ORDER_INDEX ==> next_client_order_id_spec(now_nanos, last_cid) == 0,
{
}

/// The clock reading `secs` seconds and `nanos` nanoseconds after the epoch
/// in nanoseconds, truncated to an `i64` as `Duration::as_nanos() as i64`
/// truncates it.
pub fn nanos_since_epoch(secs: u64, nanos: u32) -> (n: i64)
    ensures
        n == (secs as int * 1_000_000_000 + nanos as int) as i64,
{
    let total: u128 = secs as u128 * 1_000_000_000u128 + nanos as u128;
    #[verifier::truncate]
    (total as i64)
}

/// The id that follows `last_cid` for clock reading `reading`: the id for
/// the reading in nanoseconds, or, with no reading (a clock before 1970),
/// `last_cid + 1` modulo `2^48`, as for a clock that has not moved past
/// `last_cid`.
pub open spec fn next_id_for_reading(reading: Option<(u64, u32)>, last_cid: i64) -> int {
    match reading {
        Some((secs, nanos)) => next_client_order_id_spec(
            (secs as int * 1_000_000_000 + nanos as int) as i64,
            last_cid,
        ),
        None => truncated_rem(last_cid + 1, MAX_CLIENT_ORDER_INDEX + 1),
    }
}

/// The clock decides the id: for a reading `v` nanoseconds after the epoch
/// (as `as_nanos() as i64`, when that is not negative), the id is `v` modulo
/// `2^48` whenever that is above `last_cid`, and `last_cid + 1` otherwise
/// (for `0 <= last_cid < 2^48 - 1`); a clock before the epoch gives
/// `last_cid + 1`.
pub proof fn lemma_id_follows_the_clock(reading: Option<(u64, u32)>, last_cid: i64)
    requires
        0 <= last_cid < MAX_CLIENT_ORDER_INDEX,
    ensures
        reading is None ==> next_id_for_reading(reading, last_cid) == last_cid + 1,
        reading matches Some((secs, nanos)) ==> {
            let v = (secs as int * 1_000_000_000 + nanos as int) as i64;
            v >= 0 ==> next_id_for_reading(reading, last_cid) == if v % 281_474_976_710_656 > last_cid {
                (v % 281_474_976_710_656) as int
            } else {
                last_cid + 1
            }
        },
{
}

/// The id that follows `last_cid` for clock reading `reading`.
pub fn next_id_for(reading: Option<(u64, u32)>, last_cid: i64) -> (id: i64)
    requires
        last_cid < i64::MAX,
    ensures
        id == next_id_for_reading(reading, last_cid),
        0 <= last_cid < MAX_CLIENT_ORDER_INDEX ==> last_cid < id <= MAX_CLIENT_ORDER_INDEX,
        last_cid == MAX_CLIENT_ORDER_INDEX ==> id == 0,
{
    let modulus: i64 = MAX_CLIENT_ORDER_INDEX + 1;
    match reading {
        Some((secs, nanos)) => {
            let now_nanos = nanos_since_epoch(secs, nanos);
            proof {
                lemma_client_ids_climb_then_wrap(now_nanos, last_cid);
            }
            next_client_order_id(now_nanos, last_cid)
        },
        None => (last_cid + 1) % modulus,
    }
}

/// Draws the next client order id from the reading the system clock gives
/// during this call and records it in `last_cid`.
pub fn next_client_order_index(last_cid: &mut i64) -> (id: i64)
    requires
        *old(last_cid) < i64::MAX,
    ensures
        exists|clock: ClockReading|
            valid_reading(clock@) && id == #[trigger] next_id_for_reading(clock@, *old(last_cid)),
        exists|reading: Option<(u64, u32)>|
            valid_reading(reading) && id == #[trigger] next_id_for_reading(reading, *old(last_cid)),
        *final(last_cid) == id,
        0 <= *old(last_cid) < MAX_CLIENT_ORDER_INDEX ==> *old(last_cid) < id <= MAX_CLIENT_ORDER_INDEX,
        *old(last_cid) == MAX_CLIENT_ORDER_INDEX ==> id == 0,
{
    let clock = unix_clock();
    let reading = clock.value();
    let id = next_id_for(reading, *last_cid);
    *last_cid = id;
    id
}

} // verus!
