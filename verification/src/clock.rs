//! The wall clock that stamps events created without an explicit time.

use vstd::prelude::*;
use std::time::{Duration, SystemTime, SystemTimeError, UNIX_EPOCH};

verus! {

#[verifier::external_type_specification]
#[verifier::external_body]
pub struct ExSystemTime(SystemTime);

#[verifier::external_type_specification]
#[verifier::external_body]
pub struct ExSystemTimeError(SystemTimeError);

/// Calls `std::time::SystemTime::now`. The reading depends on the machine's
/// clock, so nothing is claimed of it.
#[verifier::external_body]
fn system_time_now() -> (t: SystemTime) {
    SystemTime::now()
}

/// Calls `std::time::SystemTime::duration_since` with `UNIX_EPOCH`; it fails
/// when the reading lies before the epoch. The duration is not modelled, so
/// nothing is claimed of it.
#[verifier::external_body]
fn duration_since_unix_epoch(t: &SystemTime) -> (r: Result<Duration, SystemTimeError>) {
    t.duration_since(UNIX_EPOCH)
}

/// Calls `std::time::Duration::as_millis`: the whole milliseconds in `d`.
/// `Duration` is opaque here, so the result is not tied to it by any clause.
#[verifier::external_body]
fn duration_as_millis(d: &Duration) -> (ms: u128) {
    d.as_millis()
}

/// The low 64 bits of a millisecond count, the width of an event timestamp.
pub open spec fn timestamp_of_millis(ms: u128) -> u64 {
    (ms % 0x1_0000_0000_0000_0000) as u64
}

/// The timestamp made of a clock reading: the milliseconds since the Unix
/// epoch truncated to 64 bits, or `0` for a reading before the epoch.
pub open spec fn timestamp_of_reading(since_epoch: Option<u128>) -> u64 {
    match since_epoch {
        Some(ms) => timestamp_of_millis(ms),
        None => 0,
    }
}

/// Timestamps follow the clock: of two readings, the later one (below 2^64
/// milliseconds since the epoch) gives a timestamp no smaller than the earlier
/// one, and a reading before the epoch gives the smallest timestamp.
pub proof fn lemma_timestamps_follow_clock(earlier: Option<u128>, later: Option<u128>)
    requires
        later matches Some(b) && b < 0x1_0000_0000_0000_0000,
        earlier matches Some(a) ==> a <= later->0,
    ensures
        timestamp_of_reading(earlier) <= timestamp_of_reading(later),
        timestamp_of_reading(later) == later->0,
{
}

/// Milliseconds since the Unix epoch, truncated to 64 bits; `0` when the
/// clock reads a time before the epoch.
pub fn epoch_timestamp(since_epoch: Option<u128>) -> (ts: u64)
    ensures
        ts == timestamp_of_reading(since_epoch),
{
    match since_epoch {
        Some(ms) => {
            let ts = (ms % 0x1_0000_0000_0000_0000) as u64;
            ts
        },
        None => 0,
    }
}

/// The current wall-clock time in milliseconds since the Unix epoch
/// (see [`epoch_timestamp`] for how the reading is turned into a timestamp).
pub fn now_millis() -> (ts: u64) {
    let now = system_time_now();
    let since_epoch = match duration_since_unix_epoch(&now) {
        Ok(d) => Some(duration_as_millis(&d)),
        Err(_) => None,
    };
    epoch_timestamp(since_epoch)
}

} // verus!
