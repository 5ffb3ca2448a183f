//! Wall-clock readings, in nanoseconds since the Unix epoch.
use std::time::Duration;
use std::time::UNIX_EPOCH;
use vstd::prelude::*;

verus! {

/// The whole number of nanoseconds in a duration, as `Duration::as_nanos` computes it.
pub uninterp spec fn duration_nanos(duration: Duration) -> u128;

/// `Duration::as_nanos` is a function of the duration alone; its result goes by the name
/// `duration_nanos`.
pub assume_specification[ Duration::as_nanos ](duration: &Duration) -> (nanos: u128)
    ensures
        nanos == duration_nanos(*duration),
;

/// Reads the system clock with `SystemTime::elapsed` on the Unix epoch. Nothing is known
/// of the reading; there is none when the clock stands before the epoch.
#[verifier::external_body]
fn time_since_epoch() -> (elapsed: Option<Duration>) {
    UNIX_EPOCH.elapsed().ok()
}

/// A duration in nanoseconds, capped at `u64::MAX`.
pub open spec fn capped_nanos(duration: Duration) -> u64 {
    if duration_nanos(duration) > u64::MAX {
        u64::MAX
    } else {
        duration_nanos(duration) as u64
    }
}

/// A duration in nanoseconds, capped at `u64::MAX`.
pub fn nanos_of(duration: &Duration) -> (nanos: u64)
    ensures
        nanos == capped_nanos(*duration),
{
    let nanos: u128 = duration.as_nanos();
    if nanos > u64::MAX as u128 {
        u64::MAX
    } else {
        nanos as u64
    }
}

/// What a clock reading of `elapsed` since the epoch means as a timestamp: the
/// nanoseconds, when there is a reading and they fit in 64 bits.
pub open spec fn timestamp_of(elapsed: Option<Duration>) -> Option<u64> {
    match elapsed {
        Some(duration) => if duration_nanos(duration) <= u64::MAX {
            Some(duration_nanos(duration) as u64)
        } else {
            None
        },
        None => None,
    }
}

/// Turns a clock reading into a timestamp.
pub fn timestamp(elapsed: Option<Duration>) -> (now: Option<u64>)
    ensures
        now == timestamp_of(elapsed),
{
    match elapsed {
        Some(duration) => {
            let nanos: u128 = duration.as_nanos();
            if nanos <= u64::MAX as u128 {
                Some(nanos as u64)
            } else {
                None
            }
        },
        None => None,
    }
}

/// The current time in nanoseconds since the Unix epoch, or `None` when the clock stands
/// before the epoch or too far beyond it to count in 64 bits.
pub(crate) fn unix_nanos() -> (now: Option<u64>) {
    timestamp(time_since_epoch())
}

} // verus!
