//! Wall clock time.

use std::time::{Duration, SystemTime, SystemTimeError};

use vstd::prelude::*;

verus! {

#[verifier::external_type_specification]
#[verifier::external_body]
pub struct ExSystemTime(SystemTime);

#[verifier::external_type_specification]
#[verifier::external_body]
pub struct ExSystemTimeError(SystemTimeError);

/// `SystemTime::now` reads the clock. Nothing is claimed of what it shows.
pub assume_specification[ SystemTime::now ]() -> SystemTime
;

/// The time between the unix epoch and a reading of the clock; `None` where the reading
/// is before the epoch.
pub uninterp spec fn epoch_distance(time: SystemTime) -> Option<Duration>;

/// `SystemTime::duration_since` from the unix epoch: fails where the reading is before it.
/// Claims that the reading alone decides which of the two comes out, and the distance.
#[verifier::external_body]
fn since_epoch(time: SystemTime) -> (out: std::result::Result<Duration, SystemTimeError>)
    ensures
        epoch_distance(time) == out.ok(),
{
    time.duration_since(std::time::UNIX_EPOCH)
}

/// The whole seconds in a span of time.
pub uninterp spec fn whole_seconds(duration: Duration) -> u64;

/// `Duration::as_secs` gives the whole seconds. Claims that the span alone decides their
/// number.
pub assume_specification[ Duration::as_secs ](duration: &Duration) -> (out: u64)
    ensures
        out == whole_seconds(*duration),
;

/// The unix time that a reading of the clock stands for: its whole seconds since the
/// epoch, or zero where it is before the epoch.
pub open spec fn unix_time(time: SystemTime) -> u64 {
    match epoch_distance(time) {
        Some(elapsed) => whole_seconds(elapsed),
        None => 0,
    }
}

/// The seconds to report for a measured time since the epoch: zero where the clock
/// stands before it.
pub fn seconds_or_zero(since_epoch: Option<u64>) -> (out: u64)
    ensures
        out == match since_epoch {
            Some(seconds) => seconds,
            None => 0,
        },
{
    match since_epoch {
        Some(seconds) => seconds,
        None => 0,
    }
}

/// Seconds since the unix epoch, saturating at the epoch on platforms with a
/// clock before 1970.
pub fn now_unix() -> (out: u64)
    ensures
        exists|time: SystemTime| out == #[trigger] unix_time(time),
{
    let time = SystemTime::now();
    let since = match since_epoch(time) {
        Ok(elapsed) => Some(elapsed.as_secs()),
        Err(_) => None,
    };
    let out = seconds_or_zero(since);
    assert(out == unix_time(time));
    out
}

} // verus!
