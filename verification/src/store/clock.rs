//! Wall-clock time in milliseconds.

use std::time::Duration;
use std::time::SystemTime;
use std::time::SystemTimeError;
use vstd::prelude::*;

verus! {

/// A point in time of the system clock, carried but never looked into.
#[verifier::external_type_specification]
#[verifier::external_body]
pub struct ExSystemTime(std::time::SystemTime);

/// Says that one point in time is later than another.
#[verifier::external_type_specification]
#[verifier::external_body]
pub struct ExSystemTimeError(std::time::SystemTimeError);

/// `SystemTime::now` reads the system clock. The clock may show any time, so
/// nothing is claimed of it.
pub assume_specification[ std::time::SystemTime::now ]() -> std::time::SystemTime;

/// `Duration::as_millis` counts the whole milliseconds of a duration. A duration
/// holds its whole seconds in a `u64`, which bounds the count.
pub assume_specification[ std::time::Duration::as_millis ](d: &std::time::Duration) -> (ms: u128)
    ensures
        ms <= LATEST_MS,
;

/// The whole milliseconds of the longest duration.
pub const LATEST_MS: u128 = 18_446_744_073_709_551_615_999;

/// `SystemTime::duration_since`, from the Unix epoch. It fails where `t` is
/// earlier than that; both depend on the clock that `t` was read from, so
/// nothing is claimed of the result.
#[verifier::external_body]
fn since_unix_epoch(t: SystemTime) -> Result<Duration, SystemTimeError> {
    t.duration_since(std::time::UNIX_EPOCH)
}

/// The time that a clock reading stands for: milliseconds since the Unix epoch, or
/// 0 while the clock shows an earlier time.
pub fn ms_or_zero(reading: Option<u128>) -> (ms: u128)
    ensures
        ms == match reading {
            Some(elapsed) => elapsed,
            None => 0,
        },
{
    match reading {
        Some(elapsed) => elapsed,
        None => 0,
    }
}

/// Whether `ms` can be read off the system clock: for a time that `SystemTime::now`
/// returns, `ms` is the whole milliseconds of the duration since the Unix epoch, or
/// 0 where there is none because the time is earlier. Which time that is, is left
/// open.
pub closed spec fn clock_shows(ms: u128) -> bool {
    exists|t: SystemTime, since: Result<Duration, SystemTimeError>|
        {
            &&& call_ensures(SystemTime::now, (), t)
            &&& #[trigger] call_ensures(since_unix_epoch, (t,), since)
            &&& match since {
                Ok(elapsed) => call_ensures(Duration::as_millis, (&elapsed,), ms),
                Err(_) => ms == 0,
            }
        }
}

/// Milliseconds since the Unix epoch; 0 while the clock shows an earlier time.
pub fn unix_now_ms() -> (ms: u128)
    ensures
        ms <= LATEST_MS,
        clock_shows(ms),
{
    ms_or_zero(
        match since_unix_epoch(SystemTime::now()) {
            Ok(elapsed) => Some(elapsed.as_millis()),
            Err(_) => None,
        },
    )
}

/// What is read off the clock is what `Duration::as_millis` counts for the time since
/// the epoch, unchanged, or 0 before it.
proof fn readings_are_the_clocks(ms: u128)
    requires
        call_ensures(unix_now_ms, (), ms),
    ensures
        exists|t: SystemTime, since: Result<Duration, SystemTimeError>|
            {
                &&& call_ensures(SystemTime::now, (), t)
                &&& #[trigger] call_ensures(since_unix_epoch, (t,), since)
                &&& since is Ok ==> call_ensures(Duration::as_millis, (&since->Ok_0,), ms)
                &&& since is Err ==> ms == 0
            },
{
}

} // verus!
