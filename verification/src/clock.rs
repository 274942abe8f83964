//! The wall clock.

use std::time::{Duration, SystemTime, SystemTimeError};
use vstd::prelude::*;

verus! {

/// A point in time of the system's clock.
#[verifier::external_type_specification]
#[verifier::external_body]
pub struct ExSystemTime(SystemTime);

/// Why one point in time is not behind another.
#[verifier::external_type_specification]
#[verifier::external_body]
pub struct ExSystemTimeError(SystemTimeError);

/// `SystemTime::now` reads the system's clock. What the clock shows is up to
/// the machine, so nothing is claimed of it.
pub assume_specification[ SystemTime::now ]() -> (now: SystemTime);

/// The time from the start of 1970 to `now`, or the error for a `now` before
/// that.
pub uninterp spec fn elapsed_since_epoch(now: SystemTime) -> Result<Duration, SystemTimeError>;

/// `SystemTime::duration_since`, from `SystemTime::UNIX_EPOCH`. The result is
/// a function of `now` alone.
#[verifier::external_body]
fn since_epoch(now: SystemTime) -> (elapsed: Result<Duration, SystemTimeError>)
    ensures
        elapsed == elapsed_since_epoch(now),
{
    now.duration_since(SystemTime::UNIX_EPOCH)
}

/// The number of whole seconds in a duration.
pub uninterp spec fn whole_seconds(d: Duration) -> u64;

/// `Duration::as_secs` gives the number of whole seconds in the duration.
pub assume_specification[ Duration::as_secs ](d: &Duration) -> (seconds: u64)
    ensures
        seconds == whole_seconds(*d),
;

/// The whole seconds of a time since 1970; 0 for a time before 1970.
pub open spec fn seconds_or_zero(elapsed: Result<Duration, SystemTimeError>) -> u64 {
    match elapsed {
        Ok(d) => whole_seconds(d),
        Err(_) => 0,
    }
}

/// The whole seconds of an elapsed time, or 0 where there is none because
/// the clock stood before 1970.
pub fn elapsed_seconds(elapsed: Result<Duration, SystemTimeError>) -> (seconds: u64)
    ensures
        seconds == seconds_or_zero(elapsed),
{
    match elapsed {
        Ok(d) => d.as_secs(),
        Err(_) => 0,
    }
}

/// The current time in seconds since 1970, or 0 if the clock stands before
/// 1970. Which time the clock shows is up to the machine.
pub fn now_seconds() -> (seconds: u64)
    ensures
        exists|now: SystemTime| seconds == seconds_or_zero(#[trigger] elapsed_since_epoch(now)),
{
    elapsed_seconds(since_epoch(SystemTime::now()))
}

/// A time since 1970 keeps all its whole seconds, and every time before 1970
/// counts as 0: two times have the same stamp only if they have the same
/// whole seconds.
pub proof fn stamp_is_the_whole_seconds(d: Duration, e: Duration, early: SystemTimeError)
    ensures
        seconds_or_zero(Ok(d)) == whole_seconds(d),
        seconds_or_zero(Err(early)) == 0,
        seconds_or_zero(Ok(d)) == seconds_or_zero(Ok(e)) ==> whole_seconds(d) == whole_seconds(e),
{
}

} // verus!
