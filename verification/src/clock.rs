//! The wall clock, in whole seconds.

use std::time::{Duration, SystemTime, SystemTimeError};
use vstd::prelude::*;

verus! {

/// A reading of the system clock.
#[verifier::external_type_specification]
#[verifier::external_body]
pub struct ExSystemTime(SystemTime);

/// The error of a clock that stands before the time it is measured from.
#[verifier::external_type_specification]
#[verifier::external_body]
pub struct ExSystemTimeError(SystemTimeError);

/// `SystemTime::now` reads the system clock. Nothing is promised of the reading.
pub assume_specification[ SystemTime::now ]() -> (now: SystemTime)
;

/// `SystemTime::duration_since`, from the Unix epoch: the time between the two, or an error where
/// the reading lies before the epoch. Nothing is promised of the span: a reading is opaque.
#[verifier::external_body]
fn since_epoch(time: &SystemTime) -> (result: Result<Duration, SystemTimeError>) {
    time.duration_since(SystemTime::UNIX_EPOCH)
}

/// `Duration::as_secs` counts the whole seconds of a span. Nothing is promised of the count: a
/// span is opaque.
pub assume_specification[ Duration::as_secs ](span: &Duration) -> (seconds: u64)
;

/// The seconds to report of a clock that has counted so many since the Unix epoch; of a clock
/// that stands before the epoch, none.
pub fn unix_seconds(elapsed: Option<u64>) -> (seconds: u64)
    ensures
        seconds == match elapsed {
            Some(counted) => counted,
            None => 0,
        },
{
    match elapsed {
        Some(counted) => counted,
        None => 0,
    }
}

/// The seconds are what a reading of the system clock gives: the clock was read, the time from the
/// Unix epoch to the reading was taken, and its whole seconds counted; of a reading that lies
/// before the epoch, 0.
pub closed spec fn read_from_clock(seconds: u64) -> bool {
    exists|reading: SystemTime, elapsed: Result<Duration, SystemTimeError>|
        {
            &&& #[trigger] call_ensures(SystemTime::now, (), reading)
            &&& #[trigger] call_ensures(since_epoch, (&reading,), elapsed)
            &&& match elapsed {
                Ok(span) => call_ensures(Duration::as_secs, (&span,), seconds),
                Err(_) => seconds == 0,
            }
        }
}

/// The seconds since the Unix epoch by the system clock, and 0 where the clock stands before it.
/// Which number that is cannot be said: it is what the clock says.
pub fn now_utc() -> (seconds: u64)
    ensures
        read_from_clock(seconds),
{
    let reading = SystemTime::now();
    let elapsed = since_epoch(&reading);
    let seconds: u64 = match elapsed {
        Ok(span) => unix_seconds(Some(span.as_secs())),
        Err(_) => unix_seconds(None),
    };
    proof {
        lemma_reading_counts_from_the_epoch(reading, elapsed, seconds);
    }
    seconds
}

/// What is read from the clock is the whole seconds of a span, as `Duration::as_secs` counts them,
/// and not a number made of them; but for the 0 of a clock that stands before the epoch.
pub proof fn clock_reading_is_a_count_of_seconds(seconds: u64)
    requires
        read_from_clock(seconds),
        seconds != 0,
    ensures
        exists|span: Duration| call_ensures(Duration::as_secs, (&span,), seconds),
{
}

/// What a reading of the clock gives is exactly the seconds from the epoch to it, or 0 where it lies
/// before.
proof fn lemma_reading_counts_from_the_epoch(
    reading: SystemTime,
    elapsed: Result<Duration, SystemTimeError>,
    seconds: u64,
)
    requires
        call_ensures(SystemTime::now, (), reading),
        call_ensures(since_epoch, (&reading,), elapsed),
        match elapsed {
            Ok(span) => call_ensures(Duration::as_secs, (&span,), seconds),
            Err(_) => seconds == 0,
        },
    ensures
        read_from_clock(seconds),
{
}

} // verus!
