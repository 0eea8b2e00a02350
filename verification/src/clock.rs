//! The two clocks the benchmark reads: the system clock, for the report's
//! timestamp, and the monotonic clock, for timing batches. Every reading
//! depends on the time at which it is taken, so nothing is promised of its
//! value; the logic that uses a reading is verified for every value.
use std::time::Duration;
use std::time::Instant;
use std::time::SystemTime;

use vstd::prelude::*;

use crate::calendar::format_utc_timestamp;
use crate::calendar::is_timestamp_of;

verus! {

#[verifier::external_type_specification]
#[verifier::external_body]
pub struct ExSystemTime(SystemTime);

#[verifier::external_type_specification]
#[verifier::external_body]
pub struct ExInstant(Instant);

/// `SystemTime::now`: the system clock's current reading, whatever it is.
pub assume_specification[ SystemTime::now ]() -> SystemTime;

/// `Instant::now`: the monotonic clock's current reading, whatever it is.
pub assume_specification[ Instant::now ]() -> Instant;

/// `Instant::elapsed`: the time since `instant` was read, whatever it is.
pub assume_specification[ Instant::elapsed ](instant: &Instant) -> Duration;

/// `Duration::as_secs`: the whole seconds of a duration; nothing is stated of
/// the value, since a duration's contents are not modelled.
pub assume_specification[ Duration::as_secs ](duration: &Duration) -> u64;

/// `Duration::as_nanos`: the whole nanoseconds of a duration; nothing is
/// stated of the value, since a duration's contents are not modelled.
pub assume_specification[ Duration::as_nanos ](duration: &Duration) -> u128;

/// `SystemTime::duration_since(UNIX_EPOCH)`: `None` when the clock reads
/// before the Unix epoch (std's error), else the time since the epoch.
/// Nothing is stated of which case occurs: that depends on the clock.
#[verifier::external_body]
fn duration_since_unix_epoch(now: SystemTime) -> Option<Duration> {
    match now.duration_since(std::time::UNIX_EPOCH) {
        Ok(duration) => Some(duration),
        Err(_) => None,
    }
}

/// Why the system clock could not be turned into a timestamp.
#[derive(Debug, Clone, Copy, PartialEq, Eq)]
pub enum TimestampError {
    /// The clock reads before 1970-01-01 00:00:00 UTC.
    BeforeUnixEpoch,
    /// The clock reads more than `i64::MAX` seconds after the epoch.
    OutOfRange,
}

/// The UTC timestamp `YYYY-MM-DD hh:mm:ss UTC` of the instant `total_seconds`
/// after 1970-01-01 00:00:00 UTC; `OutOfRange` beyond `i64::MAX` seconds,
/// where the calendar arithmetic stops.
pub fn timestamp_from_seconds(total_seconds: u64) -> (result: Result<String, TimestampError>)
    ensures
        (total_seconds > i64::MAX) <==> result == Err::<String, TimestampError>(TimestampError::OutOfRange),
        result matches Ok(text) ==> is_timestamp_of(text@, total_seconds as nat),
        result is Err ==> result == Err::<String, TimestampError>(TimestampError::OutOfRange),
{
    if total_seconds > i64::MAX as u64 {
        return Err(TimestampError::OutOfRange);
    }
    Ok(format_utc_timestamp(total_seconds))
}

/// The current UTC time as `YYYY-MM-DD hh:mm:ss UTC`. The clock reading
/// decides which result comes back: `BeforeUnixEpoch` when it reads before
/// the epoch, else what `timestamp_from_seconds` gives for its whole seconds
/// since the epoch. Every text returned is the timestamp of some whole
/// second between the epoch and `i64::MAX` seconds after it.
pub fn utc_timestamp() -> (result: Result<String, TimestampError>)
    ensures
        result matches Ok(text) ==> exists|seconds: nat|
            seconds <= i64::MAX && #[trigger] is_timestamp_of(text@, seconds),
{
    let now = SystemTime::now();
    let duration = match duration_since_unix_epoch(now) {
        Some(duration) => duration,
        None => return Err(TimestampError::BeforeUnixEpoch),
    };
    let total_seconds = duration.as_secs();
    let result = timestamp_from_seconds(total_seconds);
    assert(result is Ok ==> total_seconds <= i64::MAX);
    result
}

/// Reads the monotonic clock.
pub fn start_timer() -> Instant {
    Instant::now()
}

/// Nanoseconds since `started` was read; the value depends on the clock.
pub fn elapsed_nanos(started: &Instant) -> u128 {
    started.elapsed().as_nanos()
}

} // verus!
