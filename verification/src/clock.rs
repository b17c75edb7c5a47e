//! The wall clock.
use vstd::prelude::*;

verus! {

/// A point in time of the standard library, opaque here.
#[verifier::external_type_specification]
#[verifier::external_body]
pub struct ExSystemTime(std::time::SystemTime);

/// The error of a time before another, opaque here.
#[verifier::external_type_specification]
#[verifier::external_body]
pub struct ExSystemTimeError(std::time::SystemTimeError);

/// Calls `SystemTime::now`. Nothing is claimed of the time.
#[verifier::external_body]
fn system_time() -> std::time::SystemTime {
    std::time::SystemTime::now()
}

/// Calls `SystemTime::duration_since` for the Unix epoch, and gives the duration as its
/// number of nanoseconds. Nothing is claimed of the result.
#[verifier::external_body]
fn nanos_since_epoch(time: &std::time::SystemTime) -> Result<u128, std::time::SystemTimeError> {
    Ok(time.duration_since(std::time::UNIX_EPOCH)?.as_nanos())
}

/// The whole milliseconds in the nanoseconds since the Unix epoch, zero for a clock that
/// stands before it. Of a number that does not fit, the lower 64 bits.
pub open spec fn millis_of(nanos: Option<u128>) -> u64 {
    match nanos {
        Some(n) => (n / 1_000_000) as u64,
        None => 0,
    }
}

/// The whole seconds in the nanoseconds since the Unix epoch, zero for a clock that stands
/// before it. Of a number that does not fit, the lower 64 bits.
pub open spec fn secs_of(nanos: Option<u128>) -> i64 {
    match nanos {
        Some(n) => (n / 1_000_000_000) as i64,
        None => 0,
    }
}

/// The date in milliseconds, given what the clock shows.
pub fn millis_at(nanos: Option<u128>) -> (millis: u64)
    ensures
        millis == millis_of(nanos),
{
    match nanos {
        Some(n) => (n / 1_000_000) as u64,
        None => 0,
    }
}

/// The date in seconds, given what the clock shows.
pub fn secs_at(nanos: Option<u128>) -> (secs: i64)
    ensures
        secs == secs_of(nanos),
{
    match nanos {
        Some(n) => (n / 1_000_000_000) as i64,
        None => 0,
    }
}

/// What the clock shows: nanoseconds since the Unix epoch, unless it stands before it.
fn read_clock() -> Option<u128> {
    match nanos_since_epoch(&system_time()) {
        Ok(nanos) => Some(nanos),
        Err(_) => None,
    }
}

/// Milliseconds since the Unix epoch, zero if the clock stands before it: `millis_at` of
/// what the clock shows. Nothing holds of every reading of a clock.
pub fn unix_millis() -> u64 {
    millis_at(read_clock())
}

/// Seconds since the Unix epoch, zero if the clock stands before it: `secs_at` of what the
/// clock shows. Nothing holds of every reading of a clock.
pub fn unix_secs() -> i64 {
    secs_at(read_clock())
}

/// A date is the whole milliseconds, or seconds, of what the clock shows; of a clock before
/// the epoch it is zero.
pub proof fn law_dates(nanos: u128)
    ensures
        millis_of(None) == 0,
        secs_of(None) == 0,
        nanos / 1_000_000 <= u64::MAX ==> millis_of(Some(nanos)) == nanos / 1_000_000,
        nanos / 1_000_000_000 <= i64::MAX ==> secs_of(Some(nanos)) == nanos / 1_000_000_000,
{
}

} // verus!
