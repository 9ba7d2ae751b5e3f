//! The wall clock, read as milliseconds since the Unix epoch.
use std::time::{Duration, SystemTime, SystemTimeError};
use vstd::prelude::*;

verus! {

#[verifier::external_type_specification]
#[verifier::external_body]
pub struct ExSystemTime(std::time::SystemTime);

#[verifier::external_type_specification]
#[verifier::external_body]
pub struct ExSystemTimeError(std::time::SystemTimeError);

/// Calls `SystemTime::now`. Nothing is promised of the instant it returns.
#[verifier::external_body]
fn system_time_now() -> SystemTime {
    SystemTime::now()
}

/// Calls `SystemTime::duration_since` with the Unix epoch. Nothing is
/// promised of the result: it depends on the clock.
#[verifier::external_body]
fn duration_since_unix_epoch(t: &SystemTime) -> Result<Duration, SystemTimeError> {
    t.duration_since(std::time::UNIX_EPOCH)
}

/// Calls `Duration::as_millis`. Nothing is promised of the count.
#[verifier::external_body]
fn duration_as_millis(d: &Duration) -> u128 {
    d.as_millis()
}

/// A timestamp from the milliseconds since the Unix epoch: their low 64
/// bits, or 0 where there are none because the clock stands before the
/// epoch.
pub fn timestamp_from_millis(millis: Option<u128>) -> (ts: u64)
    ensures
        ts == match millis {
            Some(m) => (m % 0x1_0000_0000_0000_0000) as u64,
            None => 0u64,
        },
{
    match millis {
        Some(m) => {
            assert(m as u64 == (m % 0x1_0000_0000_0000_0000) as u64) by (bit_vector);
            m as u64
        },
        None => 0,
    }
}

/// The current time in milliseconds since the Unix epoch, or 0 where the
/// clock stands before the epoch. The value depends on the clock alone.
pub fn create_timestamp() -> u64 {
    let now = system_time_now();
    let millis = match duration_since_unix_epoch(&now) {
        Ok(d) => Some(duration_as_millis(&d)),
        Err(_) => None,
    };
    timestamp_from_millis(millis)
}

} // verus!
