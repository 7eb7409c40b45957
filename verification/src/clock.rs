//! The wall clock, read through `std::time`.

use std::time::Duration;
use std::time::SystemTime;
use std::time::SystemTimeError;
use std::time::UNIX_EPOCH;
use vstd::prelude::*;

verus! {

/// `std::time::SystemTime`, carried through as an opaque value.
#[verifier::external_type_specification]
#[verifier::external_body]
pub struct ExSystemTime(std::time::SystemTime);

/// `std::time::SystemTimeError`, carried through as an opaque value.
#[verifier::external_type_specification]
#[verifier::external_body]
pub struct ExSystemTimeError(std::time::SystemTimeError);

/// Calls `SystemTime::now`. Trusted; nothing is claimed of the time returned.
#[verifier::external_body]
fn now() -> (time: SystemTime) {
    SystemTime::now()
}

/// Calls `SystemTime::duration_since` with `UNIX_EPOCH` as the earlier time.
/// Trusted; nothing is claimed of the result.
#[verifier::external_body]
fn since_epoch(time: &SystemTime) -> (elapsed: Result<Duration, SystemTimeError>) {
    time.duration_since(UNIX_EPOCH)
}

/// Calls `Duration::as_secs`. Trusted; nothing is claimed of the number
/// returned.
#[verifier::external_body]
fn whole_seconds(elapsed: &Duration) -> (seconds: u64) {
    elapsed.as_secs()
}

/// Reads the system clock as whole seconds since the Unix epoch. There is no
/// reading when the clock stands before the epoch.
///
/// Nothing is promised of the reading: it is whatever the clock gives, and
/// any number or none may come back. `Block::from_reading` says what is made
/// of each value of it.
pub(crate) fn unix_seconds() -> (reading: Option<u64>) {
    let time: SystemTime = now();
    match since_epoch(&time) {
        Ok(elapsed) => Some(whole_seconds(&elapsed)),
        Err(_) => None,
    }
}

} // verus!
