use std::time::{Duration, SystemTime, SystemTimeError};
use vstd::prelude::*;

verus! {

/// `std::time::SystemTime`, carried through as an opaque value.
#[verifier::external_type_specification]
#[verifier::external_body]
pub struct ExSystemTime(std::time::SystemTime);

/// `std::time::SystemTimeError`, carried through as an opaque value.
#[verifier::external_type_specification]
#[verifier::external_body]
pub struct ExSystemTimeError(std::time::SystemTimeError);

/// Calls `std::time::SystemTime::now`. The reading depends on the machine's
/// clock, so nothing is promised of it.
#[verifier::external_body]
fn system_time_now() -> SystemTime {
    SystemTime::now()
}

/// Calls `SystemTime::duration_since` with `UNIX_EPOCH` as the earlier
/// time. The standard library returns `Err` when `t` lies before the epoch;
/// which outcome comes back rests on the clock, so nothing is promised.
#[verifier::external_body]
fn since_unix_epoch(t: &SystemTime) -> Result<Duration, SystemTimeError> {
    t.duration_since(std::time::UNIX_EPOCH)
}

/// The largest number of nanoseconds a `Duration` holds: `Duration::MAX`
/// is documented as `u64::MAX` seconds and 999,999,999 nanoseconds.
pub const MAX_DURATION_NANOS: u128 = 18_446_744_073_709_551_615_999_999_999;

/// Calls `Duration::as_nanos`, the total number of nanoseconds the duration
/// holds. A `Duration` is opaque here, so only the bound that every
/// duration meets (at most `Duration::MAX`) is stated of the count.
#[verifier::external_body]
fn duration_as_nanos(d: &Duration) -> (n: u128)
    ensures
        n <= MAX_DURATION_NANOS,
{
    d.as_nanos()
}

/// Nanoseconds elapsed since the Unix epoch on this machine's clock, or
/// `None` when the clock reads earlier than the epoch.
///
/// Which of the two comes back, and the reading, rest on the clock; a
/// reading is at most the longest duration std can hold.
pub fn try_get_current_nanos() -> (n: Option<u128>)
    ensures
        n matches Some(t) ==> t <= MAX_DURATION_NANOS,
{
    let now = system_time_now();
    match since_unix_epoch(&now) {
        Ok(elapsed) => Some(duration_as_nanos(&elapsed)),
        Err(_) => None,
    }
}

/// Nanoseconds elapsed since the Unix epoch on this machine's clock.
///
/// The reading rests on the clock; whatever it is, it is at most the
/// longest duration std can hold. A clock that reads earlier than the
/// epoch is reported as the epoch itself, 0; callers that must tell that
/// case apart use [`try_get_current_nanos`].
pub fn get_current_nanos() -> (n: u128)
    ensures
        n <= MAX_DURATION_NANOS,
{
    match try_get_current_nanos() {
        Some(t) => t,
        None => 0,
    }
}

} // verus!
