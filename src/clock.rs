//! Readings of the system clocks, used to stamp samples.
use std::time::{Instant, SystemTime, UNIX_EPOCH};
use vstd::prelude::*;

verus! {

#[verifier::external_type_specification]
#[verifier::external_body]
pub struct ExInstant(Instant);

/// Relies on `Instant::now`: a reading of the monotonic clock.
#[verifier::external_body]
pub(crate) fn monotonic_now() -> Instant {
    Instant::now()
}

/// Relies on `Instant::elapsed`: the monotonic time since `origin`, in
/// whole milliseconds.
#[verifier::external_body]
pub(crate) fn millis_since(origin: &Instant) -> u128 {
    origin.elapsed().as_millis()
}

/// Relies on `SystemTime::now`: the calendar time in whole milliseconds since
/// the Unix epoch, or `None` when the clock reads earlier than the epoch.
#[verifier::external_body]
pub(crate) fn wall_clock_millis() -> Option<u128> {
    SystemTime::now().duration_since(UNIX_EPOCH).ok().map(|d| d.as_millis())
}

/// `ms` as a `u64`, saturating at `u64::MAX`.
pub fn saturate_millis(ms: u128) -> (r: u64)
    ensures
        r == (if ms <= u64::MAX { ms } else { u64::MAX as u128 }),
{
    if ms > u64::MAX as u128 {
        u64::MAX
    } else {
        ms as u64
    }
}

} // verus!
