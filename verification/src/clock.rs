//! Readings of the system clock.

use vstd::prelude::*;

use std::time::SystemTime;

verus! {

/// A point in time of the system clock (`std::time::SystemTime`).
#[verifier::external_type_specification]
#[verifier::external_body]
pub struct ExSystemTime(SystemTime);

/// Calls `SystemTime::now`; what it returns depends on the clock, so nothing
/// is claimed of it.
#[verifier::external_body]
pub(crate) fn system_now() -> (now: SystemTime) {
    SystemTime::now()
}

/// Returns `std::time::UNIX_EPOCH`, 1970-01-01 00:00:00 UTC.
#[verifier::external_body]
pub(crate) fn unix_epoch() -> (epoch: SystemTime) {
    std::time::UNIX_EPOCH
}

/// Calls `SystemTime::duration_since`: `Ok` with the time from `earlier` to
/// `later`, or `Err` with the time from `later` to `earlier` when `later` lies
/// before it. `SystemTime` values are opaque here, so nothing is claimed of
/// the result.
#[verifier::external_body]
pub(crate) fn elapsed_between(later: SystemTime, earlier: SystemTime) -> (elapsed: Result<
    core::time::Duration,
    core::time::Duration,
>) {
    later.duration_since(earlier).map_err(|error| error.duration())
}

/// Calls `core::time::Duration::as_millis`; `Duration` values are opaque
/// here, so nothing is claimed of the result.
#[verifier::external_body]
pub(crate) fn whole_millis(duration: core::time::Duration) -> (millis: u128) {
    duration.as_millis()
}

/// Calls `SystemTime::checked_add` on `UNIX_EPOCH` with `millis`
/// milliseconds converted to a `core::time::Duration`: `None` when the result
/// lies beyond what the platform's clock can represent. `SystemTime` values
/// are opaque here, so nothing more is claimed of the result.
#[verifier::external_body]
pub(crate) fn unix_epoch_plus_millis(millis: u64) -> (time: Option<SystemTime>) {
    std::time::UNIX_EPOCH.checked_add(core::time::Duration::from_millis(millis))
}

/// Calls `std::hint::spin_loop`, a hint to the processor inside a busy-wait loop.
#[verifier::external_body]
pub(crate) fn spin_hint() {
    std::hint::spin_loop();
}

/// Milliseconds of a clock reading relative to the Unix epoch: `Ok(m)` for
/// `m` milliseconds after it, `Err(m)` for `m` milliseconds before it.
pub fn unix_millis_of(reading: Result<u128, u128>) -> (millis: i64)
    ensures
        millis == match reading {
            Ok(after) => if after <= i64::MAX {
                after as int
            } else {
                i64::MAX as int
            },
            Err(before) => if before <= 0x8000_0000_0000_0000 {
                -(before as int)
            } else {
                i64::MIN as int
            },
        },
{
    match reading {
        Ok(after) => if after <= 0x7fff_ffff_ffff_ffff {
            after as i64
        } else {
            i64::MAX
        },
        Err(before) => if before < 0x8000_0000_0000_0000 {
            -(before as i64)
        } else if before == 0x8000_0000_0000_0000 {
            i64::MIN
        } else {
            i64::MIN
        },
    }
}

/// Reads the clock as milliseconds relative to the Unix epoch.
pub(crate) fn clock_reading() -> (reading: Result<u128, u128>) {
    match elapsed_between(system_now(), unix_epoch()) {
        Ok(after) => Ok(whole_millis(after)),
        Err(before) => Err(whole_millis(before)),
    }
}

} // verus!
