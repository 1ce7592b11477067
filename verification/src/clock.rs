//! The wall clock.
use std::time::{SystemTime, SystemTimeError, UNIX_EPOCH};
use vstd::prelude::*;

verus! {

/// `std::time::SystemTime`, a reading of the system's clock.
#[verifier::external_type_specification]
#[verifier::external_body]
pub struct ExSystemTime(std::time::SystemTime);

/// `std::time::SystemTimeError`: a time lies before the one it is measured
/// from.
#[verifier::external_type_specification]
#[verifier::external_body]
pub struct ExSystemTimeError(std::time::SystemTimeError);

/// `SystemTime::now`: what the clock shows, of which nothing is promised.
pub assume_specification[ SystemTime::now ]() -> (r: SystemTime)
;

/// Calls `SystemTime::duration_since` with the Unix epoch: how far `time` lies
/// behind it, in whole seconds and the nanoseconds beyond them, and an error
/// where it lies before. Which of the two, and how far, rests on the clock;
/// stated is only that the nanoseconds make up less than a second.
#[verifier::external_body]
fn since_epoch(time: &SystemTime) -> (r: Result<(u64, u32), SystemTimeError>)
    ensures
        r matches Ok(span) ==> span.1 < 1_000_000_000,
{
    match time.duration_since(UNIX_EPOCH) {
        Ok(span) => Ok((span.as_secs(), span.subsec_nanos())),
        Err(err) => Err(err),
    }
}

/// The whole milliseconds of a span since the Unix epoch; 0 where the clock
/// stands before the epoch.
pub open spec fn epoch_millis(span: Result<(u64, u32), SystemTimeError>) -> int {
    match span {
        Ok((secs, nanos)) => secs * 1000 + nanos / 1_000_000,
        Err(_) => 0,
    }
}

/// The milliseconds are those that have fully passed: not more than the span
/// has, and less than one short of it. There are none before the epoch.
pub proof fn law_millis_have_passed(span: Result<(u64, u32), SystemTimeError>)
    ensures
        span matches Ok((secs, nanos)) ==> {
            let passed = secs * 1_000_000_000 + nanos;
            epoch_millis(span) * 1_000_000 <= passed < (epoch_millis(span) + 1) * 1_000_000
        },
        span is Err ==> epoch_millis(span) == 0,
{
}

/// The milliseconds of a span since the Unix epoch, in seconds and nanoseconds;
/// 0 where the clock stands before the epoch.
pub fn millis_since_epoch(span: Result<(u64, u32), SystemTimeError>) -> (r: u128)
    ensures
        r == match span {
            Ok((secs, nanos)) => secs * 1000 + nanos / 1_000_000,
            Err(_) => 0,
        },
        r == epoch_millis(span),
{
    match span {
        Ok((secs, nanos)) => secs as u128 * 1000 + (nanos / 1_000_000) as u128,
        Err(_) => 0,
    }
}

/// Milliseconds since the Unix epoch. A clock that stands before the epoch
/// counts as standing at it.
pub fn current_time_millis() -> (r: u128)
    ensures
        r <= u64::MAX * 1000 + 999,
{
    let now = SystemTime::now();
    millis_since_epoch(since_epoch(&now))
}

} // verus!
