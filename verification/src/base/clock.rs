//! Clocks and durations: the calls into `std::time` that the library
//! makes, each behind a small trusted item.

use vstd::prelude::*;

verus! {

/// `std::time::Instant`: a point of the monotonic clock.
#[verifier::external_type_specification]
#[verifier::external_body]
pub struct ExInstant(std::time::Instant);

/// `std::time::SystemTime`: a point of the wall clock.
#[verifier::external_type_specification]
#[verifier::external_body]
pub struct ExSystemTime(std::time::SystemTime);

/// `std::time::SystemTimeError`: the wall clock is before the Unix epoch.
#[verifier::external_type_specification]
#[verifier::external_body]
pub struct ExSystemTimeError(std::time::SystemTimeError);

/// `<Duration as Clone>::clone`: `Duration` is `Copy`, so a clone is the
/// same duration.
pub assume_specification[ <std::time::Duration as Clone>::clone ](d: &std::time::Duration) -> (r:
    std::time::Duration)
    ensures
        r == *d,
;

/// The length of a `Duration` in nanoseconds, as `Duration::as_nanos`
/// returns it.
pub uninterp spec fn duration_nanos(d: std::time::Duration) -> nat;

/// Nanoseconds in a second.
pub open spec fn nanos_per_sec() -> nat {
    1_000_000_000
}

/// `Duration::from_secs`: a duration of `secs` whole seconds.
#[verifier::external_body]
pub(crate) fn duration_from_secs(secs: u64) -> (r: std::time::Duration)
    ensures
        duration_nanos(r) == secs * nanos_per_sec(),
{
    std::time::Duration::from_secs(secs)
}

/// `Duration::as_nanos`: the total number of nanoseconds.
#[verifier::external_body]
pub(crate) fn duration_as_nanos(d: &std::time::Duration) -> (r: u128)
    ensures
        r == duration_nanos(*d),
{
    d.as_nanos()
}

/// `Duration::as_secs`: the number of whole seconds.
#[verifier::external_body]
pub(crate) fn duration_as_secs(d: &std::time::Duration) -> (r: u64)
    ensures
        r == duration_nanos(*d) / nanos_per_sec(),
{
    d.as_secs()
}

/// `Instant::now`: the current point of the monotonic clock.  Nothing is
/// stated of the value: it depends on when the call is made.
#[verifier::external_body]
pub(crate) fn instant_now() -> std::time::Instant {
    std::time::Instant::now()
}

/// `Instant::elapsed`: the time since `i`.  Nothing is stated of the value:
/// it depends on when the call is made.
#[verifier::external_body]
pub(crate) fn instant_elapsed(i: &std::time::Instant) -> std::time::Duration {
    i.elapsed()
}

/// `SystemTime::now`: the current point of the wall clock.  Nothing is
/// stated of the value: it depends on when the call is made.
#[verifier::external_body]
pub(crate) fn system_time_now() -> std::time::SystemTime {
    std::time::SystemTime::now()
}

/// `SystemTime::duration_since(UNIX_EPOCH)`: the time since the Unix epoch,
/// or an error if `t` lies before it.  Nothing is stated of the value: it
/// depends on the machine's clock.
#[verifier::external_body]
pub(crate) fn since_unix_epoch(t: &std::time::SystemTime) -> Result<
    std::time::Duration,
    std::time::SystemTimeError,
> {
    t.duration_since(std::time::UNIX_EPOCH)
}

/// Nanoseconds of the monotonic clock since `origin`.
pub fn nanos_since(origin: &std::time::Instant) -> u128 {
    let d = instant_elapsed(origin);
    duration_as_nanos(&d)
}

/// Whole seconds of the wall clock since the Unix epoch, or 0 when the
/// clock lies before it.
pub fn unix_secs_now() -> u64 {
    let t = system_time_now();
    match since_unix_epoch(&t) {
        Ok(d) => duration_as_secs(&d),
        Err(_) => 0,
    }
}

/// Milliseconds of the wall clock since the Unix epoch (at most
/// `i64::MAX`), or 0 when the clock lies before it.  Nothing is stated of
/// the value: it depends on when the call is made.
pub fn unix_millis_now() -> i64 {
    let t = system_time_now();
    match since_unix_epoch(&t) {
        Ok(d) => {
            let millis = duration_as_nanos(&d) / 1_000_000;
            if millis > 9_223_372_036_854_775_807u128 {
                9_223_372_036_854_775_807i64
            } else {
                millis as i64
            }
        },
        Err(_) => 0,
    }
}

} // verus!
