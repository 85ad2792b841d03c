//! Points in time.
use std::time::{Duration, Instant};
use vstd::prelude::*;

verus! {

/// `std::time::Instant`: a reading of a clock that never runs backwards.
#[verifier::external_type_specification]
#[verifier::external_body]
pub struct ExInstant(Instant);

/// Where an instant lies on the clock, in nanoseconds from some fixed point.
pub uninterp spec fn instant_nanos(instant: Instant) -> int;

/// How long a duration is, in nanoseconds.
pub uninterp spec fn duration_nanos(duration: Duration) -> nat;

/// `Instant::now` reads the clock. Which instant it gives is left open.
pub assume_specification[ Instant::now ]() -> Instant
;

/// `Instant::saturating_duration_since` gives the time from `earlier` to
/// `instant`, or zero if `earlier` is the later one.
pub assume_specification[ Instant::saturating_duration_since ](
    instant: &Instant,
    earlier: Instant,
) -> (passed: Duration)
    ensures
        duration_nanos(passed) == if instant_nanos(*instant) >= instant_nanos(earlier) {
            instant_nanos(*instant) - instant_nanos(earlier)
        } else {
            0
        },
;

/// `Duration::as_nanos` gives the length of a duration in nanoseconds.
pub assume_specification[ Duration::as_nanos ](duration: &Duration) -> (nanos: u128)
    ensures
        nanos == duration_nanos(*duration),
;

/// A number of milliseconds in nanoseconds.
pub open spec fn millis_to_nanos(millis: u64) -> int {
    millis * 1_000_000
}

/// Whether at least `millis` have passed from `since` to `now`; none have passed
/// if `since` is the later one.
pub open spec fn millis_passed(since: int, now: int, millis: u64) -> bool {
    now >= since + millis_to_nanos(millis) || millis == 0
}

/// Whether `now` is no later than `millis` after `since`.
pub fn within_millis(since: Instant, now: Instant, millis: u64) -> (r: bool)
    ensures
        r == (instant_nanos(now) <= instant_nanos(since) + millis_to_nanos(millis)),
{
    let passed: u128 = now.saturating_duration_since(since).as_nanos();
    passed <= millis as u128 * 1_000_000
}

/// Whether at least `millis` have passed from `since` to `now`.
pub fn has_passed(since: Instant, now: Instant, millis: u64) -> (r: bool)
    ensures
        r == millis_passed(instant_nanos(since), instant_nanos(now), millis),
{
    let passed: u128 = now.saturating_duration_since(since).as_nanos();
    passed >= millis as u128 * 1_000_000
}

/// How many of `millis` have not passed from `since` to `now`, a part of one counted
/// as a whole one; all of them if `since` is the later one.
pub open spec fn millis_left(since: int, now: int, millis: u64) -> u64 {
    let passed = if now >= since {
        (now - since) / 1_000_000
    } else {
        0
    };
    if passed >= millis {
        0
    } else {
        (millis - passed) as u64
    }
}

/// How many of `millis` have not passed from `since` to `now`.
pub fn millis_left_of(since: Instant, now: Instant, millis: u64) -> (left: u64)
    ensures
        left == millis_left(instant_nanos(since), instant_nanos(now), millis),
{
    let passed: u128 = now.saturating_duration_since(since).as_nanos() / 1_000_000;
    if passed >= millis as u128 {
        0
    } else {
        millis - passed as u64
    }
}

} // verus!
