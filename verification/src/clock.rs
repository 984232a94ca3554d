//! Moments in time, and how long ago they were.

use crate::model::Dup;
use std::time::{Duration, Instant};
use vstd::prelude::*;

verus! {

/// `std::time::Instant`.
#[verifier::external_type_specification]
#[verifier::external_body]
pub struct ExInstant(std::time::Instant);

/// Where an `Instant` stands on the monotonic clock, in nanoseconds from a fixed
/// origin.
pub uninterp spec fn nanos(at: std::time::Instant) -> int;

pub open spec fn nanos_per_second() -> int {
    1_000_000_000
}

/// The whole seconds from one reading of the clock to a later one; none where
/// the other is not later.
pub open spec fn seconds_since(now: int, at: int) -> int {
    if now >= at {
        (now - at) / nanos_per_second()
    } else {
        0
    }
}

/// There is an `Instant` at that place on the clock.
pub open spec fn representable(at: int) -> bool {
    exists|i: Instant| #[trigger] nanos(i) == at
}

/// The place on the clock that many seconds earlier.
pub open spec fn earlier(now: int, seconds: int) -> int {
    now - seconds * nanos_per_second()
}

/// `Instant::now`. Which moment it is, nothing says.
#[verifier::external_body]
pub(crate) fn clock_now() -> (now: Instant) {
    Instant::now()
}

/// The clock gave this moment when it was read: it is not just any moment.
pub closed spec fn is_reading(now: Instant) -> bool {
    call_ensures(clock_now, (), now)
}

fn given_by<F: Fn() -> Instant>(clock: F) -> (now: Instant)
    requires
        call_requires(clock, ()),
    ensures
        call_ensures(clock, (), now),
{
    clock()
}

/// The present moment, as the clock gives it.
pub(crate) fn read_clock() -> (now: Instant)
    ensures
        is_reading(now),
{
    given_by(clock_now)
}

/// `Instant::duration_since`: the time from the earlier instant to the later
/// one, zero where it is not later; here in whole seconds.
#[verifier::external_body]
pub(crate) fn seconds_between(now: Instant, at: Instant) -> (seconds: u64)
    ensures
        seconds == seconds_since(nanos(now), nanos(at)),
{
    now.duration_since(at).as_secs()
}

/// `Instant::checked_sub`: the instant that many seconds earlier, where it can be
/// represented as an `Instant`, and none otherwise. How far back the platform's
/// clock reaches, nothing says.
#[verifier::external_body]
pub(crate) fn seconds_before(now: Instant, seconds: u64) -> (at: Option<Instant>)
    ensures
        match at {
            Some(i) => nanos(i) == earlier(nanos(now), seconds as int),
            None => !representable(earlier(nanos(now), seconds as int)),
        },
{
    now.checked_sub(Duration::from_secs(seconds))
}

/// A moment as a value that a map can hold: known by its place on the clock.
#[derive(Clone, Copy, Debug)]
pub struct Stamp {
    pub at: Instant,
}

impl DeepView for Stamp {
    type V = int;

    open spec fn deep_view(&self) -> int {
        nanos(self.at)
    }
}

impl Dup for Stamp {
    fn dup(&self) -> (copy: Self) {
        *self
    }
}

} // verus!
