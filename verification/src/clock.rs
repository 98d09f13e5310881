//! Time. An instant is a number of nanoseconds on a clock; a duration is a number of them.
use vstd::prelude::*;

verus! {

/// A second, in nanoseconds.
pub const SECOND: u64 = 1_000_000_000;

/// A millisecond, in nanoseconds.
pub const MILLISECOND: u64 = 1_000_000;

#[verifier::external_type_specification]
#[verifier::external_body]
pub struct ExInstant(std::time::Instant);

/// `std::time::Instant::now`. Nothing is claimed of the instant that it gives.
#[verifier::external_body]
fn instant() -> std::time::Instant {
    std::time::Instant::now()
}

/// `std::time::Instant::elapsed`, in nanoseconds. Nothing is claimed of the result, which
/// depends on when the call is made.
#[verifier::external_body]
fn nanoseconds_since(start: &std::time::Instant) -> u64 {
    start.elapsed().as_nanos() as u64
}

/// A clock that counts nanoseconds from when it was started.
pub struct Clock {
    start: std::time::Instant,
}

impl Clock {
    /// Starts a clock.
    pub fn start() -> Clock {
        Clock { start: instant() }
    }

    /// What the clock shows now. Nothing is claimed of it.
    pub fn now(&self) -> u64 {
        nanoseconds_since(&self.start)
    }
}

/// How much time has passed from `start` to `now`. None has, if `now` comes first.
pub open spec fn passed(start: u64, now: u64) -> nat {
    if now >= start {
        (now - start) as nat
    } else {
        0
    }
}

/// How much time has passed from `start` to `now`. None has, if `now` comes first.
pub fn passed_since(start: u64, now: u64) -> (r: u64)
    ensures
        r == passed(start, now),
{
    if now >= start {
        now - start
    } else {
        0
    }
}

// ---------------------------------------------------------------------------------------------
// Laws

/// Time that passes adds up, and none has passed before its start.
pub proof fn law_time_adds_up(start: u64, a: u64, b: u64)
    requires
        start + a + b <= u64::MAX,
    ensures
        passed(start, (start + a) as u64) == a,
        passed(start, (start + a + b) as u64) == a + b,
        passed((start + a) as u64, start) == 0,
        SECOND == 1_000 * MILLISECOND,
        MILLISECOND == 1_000_000,
{
}

} // verus!
