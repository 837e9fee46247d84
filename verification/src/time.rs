//! Points in time and spans of time, in nanoseconds.

use vstd::prelude::*;

verus! {

/// A point in time on a monotonic clock, in nanoseconds since the clock began.
#[derive(Clone, Copy, Debug, PartialEq, Eq, PartialOrd, Ord, Hash, Structural)]
pub struct Instant {
    /// Nanoseconds since the clock began.
    pub nanos: u128,
}

/// A span of time.
#[derive(Clone, Copy, Debug, PartialEq, Eq, PartialOrd, Ord, Hash, Structural)]
pub struct Duration {
    /// Length in nanoseconds.
    pub nanos: u128,
}

/// Nanoseconds in a second.
pub const NANOS_PER_SEC: u128 = 1_000_000_000;

/// Nanoseconds in a millisecond.
pub const NANOS_PER_MILLI: u128 = 1_000_000;

/// Nanoseconds in a microsecond.
pub const NANOS_PER_MICRO: u128 = 1_000;

/// The nanoseconds from `a` to `b`; none where `b` is earlier.
pub open spec fn nanos_between(a: Instant, b: Instant) -> nat {
    if b.nanos >= a.nanos {
        (b.nanos - a.nanos) as nat
    } else {
        0
    }
}

impl Instant {
    /// The time that has passed since an earlier instant; zero if that instant is later than this
    /// one.
    pub fn since(&self, earlier: Instant) -> (r: Duration)
        ensures
            r.nanos == nanos_between(earlier, *self),
    {
        if self.nanos >= earlier.nanos {
            Duration { nanos: self.nanos - earlier.nanos }
        } else {
            Duration { nanos: 0 }
        }
    }
}

impl Duration {
    /// A span of so many seconds.
    pub fn from_secs(secs: u64) -> (r: Duration)
        ensures
            r.nanos == secs * NANOS_PER_SEC,
    {
        assert(secs * 1_000_000_000 <= u64::MAX * 1_000_000_000);
        Duration { nanos: secs as u128 * NANOS_PER_SEC }
    }

    /// A span of so many milliseconds.
    pub fn from_millis(millis: u64) -> (r: Duration)
        ensures
            r.nanos == millis * NANOS_PER_MILLI,
    {
        assert(millis * 1_000_000 <= u64::MAX * 1_000_000);
        Duration { nanos: millis as u128 * NANOS_PER_MILLI }
    }

    /// The whole seconds in the span.
    pub fn as_secs(&self) -> (r: u128)
        ensures
            r == self.nanos as int / 1_000_000_000,
    {
        self.nanos / NANOS_PER_SEC
    }

    /// The whole milliseconds in the span.
    pub fn as_millis(&self) -> (r: u128)
        ensures
            r == self.nanos as int / 1_000_000,
    {
        self.nanos / NANOS_PER_MILLI
    }

    /// The whole microseconds in the span.
    pub fn as_micros(&self) -> (r: u128)
        ensures
            r == self.nanos as int / 1_000,
    {
        self.nanos / NANOS_PER_MICRO
    }
}

} // verus!
