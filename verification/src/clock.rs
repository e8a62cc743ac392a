//! Points in time, as nanoseconds on a monotonic clock that the caller reads. The
//! clock's zero is any moment; earlier ones are negative.
use vstd::prelude::*;

verus! {

/// Nanoseconds in a second.
pub const NANOS_PER_SEC: u64 = 1_000_000_000;

/// A reading of the monotonic clock.
#[derive(Debug, Clone, Copy, PartialEq, Eq, Structural)]
pub struct Moment {
    pub nanos: i64,
}

impl Moment {
    /// Nanoseconds from this moment to `now`; zero when `now` is earlier.
    pub open spec fn elapsed_spec(self, now: Moment) -> int {
        if now.nanos >= self.nanos {
            now.nanos - self.nanos
        } else {
            0
        }
    }

    /// Nanoseconds from this moment to `now`; zero when `now` is earlier.
    pub fn elapsed(&self, now: Moment) -> (r: u64)
        ensures
            r == self.elapsed_spec(now),
    {
        if now.nanos >= self.nanos {
            (now.nanos as i128 - self.nanos as i128) as u64
        } else {
            0
        }
    }

    /// Whole seconds from this moment to `now`.
    pub open spec fn elapsed_secs_spec(self, now: Moment) -> int {
        self.elapsed_spec(now) / (NANOS_PER_SEC as int)
    }

    /// Whole seconds from this moment to `now`.
    pub fn elapsed_secs(&self, now: Moment) -> (r: u64)
        ensures
            r == self.elapsed_secs_spec(now),
    {
        self.elapsed(now) / NANOS_PER_SEC
    }
}

} // verus!
