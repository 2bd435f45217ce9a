//! Points in time and spans between them, in whole nanoseconds.
//!
//! Nothing here reads a clock: a caller passes the current instant in.

use vstd::prelude::*;

verus! {

pub const NANOS_PER_MICRO: u64 = 1_000;

pub const NANOS_PER_MILLI: u64 = 1_000_000;

pub const NANOS_PER_SEC: u64 = 1_000_000_000;

/// A span of time.
#[derive(Clone, Copy, Debug, PartialEq, Eq, Structural)]
pub struct Duration {
    pub nanos: u64,
}

impl Duration {
    #[verifier::allow_in_spec]
    pub fn from_micros(micros: u64) -> Duration
        requires
            micros * NANOS_PER_MICRO <= u64::MAX,
        returns
            (Duration { nanos: (micros * NANOS_PER_MICRO) as u64 }),
    {
        Duration { nanos: micros * NANOS_PER_MICRO }
    }

    #[verifier::allow_in_spec]
    pub fn from_millis(millis: u64) -> Duration
        requires
            millis * NANOS_PER_MILLI <= u64::MAX,
        returns
            (Duration { nanos: (millis * NANOS_PER_MILLI) as u64 }),
    {
        Duration { nanos: millis * NANOS_PER_MILLI }
    }

    #[verifier::allow_in_spec]
    pub fn from_secs(secs: u64) -> Duration
        requires
            secs * NANOS_PER_SEC <= u64::MAX,
        returns
            (Duration { nanos: (secs * NANOS_PER_SEC) as u64 }),
    {
        Duration { nanos: secs * NANOS_PER_SEC }
    }

    /// Whole milliseconds, rounded down.
    #[verifier::allow_in_spec]
    pub fn as_millis(self) -> u64
        returns
            (self.nanos / NANOS_PER_MILLI),
    {
        self.nanos / NANOS_PER_MILLI
    }

    /// This span `n` times over.
    pub fn times(self, n: u32) -> (span: Duration)
        requires
            self.nanos * n <= u64::MAX,
        ensures
            span.nanos == self.nanos * n,
    {
        Duration { nanos: self.nanos * (n as u64) }
    }
}

/// A point in time, counted from an origin the caller chose.
#[derive(Clone, Copy, Debug, PartialEq, Eq, Structural)]
pub struct Instant {
    pub nanos: u64,
}

impl Instant {
    /// The instant `span` later.
    #[verifier::allow_in_spec]
    pub fn plus(self, span: Duration) -> Instant
        requires
            self.nanos + span.nanos <= u64::MAX,
        returns
            (Instant { nanos: (self.nanos + span.nanos) as u64 }),
    {
        Instant { nanos: self.nanos + span.nanos }
    }

    /// The time since `earlier`, or nothing when the clock went backwards.
    #[verifier::allow_in_spec]
    pub fn saturating_duration_since(self, earlier: Instant) -> Duration
        returns
            (if self.nanos >= earlier.nanos {
                Duration { nanos: (self.nanos - earlier.nanos) as u64 }
            } else {
                Duration { nanos: 0 }
            }),
    {
        if self.nanos >= earlier.nanos {
            Duration { nanos: self.nanos - earlier.nanos }
        } else {
            Duration { nanos: 0 }
        }
    }

    /// Whether this instant is at or after `other`.
    #[verifier::allow_in_spec]
    pub fn reached(self, other: Instant) -> bool
        returns
            (self.nanos >= other.nanos),
    {
        self.nanos >= other.nanos
    }
}

} // verus!
