//! Lengths of time, counted in whole nanoseconds.

use vstd::prelude::*;

verus! {

pub const NANOS_PER_SEC: u128 = 1_000_000_000;

pub const NANOS_PER_MILLI: u128 = 1_000_000;

pub const NANOS_PER_MICRO: u128 = 1_000;

/// A length of time in whole nanoseconds.
///
/// Also the type of a reading of a monotonic clock, which is the time passed
/// since whatever origin that clock has.
#[derive(Debug, Clone, Copy, PartialEq, Eq, Structural)]
pub struct Duration {
    pub nanos: u128,
}

impl Duration {
    /// `secs` whole seconds.
    #[verifier::allow_in_spec]
    pub fn from_secs(secs: u64) -> (r: Duration)
        returns
            (Duration { nanos: (secs * NANOS_PER_SEC) as u128 }),
    {
        Duration { nanos: secs as u128 * NANOS_PER_SEC }
    }

    /// `millis` whole milliseconds.
    #[verifier::allow_in_spec]
    pub fn from_millis(millis: u64) -> (r: Duration)
        returns
            (Duration { nanos: (millis * NANOS_PER_MILLI) as u128 }),
    {
        Duration { nanos: millis as u128 * NANOS_PER_MILLI }
    }

    /// `micros` whole microseconds.
    #[verifier::allow_in_spec]
    pub fn from_micros(micros: u64) -> (r: Duration)
        returns
            (Duration { nanos: (micros * NANOS_PER_MICRO) as u128 }),
    {
        Duration { nanos: micros as u128 * NANOS_PER_MICRO }
    }

    /// The whole milliseconds in this length, a started one not counted.
    pub fn as_millis(&self) -> (r: u128)
        ensures
            r == self.nanos as int / NANOS_PER_MILLI as int,
    {
        self.nanos / NANOS_PER_MILLI
    }

    /// What is left of this length after `other`, and nothing where `other` is
    /// the longer one.
    #[verifier::allow_in_spec]
    pub fn saturating_sub(self, other: Duration) -> (r: Duration)
        returns
            (Duration {
                nanos: if self.nanos >= other.nanos {
                    (self.nanos - other.nanos) as u128
                } else {
                    0
                },
            }),
    {
        Duration { nanos: self.nanos.saturating_sub(other.nanos) }
    }

    /// Both lengths together, and the longest length there is where that is
    /// out of range.
    #[verifier::allow_in_spec]
    pub fn saturating_add(self, other: Duration) -> (r: Duration)
        returns
            (Duration {
                nanos: if self.nanos + other.nanos <= u128::MAX {
                    (self.nanos + other.nanos) as u128
                } else {
                    u128::MAX
                },
            }),
    {
        Duration { nanos: self.nanos.saturating_add(other.nanos) }
    }
}

/// A second is a thousand milliseconds, a million microseconds and a thousand
/// million nanoseconds.
pub proof fn law_units(n: u64)
    ensures
        Duration::from_secs(n).nanos == n * 1_000_000_000,
        Duration::from_millis(n).nanos == n * 1_000_000,
        Duration::from_micros(n).nanos == n * 1_000,
{
}

/// Adding and taking away undo each other where nothing is cut off, and what is
/// cut off is cut off at the ends of the range.
pub proof fn law_sums_and_differences(a: Duration, b: Duration)
    ensures
        a.nanos + b.nanos <= u128::MAX ==> a.saturating_add(b).saturating_sub(b) == a
            && a.saturating_add(b).nanos == a.nanos + b.nanos,
        a.nanos + b.nanos > u128::MAX ==> a.saturating_add(b).nanos == u128::MAX,
        b.nanos <= a.nanos ==> a.saturating_sub(b).saturating_add(b) == a,
        a.nanos <= b.nanos ==> a.saturating_sub(b).nanos == 0,
{
}

} // verus!
