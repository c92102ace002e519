//! Lengths of time.
use vstd::prelude::*;

verus! {

/// A length of time: whole seconds, and nanoseconds below one second.
#[derive(Clone, Copy, Debug, PartialEq, Eq, Structural)]
pub struct Duration {
    /// The whole seconds.
    pub seconds: u64,
    /// The nanoseconds beyond them.
    pub nanoseconds: u32,
}

/// How many nanoseconds a second has.
pub const NANOSECONDS_PER_SECOND: u32 = 1_000_000_000;

impl Duration {
    /// The nanoseconds stay below one second.
    pub open spec fn wf(self) -> bool {
        self.nanoseconds < NANOSECONDS_PER_SECOND
    }

    /// The length in nanoseconds.
    pub open spec fn length(self) -> int {
        self.seconds * NANOSECONDS_PER_SECOND + self.nanoseconds
    }

    /// A length of whole seconds.
    pub fn from_seconds(seconds: u64) -> (duration: Self)
        ensures
            duration == (Duration { seconds, nanoseconds: 0 }),
    {
        Duration { seconds, nanoseconds: 0 }
    }

    /// A length of milliseconds.
    pub fn from_milliseconds(milliseconds: u64) -> (duration: Self)
        ensures
            duration.wf(),
            duration.length() == milliseconds * 1_000_000,
    {
        Duration { seconds: milliseconds / 1000, nanoseconds: (milliseconds % 1000) as u32 * 1_000_000 }
    }

    /// Whether the length is zero.
    pub fn is_zero(&self) -> (zero: bool)
        ensures
            zero == (self.length() == 0),
    {
        self.seconds == 0 && self.nanoseconds == 0
    }

    /// Whether the length is below another.
    pub fn is_shorter(&self, other: &Duration) -> (shorter: bool)
        requires
            self.wf(),
            other.wf(),
        ensures
            shorter == (self.length() < other.length()),
    {
        self.seconds < other.seconds || (self.seconds == other.seconds && self.nanoseconds < other.nanoseconds)
    }

    /// The length in milliseconds, rounded down.
    pub fn as_millis(&self) -> (milliseconds: u128)
        requires
            self.wf(),
        ensures
            milliseconds == self.length() / 1_000_000,
    {
        self.seconds as u128 * 1000 + (self.nanoseconds / 1_000_000) as u128
    }
}

}
