//! A span of time as whole seconds plus nanoseconds, used for clip timing.

use vstd::prelude::*;

verus! {

pub const NANOS_PER_SEC: u32 = 1_000_000_000;

/// A span of time: whole seconds plus a sub-second part in nanoseconds.
#[derive(Clone, Copy, Debug, PartialEq, Eq, Structural)]
pub struct Duration {
    secs: u64,
    nanos: u32,
}

impl Duration {
    #[verifier::type_invariant]
    closed spec fn inv(self) -> bool {
        self.nanos < NANOS_PER_SEC
    }

    /// Whole seconds.
    pub closed spec fn spec_secs(self) -> u64 {
        self.secs
    }

    /// Sub-second nanoseconds, always below one billion.
    pub closed spec fn spec_subsec_nanos(self) -> u32 {
        self.nanos
    }

    /// The whole span in nanoseconds.
    pub open spec fn spec_total_nanos(self) -> int {
        self.spec_secs() * NANOS_PER_SEC + self.spec_subsec_nanos()
    }

    /// Creates a span from seconds and nanoseconds; nanoseconds of a billion
    /// or more carry into the seconds.
    pub fn new(secs: u64, nanos: u32) -> (duration: Self)
        requires
            secs + nanos / NANOS_PER_SEC <= u64::MAX,
        ensures
            duration.spec_secs() == secs + nanos / NANOS_PER_SEC,
            duration.spec_subsec_nanos() == nanos % NANOS_PER_SEC,
            duration.spec_subsec_nanos() < NANOS_PER_SEC,
    {
        Self { secs: secs + (nanos / NANOS_PER_SEC) as u64, nanos: nanos % NANOS_PER_SEC }
    }

    /// Creates a span of whole milliseconds.
    pub fn from_millis(millis: u64) -> (duration: Self)
        ensures
            duration.spec_secs() == millis / 1000,
            duration.spec_subsec_nanos() == (millis % 1000) * 1_000_000,
            duration.spec_total_nanos() == millis * 1_000_000,
    {
        Self { secs: millis / 1000, nanos: ((millis % 1000) as u32) * 1_000_000 }
    }

    /// Whole seconds.
    pub fn as_secs(&self) -> (secs: u64)
        ensures
            secs == self.spec_secs(),
    {
        self.secs
    }

    /// Sub-second nanoseconds.
    pub fn subsec_nanos(&self) -> (nanos: u32)
        ensures
            nanos == self.spec_subsec_nanos(),
            nanos < NANOS_PER_SEC,
    {
        proof {
            use_type_invariant(self);
        }
        self.nanos
    }
}

} // verus!
