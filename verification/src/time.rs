//! Time as the engine sees it: instants and spans that the host supplies.
//! Nothing here reads a clock.
use vstd::prelude::*;

verus! {

pub const NANOS_PER_MILLI: u64 = 1_000_000;

pub const NANOS_PER_SEC: u64 = 1_000_000_000;

/// A span of time in nanoseconds.
#[derive(Clone, Copy, Debug, PartialEq, Eq, Hash, Structural)]
pub struct Duration {
    pub nanos: u64,
}

/// An instant on the monotonic clock of the host, in nanoseconds since an
/// origin that the host chose.
#[derive(Clone, Copy, Debug, PartialEq, Eq, Hash, Structural)]
pub struct Timestamp {
    pub nanos: u64,
}

/// `a * b`, or the largest number of 64 bits where the product is beyond
/// it.
pub open spec fn saturating_product(a: int, b: int) -> int {
    if a * b > u64::MAX {
        u64::MAX as int
    } else {
        a * b
    }
}

fn scale(count: u64, unit: u64) -> (r: u64)
    requires
        unit > 0,
    ensures
        r == saturating_product(count as int, unit as int),
{
    if count > u64::MAX / unit {
        assert(count * unit > u64::MAX) by (nonlinear_arith)
            requires
                count > u64::MAX / unit,
                unit > 0,
        ;
        u64::MAX
    } else {
        assert(count * unit <= u64::MAX) by (nonlinear_arith)
            requires
                count <= u64::MAX / unit,
                unit > 0,
        ;
        count * unit
    }
}

impl Duration {
    pub fn from_nanos(nanos: u64) -> (r: Duration)
        ensures
            r.nanos == nanos,
    {
        Duration { nanos }
    }

    /// A span of `millis` milliseconds, or the longest span where that is
    /// beyond it.
    pub fn from_millis(millis: u64) -> (r: Duration)
        ensures
            r.nanos == saturating_product(millis as int, NANOS_PER_MILLI as int),
    {
        Duration { nanos: scale(millis, NANOS_PER_MILLI) }
    }

    /// A span of `secs` seconds, or the longest span where that is beyond
    /// it.
    pub fn from_secs(secs: u64) -> (r: Duration)
        ensures
            r.nanos == saturating_product(secs as int, NANOS_PER_SEC as int),
    {
        Duration { nanos: scale(secs, NANOS_PER_SEC) }
    }

    pub fn as_nanos(&self) -> (r: u64)
        ensures
            r == self.nanos,
    {
        self.nanos
    }

    pub fn is_zero(&self) -> (r: bool)
        ensures
            r == (self.nanos == 0),
    {
        self.nanos == 0
    }
}

impl Timestamp {
    /// The instant that lies `span` after this one, or the last instant
    /// that can be told where that one is beyond it.
    pub open spec fn spec_after(self, span: Duration) -> Timestamp {
        Timestamp {
            nanos: if self.nanos + span.nanos > u64::MAX {
                u64::MAX
            } else {
                (self.nanos + span.nanos) as u64
            },
        }
    }

    /// Whether this instant is `deadline` or later.
    pub open spec fn spec_has_reached(self, deadline: Timestamp) -> bool {
        self.nanos >= deadline.nanos
    }

    /// The later of two instants.
    pub open spec fn spec_latest(self, other: Timestamp) -> Timestamp {
        if self.nanos >= other.nanos {
            self
        } else {
            other
        }
    }

    pub fn from_nanos(nanos: u64) -> (r: Timestamp)
        ensures
            r.nanos == nanos,
    {
        Timestamp { nanos }
    }

    pub fn as_nanos(&self) -> (r: u64)
        ensures
            r == self.nanos,
    {
        self.nanos
    }

    #[verifier::when_used_as_spec(spec_after)]
    pub fn after(self, span: Duration) -> (r: Timestamp)
        ensures
            r == self.spec_after(span),
    {
        Timestamp { nanos: self.nanos.saturating_add(span.nanos) }
    }

    /// A deadline fires at an instant that has reached it.
    #[verifier::when_used_as_spec(spec_has_reached)]
    pub fn has_reached(self, deadline: Timestamp) -> (r: bool)
        ensures
            r == self.spec_has_reached(deadline),
    {
        self.nanos >= deadline.nanos
    }

    #[verifier::when_used_as_spec(spec_latest)]
    pub fn latest(self, other: Timestamp) -> (r: Timestamp)
        ensures
            r == self.spec_latest(other),
    {
        if self.nanos >= other.nanos {
            self
        } else {
            other
        }
    }
}

} // verus!
