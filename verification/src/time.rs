//! Points in time and spans of time, counted in nanoseconds.
use vstd::prelude::*;

verus! {

/// A point on the monotonic clock, in nanoseconds since its origin.
#[derive(Clone, Copy, Debug, PartialEq, Eq, Structural)]
pub struct Instant {
    pub nanos: u64,
}

/// A span of time in nanoseconds.
#[derive(Clone, Copy, Debug, PartialEq, Eq, Structural)]
pub struct Duration {
    pub nanos: u64,
}

impl Duration {
    /// A span of whole milliseconds.
    pub fn from_millis(millis: u32) -> (result: Duration)
        ensures
            result.nanos == millis * 1_000_000,
    {
        assert(millis * 1_000_000 <= u64::MAX) by (nonlinear_arith)
            requires
                0 <= millis <= u32::MAX,
        ;
        Duration { nanos: millis as u64 * 1_000_000 }
    }

    /// A span of whole seconds.
    pub fn from_secs(secs: u32) -> (result: Duration)
        ensures
            result.nanos == secs * 1_000_000_000,
    {
        assert(secs * 1_000_000_000 <= u64::MAX) by (nonlinear_arith)
            requires
                0 <= secs <= u32::MAX,
        ;
        Duration { nanos: secs as u64 * 1_000_000_000 }
    }
}

impl Instant {
    /// Whether the clock can represent the instant one `span` later.
    pub open spec fn can_add(self, span: Duration) -> bool {
        self.nanos + span.nanos <= u64::MAX
    }

    /// The instant one `span` after this one, or nothing past the end of the clock.
    pub fn checked_add(self, span: Duration) -> (result: Option<Instant>)
        ensures
            result is Some <==> self.can_add(span),
            result is Some ==> result->0.nanos == self.nanos + span.nanos,
    {
        match self.nanos.checked_add(span.nanos) {
            Some(nanos) => Some(Instant { nanos }),
            None => None,
        }
    }

    /// The instant so many nanoseconds after this one, or the end of the clock.
    pub open spec fn later(self, nanos: u64) -> Instant {
        Instant {
            nanos: if self.nanos + nanos <= u64::MAX {
                (self.nanos + nanos) as u64
            } else {
                u64::MAX
            },
        }
    }

    pub fn saturating_add(self, nanos: u64) -> (result: Instant)
        ensures
            result == self.later(nanos),
    {
        Instant { nanos: self.nanos.saturating_add(nanos) }
    }

    /// The span from `earlier` to this instant, zero when `earlier` is not earlier.
    pub fn saturating_duration_since(self, earlier: Instant) -> (result: Duration)
        ensures
            result.nanos == if self.nanos >= earlier.nanos {
                self.nanos - earlier.nanos
            } else {
                0
            },
    {
        Duration { nanos: self.nanos.saturating_sub(earlier.nanos) }
    }
}

/// A later instant is as much later as it is asked to be, up to the end of the clock, and never
/// earlier.
pub proof fn later_is_not_earlier(now: Instant, nanos: u64)
    ensures
        now.later(nanos).nanos >= now.nanos,
        now.nanos + nanos <= u64::MAX ==> now.later(nanos).nanos - now.nanos == nanos,
        now.nanos + nanos > u64::MAX ==> now.later(nanos).nanos == u64::MAX,
{
}

} // verus!
