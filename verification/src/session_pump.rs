//! How much of the sessions' output one round of a window takes.
use vstd::prelude::*;
use crate::time::Duration;

verus! {

pub const WINDOW_EVENT_BUDGET: usize = 64;

pub const WINDOW_BYTE_BUDGET: usize = 1_048_576;

/// How long one round may take, in nanoseconds.
pub const WINDOW_TIME_BUDGET: u64 = 2_000_000;

/// What a round asks for.
#[derive(Clone, Debug, PartialEq, Eq)]
pub struct SessionPumpEffect {
    pub needs_frame: bool,
    pub title_changed: bool,
    pub bell: bool,
    pub completed: Vec<crate::tab::SessionId>,
}

pub struct SessionPump;

impl SessionPump {
    /// The most events, bytes and time that one round may take.
    pub fn limits() -> (result: (usize, usize, Duration))
        ensures
            result.0 == WINDOW_EVENT_BUDGET,
            result.1 == WINDOW_BYTE_BUDGET,
            result.2.nanos == WINDOW_TIME_BUDGET,
    {
        (WINDOW_EVENT_BUDGET, WINDOW_BYTE_BUDGET, Duration { nanos: WINDOW_TIME_BUDGET })
    }
}

} // verus!
