//! The signals that ask the process to end.
use vstd::prelude::*;
use vstd::string::StringExecFns;
use crate::app::event::ProcessSignal;

verus! {

/// Which signals have come.
#[derive(Clone, Copy, Debug, PartialEq, Eq, Structural)]
pub struct ProcessSignalState {
    pub first: Option<ProcessSignal>,
    pub count: u32,
    pub wake_failed: bool,
}

impl Default for ProcessSignalState {
    fn default() -> (result: ProcessSignalState)
        ensures
            result == (ProcessSignalState { first: None, count: 0, wake_failed: false }),
    {
        ProcessSignalState { first: None, count: 0, wake_failed: false }
    }
}

impl ProcessSignalState {
    /// The state after one more signal. The first one stays the first.
    pub open spec fn after(self, signal: ProcessSignal, woke: bool) -> ProcessSignalState {
        ProcessSignalState {
            first: if self.first is None {
                Some(signal)
            } else {
                self.first
            },
            count: if self.count < u32::MAX {
                (self.count + 1) as u32
            } else {
                self.count
            },
            wake_failed: self.wake_failed || !woke,
        }
    }

    pub fn first_signal(&self) -> (result: Option<ProcessSignal>)
        ensures
            result == self.first,
    {
        self.first
    }

    pub fn received_count(&self) -> (result: u32)
        ensures
            result == self.count,
    {
        self.count
    }

    pub fn wake_failed(&self) -> (result: bool)
        ensures
            result == self.wake_failed,
    {
        self.wake_failed
    }

    /// Takes a signal. `woke` tells whether the application could be woken for it.
    pub fn publish(&mut self, signal: ProcessSignal, woke: bool)
        ensures
            *final(self) == old(self).after(signal, woke),
    {
        if self.first.is_none() {
            self.first = Some(signal);
        }
        self.count = self.count.saturating_add(1);
        if !woke {
            self.wake_failed = true;
        }
    }
}

/// Whatever signals follow, the first one is kept, and it alone decides how the process ends.
pub proof fn the_first_signal_is_kept(
    state: ProcessSignalState,
    signals: Seq<(ProcessSignal, bool)>,
)
    requires
        state.first is Some,
    ensures
        published(state, signals).first == state.first,
    decreases signals.len(),
{
    if signals.len() > 0 {
        the_first_signal_is_kept(state, signals.drop_last());
    }
}

/// The state after signals in order.
pub open spec fn published(
    state: ProcessSignalState,
    signals: Seq<(ProcessSignal, bool)>,
) -> ProcessSignalState
    decreases signals.len(),
{
    if signals.len() == 0 {
        state
    } else {
        published(state, signals.drop_last()).after(signals.last().0, signals.last().1)
    }
}

/// Why signals cannot be taken.
#[derive(Clone, Debug, PartialEq, Eq)]
pub enum SignalRelayError {
    Install(String),
    Spawn(String),
    Panicked,
}

impl SignalRelayError {
    pub open spec fn text(self) -> Seq<char> {
        match self {
            SignalRelayError::Install(error) => "cannot install process signal relay: "@ + error@,
            SignalRelayError::Spawn(error) => "cannot start process signal relay: "@ + error@,
            SignalRelayError::Panicked => "process signal relay thread panicked"@,
        }
    }

    /// What has caused the error.
    pub open spec fn causes(self) -> Seq<Seq<char>> {
        match self {
            SignalRelayError::Install(error) => seq![error@],
            SignalRelayError::Spawn(error) => seq![error@],
            SignalRelayError::Panicked => Seq::empty(),
        }
    }

    /// What the error says.
    pub fn message(&self) -> (result: String)
        ensures
            result@ == self.text(),
    {
        match self {
            SignalRelayError::Install(error) => {
                let mut out = String::from_str("cannot install process signal relay: ");
                out.append(error.as_str());
                out
            },
            SignalRelayError::Spawn(error) => {
                let mut out = String::from_str("cannot start process signal relay: ");
                out.append(error.as_str());
                out
            },
            SignalRelayError::Panicked => String::from_str("process signal relay thread panicked"),
        }
    }
}

/// Every signal is counted, the first one is told whatever comes after it, and a relay that could not
/// be woken once stays marked.
pub proof fn every_signal_is_counted(state: ProcessSignalState, signal: ProcessSignal, woke: bool)
    ensures
        state.count < u32::MAX ==> state.after(signal, woke).count == state.count + 1,
        state.first is None ==> state.after(signal, woke).first == Some(signal),
        state.first is Some ==> state.after(signal, woke).first == state.first,
        state.wake_failed ==> state.after(signal, woke).wake_failed,
        !woke ==> state.after(signal, woke).wake_failed,
        woke && !state.wake_failed ==> !state.after(signal, woke).wake_failed,
{
}

} // verus!
