//! How the application takes its events.
use vstd::prelude::*;
use crate::app::event::{AppEvent, BulkEvent, ControlEvent, PtyEvent};

verus! {

/// Whether a child has both exited and closed its output.
#[derive(Clone, Copy, Debug, PartialEq, Eq, Structural)]
pub struct PtyCompletion {
    pub exited: bool,
    pub read_closed: bool,
}

impl Default for PtyCompletion {
    fn default() -> (result: PtyCompletion)
        ensures
            result == (PtyCompletion { exited: false, read_closed: false }),
    {
        PtyCompletion { exited: false, read_closed: false }
    }
}

impl PtyCompletion {
    pub open spec fn after_control(self, event: ControlEvent) -> PtyCompletion {
        PtyCompletion { exited: self.exited || event is PtyExited, ..self }
    }

    pub open spec fn after_bulk(self, event: BulkEvent) -> PtyCompletion {
        PtyCompletion { read_closed: self.read_closed || event is PtyReadClosed, ..self }
    }

    pub fn observe_control(&mut self, event: &ControlEvent)
        ensures
            *final(self) == old(self).after_control(*event),
    {
        if matches!(event, ControlEvent::PtyExited(_)) {
            self.exited = true;
        }
    }

    pub fn observe_bulk(&mut self, event: &BulkEvent)
        ensures
            *final(self) == old(self).after_bulk(*event),
    {
        if matches!(event, BulkEvent::PtyReadClosed) {
            self.read_closed = true;
        }
    }

    /// No further output can come.
    pub fn final_output_complete(self) -> (result: bool)
        ensures
            result == (self.exited && self.read_closed),
    {
        self.exited && self.read_closed
    }
}

/// The order in which the exit and the end of the output are observed does not matter.
pub proof fn completion_does_not_depend_on_order(
    state: PtyCompletion,
    control: ControlEvent,
    bulk: BulkEvent,
)
    ensures
        state.after_control(control).after_bulk(bulk) == state.after_bulk(bulk).after_control(
            control,
        ),
{
}

#[derive(Clone, Copy, Debug, PartialEq, Eq, Structural)]
pub enum RuntimeBuildError {
    InvalidCapacity,
    InvalidBudget,
}

impl RuntimeBuildError {
    pub open spec fn text(self) -> Seq<char> {
        match self {
            RuntimeBuildError::InvalidCapacity => "inbox capacity must be in 1..=65536"@,
            RuntimeBuildError::InvalidBudget => "inbox processing budgets must be nonzero"@,
        }
    }

    /// What the error says.
    pub fn message(&self) -> (result: &'static str)
        ensures
            result@ == self.text(),
    {
        match self {
            RuntimeBuildError::InvalidCapacity => "inbox capacity must be in 1..=65536",
            RuntimeBuildError::InvalidBudget => "inbox processing budgets must be nonzero",
        }
    }
}

/// Why an urgent event was not sent. It gives the event back.
#[derive(Clone, Debug, PartialEq, Eq)]
pub enum ControlSendError {
    Cancelled(ControlEvent),
    Disconnected(ControlEvent),
}

impl ControlSendError {
    /// What the error says.
    pub fn message(&self) -> (result: &'static str)
        ensures
            result@ == match *self {
                ControlSendError::Cancelled(_) => "control send was cancelled"@,
                ControlSendError::Disconnected(_) => "control inbox is disconnected"@,
            },
    {
        match self {
            ControlSendError::Cancelled(_) => "control send was cancelled",
            ControlSendError::Disconnected(_) => "control inbox is disconnected",
        }
    }
}

/// Why output was not sent. It gives the event back.
#[derive(Clone, Debug, PartialEq, Eq)]
pub enum BulkSendError {
    Cancelled(BulkEvent),
    Disconnected(BulkEvent),
}

impl BulkSendError {
    /// What the error says.
    pub fn message(&self) -> (result: &'static str)
        ensures
            result@ == match *self {
                BulkSendError::Cancelled(_) => "bulk send was cancelled"@,
                BulkSendError::Disconnected(_) => "bulk inbox is disconnected"@,
            },
    {
        match self {
            BulkSendError::Cancelled(_) => "bulk send was cancelled",
            BulkSendError::Disconnected(_) => "bulk inbox is disconnected",
        }
    }
}

/// How much the inbox holds, and how much of it one round takes.
#[derive(Clone, Copy, Debug, PartialEq, Eq, Structural)]
pub struct InboxPolicy {
    pub control_capacity: usize,
    pub bulk_capacity: usize,
    pub control_budget: usize,
    pub bulk_event_budget: usize,
    pub bulk_byte_budget: usize,
}

impl Default for InboxPolicy {
    fn default() -> (result: InboxPolicy)
        ensures
            result == (InboxPolicy {
                control_capacity: 64,
                bulk_capacity: 32,
                control_budget: 8,
                bulk_event_budget: 4,
                bulk_byte_budget: 262_144,
            }),
    {
        InboxPolicy {
            control_capacity: 64,
            bulk_capacity: 32,
            control_budget: 8,
            bulk_event_budget: 4,
            bulk_byte_budget: 262_144,
        }
    }
}

impl InboxPolicy {
    pub const MAX_CAPACITY: usize = 65_536;

    /// Refuses capacities that are zero or too large, then budgets that are zero.
    pub fn validate(self) -> (result: Result<InboxPolicy, RuntimeBuildError>)
        ensures
            result == (if !(1 <= self.control_capacity <= InboxPolicy::MAX_CAPACITY) || !(1
                <= self.bulk_capacity <= InboxPolicy::MAX_CAPACITY) {
                Err(RuntimeBuildError::InvalidCapacity)
            } else if self.control_budget == 0 || self.bulk_event_budget == 0
                || self.bulk_byte_budget == 0 {
                Err(RuntimeBuildError::InvalidBudget)
            } else {
                Ok(self)
            }),
    {
        if self.control_capacity == 0 || self.bulk_capacity == 0 || self.control_capacity
            > Self::MAX_CAPACITY || self.bulk_capacity > Self::MAX_CAPACITY {
            return Err(RuntimeBuildError::InvalidCapacity);
        }
        if self.control_budget == 0 || self.bulk_event_budget == 0 || self.bulk_byte_budget == 0 {
            return Err(RuntimeBuildError::InvalidBudget);
        }
        Ok(self)
    }
}

/// The event of the application that a control event is.
pub open spec fn app_of_control(event: ControlEvent) -> AppEvent {
    match event {
        ControlEvent::Shutdown(reason) => AppEvent::ShutdownRequested(reason),
        ControlEvent::PtyExited(exit) => AppEvent::Pty(PtyEvent::Exited(exit)),
        ControlEvent::PtyFailed(failure) => AppEvent::Pty(PtyEvent::Failed(failure)),
        ControlEvent::PtyWritable => AppEvent::Pty(PtyEvent::Writable),
    }
}

fn control_to_app(event: ControlEvent) -> (result: AppEvent)
    ensures
        result == app_of_control(event),
{
    match event {
        ControlEvent::Shutdown(reason) => AppEvent::ShutdownRequested(reason),
        ControlEvent::PtyExited(exit) => AppEvent::Pty(PtyEvent::Exited(exit)),
        ControlEvent::PtyFailed(failure) => AppEvent::Pty(PtyEvent::Failed(failure)),
        ControlEvent::PtyWritable => AppEvent::Pty(PtyEvent::Writable),
    }
}

/// The event of the application that a bulk event is.
pub open spec fn app_of_bulk(event: BulkEvent) -> AppEvent {
    match event {
        BulkEvent::PtyOutput(batch) => AppEvent::Pty(PtyEvent::Output(batch)),
        BulkEvent::PtyReadClosed => AppEvent::Pty(PtyEvent::ReadClosed),
    }
}

fn bulk_to_app(event: BulkEvent) -> (result: AppEvent)
    ensures
        result == app_of_bulk(event),
{
    match event {
        BulkEvent::PtyOutput(batch) => AppEvent::Pty(PtyEvent::Output(batch)),
        BulkEvent::PtyReadClosed => AppEvent::Pty(PtyEvent::ReadClosed),
    }
}

/// The number of bytes that a bulk event carries.
pub open spec fn bulk_len(event: BulkEvent) -> nat {
    match event {
        BulkEvent::PtyOutput(batch) => batch@.len(),
        BulkEvent::PtyReadClosed => 0,
    }
}

/// The number of bytes that an event of the application carries.
pub open spec fn event_bytes(event: AppEvent) -> nat {
    match event {
        AppEvent::Pty(PtyEvent::Output(batch)) => batch@.len(),
        _ => 0,
    }
}

/// The number of bytes that events of the application carry together.
pub open spec fn total_bytes(events: Seq<AppEvent>) -> nat
    decreases events.len(),
{
    if events.len() == 0 {
        0
    } else {
        total_bytes(events.drop_last()) + event_bytes(events.last())
    }
}

/// A count, or the largest that there is.
pub open spec fn counted(n: nat) -> usize {
    if n <= usize::MAX {
        n as usize
    } else {
        usize::MAX
    }
}

#[derive(Clone, Copy, Debug, PartialEq, Eq, Structural)]
pub struct DrainResult {
    pub control: usize,
    pub bulk: usize,
    pub bulk_bytes: usize,
    pub control_disconnected: bool,
    pub bulk_disconnected: bool,
}

impl DrainResult {
    pub open spec fn none() -> DrainResult {
        DrainResult {
            control: 0,
            bulk: 0,
            bulk_bytes: 0,
            control_disconnected: false,
            bulk_disconnected: false,
        }
    }
}

impl Default for DrainResult {
    fn default() -> (result: DrainResult)
        ensures
            result == DrainResult::none(),
    {
        DrainResult {
            control: 0,
            bulk: 0,
            bulk_bytes: 0,
            control_disconnected: false,
            bulk_disconnected: false,
        }
    }
}

/// What a channel gives when it is asked without waiting.
#[derive(Clone, Debug)]
pub enum Received<T> {
    Event(T),
    Empty,
    Disconnected,
}

/// The receiving end of a channel of `crossbeam_channel`.
#[verifier::external_type_specification]
#[verifier::external_body]
#[verifier::reject_recursive_types(T)]
pub struct ExReceiver<T>(crossbeam_channel::Receiver<T>);

/// `crossbeam_channel::Receiver::try_recv`: takes the next event if there is one. What it gives
/// depends on what other threads have sent, so nothing is stated of it.
#[verifier::external_body]
pub(crate) fn try_receive<T>(receiver: &crossbeam_channel::Receiver<T>) -> (result: Received<T>) {
    match receiver.try_recv() {
        Ok(event) => Received::Event(event),
        Err(crossbeam_channel::TryRecvError::Empty) => Received::Empty,
        Err(crossbeam_channel::TryRecvError::Disconnected) => Received::Disconnected,
    }
}

/// `crossbeam_channel::Receiver::is_empty`: whether nothing waits. It depends on what other threads
/// have sent, so nothing is stated of it.
#[verifier::external_body]
pub(crate) fn nothing_waits<T>(receiver: &crossbeam_channel::Receiver<T>) -> (result: bool) {
    receiver.is_empty()
}

/// One round of taking events: what has been taken, and the count of it.
#[derive(Debug)]
pub struct DrainRound {
    pub events: Vec<AppEvent>,
    pub result: DrainResult,
}

impl DrainRound {
    /// A round in which nothing has been taken.
    pub fn start() -> (round: DrainRound)
        ensures
            round.events@.len() == 0,
            round.result == DrainResult::none(),
    {
        DrainRound { events: Vec::new(), result: DrainResult::default() }
    }

    /// Takes what the control channel gave. Tells whether it may be asked once more in this round.
    pub fn take_control(&mut self, policy: &InboxPolicy, received: Received<ControlEvent>) -> (more:
        bool)
        requires
            old(self).result.control < policy.control_budget,
        ensures
            match received {
                Received::Event(event) => {
                    &&& final(self).events@ == old(self).events@.push(app_of_control(event))
                    &&& final(self).result == (DrainResult {
                        control: (old(self).result.control + 1) as usize,
                        ..old(self).result
                    })
                    &&& more == (old(self).result.control + 1 < policy.control_budget)
                },
                Received::Empty => *final(self) == *old(self) && !more,
                Received::Disconnected => {
                    &&& final(self).events == old(self).events
                    &&& final(self).result == (DrainResult {
                        control_disconnected: true,
                        ..old(self).result
                    })
                    &&& !more
                },
            },
    {
        match received {
            Received::Event(event) => {
                self.result.control = self.result.control + 1;
                self.events.push(control_to_app(event));
                self.result.control < policy.control_budget
            },
            Received::Empty => false,
            Received::Disconnected => {
                self.result.control_disconnected = true;
                false
            },
        }
    }

    /// Takes what the bulk channel gave. Tells whether it may be asked once more in this round:
    /// neither the events nor the bytes of the budget are used up.
    pub fn take_bulk(&mut self, policy: &InboxPolicy, received: Received<BulkEvent>) -> (more: bool)
        requires
            old(self).result.bulk < policy.bulk_event_budget,
        ensures
            match received {
                Received::Event(event) => {
                    let bytes = counted(old(self).result.bulk_bytes as nat + bulk_len(event));
                    &&& final(self).events@ == old(self).events@.push(app_of_bulk(event))
                    &&& final(self).result == (DrainResult {
                        bulk: (old(self).result.bulk + 1) as usize,
                        bulk_bytes: bytes,
                        ..old(self).result
                    })
                    &&& more == (bytes < policy.bulk_byte_budget && old(self).result.bulk + 1
                        < policy.bulk_event_budget)
                },
                Received::Empty => *final(self) == *old(self) && !more,
                Received::Disconnected => {
                    &&& final(self).events == old(self).events
                    &&& final(self).result == (DrainResult {
                        bulk_disconnected: true,
                        ..old(self).result
                    })
                    &&& !more
                },
            },
    {
        match received {
            Received::Event(event) => {
                let bytes: usize = match &event {
                    BulkEvent::PtyOutput(batch) => batch.len(),
                    BulkEvent::PtyReadClosed => 0,
                };
                self.result.bulk = self.result.bulk + 1;
                self.result.bulk_bytes = self.result.bulk_bytes.saturating_add(bytes);
                self.events.push(bulk_to_app(event));
                self.result.bulk_bytes < policy.bulk_byte_budget && self.result.bulk
                    < policy.bulk_event_budget
            },
            Received::Empty => false,
            Received::Disconnected => {
                self.result.bulk_disconnected = true;
                false
            },
        }
    }
}

/// Whether an event of the application is one that a control event is.
pub open spec fn from_control(event: AppEvent) -> bool {
    exists|control: ControlEvent| event == #[trigger] app_of_control(control)
}

/// Whether an event of the application is one that a bulk event is.
pub open spec fn from_bulk(event: AppEvent) -> bool {
    exists|bulk: BulkEvent| event == #[trigger] app_of_bulk(bulk)
}

/// Takes one round of events: those of the control channel first, then those of the bulk channel,
/// each within its budget. The bytes that it counts are those of the events that it took, and what
/// came before the last of them did not use up the budget of bytes. What the channels give depends
/// on what other threads have sent.
pub fn drain_round(
    policy: &InboxPolicy,
    control: &crossbeam_channel::Receiver<ControlEvent>,
    bulk: &crossbeam_channel::Receiver<BulkEvent>,
) -> (round: DrainRound)
    ensures
        round.result.control <= policy.control_budget,
        round.result.bulk <= policy.bulk_event_budget,
        round.result.control_disconnected ==> round.result.control < policy.control_budget,
        round.result.bulk_disconnected ==> round.result.bulk < policy.bulk_event_budget,
        round.result.bulk_bytes == counted(total_bytes(round.events@)),
        round.result.bulk > 1 || round.result.bulk == 1 && policy.bulk_byte_budget > 0
            ==> total_bytes(round.events@.drop_last()) < policy.bulk_byte_budget,
        round.events@.len() == round.result.control + round.result.bulk,
        forall|i: int|
            0 <= i < round.result.control ==> from_control(#[trigger] round.events@[i]),
        forall|i: int|
            round.result.control <= i < round.events@.len() ==> from_bulk(
                #[trigger] round.events@[i],
            ),
{
    let mut round = DrainRound::start();
    let mut more = policy.control_budget > 0;
    while more
        invariant
            more ==> round.result.control < policy.control_budget,
            round.result.control <= policy.control_budget,
            round.result.bulk == 0,
            round.result.bulk_bytes == 0,
            !round.result.bulk_disconnected,
            more ==> !round.result.control_disconnected,
            round.result.control_disconnected ==> round.result.control < policy.control_budget,
            total_bytes(round.events@) == 0,
            round.events@.len() == round.result.control,
            forall|i: int|
                0 <= i < round.result.control ==> from_control(#[trigger] round.events@[i]),
        decreases policy.control_budget - round.result.control,
            if more {
                1int
            } else {
                0
            },
    {
        let received = try_receive(control);
        let ghost before = round.events@;
        more = round.take_control(policy, received);
        assert(round.events@.len() > before.len() ==> round.events@.drop_last() =~= before);
    }
    more = policy.bulk_event_budget > 0;
    while more
        invariant
            more ==> round.result.bulk < policy.bulk_event_budget
                && !round.result.bulk_disconnected,
            more && round.result.bulk > 0 ==> round.result.bulk_bytes < policy.bulk_byte_budget,
            round.result.bulk == 0 ==> round.result.bulk_bytes == 0,
            round.result.control <= policy.control_budget,
            round.result.bulk <= policy.bulk_event_budget,
            round.result.control_disconnected ==> round.result.control < policy.control_budget,
            round.result.bulk_disconnected ==> round.result.bulk < policy.bulk_event_budget,
            round.result.bulk_bytes == counted(total_bytes(round.events@)),
            round.result.bulk > 1 || round.result.bulk == 1 && policy.bulk_byte_budget > 0
                ==> total_bytes(round.events@.drop_last()) < policy.bulk_byte_budget,
            round.events@.len() == round.result.control + round.result.bulk,
            forall|i: int|
                0 <= i < round.result.control ==> from_control(#[trigger] round.events@[i]),
            forall|i: int|
                round.result.control <= i < round.events@.len() ==> from_bulk(
                    #[trigger] round.events@[i],
                ),
        decreases policy.bulk_event_budget - round.result.bulk,
            if more {
                1int
            } else {
                0
            },
    {
        let received = try_receive(bulk);
        let ghost before = round.events@;
        more = round.take_bulk(policy, received);
        assert(round.events@.len() > before.len() ==> round.events@.drop_last() =~= before);
    }
    round
}

/// Whether the application has been woken for events that it has not taken yet.
#[derive(Clone, Copy, Debug, PartialEq, Eq, Structural)]
pub struct WakeState {
    pub pending: bool,
}

impl WakeState {
    /// Events were sent. Tells whether the application has to be woken for them.
    pub fn notify(&mut self) -> (result: bool)
        ensures
            final(self).pending,
            result == !old(self).pending,
    {
        let wake = !self.pending;
        self.pending = true;
        wake
    }

    /// The application is about to wait. Tells whether it may: it may not while there are events,
    /// which count as if it had been woken for them.
    pub fn prepare_to_wait(&mut self, inbox_empty: bool) -> (result: bool)
        ensures
            result == inbox_empty,
            final(self).pending == !inbox_empty,
    {
        self.pending = !inbox_empty;
        inbox_empty
    }
}

/// How often the application is woken for so many sends in a row.
pub open spec fn wakes(state: WakeState, sends: nat) -> nat
    decreases sends,
{
    if sends == 0 {
        0
    } else {
        wakes(WakeState { pending: true }, (sends - 1) as nat) + if state.pending {
            0nat
        } else {
            1
        }
    }
}

/// However many events are sent before the application takes any, it is woken once at most, and
/// once at least where it waits.
pub proof fn wakes_are_coalesced(state: WakeState, sends: nat)
    ensures
        wakes(state, sends) <= 1,
        sends > 0 && !state.pending ==> wakes(state, sends) == 1,
        state.pending ==> wakes(state, sends) == 0,
    decreases sends,
{
    if sends > 0 {
        wakes_are_coalesced(WakeState { pending: true }, (sends - 1) as nat);
    }
}

/// Events of the child reach the application as what they are: its exit, its failure, its output, the
/// end of its output, and that it can be written to. What is to end the application keeps its reason.
pub proof fn events_reach_the_application_as_they_are(
    control: ControlEvent,
    bulk: BulkEvent,
)
    ensures
        control is Shutdown ==> app_of_control(control) == AppEvent::ShutdownRequested(
            control->Shutdown_0,
        ),
        control is PtyExited ==> app_of_control(control) == AppEvent::Pty(
            PtyEvent::Exited(control->PtyExited_0),
        ),
        control is PtyFailed ==> app_of_control(control) == AppEvent::Pty(
            PtyEvent::Failed(control->PtyFailed_0),
        ),
        control is PtyWritable ==> app_of_control(control) == AppEvent::Pty(PtyEvent::Writable),
        bulk is PtyOutput ==> app_of_bulk(bulk) == AppEvent::Pty(
            PtyEvent::Output(bulk->PtyOutput_0),
        ) && event_bytes(app_of_bulk(bulk)) == bulk->PtyOutput_0@.len(),
        bulk is PtyReadClosed ==> app_of_bulk(bulk) == AppEvent::Pty(PtyEvent::ReadClosed)
            && event_bytes(app_of_bulk(bulk)) == 0,
{
}

} // verus!
