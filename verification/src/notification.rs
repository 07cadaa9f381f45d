//! Desktop notifications for bells: how many there may be, and which are out of date.
use vstd::prelude::*;
use vstd::string::StringExecFns;
use std::collections::{HashMap, VecDeque};
use crate::config::BellConfig;
use crate::tab::{BellGeneration, SessionId};
use crate::text::{dec, push_dec};
use crate::time::Instant;

verus! {

broadcast use vstd::std_specs::hash::group_hash_axioms;

/// How long a notification counts towards the burst limit, in nanoseconds.
pub const NOTIFICATION_WINDOW: u64 = 60_000_000_000;

/// How long the service is left alone after it failed, in nanoseconds.
pub const NOTIFICATION_BACKOFF: u64 = 60_000_000_000;

/// Lets only so many notifications through.
#[derive(Debug)]
pub struct NotificationRateLimiter {
    last_by_session: HashMap<u64, Instant>,
    global_window: VecDeque<Instant>,
}

/// The state of a limiter.
pub struct LimiterModel {
    pub last: Map<u64, Instant>,
    pub window: Seq<Instant>,
}

/// The window without what has grown too old at its start.
pub open spec fn pruned(window: Seq<Instant>, now: Instant) -> Seq<Instant>
    decreases window.len(),
{
    if window.len() > 0 && now.nanos - window[0].nanos >= NOTIFICATION_WINDOW {
        pruned(window.skip(1), now)
    } else {
        window
    }
}

/// The time from one instant to another, nothing if it lies ahead.
pub open spec fn since(at: Instant, now: Instant) -> int {
    if now.nanos >= at.nanos {
        now.nanos - at.nanos
    } else {
        0
    }
}

impl LimiterModel {
    /// Whether a tab had a notification so lately that it gets no other.
    pub open spec fn cooling(self, session: SessionId, now: Instant, config: BellConfig) -> bool {
        self.last.contains_key(session.value) && since(self.last[session.value], now)
            < config.notification_cooldown.nanos
    }

    pub open spec fn allows(self, session: SessionId, now: Instant, config: BellConfig) -> bool {
        !self.cooling(session, now, config) && pruned(self.window, now).len()
            < config.notification_burst_per_minute
    }

    /// The limiter after it was asked for a tab: what has left the window is dropped, unless the tab
    /// had a notification lately.
    pub open spec fn asked(self, session: SessionId, now: Instant, config: BellConfig) -> LimiterModel {
        if self.cooling(session, now, config) {
            self
        } else {
            LimiterModel { window: pruned(self.window, now), ..self }
        }
    }

    pub open spec fn recorded(self, session: SessionId, now: Instant) -> LimiterModel {
        LimiterModel {
            last: self.last.insert(session.value, now),
            window: self.window.push(now),
        }
    }
}

impl View for NotificationRateLimiter {
    type V = LimiterModel;

    closed spec fn view(&self) -> LimiterModel {
        LimiterModel { last: self.last_by_session@, window: self.global_window@ }
    }
}

impl NotificationRateLimiter {
    pub fn new() -> (result: NotificationRateLimiter)
        ensures
            result@.last == Map::<u64, Instant>::empty(),
            result@.window == Seq::<Instant>::empty(),
    {
        let result = NotificationRateLimiter {
            last_by_session: HashMap::new(),
            global_window: VecDeque::new(),
        };
        assert(result@.window =~= Seq::empty());
        result
    }

    /// Whether a tab may have a notification at `now`: it had none lately, and there were not too
    /// many in all.
    pub fn allows(&mut self, session_id: SessionId, now: Instant, config: &BellConfig) -> (result:
        bool)
        ensures
            result == old(self)@.allows(session_id, now, *config),
            final(self)@ == old(self)@.asked(session_id, now, *config),
    {
        match self.last_by_session.get(&session_id.value) {
            Some(last) => {
                if now.saturating_duration_since(*last).nanos < config.notification_cooldown.nanos {
                    return false;
                }
            },
            None => {},
        }
        let ghost all = self.global_window@;
        while self.global_window.len() > 0 && now.saturating_duration_since(
            self.global_window[0],
        ).nanos >= NOTIFICATION_WINDOW
            invariant
                pruned(all, now) == pruned(self.global_window@, now),
                self.last_by_session@ == old(self).last_by_session@,
            decreases self.global_window@.len(),
        {
            let ghost before = self.global_window@;
            self.global_window.pop_front();
            assert(self.global_window@ =~= before.skip(1));
        }
        self.global_window.len() < config.notification_burst_per_minute as usize
    }

    /// A tab had a notification at `now`.
    pub fn record(&mut self, session_id: SessionId, now: Instant)
        ensures
            final(self)@ == old(self)@.recorded(session_id, now),
    {
        self.last_by_session.insert(session_id.value, now);
        self.global_window.push_back(now);
    }

    /// A tab is gone.
    pub fn forget(&mut self, session_id: SessionId)
        ensures
            final(self)@ == (LimiterModel {
                last: old(self)@.last.remove(session_id.value),
                ..old(self)@
            }),
    {
        self.last_by_session.remove(&session_id.value);
    }
}

/// A notification that is to be shown.
#[derive(Clone, Copy, Debug, PartialEq, Eq, Structural)]
pub struct ShowCommand {
    pub session_id: SessionId,
    pub generation: BellGeneration,
    pub sequence: u64,
    pub ordinal: u8,
}

/// A notification that is to be taken down. What was asked for before the barrier no longer
/// counts.
#[derive(Clone, Copy, Debug, PartialEq, Eq, Structural)]
pub enum ControlCommand {
    Acknowledge { session_id: SessionId, generation: BellGeneration, barrier: u64 },
    Forget { session_id: SessionId, barrier: u64 },
}

impl ControlCommand {
    pub open spec fn session(self) -> SessionId {
        match self {
            ControlCommand::Acknowledge { session_id, .. } => session_id,
            ControlCommand::Forget { session_id, .. } => session_id,
        }
    }

    pub open spec fn barrier(self) -> u64 {
        match self {
            ControlCommand::Acknowledge { barrier, .. } => barrier,
            ControlCommand::Forget { barrier, .. } => barrier,
        }
    }

    pub fn session_id(self) -> (result: SessionId)
        ensures
            result == self.session(),
    {
        match self {
            ControlCommand::Acknowledge { session_id, .. } => session_id,
            ControlCommand::Forget { session_id, .. } => session_id,
        }
    }
}

/// Commands of other tabs.
pub open spec fn of_others(commands: Seq<ControlCommand>, session: SessionId) -> Seq<ControlCommand>
    decreases commands.len(),
{
    if commands.len() == 0 {
        Seq::empty()
    } else if commands.last().session() == session {
        of_others(commands.drop_last(), session)
    } else {
        of_others(commands.drop_last(), session).push(commands.last())
    }
}

pub open spec fn concerns(commands: Seq<ControlCommand>, session: SessionId) -> bool {
    exists|i: int| 0 <= i < commands.len() && (#[trigger] commands[i]).session() == session
}

/// What the application asks of the service, in order, and what it could not ask yet.
#[derive(Debug)]
pub struct NotificationQueue {
    sequence: u64,
    limiter: NotificationRateLimiter,
    pending_controls: Vec<ControlCommand>,
}

/// The state of a queue.
pub struct QueueModel {
    pub sequence: u64,
    pub limiter: LimiterModel,
    pub pending: Seq<ControlCommand>,
}

impl View for NotificationQueue {
    type V = QueueModel;

    closed spec fn view(&self) -> QueueModel {
        QueueModel {
            sequence: self.sequence,
            limiter: self.limiter@,
            pending: self.pending_controls@,
        }
    }
}

impl NotificationQueue {
    pub fn new() -> (result: NotificationQueue)
        ensures
            result@.sequence == 0,
            result@.pending.len() == 0,
            result@.limiter.last == Map::<u64, Instant>::empty(),
            result@.limiter.window == Seq::<Instant>::empty(),
    {
        NotificationQueue {
            sequence: 0,
            limiter: NotificationRateLimiter::new(),
            pending_controls: Vec::new(),
        }
    }

    /// The command for a notification of a tab, if it may have one now: nothing that concerns the
    /// tab is still waiting, the limiter allows it, and there is a number left for it.
    pub fn show(
        &mut self,
        session_id: SessionId,
        generation: BellGeneration,
        ordinal: u8,
        now: Instant,
        config: &BellConfig,
    ) -> (result: Option<ShowCommand>)
        ensures
            ({
                let m = old(self)@;
                let n = final(self)@;
                let asked = m.limiter.asked(session_id, now, *config);
                if concerns(m.pending, session_id) {
                    result is None && n == m
                } else if !m.limiter.allows(session_id, now, *config) || m.sequence == u64::MAX {
                    result is None && n == (QueueModel { limiter: asked, ..m })
                } else {
                    &&& result == Some(
                        ShowCommand {
                            session_id,
                            generation,
                            sequence: (m.sequence + 1) as u64,
                            ordinal,
                        },
                    )
                    &&& n == (QueueModel {
                        sequence: (m.sequence + 1) as u64,
                        limiter: asked,
                        ..m
                    })
                }
            }),
    {
        let mut i: usize = 0;
        while i < self.pending_controls.len()
            invariant
                i <= self.pending_controls@.len(),
                *self == *old(self),
                forall|k: int|
                    0 <= k < i ==> (#[trigger] self.pending_controls@[k]).session() != session_id,
            decreases self.pending_controls@.len() - i,
        {
            if self.pending_controls[i].session_id() == session_id {
                assert(self.pending_controls@[i as int].session() == session_id);
                return None;
            }
            i += 1;
        }
        if !self.limiter.allows(session_id, now, config) {
            return None;
        }
        match self.next_sequence() {
            Some(sequence) => Some(ShowCommand { session_id, generation, sequence, ordinal }),
            None => None,
        }
    }

    /// A notification was handed to the service.
    pub fn shown(&mut self, session_id: SessionId, now: Instant)
        ensures
            final(self)@ == (QueueModel {
                limiter: old(self)@.limiter.recorded(session_id, now),
                ..old(self)@
            }),
    {
        self.limiter.record(session_id, now);
    }

    fn next_sequence(&mut self) -> (result: Option<u64>)
        ensures
            if old(self)@.sequence == u64::MAX {
                result is None && final(self)@ == old(self)@
            } else {
                &&& result == Some((old(self)@.sequence + 1) as u64)
                &&& final(self)@ == (QueueModel {
                    sequence: (old(self)@.sequence + 1) as u64,
                    ..old(self)@
                })
            },
    {
        match self.sequence.checked_add(1) {
            Some(sequence) => {
                self.sequence = sequence;
                Some(sequence)
            },
            None => None,
        }
    }

    /// The command that takes down a notification that was acknowledged.
    pub fn acknowledge(&mut self, session_id: SessionId, generation: BellGeneration) -> (result:
        Option<ControlCommand>)
        ensures
            if old(self)@.sequence == u64::MAX {
                result is None && final(self)@ == old(self)@
            } else {
                let barrier = (old(self)@.sequence + 1) as u64;
                &&& result == Some(ControlCommand::Acknowledge { session_id, generation, barrier })
                &&& final(self)@ == (QueueModel { sequence: barrier, ..old(self)@ })
            },
    {
        match self.next_sequence() {
            Some(barrier) => Some(ControlCommand::Acknowledge { session_id, generation, barrier }),
            None => None,
        }
    }

    /// The command that takes down the notification of a tab that is gone.
    pub fn forget(&mut self, session_id: SessionId) -> (result: Option<ControlCommand>)
        ensures
            ({
                let m = old(self)@;
                let limiter = LimiterModel {
                    last: m.limiter.last.remove(session_id.value),
                    ..m.limiter
                };
                if m.sequence == u64::MAX {
                    result is None && final(self)@ == (QueueModel { limiter, ..m })
                } else {
                    let barrier = (m.sequence + 1) as u64;
                    &&& result == Some(ControlCommand::Forget { session_id, barrier })
                    &&& final(self)@ == (QueueModel { sequence: barrier, limiter, ..m })
                }
            }),
    {
        self.limiter.forget(session_id);
        match self.next_sequence() {
            Some(barrier) => Some(ControlCommand::Forget { session_id, barrier }),
            None => None,
        }
    }

    /// A command could not be handed over. It waits, in place of an older one of its tab.
    pub fn control_refused(&mut self, command: ControlCommand)
        ensures
            final(self)@ == (QueueModel {
                pending: of_others(old(self)@.pending, command.session()).push(command),
                ..old(self)@
            }),
    {
        let session = command.session_id();
        let mut kept: Vec<ControlCommand> = Vec::new();
        let mut i: usize = 0;
        let ghost all = self.pending_controls@;
        assert(all.take(0) =~= Seq::empty());
        assert(kept@ =~= Seq::empty());
        while i < self.pending_controls.len()
            invariant
                i <= self.pending_controls@.len(),
                *self == *old(self),
                all == self.pending_controls@,
                session == command.session(),
                kept@ == of_others(all.take(i as int), session),
            decreases self.pending_controls@.len() - i,
        {
            assert(all.take(i + 1).drop_last() =~= all.take(i as int));
            if self.pending_controls[i].session_id() != session {
                kept.push(self.pending_controls[i]);
            }
            i += 1;
        }
        assert(all.take(i as int) =~= all);
        kept.push(command);
        self.pending_controls = kept;
    }

    /// The command that waits longest.
    pub fn next_control(&mut self) -> (result: Option<ControlCommand>)
        ensures
            if old(self)@.pending.len() == 0 {
                result is None && final(self)@ == old(self)@
            } else {
                &&& result == Some(old(self)@.pending[0])
                &&& final(self)@ == (QueueModel { pending: old(self)@.pending.skip(1), ..old(self)@ })
            },
    {
        if self.pending_controls.len() == 0 {
            return None;
        }
        let ghost before = self.pending_controls@;
        let command = self.pending_controls.remove(0);
        assert(self.pending_controls@ =~= before.skip(1));
        Some(command)
    }

    /// A command that had waited could still not be handed over. It stays the first.
    pub fn put_back(&mut self, command: ControlCommand)
        ensures
            final(self)@ == (QueueModel {
                pending: seq![command] + old(self)@.pending,
                ..old(self)@
            }),
    {
        let ghost before = self.pending_controls@;
        self.pending_controls.insert(0, command);
        assert(self.pending_controls@ =~= seq![command] + before);
    }

    /// The service is gone: nothing waits for it any more.
    pub fn drop_controls(&mut self)
        ensures
            final(self)@ == (QueueModel { pending: Seq::empty(), ..old(self)@ }),
    {
        self.pending_controls.clear();
        assert(self.pending_controls@ =~= Seq::empty());
    }
}

/// A notification that is shown.
#[derive(Clone, Copy, Debug, PartialEq, Eq, Structural)]
pub struct NotificationEntry {
    pub generation: BellGeneration,
    pub notification_id: u32,
}

/// What was asked for a tab before a barrier no longer counts.
#[derive(Clone, Copy, Debug, PartialEq, Eq, Structural)]
pub struct Barrier {
    pub session: SessionId,
    pub sequence: u64,
}

/// What the service shows, and what it was told in the meantime.
#[derive(Debug)]
pub struct NotificationBoard {
    entries: HashMap<u64, NotificationEntry>,
    barriers: Vec<Barrier>,
}

/// The state of a board.
pub struct BoardModel {
    pub entries: Map<u64, NotificationEntry>,
    pub barriers: Seq<Barrier>,
}

/// The barriers of other tabs.
pub open spec fn other_barriers(barriers: Seq<Barrier>, session: SessionId) -> Seq<Barrier>
    decreases barriers.len(),
{
    if barriers.len() == 0 {
        Seq::empty()
    } else if barriers.last().session == session {
        other_barriers(barriers.drop_last(), session)
    } else {
        other_barriers(barriers.drop_last(), session).push(barriers.last())
    }
}

/// The barriers at or after a number.
pub open spec fn later_barriers(barriers: Seq<Barrier>, sequence: u64) -> Seq<Barrier>
    decreases barriers.len(),
{
    if barriers.len() == 0 {
        Seq::empty()
    } else if barriers.last().sequence < sequence {
        later_barriers(barriers.drop_last(), sequence)
    } else {
        later_barriers(barriers.drop_last(), sequence).push(barriers.last())
    }
}

/// Whether a command with a number came before a barrier of its tab.
pub open spec fn is_stale(barriers: Seq<Barrier>, session: SessionId, sequence: u64) -> bool {
    exists|i: int|
        0 <= i < barriers.len() && (#[trigger] barriers[i]).session == session && sequence
            < barriers[i].sequence
}

impl View for NotificationBoard {
    type V = BoardModel;

    closed spec fn view(&self) -> BoardModel {
        BoardModel { entries: self.entries@, barriers: self.barriers@ }
    }
}

impl NotificationBoard {
    pub fn new() -> (result: NotificationBoard)
        ensures
            result@.entries == Map::<u64, NotificationEntry>::empty(),
            result@.barriers == Seq::<Barrier>::empty(),
    {
        let result = NotificationBoard { entries: HashMap::new(), barriers: Vec::new() };
        assert(result@.barriers =~= Seq::empty());
        result
    }

    /// Takes a command. Gives the notification that is to be taken down. While commands to show
    /// something are still waiting, those for this tab that came before no longer count.
    pub fn take_control(&mut self, command: ControlCommand, waiting: bool) -> (result: Option<u32>)
        ensures
            result == old(self)@.taken_down(command),
            final(self)@.entries == old(self)@.after_control(command),
            ({
                let m = old(self)@;
                let session = command.session();
                let known = m.entries.contains_key(session.value);
                let closes = known && match command {
                    ControlCommand::Acknowledge { generation, .. } =>
                        m.entries[session.value].generation == generation,
                    ControlCommand::Forget { .. } => true,
                };
                &&& result == (if closes {
                    Some(m.entries[session.value].notification_id)
                } else {
                    None
                })
                &&& final(self)@ == (BoardModel {
                    entries: if closes {
                        m.entries.remove(session.value)
                    } else {
                        m.entries
                    },
                    barriers: if waiting {
                        other_barriers(m.barriers, session).push(
                            Barrier { session, sequence: command.barrier() },
                        )
                    } else {
                        m.barriers
                    },
                })
            }),
    {
        let session = command.session_id();
        let sequence: u64 = match command {
            ControlCommand::Acknowledge { barrier, .. } => barrier,
            ControlCommand::Forget { barrier, .. } => barrier,
        };
        if waiting {
            let mut kept: Vec<Barrier> = Vec::new();
            let mut i: usize = 0;
            let ghost all = self.barriers@;
            assert(all.take(0) =~= Seq::empty());
            assert(kept@ =~= Seq::empty());
            while i < self.barriers.len()
                invariant
                    i <= self.barriers@.len(),
                    *self == *old(self),
                    all == self.barriers@,
                    kept@ == other_barriers(all.take(i as int), session),
                decreases self.barriers@.len() - i,
            {
                assert(all.take(i + 1).drop_last() =~= all.take(i as int));
                if self.barriers[i].session != session {
                    kept.push(self.barriers[i]);
                }
                i += 1;
            }
            assert(all.take(i as int) =~= all);
            kept.push(Barrier { session, sequence });
            self.barriers = kept;
        }
        let entry = match self.entries.get(&session.value) {
            Some(entry) => *entry,
            None => {
                return None;
            },
        };
        let closes = match command {
            ControlCommand::Acknowledge { generation, .. } => entry.generation == generation,
            ControlCommand::Forget { .. } => true,
        };
        if closes {
            self.entries.remove(&session.value);
            Some(entry.notification_id)
        } else {
            None
        }
    }

    /// Takes a command to show something. Tells whether it still counts, and if so, which
    /// notification it replaces, zero for none. Barriers that can matter no more are dropped.
    pub fn take_show(&mut self, command: ShowCommand, waiting: bool) -> (result: Option<u32>)
        ensures
            result == old(self)@.replaced(command),
            final(self)@.entries == old(self)@.entries,
            ({
                let m = old(self)@;
                let session = command.session_id;
                &&& result == (if is_stale(m.barriers, session, command.sequence) {
                    None
                } else if m.entries.contains_key(session.value) {
                    Some(m.entries[session.value].notification_id)
                } else {
                    Some(0)
                })
                &&& final(self)@ == (BoardModel {
                    barriers: if waiting {
                        later_barriers(m.barriers, command.sequence)
                    } else {
                        Seq::empty()
                    },
                    ..m
                })
            }),
    {
        let session = command.session_id;
        let mut kept: Vec<Barrier> = Vec::new();
        let mut stale = false;
        let mut i: usize = 0;
        let ghost all = self.barriers@;
        assert(all.take(0) =~= Seq::empty());
        assert(kept@ =~= Seq::empty());
        while i < self.barriers.len()
            invariant
                i <= self.barriers@.len(),
                *self == *old(self),
                all == self.barriers@,
                session == command.session_id,
                kept@ == later_barriers(all.take(i as int), command.sequence),
                stale == exists|k: int|
                    0 <= k < i && (#[trigger] all[k]).session == session && command.sequence
                        < all[k].sequence,
            decreases self.barriers@.len() - i,
        {
            assert(all.take(i + 1).drop_last() =~= all.take(i as int));
            let barrier = self.barriers[i];
            assert(all[i as int] == barrier);
            if barrier.sequence >= command.sequence {
                kept.push(barrier);
            }
            if barrier.session == session && command.sequence < barrier.sequence {
                stale = true;
            }
            i += 1;
        }
        assert(all.take(i as int) =~= all);
        if waiting {
            self.barriers = kept;
        } else {
            self.barriers.clear();
            assert(self.barriers@ =~= Seq::empty());
        }
        if stale {
            return None;
        }
        match self.entries.get(&session.value) {
            Some(entry) => Some(entry.notification_id),
            None => Some(0),
        }
    }

    /// The service shows a notification under a number. Zero is none.
    pub fn shown(&mut self, command: ShowCommand, notification_id: u32)
        ensures
            final(self)@ == old(self)@.after_show(command, notification_id),
            final(self)@ == (if notification_id == 0 {
                old(self)@
            } else {
                BoardModel {
                    entries: old(self)@.entries.insert(
                        command.session_id.value,
                        NotificationEntry { generation: command.generation, notification_id },
                    ),
                    ..old(self)@
                }
            }),
    {
        if notification_id != 0 {
            self.entries.insert(
                command.session_id.value,
                NotificationEntry { generation: command.generation, notification_id },
            );
        }
    }
}

/// A notification that was asked for before it was acknowledged is never shown afterwards, even
/// if its command comes last: while commands are waiting, the barrier stands until one past it
/// comes.
pub proof fn an_acknowledged_bell_is_never_shown(
    barriers: Seq<Barrier>,
    session: SessionId,
    barrier: u64,
    between: u64,
    sequence: u64,
)
    requires
        sequence < barrier,
        between <= barrier,
    ensures
        ({
            let told = other_barriers(barriers, session).push(
                Barrier { session, sequence: barrier },
            );
            &&& is_stale(told, session, sequence)
            &&& is_stale(later_barriers(told, between), session, sequence)
        }),
{
    let others = other_barriers(barriers, session);
    let told = others.push(Barrier { session, sequence: barrier });
    assert(told.drop_last() =~= others);
    assert(told[others.len() as int].session == session);
    let kept = later_barriers(told, between);
    assert(kept.last() == told.last());
    assert(kept[kept.len() - 1].session == session);
}

/// What a notification says.
pub fn notification_body(ordinal: u8) -> (result: String)
    ensures
        result@ == "Terminal bell (tab "@ + dec(ordinal as nat) + ")"@,
{
    let mut out = String::from_str("Terminal bell (tab ");
    push_dec(&mut out, ordinal as u64);
    out.append(")");
    out
}

/// Whether the service is left alone after it failed.
pub fn is_backing_off(failed_at: Option<Instant>, now: Instant) -> (result: bool)
    ensures
        result == (failed_at is Some && now.nanos - failed_at->0.nanos < NOTIFICATION_BACKOFF),
{
    match failed_at {
        Some(at) => now.saturating_duration_since(at).nanos < NOTIFICATION_BACKOFF,
        None => false,
    }
}

/// What was shown longer ago than a minute does not count any more, and all that was shown since
/// then does, as long as the times go up.
pub proof fn a_minute_counts(window: Seq<Instant>, now: Instant, i: int)
    requires
        forall|a: int, b: int|
            0 <= a < b < window.len() ==> (#[trigger] window[a]).nanos <= (
            #[trigger] window[b]).nanos,
        0 <= i < window.len(),
        window[i].nanos <= now.nanos,
    ensures
        pruned(window, now).len() <= window.len(),
        now.nanos - window[i].nanos < 60_000_000_000 ==> pruned(window, now).len() >= window.len()
            - i,
        now.nanos - window[i].nanos >= 60_000_000_000 ==> pruned(window, now).len() < window.len()
            - i,
    decreases window.len(),
{
    assert(window[0].nanos <= window[i].nanos);
    if now.nanos - window[0].nanos >= NOTIFICATION_WINDOW {
        let rest = window.skip(1);
        assert forall|a: int, b: int| 0 <= a < b < rest.len() implies (#[trigger] rest[a]).nanos <= (
        #[trigger] rest[b]).nanos by {
            assert(window[a + 1].nanos <= window[b + 1].nanos);
        }
        if i > 0 {
            assert(rest[i - 1] == window[i]);
            a_minute_counts(rest, now, i - 1);
        } else {
            pruning_drops(rest, now);
        }
    }
}

proof fn pruning_drops(window: Seq<Instant>, now: Instant)
    ensures
        pruned(window, now).len() <= window.len(),
    decreases window.len(),
{
    if window.len() > 0 && now.nanos - window[0].nanos >= NOTIFICATION_WINDOW {
        pruning_drops(window.skip(1), now);
    }
}

/// A tab that had a notification gets no other until its time is over. The first notification of a
/// tab is let through while there were fewer than the limit in the last minute.
pub proof fn a_tab_waits_for_its_next_notification(
    m: LimiterModel,
    session: SessionId,
    other: SessionId,
    at: Instant,
    now: Instant,
    config: BellConfig,
)
    requires
        at.nanos <= now.nanos,
        other.value != session.value,
    ensures
        now.nanos - at.nanos < config.notification_cooldown.nanos ==> !m.recorded(
            session,
            at,
        ).allows(session, now, config),
        !m.last.contains_key(other.value) ==> !m.recorded(session, at).cooling(other, now, config),
        now.nanos - at.nanos >= config.notification_cooldown.nanos ==> !m.recorded(
            session,
            at,
        ).cooling(session, now, config),
        !m.last.contains_key(session.value) && m.window.len() < config.notification_burst_per_minute
            ==> m.allows(session, now, config),
        config.notification_burst_per_minute == 0 ==> !m.allows(session, now, config),
{
    pruning_drops(m.window, now);
}

impl BoardModel {
    /// The notification that a command takes down.
    pub open spec fn taken_down(self, command: ControlCommand) -> Option<u32> {
        let session = command.session().value;
        let closes = self.entries.contains_key(session) && match command {
            ControlCommand::Acknowledge { generation, .. } => self.entries[session].generation
                == generation,
            ControlCommand::Forget { .. } => true,
        };
        if closes {
            Some(self.entries[session].notification_id)
        } else {
            None
        }
    }

    /// What is shown after a command.
    pub open spec fn after_control(self, command: ControlCommand) -> Map<u64, NotificationEntry> {
        if self.taken_down(command) is Some {
            self.entries.remove(command.session().value)
        } else {
            self.entries
        }
    }

    /// The notification that a command to show something replaces, zero for none, if it still counts.
    pub open spec fn replaced(self, command: ShowCommand) -> Option<u32> {
        let session = command.session_id;
        if is_stale(self.barriers, session, command.sequence) {
            None
        } else if self.entries.contains_key(session.value) {
            Some(self.entries[session.value].notification_id)
        } else {
            Some(0)
        }
    }

    /// What is shown once a notification has its number.
    pub open spec fn after_show(self, command: ShowCommand, id: u32) -> BoardModel {
        if id == 0 {
            self
        } else {
            BoardModel {
                entries: self.entries.insert(
                    command.session_id.value,
                    NotificationEntry { generation: command.generation, notification_id: id },
                ),
                ..self
            }
        }
    }
}

/// A notification that is shown is taken down when its bell is acknowledged or its tab is gone, and
/// not for another bell. The next one of the tab replaces it. Those of other tabs stay.
pub proof fn a_notification_is_taken_down_with_its_bell(
    m: BoardModel,
    command: ShowCommand,
    id: u32,
    other: BellGeneration,
    barrier: u64,
    tab: u64,
)
    requires
        id != 0,
        other != command.generation,
        tab != command.session_id.value,
    ensures
        ({
            let shown = m.after_show(command, id);
            let session_id = command.session_id;
            let own = ControlCommand::Acknowledge {
                session_id,
                generation: command.generation,
                barrier,
            };
            let stale = ControlCommand::Acknowledge { session_id, generation: other, barrier };
            let gone = ControlCommand::Forget { session_id, barrier };
            &&& shown.taken_down(own) == Some(id)
            &&& shown.taken_down(stale) is None
            &&& shown.taken_down(gone) == Some(id)
            &&& !shown.after_control(own).contains_key(session_id.value)
            &&& shown.after_control(own).contains_key(tab) == m.entries.contains_key(tab)
            &&& shown.barriers.len() == 0 ==> shown.replaced(command) == Some(id)
            &&& m.barriers.len() == 0 && !m.entries.contains_key(session_id.value) ==> m.replaced(
                command,
            ) == Some(0u32)
        }),
{
}

/// A command that has to wait is the only one of its tab that does, and comes after those of the other
/// tabs; these keep waiting. While it waits, nothing is shown for its tab.
pub proof fn one_command_of_a_tab_waits(
    pending: Seq<ControlCommand>,
    command: ControlCommand,
    i: int,
)
    requires
        0 <= i < pending.len(),
    ensures
        ({
            let now = of_others(pending, command.session()).push(command);
            &&& now.last() == command
            &&& concerns(now, command.session())
            &&& !concerns(of_others(pending, command.session()), command.session())
            &&& pending[i].session() != command.session() ==> of_others(
                pending,
                command.session(),
            ).contains(pending[i])
        }),
{
    let others = of_others(pending, command.session());
    let now = others.push(command);
    assert(now[now.len() - 1].session() == command.session());
    others_are_kept(pending, command.session());
}

proof fn others_are_kept(pending: Seq<ControlCommand>, session: SessionId)
    ensures
        !concerns(of_others(pending, session), session),
        forall|i: int|
            0 <= i < pending.len() && (#[trigger] pending[i]).session() != session ==> of_others(
                pending,
                session,
            ).contains(pending[i]),
    decreases pending.len(),
{
    if pending.len() > 0 {
        let init = pending.drop_last();
        others_are_kept(init, session);
        let before = of_others(init, session);
        let now = of_others(pending, session);
        assert forall|k: int| 0 <= k < now.len() implies (#[trigger] now[k]).session()
            != session by {
            if k < before.len() {
                assert(before[k].session() != session);
            }
        }
        assert forall|i: int|
            0 <= i < pending.len() && (#[trigger] pending[i]).session() != session implies now.contains(
            pending[i],
        ) by {
            if i < init.len() {
                assert(init[i] == pending[i]);
                let k = before.index_of(pending[i]);
                assert(now[k] == pending[i]);
            } else {
                assert(now[now.len() - 1] == pending[i]);
            }
        }
    }
}

/// A barrier holds back what a tab asked for before it, and nothing from then on. Other tabs are not
/// concerned.
pub proof fn a_barrier_holds_back_what_came_before(
    barriers: Seq<Barrier>,
    session: SessionId,
    other: SessionId,
    barrier: u64,
    sequence: u64,
)
    requires
        other != session,
        forall|i: int|
            0 <= i < barriers.len() ==> (#[trigger] barriers[i]).session != session,
    ensures
        is_stale(barriers.push(Barrier { session, sequence: barrier }), session, sequence)
            <==> sequence < barrier,
        is_stale(barriers.push(Barrier { session, sequence: barrier }), other, sequence)
            == is_stale(barriers, other, sequence),
{
    let all = barriers.push(Barrier { session, sequence: barrier });
    assert(all[barriers.len() as int].session == session);
    if is_stale(all, session, sequence) {
        let i = choose|i: int|
            0 <= i < all.len() && (#[trigger] all[i]).session == session && sequence
                < all[i].sequence;
        if i < barriers.len() {
            assert(barriers[i].session != session);
        }
    }
    if is_stale(barriers, other, sequence) {
        let i = choose|i: int|
            0 <= i < barriers.len() && (#[trigger] barriers[i]).session == other && sequence
                < barriers[i].sequence;
        assert(all[i].session == other);
    }
    if is_stale(all, other, sequence) {
        let i = choose|i: int|
            0 <= i < all.len() && (#[trigger] all[i]).session == other && sequence
                < all[i].sequence;
        assert(barriers[i].session == other);
    }
}

/// Every notification counts for a minute: once as many as the limit were shown in the last minute,
/// no tab gets another.
pub proof fn a_minute_has_room_for_so_many(
    m: LimiterModel,
    session: SessionId,
    other: SessionId,
    at: Instant,
    now: Instant,
    config: BellConfig,
)
    requires
        forall|i: int|
            0 <= i < m.window.len() ==> now.nanos - (#[trigger] m.window[i]).nanos
                < 60_000_000_000,
        now.nanos - at.nanos < 60_000_000_000,
        m.window.len() + 1 == config.notification_burst_per_minute,
    ensures
        !m.recorded(session, at).allows(other, now, config),
        !m.last.contains_key(other.value) ==> m.allows(other, now, config),
{
    let window = m.recorded(session, at).window;
    assert(now.nanos - window[0].nanos < 60_000_000_000) by {
        if m.window.len() > 0 {
            assert(window[0] == m.window[0]);
        }
    }
    pruning_drops(m.window, now);
}

} // verus!
