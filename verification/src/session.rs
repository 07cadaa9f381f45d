//! One terminal with its child: what comes out of the child, what goes into it, and how it ends.
//!
//! The engine that interprets output, and the child itself, are held by the application. A
//! session decides what is done with them.
use vstd::prelude::*;
use vstd::string::StringExecFns;
use std::collections::VecDeque;
use crate::app::event::{ChildExit, PtyEvent};
use crate::config::{CursorStyle, EffectiveConfig};
use crate::frame_composer::{ranges_view, SearchOverlay, SelectionOverlay};
use crate::overlay::{add_matches, match_ranges, search_overlay, selection_overlay};
use crate::search::{
    advanced, moved_to, SearchController, SearchDirection, SearchEdit, SearchEffect, SearchModel,
    SEARCH_SLICE,
};
use crate::security::{
    AuditLogDecision, LimiterModel, MetadataRateLimiter, INTERACTIVE_INPUT_RESERVE,
    MAX_PTY_REPLY_BYTES,
};
use crate::terminal::adapter::{
    actions_view, merged_audit, terminal_modes, ActionModel, AdvancePlan, CoreModel, EngineModes,
    GridPoint, ParseAuditDelta, ParserOutcome, PendingSync, SelectionRange, SyncFlushReason,
    SyncStatus, TerminalAction, TerminalCoreAdapter, TerminalCoreConfig, TerminalError,
    TerminalQuery, MAX_ADVANCE_BYTES,
};
use crate::terminal::capture::{captures, EngineCursor};
use crate::terminal::cwd::{pending_view, CwdModel, CwdReport, CwdTracker};
use crate::terminal::input::{
    commit_text, encode_alternate_scroll, encode_focus, encode_key, encode_mouse, key_seq,
    mouse_seq, paste_seq, paste_transaction, ButtonState, InputError, Modifiers, MouseButton,
    TerminalKey, MAX_COMMIT_BYTES,
};
use crate::terminal::protocol::{run, ProtocolAudit};
use crate::terminal::screen::{TerminalScreen, MAX_HISTORY_LINES};
use crate::terminal::search::pace;
use crate::terminal::snapshot::{
    CursorShape, FrameSnapshot, GridSize, SelectionPoint, TerminalModes,
};
use crate::time::Instant;
use vstd::utf8::encode_utf8;

verus! {

#[derive(Clone, Copy, Debug, PartialEq, Eq, Structural)]
pub enum SessionState {
    Running,
    ExitObserved,
    ReadClosed,
    Completed,
    Held,
    Closing,
    Closed,
    Failed,
}

#[derive(Clone, Copy, Debug, PartialEq, Eq, Structural)]
pub enum SessionAction {
    Continue,
    Completed,
    Held,
    Failed,
}

#[derive(Clone, Copy, Debug, PartialEq, Eq, Structural)]
pub enum ShutdownPoll {
    Pending,
    Complete,
    TimedOut,
}

/// Who queues input: the user by hand, the user by the clipboard, or the terminal itself.
#[derive(Clone, Copy, Debug, PartialEq, Eq, Structural)]
pub enum QueueClass {
    Interactive,
    Bulk,
    ParserReply,
}

/// A reply that the terminal owes to the program.
#[derive(Clone, Debug, PartialEq, Eq)]
pub enum SessionReplyRequest {
    Bytes(Vec<u8>),
    Query(TerminalQuery),
}

/// A reply over its bytes.
pub enum ReplyModel {
    Bytes(Seq<u8>),
    Query(TerminalQuery),
}

impl View for SessionReplyRequest {
    type V = ReplyModel;

    open spec fn view(&self) -> ReplyModel {
        match *self {
            SessionReplyRequest::Bytes(bytes) => ReplyModel::Bytes(bytes@),
            SessionReplyRequest::Query(query) => ReplyModel::Query(query),
        }
    }
}

pub open spec fn replies_view(replies: Seq<SessionReplyRequest>) -> Seq<ReplyModel> {
    replies.map_values(|r: SessionReplyRequest| r@)
}

/// A change of the title.
#[derive(Clone, Debug, PartialEq, Eq)]
pub enum SessionTitleDelta {
    Show(String),
    Reset,
}

/// A change of the title over its text.
pub enum TitleModel {
    Show(Seq<char>),
    Reset,
}

impl View for SessionTitleDelta {
    type V = TitleModel;

    open spec fn view(&self) -> TitleModel {
        match *self {
            SessionTitleDelta::Show(title) => TitleModel::Show(title@),
            SessionTitleDelta::Reset => TitleModel::Reset,
        }
    }
}

pub open spec fn title_view(title: Option<SessionTitleDelta>) -> Option<TitleModel> {
    match title {
        Some(title) => Some(title@),
        None => None,
    }
}

#[derive(Clone, Debug, PartialEq, Eq)]
pub enum SessionError {
    Terminal(TerminalError),
    Size(String),
    Command(String),
    Join(String),
    Pty(String),
    OutputAfterClose,
    DuplicateExit,
    DuplicateReadClose,
    InputCapacityExceeded,
    InputClosed,
    Input(InputError),
}

impl SessionError {
    pub open spec fn text(self) -> Seq<char> {
        match self {
            SessionError::Terminal(error) => error.text(),
            SessionError::Size(error) => error@,
            SessionError::Command(error) => "PTY command failed: "@ + error@,
            SessionError::Join(error) => "PTY join failed: "@ + error@,
            SessionError::Pty(error) => "PTY failed: "@ + error@,
            SessionError::OutputAfterClose => "received PTY output after read closure"@,
            SessionError::DuplicateExit => "received duplicate child exit event"@,
            SessionError::DuplicateReadClose => "received duplicate PTY read closure"@,
            SessionError::InputCapacityExceeded => "PTY input capacity exceeded"@,
            SessionError::InputClosed => "PTY input endpoint is closed"@,
            SessionError::Input(error) => error.text(),
        }
    }

    /// What the error says.
    pub fn message(&self) -> (result: String)
        ensures
            result@ == self.text(),
    {
        match self {
            SessionError::Terminal(error) => error.message(),
            SessionError::Size(error) => error.as_str().to_owned(),
            SessionError::Command(error) => prefixed("PTY command failed: ", error),
            SessionError::Join(error) => prefixed("PTY join failed: ", error),
            SessionError::Pty(error) => prefixed("PTY failed: ", error),
            SessionError::OutputAfterClose => String::from_str(
                "received PTY output after read closure",
            ),
            SessionError::DuplicateExit => String::from_str("received duplicate child exit event"),
            SessionError::DuplicateReadClose => String::from_str(
                "received duplicate PTY read closure",
            ),
            SessionError::InputCapacityExceeded => String::from_str("PTY input capacity exceeded"),
            SessionError::InputClosed => String::from_str("PTY input endpoint is closed"),
            SessionError::Input(error) => String::from_str(error.message()),
        }
    }
}

fn prefixed(head: &str, error: &String) -> (result: String)
    ensures
        result@ == head@ + error@,
{
    let mut out = String::from_str(head);
    out.append(error.as_str());
    out
}

/// How the child took a chunk of input.
#[derive(Clone, Copy, Debug, PartialEq, Eq, Structural)]
pub enum WriteStatus {
    Accepted,
    WouldBlock,
    Closed,
}

/// How long a session may take to shut down, in nanoseconds.
pub const SHUTDOWN_DEADLINE: u64 = 2_000_000_000;

/// The most input that is handed to the child at once.
pub const INPUT_CHUNK_BYTES: usize = 65_536;

/// The longest reply to a query.
pub const MAX_QUERY_REPLY_BYTES: usize = 128;

/// How much input may wait. What is not typed by hand leaves a reserve for what is.
pub open spec fn class_limit(class: QueueClass, max_outstanding: usize) -> usize {
    match class {
        QueueClass::Interactive => max_outstanding,
        _ => (max_outstanding - INTERACTIVE_INPUT_RESERVE) as usize,
    }
}

/// Computes [`class_limit`].
pub fn queue_class_limit(class: QueueClass, max_outstanding: usize) -> (result: usize)
    requires
        max_outstanding >= INTERACTIVE_INPUT_RESERVE,
    ensures
        result == class_limit(class, max_outstanding),
{
    match class {
        QueueClass::Interactive => max_outstanding,
        QueueClass::Bulk => max_outstanding - INTERACTIVE_INPUT_RESERVE,
        QueueClass::ParserReply => max_outstanding - INTERACTIVE_INPUT_RESERVE,
    }
}

/// One terminal with its child.
pub struct TerminalSession {
    core: TerminalCoreAdapter,
    cwd_tracker: CwdTracker,
    has_process: bool,
    state: SessionState,
    exited: Option<ChildExit>,
    read_closed: bool,
    hold_after_exit: bool,
    dirty: bool,
    pending_title: Option<SessionTitleDelta>,
    pending_bell: bool,
    pending_replies: Vec<SessionReplyRequest>,
    reply_budget_remaining: usize,
    pending_input: VecDeque<Vec<u8>>,
    pending_input_bytes: usize,
    shutdown_deadline: Option<Instant>,
    security_audit: ParseAuditDelta,
    audit_log_limiter: MetadataRateLimiter,
    search: SearchController,
    max_outstanding: usize,
}

/// The state of a session.
pub struct SessionModel {
    pub core: CoreModel,
    pub cwd: CwdModel,
    pub has_process: bool,
    pub state: SessionState,
    pub exited: Option<ChildExit>,
    pub read_closed: bool,
    pub hold: bool,
    pub dirty: bool,
    pub title: Option<TitleModel>,
    pub bell: bool,
    pub replies: Seq<ReplyModel>,
    pub reply_budget: usize,
    pub input: Seq<Seq<u8>>,
    pub input_bytes: usize,
    pub deadline: Option<Instant>,
    pub audit: ParseAuditDelta,
    pub limiter: LimiterModel,
    pub search: SearchModel,
    pub max_outstanding: usize,
}

/// The bytes of transactions, one after the other.
pub open spec fn joined(input: Seq<Seq<u8>>) -> Seq<u8>
    decreases input.len(),
{
    if input.len() == 0 {
        Seq::empty()
    } else {
        input[0] + joined(input.skip(1))
    }
}

proof fn joined_push(input: Seq<Seq<u8>>, bytes: Seq<u8>)
    ensures
        joined(input.push(bytes)) == joined(input) + bytes,
    decreases input.len(),
{
    if input.len() == 0 {
        reveal_with_fuel(joined, 2);
        assert(input.push(bytes).skip(1) =~= Seq::empty());
        assert(joined(input.push(bytes)) =~= joined(input) + bytes);
    } else {
        joined_push(input.skip(1), bytes);
        assert(input.push(bytes).skip(1) =~= input.skip(1).push(bytes));
        assert(joined(input.push(bytes)) =~= joined(input) + bytes);
    }
}

impl SessionModel {
    /// The count of waiting input is right, no transaction is empty, and the reserve exists.
    pub open spec fn wf(self) -> bool {
        &&& self.core.wf()
        &&& self.cwd.wf()
        &&& self.search.wf()
        &&& self.input_bytes == joined(self.input).len()
        &&& forall|i: int| 0 <= i < self.input.len() ==> (#[trigger] self.input[i]).len() > 0
        &&& self.max_outstanding >= INTERACTIVE_INPUT_RESERVE
        &&& self.reply_budget <= MAX_PTY_REPLY_BYTES
    }

    pub open spec fn initial(size: GridSize, hold: bool, max_outstanding: usize) -> SessionModel {
        SessionModel {
            core: CoreModel::initial(size),
            cwd: CwdModel::initial(),
            has_process: true,
            state: SessionState::Running,
            exited: None,
            read_closed: false,
            hold,
            dirty: true,
            title: None,
            bell: false,
            replies: Seq::empty(),
            reply_budget: MAX_PTY_REPLY_BYTES,
            input: Seq::empty(),
            input_bytes: 0,
            deadline: None,
            audit: ParseAuditDelta::none(),
            limiter: LimiterModel::initial(),
            search: SearchModel::initial(),
            max_outstanding,
        }
    }

    /// What one action of the terminal does.
    pub open spec fn act(self, action: ActionModel) -> SessionModel {
        match action {
            ActionModel::WriteToPty(bytes) => SessionModel {
                replies: self.replies.push(ReplyModel::Bytes(bytes)),
                ..self
            },
            ActionModel::SetTitle(title) => SessionModel {
                title: Some(TitleModel::Show(title)),
                ..self
            },
            ActionModel::ResetTitle => SessionModel { title: Some(TitleModel::Reset), ..self },
            ActionModel::Bell => SessionModel { bell: true, ..self },
            ActionModel::Query(query) => SessionModel {
                replies: self.replies.push(ReplyModel::Query(query)),
                ..self
            },
            _ => self,
        }
    }

    /// What actions of the terminal do, in order.
    pub open spec fn act_all(self, actions: Seq<ActionModel>) -> SessionModel
        decreases actions.len(),
    {
        if actions.len() == 0 {
            self
        } else {
            self.act_all(actions.drop_last()).act(actions.last())
        }
    }

    /// The actions of the terminal are taken from it and done.
    pub open spec fn flushed(self) -> SessionModel {
        let taken = SessionModel {
            core: CoreModel { actions: Seq::empty(), ..self.core },
            ..self
        };
        taken.act_all(self.core.actions)
    }

    /// The audit of the session grows by that of a round. What concerns the keyboard protocols
    /// is not kept.
    pub open spec fn audited(self, d: ParseAuditDelta) -> SessionModel {
        let a = self.audit;
        SessionModel {
            audit: ParseAuditDelta {
                unknown_sequences: capped(a.unknown_sequences, d.unknown_sequences),
                rejected_actions: capped(a.rejected_actions, d.rejected_actions),
                truncated_sequences: capped(a.truncated_sequences, d.truncated_sequences),
                reply_bytes: capped_size(a.reply_bytes, d.reply_bytes),
                sync_forced_commits: capped(a.sync_forced_commits, d.sync_forced_commits),
                sync_timeouts: capped(a.sync_timeouts, d.sync_timeouts),
                query_replies: capped(a.query_replies, d.query_replies),
                query_rejected: capped(a.query_rejected, d.query_rejected),
                display_state_fallbacks: capped(
                    a.display_state_fallbacks,
                    d.display_state_fallbacks,
                ),
                ..a
            },
            ..self
        }
    }

    /// A round of output that was noteworthy is logged, as often as the limiter lets it.
    pub open spec fn logged(self, d: ParseAuditDelta, now: Instant) -> SessionModel {
        if noteworthy(d) {
            SessionModel { limiter: self.limiter.after(now), ..self }
        } else {
            self
        }
    }

    /// What is shown may have changed, and with it the results of a search.
    pub open spec fn touched(self, dirty: bool, now: Instant) -> SessionModel {
        if dirty {
            SessionModel { dirty: true, search: self.search.invalidated(now), ..self }
        } else {
            self
        }
    }

    /// A reply was refused.
    pub open spec fn reply_refused(self, is_query: bool) -> SessionModel {
        let a = self.audit;
        SessionModel {
            audit: if is_query {
                ParseAuditDelta { query_rejected: capped(a.query_rejected, 1), ..a }
            } else {
                ParseAuditDelta { rejected_actions: capped(a.rejected_actions, 1), ..a }
            },
            ..self
        }
    }

    /// Input that comes too late is dropped.
    pub open spec fn drops_input(self) -> bool {
        self.state is Held || self.state is Failed || self.state is Closing || self.state is Closed
    }

    /// Whether so many more bytes may wait beside those that the child has not taken yet.
    pub open spec fn has_room(self, class: QueueClass, len: nat, worker_bytes: usize) -> bool {
        self.input_bytes + len + worker_bytes <= class_limit(class, self.max_outstanding)
    }

    /// The session with a transaction at the end of its input, unless that is dropped.
    pub open spec fn queued(self, bytes: Seq<u8>) -> SessionModel {
        if self.drops_input() || bytes.len() == 0 {
            self
        } else {
            SessionModel {
                input: self.input.push(bytes),
                input_bytes: (self.input_bytes + bytes.len()) as usize,
                ..self
            }
        }
    }

    /// Whether a transaction is refused for want of room.
    pub open spec fn refuses(self, class: QueueClass, bytes: Seq<u8>, worker_bytes: usize) -> bool {
        !self.drops_input() && bytes.len() > 0 && !self.has_room(class, bytes.len(), worker_bytes)
    }

    /// Whether the session can begin to shut down: it has not yet.
    pub open spec fn can_shut_down(self) -> bool {
        self.deadline is None && !(self.state is Closed)
    }

    /// The session begins to shut down, if it can: what waits is dropped, and its time is counted.
    pub open spec fn shutting_down(self, now: Instant) -> SessionModel {
        if self.can_shut_down() {
            SessionModel {
                state: SessionState::Closing,
                input: Seq::empty(),
                input_bytes: 0,
                replies: Seq::empty(),
                deadline: Some(now.later(SHUTDOWN_DEADLINE)),
                ..self
            }
        } else {
            self
        }
    }

    /// Whether the session has come to its end, so that the child is to be joined and the session
    /// to be finished.
    pub open spec fn ends(self) -> bool {
        self.deadline is None && self.natural_state() is Completed
    }

    /// The session with the state that it has by what was observed. One that is being shut down
    /// stays as it is.
    pub open spec fn settled(self) -> SessionModel {
        if self.deadline is Some {
            self
        } else {
            SessionModel {
                state: self.natural_state(),
                has_process: self.has_process && !self.ends(),
                ..self
            }
        }
    }

    /// The state that the exit of the child and the end of its output make.
    pub open spec fn natural_state(self) -> SessionState {
        if self.exited is Some {
            if self.read_closed {
                SessionState::Completed
            } else {
                SessionState::ExitObserved
            }
        } else if self.read_closed {
            SessionState::ReadClosed
        } else {
            SessionState::Running
        }
    }
}

/// Whether a search has followed the content: it is bound to none now, or neither it nor the content
/// has changed.
pub open spec fn search_follows(m: SessionModel, n: SessionModel) -> bool {
    n.search.bound is None || (n.search == m.search && forall|alternate: bool|
        #[trigger] n.core.content_id(alternate) == m.core.content_id(alternate))
}

/// A search that tracks the content goes on to do so where it follows it.
pub proof fn a_search_that_follows_tracks(
    m: SessionModel,
    n: SessionModel,
    screen: &TerminalScreen,
)
    requires
        search_follows(m, n),
        m.search.tracks(m.core.content_id(screen.alternate), screen),
    ensures
        n.search.tracks(n.core.content_id(screen.alternate), screen),
{
}

proof fn acting_keeps_wf(m: SessionModel, actions: Seq<ActionModel>)
    ensures
        m.wf() ==> m.act_all(actions).wf(),
        m.act_all(actions).search == m.search,
        m.act_all(actions).core == m.core,
    decreases actions.len(),
{
    if actions.len() > 0 {
        acting_keeps_wf(m, actions.drop_last());
    }
}

pub open spec fn capped(a: u32, b: u32) -> u32 {
    if a + b <= u32::MAX {
        (a + b) as u32
    } else {
        u32::MAX
    }
}

pub open spec fn capped_size(a: usize, b: usize) -> usize {
    if a + b <= usize::MAX {
        (a + b) as usize
    } else {
        usize::MAX
    }
}

/// Whether a round of output held something that is logged.
pub open spec fn noteworthy(d: ParseAuditDelta) -> bool {
    d.unknown_sequences != 0 || d.rejected_actions != 0 || d.truncated_sequences != 0
}

/// The views of transactions.
pub open spec fn input_view(input: Seq<Vec<u8>>) -> Seq<Seq<u8>> {
    input.map_values(|v: Vec<u8>| v@)
}

/// What a session makes of a batch of output: how it is fed to the engine, and the session after
/// it.
pub open spec fn output_begun(
    m: SessionModel,
    bytes: Seq<u8>,
    result: Result<Option<AdvancePlan>, SessionError>,
    n: SessionModel,
) -> bool {
    let followed = run(m.core.keyboard, bytes);
    let read = SessionModel { cwd: crate::terminal::cwd::run(m.cwd, bytes), ..m };
    if m.read_closed {
        result is Err && result->Err_0 is OutputAfterClose && n == m
    } else if bytes.len() > MAX_ADVANCE_BYTES {
        &&& result is Err
        &&& result->Err_0 == SessionError::Terminal(
            TerminalError::BatchTooLarge(bytes.len() as usize),
        )
        &&& n == read
    } else if bytes.len() == 0 {
        result is Ok && result->Ok_0 is None && n == read
    } else {
        &&& result is Ok
        &&& result->Ok_0 is Some
        &&& result->Ok_0->0.follows(bytes.len() as int, followed.replies)
        &&& result->Ok_0->0.audit == followed.audit
        &&& n == (SessionModel {
            core: CoreModel { keyboard: followed.tracker, ..m.core },
            ..read
        })
    }
}

/// What is to be done next after an event of the child.
#[derive(Debug)]
pub enum PtyStep {
    /// The engine is fed as planned, if there is anything to feed. Then the session takes what the
    /// engine did with it, and settles.
    Feed(Option<AdvancePlan>),
    /// Input that waits is written. Then the session settles.
    Write,
    /// The session has settled. It may have come to its end.
    Settled { ended: bool },
}

impl View for TerminalSession {
    type V = SessionModel;

    closed spec fn view(&self) -> SessionModel {
        SessionModel {
            core: self.core@,
            cwd: self.cwd_tracker@,
            has_process: self.has_process,
            state: self.state,
            exited: self.exited,
            read_closed: self.read_closed,
            hold: self.hold_after_exit,
            dirty: self.dirty,
            title: title_view(self.pending_title),
            bell: self.pending_bell,
            replies: replies_view(self.pending_replies@),
            reply_budget: self.reply_budget_remaining,
            input: input_view(self.pending_input@),
            input_bytes: self.pending_input_bytes,
            deadline: self.shutdown_deadline,
            audit: self.security_audit,
            limiter: self.audit_log_limiter@,
            search: self.search@,
            max_outstanding: self.max_outstanding,
        }
    }
}

impl TerminalSession {
    /// A session whose child has just been started. At most `max_outstanding` bytes of input may
    /// wait for the child.
    pub fn new(size: GridSize, hold_after_exit: bool, max_outstanding: usize) -> (result:
        TerminalSession)
        ensures
            result@ == SessionModel::initial(size, hold_after_exit, max_outstanding),
            size.wf() && max_outstanding >= INTERACTIVE_INPUT_RESERVE ==> result@.wf(),
    {
        let result = TerminalSession {
            core: TerminalCoreAdapter::new(size),
            cwd_tracker: CwdTracker::default(),
            has_process: true,
            state: SessionState::Running,
            exited: None,
            read_closed: false,
            hold_after_exit,
            dirty: true,
            pending_title: None,
            pending_bell: false,
            pending_replies: Vec::new(),
            reply_budget_remaining: MAX_PTY_REPLY_BYTES,
            pending_input: VecDeque::new(),
            pending_input_bytes: 0,
            shutdown_deadline: None,
            security_audit: ParseAuditDelta::default(),
            audit_log_limiter: MetadataRateLimiter::default(),
            search: SearchController::default(),
            max_outstanding,
        };
        assert(result@.replies =~= Seq::empty());
        assert(result@.input =~= Seq::empty());
        result
    }

    /// A session by a configuration, and how its engine is to be set up.
    pub fn start(config: &EffectiveConfig, initial_size: GridSize, max_outstanding: usize) -> (
    result: (TerminalSession, TerminalCoreConfig))
        ensures
            result.0@ == SessionModel::initial(
                initial_size,
                config.behavior.hold_after_exit,
                max_outstanding,
            ),
            initial_size.wf() && max_outstanding >= INTERACTIVE_INPUT_RESERVE ==> result.0@.wf(),
            result.1 == (TerminalCoreConfig {
                history_lines: config.scrolling.history_lines as usize,
                default_cursor_shape: match config.cursor.style {
                    CursorStyle::Block => CursorShape::Block,
                    CursorStyle::Beam => CursorShape::Beam,
                    CursorStyle::Underline => CursorShape::Underline,
                },
            }),
    {
        let engine = TerminalCoreConfig {
            history_lines: config.scrolling.history_lines as usize,
            default_cursor_shape: match config.cursor.style {
                CursorStyle::Block => CursorShape::Block,
                CursorStyle::Beam => CursorShape::Beam,
                CursorStyle::Underline => CursorShape::Underline,
            },
        };
        let hold = config.behavior.hold_after_exit;
        (TerminalSession::new(initial_size, hold, max_outstanding), engine)
    }

    /// Takes a batch of output: follows the reports of the working directory in it, and plans
    /// how it is fed to the engine. After the end of the output there may be none.
    pub fn begin_output(&mut self, bytes: &[u8]) -> (result: Result<
        Option<AdvancePlan>,
        SessionError,
    >)
        ensures
            output_begun(old(self)@, bytes@, result, final(self)@),
            old(self)@.wf() ==> final(self)@.wf(),
    {
        if self.read_closed {
            return Err(SessionError::OutputAfterClose);
        }
        self.cwd_tracker.advance(bytes);
        match self.core.begin_advance(bytes) {
            Ok(plan) => Ok(plan),
            Err(error) => Err(SessionError::Terminal(error)),
        }
    }

    /// Takes what the engine did with a batch of output. The decision tells whether the round is
    /// logged.
    #[verifier::rlimit(60)]
    pub fn finish_output(&mut self, keyboard: ProtocolAudit, outcome: ParserOutcome, now: Instant) -> (
    result: Result<Option<AuditLogDecision>, SessionError>)
        ensures
            ({
                let m = old(self)@;
                let n = final(self)@;
                let events = m.core.after_events(outcome.bell, outcome.events@);
                let audit = merged_audit(
                    events.audit,
                    outcome.audit,
                    outcome.capacity_commits,
                    keyboard,
                );
                let begun = CoreModel {
                    sync_epoch: if outcome.begins_update() && m.core.sync_epoch < u64::MAX {
                        (m.core.sync_epoch + 1) as u64
                    } else {
                        m.core.sync_epoch
                    },
                    ..m.core
                };
                if (outcome.begins_update() && m.core.sync_epoch == u64::MAX) || (outcome.dirty()
                    && !m.core.can_change()) {
                    &&& result is Err
                    &&& result->Err_0 == SessionError::Terminal(TerminalError::GenerationOverflow)
                    &&& n == (SessionModel { core: begun, ..m })
                } else {
                    let core = (if outcome.dirty() {
                        begun.changed()
                    } else {
                        begun
                    }).with_events(events);
                    &&& result is Ok
                    &&& result->Ok_0 == (if noteworthy(audit) {
                        Some(m.limiter.decision(now))
                    } else {
                        None
                    })
                    &&& n == SessionModel { core, ..m }.audited(audit).logged(audit, now).touched(
                        outcome.dirty(),
                        now,
                    ).flushed()
                }
            }),
            old(self)@.wf() ==> final(self)@.wf(),
            old(self)@.wf() ==> search_follows(old(self)@, final(self)@),
    {
        let delta = match self.core.finish_advance(keyboard, outcome) {
            Ok(delta) => delta,
            Err(error) => {
                return Err(SessionError::Terminal(error));
            },
        };
        self.accumulate_audit(delta.audit);
        let audit = delta.audit;
        let decision = if audit.unknown_sequences != 0 || audit.rejected_actions != 0
            || audit.truncated_sequences != 0 {
            Some(self.audit_log_limiter.record(now))
        } else {
            None
        };
        if delta.dirty {
            self.dirty = true;
            self.search.invalidate(now);
        }
        self.flush_actions();
        Ok(decision)
    }

    fn accumulate_audit(&mut self, delta: ParseAuditDelta)
        ensures
            final(self)@ == old(self)@.audited(delta),
    {
        let audit = self.security_audit;
        self.security_audit =
        ParseAuditDelta {
            unknown_sequences: audit.unknown_sequences.saturating_add(delta.unknown_sequences),
            rejected_actions: audit.rejected_actions.saturating_add(delta.rejected_actions),
            truncated_sequences: audit.truncated_sequences.saturating_add(
                delta.truncated_sequences,
            ),
            reply_bytes: audit.reply_bytes.saturating_add(delta.reply_bytes),
            sync_forced_commits: audit.sync_forced_commits.saturating_add(
                delta.sync_forced_commits,
            ),
            sync_timeouts: audit.sync_timeouts.saturating_add(delta.sync_timeouts),
            query_replies: audit.query_replies.saturating_add(delta.query_replies),
            query_rejected: audit.query_rejected.saturating_add(delta.query_rejected),
            display_state_fallbacks: audit.display_state_fallbacks.saturating_add(
                delta.display_state_fallbacks,
            ),
            keyboard_protocol_changes: audit.keyboard_protocol_changes,
            keyboard_queries: audit.keyboard_queries,
            keyboard_unknown_flags: audit.keyboard_unknown_flags,
            keyboard_stack_overflow: audit.keyboard_stack_overflow,
        };
    }

    fn flush_actions(&mut self)
        ensures
            final(self)@ == old(self)@.flushed(),
            old(self)@.wf() ==> final(self)@.wf(),
            final(self)@.search == old(self)@.search,
            final(self)@.core == (CoreModel { actions: Seq::empty(), ..old(self)@.core }),
    {
        let mut actions: Vec<TerminalAction> = Vec::new();
        let ghost taken = SessionModel {
            core: CoreModel { actions: Seq::empty(), ..self@.core },
            ..self@
        };
        self.core.drain_actions(&mut actions);
        let ghost all = old(self)@.core.actions;
        assert(actions_view(actions@) =~= all);
        let mut i: usize = 0;
        assert(all.take(0) =~= Seq::empty());
        assert(self@ == taken);
        while i < actions.len()
            invariant
                i <= actions@.len(),
                actions_view(actions@) == all,
                self@ == taken.act_all(all.take(i as int)),
            decreases actions@.len() - i,
        {
            proof {
                assert(all.take(i + 1).drop_last() =~= all.take(i as int));
                assert(all[i as int] == actions@[i as int]@);
            }
            let ghost before = self.pending_replies@;
            match &actions[i] {
                TerminalAction::WriteToPty(bytes) => {
                    let reply = vstd::slice::slice_to_vec(bytes.as_slice());
                    self.pending_replies.push(SessionReplyRequest::Bytes(reply));
                    assert(replies_view(self.pending_replies@) =~= replies_view(before).push(
                        ReplyModel::Bytes(bytes@),
                    ));
                },
                TerminalAction::SetTitle(title) => {
                    self.pending_title = Some(SessionTitleDelta::Show(title.clone()));
                },
                TerminalAction::ResetTitle => {
                    self.pending_title = Some(SessionTitleDelta::Reset);
                },
                TerminalAction::Bell => {
                    self.pending_bell = true;
                },
                TerminalAction::Query(query) => {
                    self.pending_replies.push(SessionReplyRequest::Query(*query));
                    assert(replies_view(self.pending_replies@) =~= replies_view(before).push(
                        ReplyModel::Query(*query),
                    ));
                },
                TerminalAction::ClipboardRequestRejected => {},
                TerminalAction::UnsupportedSequence => {},
            }
            i += 1;
        }
        assert(all.take(i as int) =~= all);
        proof {
            acting_keeps_wf(taken, all);
        }
    }

    /// The child has exited. It can only do so once.
    pub fn observe_exit(&mut self, exit: ChildExit) -> (result: Result<(), SessionError>)
        ensures
            final(self)@ == (SessionModel { exited: Some(exit), ..old(self)@ }),
            result is Err <==> old(self)@.exited is Some,
            result is Err ==> result->Err_0 is DuplicateExit,
            old(self)@.wf() ==> final(self)@.wf(),
    {
        let twice = self.exited.is_some();
        self.exited = Some(exit);
        if twice {
            return Err(SessionError::DuplicateExit);
        }
        Ok(())
    }

    /// The child's output has ended. It can only do so once.
    pub fn observe_read_closed(&mut self) -> (result: Result<(), SessionError>)
        ensures
            final(self)@ == (SessionModel { read_closed: true, ..old(self)@ }),
            result is Err <==> old(self)@.read_closed,
            result is Err ==> result->Err_0 is DuplicateReadClose,
            old(self)@.wf() ==> final(self)@.wf(),
    {
        if self.read_closed {
            return Err(SessionError::DuplicateReadClose);
        }
        self.read_closed = true;
        Ok(())
    }

    /// The connection to the child has failed.
    pub fn observe_failure(&mut self, message: String) -> (result: SessionError)
        ensures
            final(self)@ == (SessionModel { state: SessionState::Failed, ..old(self)@ }),
            result is Pty,
            result->Pty_0@ == message@,
            old(self)@.wf() ==> final(self)@.wf(),
    {
        self.state = SessionState::Failed;
        SessionError::Pty(message)
    }

    /// Takes the exit of the child and the end of its output into account. Tells whether the
    /// session has come to its end, so that the child is to be joined and the session to be
    /// finished. A session that is being shut down stays as it is.
    pub fn update_state(&mut self) -> (result: bool)
        ensures
            result == old(self)@.ends(),
            final(self)@ == old(self)@.settled(),
            old(self)@.wf() ==> final(self)@.wf(),
    {
        if self.shutdown_deadline.is_some() {
            return false;
        }
        self.state =
        match (self.exited.is_some(), self.read_closed) {
            (false, false) => SessionState::Running,
            (true, false) => SessionState::ExitObserved,
            (false, true) => SessionState::ReadClosed,
            (true, true) => SessionState::Completed,
        };
        if self.state != SessionState::Completed {
            return false;
        }
        self.has_process = false;
        true
    }

    /// Takes an event of the child, and tells what is to be done next.
    pub fn handle_pty_event(&mut self, event: PtyEvent) -> (result: Result<PtyStep, SessionError>)
        ensures
            ({
                let m = old(self)@;
                let n = final(self)@;
                match event {
                    PtyEvent::Output(batch) => match result {
                        Ok(step) => step is Feed && output_begun(m, batch@, Ok(step->Feed_0), n),
                        Err(error) => output_begun(m, batch@, Err(error), n),
                    },
                    PtyEvent::Exited(exit) => {
                        let observed = SessionModel { exited: Some(exit), ..m };
                        if m.exited is Some {
                            &&& result is Err && result->Err_0 is DuplicateExit
                            &&& n == observed
                        } else {
                            &&& result is Ok && result->Ok_0 == (PtyStep::Settled {
                                ended: observed.ends(),
                            })
                            &&& n == observed.settled()
                        }
                    },
                    PtyEvent::ReadClosed => {
                        let observed = SessionModel { read_closed: true, ..m };
                        if m.read_closed {
                            &&& result is Err && result->Err_0 is DuplicateReadClose
                            &&& n == m
                        } else {
                            &&& result is Ok && result->Ok_0 == (PtyStep::Settled {
                                ended: observed.ends(),
                            })
                            &&& n == observed.settled()
                        }
                    },
                    PtyEvent::Failed(failure) => {
                        &&& result is Err && result->Err_0 is Pty && result->Err_0->Pty_0@
                            == failure.message@
                        &&& n == (SessionModel { state: SessionState::Failed, ..m })
                    },
                    PtyEvent::Writable => result is Ok && result->Ok_0 is Write && n == m,
                }
            }),
            old(self)@.wf() ==> final(self)@.wf(),
    {
        match event {
            PtyEvent::Output(batch) => {
                match self.begin_output(batch.as_slice()) {
                    Ok(plan) => Ok(PtyStep::Feed(plan)),
                    Err(error) => Err(error),
                }
            },
            PtyEvent::Exited(exit) => match self.observe_exit(exit) {
                Ok(_) => Ok(PtyStep::Settled { ended: self.update_state() }),
                Err(error) => Err(error),
            },
            PtyEvent::ReadClosed => match self.observe_read_closed() {
                Ok(_) => Ok(PtyStep::Settled { ended: self.update_state() }),
                Err(error) => Err(error),
            },
            PtyEvent::Failed(failure) => Err(self.observe_failure(failure.message)),
            PtyEvent::Writable => Ok(PtyStep::Write),
        }
    }

    /// Finishes a session whose child is gone. One that is held shows its last output, with an
    /// update that was held back, which `flushed` holds; one that is not drops what it owes.
    pub fn finish_session(
        &mut self,
        pending: Option<SyncStatus>,
        flushed: ParserOutcome,
        now: Instant,
    ) -> (result: Result<SessionAction, SessionError>)
        ensures
            ({
                let m = old(self)@;
                let n = final(self)@;
                if !m.hold {
                    &&& result is Ok && result->Ok_0 is Completed
                    &&& n == (SessionModel { replies: Seq::empty(), ..m })
                } else if pending is None {
                    &&& result is Ok && result->Ok_0 is Held
                    &&& n == (SessionModel { state: SessionState::Held, ..m })
                } else if !m.core.can_change() {
                    &&& result is Err && result->Err_0 == SessionError::Terminal(
                        TerminalError::GenerationOverflow,
                    )
                    &&& n == m
                } else {
                    &&& result is Ok && result->Ok_0 is Held
                    &&& n == (SessionModel {
                        state: SessionState::Held,
                        ..m.committed(SyncFlushReason::SessionEnd, flushed, now)
                    })
                }
            }),
            old(self)@.wf() ==> final(self)@.wf(),
            old(self)@.wf() ==> search_follows(old(self)@, final(self)@),
    {
        if self.hold_after_exit {
            if let Some(sync) = self.core.pending_sync(pending) {
                match self.flush_synchronized_update(
                    sync.epoch,
                    SyncFlushReason::SessionEnd,
                    pending,
                    flushed,
                    now,
                ) {
                    Ok(_) => {},
                    Err(error) => {
                        return Err(error);
                    },
                }
            }
            self.state = SessionState::Held;
            Ok(SessionAction::Held)
        } else {
            self.pending_replies.clear();
            assert(self@.replies =~= Seq::empty());
            Ok(SessionAction::Completed)
        }
    }

    /// Takes what the engine did when it committed the update of `epoch`. Without such an update
    /// nothing changes.
    pub fn flush_synchronized_update(
        &mut self,
        epoch: u64,
        reason: SyncFlushReason,
        pending: Option<SyncStatus>,
        outcome: ParserOutcome,
        now: Instant,
    ) -> (result: Result<(), SessionError>)
        ensures
            ({
                let m = old(self)@;
                if !m.core.owns_update(epoch, pending) {
                    &&& result is Ok
                    &&& final(self)@ == m.audited(ParseAuditDelta::none()).flushed()
                } else if !m.core.can_change() {
                    &&& result is Err && result->Err_0 == SessionError::Terminal(
                        TerminalError::GenerationOverflow,
                    )
                    &&& final(self)@ == m
                } else {
                    result is Ok && final(self)@ == m.committed(reason, outcome, now)
                }
            }),
            old(self)@.wf() ==> final(self)@.wf(),
            old(self)@.wf() ==> search_follows(old(self)@, final(self)@),
    {
        let delta = match self.core.flush_synchronized_update(epoch, reason, pending, outcome) {
            Ok(delta) => delta,
            Err(error) => {
                return Err(SessionError::Terminal(error));
            },
        };
        if delta.dirty {
            self.dirty = true;
            self.search.invalidate(now);
        }
        self.accumulate_audit(delta.audit);
        self.flush_actions();
        Ok(())
    }

    /// The update that is held back, with its epoch.
    pub fn pending_sync(&self, pending: Option<SyncStatus>) -> (result: Option<PendingSync>)
        ensures
            result is Some <==> pending is Some,
            result is Some ==> result->0 == (PendingSync {
                epoch: self@.core.sync_epoch,
                bytes: pending->0.bytes,
                deadline: pending->0.deadline,
            }),
    {
        self.core.pending_sync(pending)
    }
}

impl SessionModel {
    /// A synchronized update was committed.
    pub open spec fn committed(
        self,
        reason: SyncFlushReason,
        outcome: ParserOutcome,
        now: Instant,
    ) -> SessionModel {
        let events = self.core.after_events(outcome.bell, outcome.events@);
        let audit = ParseAuditDelta {
            sync_timeouts: if reason is Timeout {
                1
            } else {
                0
            },
            ..merged_audit(events.audit, outcome.audit, 0, ProtocolAudit::none())
        };
        SessionModel { core: self.core.changed().with_events(events), ..self }.touched(
            true,
            now,
        ).audited(audit).flushed()
    }
}

/// What is done with input: whether the display is to be scrolled to the bottom first.
#[derive(Clone, Copy, Debug, PartialEq, Eq, Structural)]
pub struct InputTaken {
    pub scroll_to_bottom: bool,
}

/// What follows a chunk of input that was handed to the child.
#[derive(Clone, Copy, Debug, PartialEq, Eq, Structural)]
pub enum FlushStep {
    /// More may be handed over, within the budget that is left.
    Continue { budget: usize },
    /// The child takes no more for now.
    Stop,
}

impl SessionModel {
    /// The chunk of input that is next: of the first transaction as much as is allowed at once.
    pub open spec fn next_chunk(self, budget: usize) -> Option<Seq<u8>> {
        if !self.has_process || budget == 0 || self.input.len() == 0 {
            None
        } else {
            Some(self.input[0].take(chunk_len(self.input[0].len(), budget as nat) as int))
        }
    }

    /// The session without the first bytes of its first transaction.
    pub open spec fn written(self, len: int) -> SessionModel {
        let rest = self.input[0].skip(len);
        SessionModel {
            input: if rest.len() == 0 {
                self.input.skip(1)
            } else {
                self.input.update(0, rest)
            },
            input_bytes: (self.input_bytes - len) as usize,
            ..self
        }
    }

    /// The display goes back to the bottom, where the user types.
    pub open spec fn viewport_restored(self, display_offset: usize) -> SessionModel {
        SessionModel {
            core: if display_offset == 0 {
                self.core
            } else {
                CoreModel { generation: (self.core.generation + 1) as u64, ..self.core }
            },
            dirty: true,
            ..self
        }
    }

    /// Whether the display cannot go back to the bottom: its generations are used up.
    pub open spec fn cannot_restore(self, display_offset: usize) -> bool {
        display_offset != 0 && self.core.generation == u64::MAX
    }
}

/// How much of a transaction is handed over at once.
pub open spec fn chunk_len(len: nat, budget: nat) -> nat {
    let chunk = if len <= INPUT_CHUNK_BYTES {
        len
    } else {
        INPUT_CHUNK_BYTES as nat
    };
    if chunk <= budget {
        chunk
    } else {
        budget
    }
}

/// What became of a transaction.
pub open spec fn queue_outcome(
    m: SessionModel,
    n: SessionModel,
    result: Result<(), SessionError>,
    class: QueueClass,
    bytes: Seq<u8>,
    worker_bytes: usize,
) -> bool {
    if m.refuses(class, bytes, worker_bytes) {
        result is Err && result->Err_0 is InputCapacityExceeded && n == m
    } else {
        result is Ok && n == m.queued(bytes)
    }
}

impl TerminalSession {
    /// Puts a transaction at the end of the input. The child has not taken `worker_bytes` yet of
    /// what was handed to it before.
    pub fn queue_transaction(&mut self, class: QueueClass, bytes: Vec<u8>, worker_bytes: usize) -> (
    result: Result<(), SessionError>)
        requires
            old(self)@.wf(),
        ensures
            queue_outcome(old(self)@, final(self)@, result, class, bytes@, worker_bytes),
            final(self)@.wf(),
    {
        match self.state {
            SessionState::Held
            | SessionState::Failed
            | SessionState::Closing
            | SessionState::Closed => {
                return Ok(());
            },
            _ => {},
        }
        if bytes.len() == 0 {
            return Ok(());
        }
        let limit: usize = queue_class_limit(class, self.max_outstanding);
        let next: usize = match self.pending_input_bytes.checked_add(bytes.len()) {
            Some(next) => next,
            None => {
                return Err(SessionError::InputCapacityExceeded);
            },
        };
        match next.checked_add(worker_bytes) {
            Some(total) => {
                if total > limit {
                    return Err(SessionError::InputCapacityExceeded);
                }
            },
            None => {
                return Err(SessionError::InputCapacityExceeded);
            },
        }
        let ghost before = self.pending_input@;
        let ghost content = bytes@;
        self.pending_input_bytes = next;
        self.pending_input.push_back(bytes);
        proof {
            assert(input_view(self.pending_input@) =~= input_view(before).push(content));
            joined_push(input_view(before), content);
            assert forall|i: int| 0 <= i < self@.input.len() implies (#[trigger] self@.input[i]).len()
                > 0 by {
                if i < before.len() {
                    assert(self@.input[i] == old(self)@.input[i]);
                }
            }
        }
        Ok(())
    }

    pub fn queue_input(&mut self, bytes: Vec<u8>, worker_bytes: usize) -> (result: Result<
        (),
        SessionError,
    >)
        requires
            old(self)@.wf(),
        ensures
            queue_outcome(
                old(self)@,
                final(self)@,
                result,
                QueueClass::Interactive,
                bytes@,
                worker_bytes,
            ),
            final(self)@.wf(),
    {
        self.queue_transaction(QueueClass::Interactive, bytes, worker_bytes)
    }

    /// The chunk of input that is handed to the child next.
    pub fn next_chunk(&self, budget: usize) -> (result: Option<Vec<u8>>)
        requires
            self@.wf(),
        ensures
            match self@.next_chunk(budget) {
                Some(chunk) => result is Some && result->0@ == chunk && chunk.len() > 0,
                None => result is None,
            },
    {
        if !self.has_process || budget == 0 || self.pending_input.len() == 0 {
            return None;
        }
        let front = &self.pending_input[0];
        assert(self@.input[0] == front@);
        let mut len: usize = front.len();
        if len > INPUT_CHUNK_BYTES {
            len = INPUT_CHUNK_BYTES;
        }
        if len > budget {
            len = budget;
        }
        let chunk = vstd::slice::slice_subrange(front.as_slice(), 0, len);
        assert(chunk@ =~= front@.take(len as int));
        Some(vstd::slice::slice_to_vec(chunk))
    }

    /// Takes how the child took the chunk that was next under `budget`.
    pub fn take_write_status(&mut self, status: WriteStatus, budget: usize) -> (result: Result<
        FlushStep,
        SessionError,
    >)
        requires
            old(self)@.wf(),
            old(self)@.next_chunk(budget) is Some,
        ensures
            ({
                let len = old(self)@.next_chunk(budget)->0.len() as int;
                match status {
                    WriteStatus::Accepted => {
                        &&& result is Ok && result->Ok_0 == (FlushStep::Continue {
                            budget: (budget - len) as usize,
                        })
                        &&& final(self)@ == old(self)@.written(len)
                    },
                    WriteStatus::WouldBlock => {
                        result is Ok && result->Ok_0 is Stop && final(self)@ == old(self)@
                    },
                    WriteStatus::Closed => {
                        result is Err && result->Err_0 is InputClosed && final(self)@ == old(self)@
                    },
                }
            }),
            final(self)@.wf(),
    {
        match status {
            WriteStatus::WouldBlock => {
                return Ok(FlushStep::Stop);
            },
            WriteStatus::Closed => {
                return Err(SessionError::InputClosed);
            },
            WriteStatus::Accepted => {},
        }
        let ghost m = self@;
        let ghost before = self.pending_input@;
        let front = match self.pending_input.pop_front() {
            Some(front) => front,
            None => {
                return Ok(FlushStep::Stop);
            },
        };
        let mut len: usize = front.len();
        if len > INPUT_CHUNK_BYTES {
            len = INPUT_CHUNK_BYTES;
        }
        if len > budget {
            len = budget;
        }
        proof {
            written_keeps_wf(m, len as int);
            assert(m.input[0] == front@);
        }
        self.pending_input_bytes = self.pending_input_bytes - len;
        if len < front.len() {
            let rest = vstd::slice::slice_to_vec(
                vstd::slice::slice_subrange(front.as_slice(), len, front.len()),
            );
            assert(rest@ =~= front@.skip(len as int));
            self.pending_input.push_front(rest);
            assert(input_view(self.pending_input@) =~= m.written(len as int).input);
        } else {
            assert(front@.skip(len as int).len() == 0);
            assert(input_view(self.pending_input@) =~= m.written(len as int).input);
        }
        Ok(FlushStep::Continue { budget: budget - len })
    }

    fn restore_viewport_after_input(&mut self, display_offset: usize) -> (result: Result<
        InputTaken,
        SessionError,
    >)
        requires
            old(self)@.wf(),
        ensures
            if old(self)@.cannot_restore(display_offset) {
                &&& result is Err && result->Err_0 == SessionError::Terminal(
                    TerminalError::GenerationOverflow,
                )
                &&& final(self)@ == old(self)@
            } else {
                &&& result is Ok && result->Ok_0.scroll_to_bottom == (display_offset != 0)
                &&& final(self)@ == old(self)@.viewport_restored(display_offset)
            },
            final(self)@.wf(),
    {
        match self.core.scroll_to_bottom(display_offset) {
            Ok(scroll_to_bottom) => {
                self.dirty = true;
                Ok(InputTaken { scroll_to_bottom })
            },
            Err(error) => Err(SessionError::Terminal(error)),
        }
    }

    fn type_bytes(
        &mut self,
        class: QueueClass,
        bytes: Vec<u8>,
        display_offset: usize,
        worker_bytes: usize,
    ) -> (result: Result<InputTaken, SessionError>)
        requires
            old(self)@.wf(),
        ensures
            typed(
                old(self)@,
                final(self)@,
                result,
                class,
                Ok(bytes@),
                display_offset,
                worker_bytes,
            ),
            final(self)@.wf(),
    {
        let taken = match self.restore_viewport_after_input(display_offset) {
            Ok(taken) => taken,
            Err(error) => {
                return Err(error);
            },
        };
        match self.queue_transaction(class, bytes, worker_bytes) {
            Ok(_) => Ok(taken),
            Err(error) => Err(error),
        }
    }

    /// A key was pressed.
    pub fn input_key(
        &mut self,
        key: TerminalKey,
        modifiers: Modifiers,
        mode: EngineModes,
        display_offset: usize,
        worker_bytes: usize,
    ) -> (result: Result<InputTaken, SessionError>)
        requires
            old(self)@.wf(),
        ensures
            typed(
                old(self)@,
                final(self)@,
                result,
                QueueClass::Interactive,
                key_seq(key, modifiers, terminal_modes(mode, old(self)@.core.keyboard.state())),
                display_offset,
                worker_bytes,
            ),
            final(self)@.wf(),
    {
        match encode_key(key, modifiers, self.core.input_modes(mode)) {
            Ok(bytes) => self.type_bytes(
                QueueClass::Interactive,
                bytes,
                display_offset,
                worker_bytes,
            ),
            Err(error) => Err(SessionError::Input(error)),
        }
    }

    /// Text was typed.
    pub fn commit_text(&mut self, text: &str, display_offset: usize, worker_bytes: usize) -> (result:
        Result<InputTaken, SessionError>)
        requires
            old(self)@.wf(),
        ensures
            typed(
                old(self)@,
                final(self)@,
                result,
                QueueClass::Interactive,
                if encode_utf8(text@).len() > MAX_COMMIT_BYTES || encode_utf8(text@).contains(0) {
                    Err(InputError::Capacity)
                } else {
                    Ok(encode_utf8(text@))
                },
                display_offset,
                worker_bytes,
            ),
            final(self)@.wf(),
    {
        match commit_text(text) {
            Ok(bytes) => self.type_bytes(
                QueueClass::Interactive,
                bytes,
                display_offset,
                worker_bytes,
            ),
            Err(error) => Err(SessionError::Input(error)),
        }
    }

    /// Text was pasted.
    pub fn paste(
        &mut self,
        text: &str,
        mode: EngineModes,
        display_offset: usize,
        worker_bytes: usize,
    ) -> (result: Result<InputTaken, SessionError>)
        requires
            old(self)@.wf(),
        ensures
            typed(
                old(self)@,
                final(self)@,
                result,
                QueueClass::Bulk,
                paste_seq(encode_utf8(text@), mode.bracketed_paste),
                display_offset,
                worker_bytes,
            ),
            final(self)@.wf(),
    {
        match paste_transaction(text, mode.bracketed_paste) {
            Ok(bytes) => self.type_bytes(QueueClass::Bulk, bytes, display_offset, worker_bytes),
            Err(error) => Err(SessionError::Input(error)),
        }
    }

    /// The window gained or lost the focus.
    pub fn focus_changed(&mut self, focused: bool, mode: EngineModes, worker_bytes: usize) -> (result:
        Result<(), SessionError>)
        requires
            old(self)@.wf(),
        ensures
            if mode.focus_in_out {
                queue_outcome(
                    old(self)@,
                    final(self)@,
                    result,
                    QueueClass::Interactive,
                    seq![27u8, 91, if focused { 73u8 } else { 79u8 }],
                    worker_bytes,
                )
            } else {
                result is Ok && final(self)@ == old(self)@
            },
            final(self)@.wf(),
    {
        match encode_focus(focused, self.core.input_modes(mode)) {
            Some(bytes) => self.queue_transaction(QueueClass::Interactive, bytes, worker_bytes),
            None => Ok(()),
        }
    }

    /// The pointer moved, or one of its buttons. Tells whether that was reported to the program.
    pub fn pointer_report(
        &mut self,
        button: MouseButton,
        state: ButtonState,
        column: u16,
        line: u16,
        modifiers: Modifiers,
        mode: EngineModes,
        worker_bytes: usize,
    ) -> (result: Result<bool, SessionError>)
        requires
            old(self)@.wf(),
        ensures
            ({
                let modes = terminal_modes(mode, old(self)@.core.keyboard.state());
                reported(
                    old(self)@,
                    final(self)@,
                    result,
                    mouse_seq(button, state, column, line, modifiers, modes),
                    worker_bytes,
                )
            }),
            final(self)@.wf(),
    {
        match encode_mouse(button, state, column, line, modifiers, self.core.input_modes(mode)) {
            Ok(Some(bytes)) => match self.queue_transaction(
                QueueClass::Interactive,
                bytes,
                worker_bytes,
            ) {
                Ok(_) => Ok(true),
                Err(error) => Err(error),
            },
            Ok(None) => Ok(false),
            Err(error) => Err(SessionError::Input(error)),
        }
    }

    /// The wheel was turned. Tells whether the program gets cursor keys for that.
    pub fn alternate_scroll(&mut self, lines: i32, mode: EngineModes, worker_bytes: usize) -> (result:
        Result<bool, SessionError>)
        requires
            old(self)@.wf(),
        ensures
            ({
                let modes = terminal_modes(mode, old(self)@.core.keyboard.state());
                let keys = crate::terminal::input::repeated(
                    crate::terminal::input::cursor_seq(
                        if lines > 0 {
                            65
                        } else {
                            66
                        },
                        modes.application_cursor,
                        Modifiers::none(),
                    ),
                    crate::terminal::input::scroll_count(lines),
                );
                reported(
                    old(self)@,
                    final(self)@,
                    result,
                    if lines != 0 && modes.mouse_protocol is Off && modes.alternate_screen
                        && modes.alternate_scroll {
                        Ok(Some(keys))
                    } else {
                        Ok(None)
                    },
                    worker_bytes,
                )
            }),
            final(self)@.wf(),
    {
        match encode_alternate_scroll(lines, self.core.input_modes(mode)) {
            Some(bytes) => match self.queue_transaction(
                QueueClass::Interactive,
                bytes,
                worker_bytes,
            ) {
                Ok(_) => Ok(true),
                Err(error) => Err(error),
            },
            None => Ok(false),
        }
    }

    /// Hands out the replies that the terminal owes.
    pub fn take_reply_requests(&mut self) -> (result: Vec<SessionReplyRequest>)
        ensures
            replies_view(result@) == old(self)@.replies,
            final(self)@ == (SessionModel { replies: Seq::empty(), ..old(self)@ }),
            old(self)@.wf() ==> final(self)@.wf(),
    {
        let mut replies: Vec<SessionReplyRequest> = Vec::new();
        core::mem::swap(&mut self.pending_replies, &mut replies);
        assert(self@.replies =~= Seq::empty());
        replies
    }

    fn note_reply_rejected(&mut self, is_query: bool)
        ensures
            final(self)@ == old(self)@.reply_refused(is_query),
            old(self)@.wf() ==> final(self)@.wf(),
    {
        if is_query {
            self.security_audit.query_rejected =
            self.security_audit.query_rejected.saturating_add(1);
        } else {
            self.security_audit.rejected_actions =
            self.security_audit.rejected_actions.saturating_add(1);
        }
    }

    pub fn reject_query_reply(&mut self)
        ensures
            final(self)@ == old(self)@.reply_refused(true),
            old(self)@.wf() ==> final(self)@.wf(),
    {
        self.note_reply_rejected(true);
    }

    /// Sends a reply, within the budget of a round and the room for input. Tells whether it was
    /// sent.
    pub fn answer_reply(&mut self, reply: Vec<u8>, is_query: bool, worker_bytes: usize) -> (result:
        bool)
        requires
            old(self)@.wf(),
        ensures
            result == old(self)@.answers(reply@, is_query, worker_bytes),
            result ==> final(self)@.input == old(self)@.queued(reply@).input,
            result ==> final(self)@.reply_budget == old(self)@.reply_budget - reply@.len(),
            !result ==> final(self)@.input == old(self)@.input,
            ({
                let m = old(self)@;
                let len = reply@.len();
                if (is_query && len > MAX_QUERY_REPLY_BYTES) || len > m.reply_budget || m.refuses(
                    QueueClass::ParserReply,
                    reply@,
                    worker_bytes,
                ) {
                    !result && final(self)@ == m.reply_refused(is_query)
                } else {
                    let sent = SessionModel {
                        reply_budget: (m.reply_budget - len) as usize,
                        ..m.queued(reply@)
                    };
                    &&& result
                    &&& final(self)@ == (if is_query {
                        SessionModel {
                            audit: ParseAuditDelta {
                                reply_bytes: capped_size(m.audit.reply_bytes, len as usize),
                                query_replies: capped(m.audit.query_replies, 1),
                                ..m.audit
                            },
                            ..sent
                        }
                    } else {
                        sent
                    })
                }
            }),
            final(self)@.wf(),
    {
        let len: usize = reply.len();
        if (is_query && len > MAX_QUERY_REPLY_BYTES) || len > self.reply_budget_remaining {
            self.note_reply_rejected(is_query);
            return false;
        }
        match self.queue_transaction(QueueClass::ParserReply, reply, worker_bytes) {
            Ok(_) => {
                self.reply_budget_remaining = self.reply_budget_remaining - len;
                if is_query {
                    self.security_audit.reply_bytes =
                    self.security_audit.reply_bytes.saturating_add(len);
                    self.security_audit.query_replies =
                    self.security_audit.query_replies.saturating_add(1);
                }
                true
            },
            Err(_) => {
                self.note_reply_rejected(is_query);
                false
            },
        }
    }

    pub fn reset_reply_budget(&mut self)
        ensures
            final(self)@ == (SessionModel { reply_budget: MAX_PTY_REPLY_BYTES, ..old(self)@ }),
            old(self)@.wf() ==> final(self)@.wf(),
    {
        self.reply_budget_remaining = MAX_PTY_REPLY_BYTES;
    }

    /// Hands out the latest change of the title.
    pub fn take_title(&mut self) -> (result: Option<SessionTitleDelta>)
        ensures
            title_view(result) == old(self)@.title,
            final(self)@ == (SessionModel { title: None, ..old(self)@ }),
            old(self)@.wf() ==> final(self)@.wf(),
    {
        self.pending_title.take()
    }

    /// Hands out the latest report of the working directory.
    pub fn take_cwd_report(&mut self) -> (result: Option<CwdReport>)
        ensures
            pending_view(result) == old(self)@.cwd.pending,
            final(self)@ == (SessionModel {
                cwd: CwdModel { pending: None, ..old(self)@.cwd },
                ..old(self)@
            }),
            old(self)@.wf() ==> final(self)@.wf(),
    {
        self.cwd_tracker.take_report()
    }

    /// Whether the bell rang since this was last asked.
    pub fn take_bell(&mut self) -> (result: bool)
        ensures
            result == old(self)@.bell,
            final(self)@ == (SessionModel { bell: false, ..old(self)@ }),
            old(self)@.wf() ==> final(self)@.wf(),
    {
        let bell = self.pending_bell;
        self.pending_bell = false;
        bell
    }

    /// Whether the bell of this session may have an effect: its child is alive.
    pub fn bell_effects_allowed(&self) -> (result: bool)
        ensures
            result == (self@.state is Running && self@.exited is None),
    {
        self.state == SessionState::Running && self.exited.is_none()
    }

    pub fn state(&self) -> (result: SessionState)
        ensures
            result == self@.state,
    {
        self.state
    }

    pub fn grid(&self) -> (result: GridSize)
        ensures
            result == self@.core.size,
    {
        self.core.size()
    }

    pub fn security_audit(&self) -> (result: ParseAuditDelta)
        ensures
            result == self@.audit,
    {
        self.security_audit
    }

    pub fn shutdown_deadline(&self) -> (result: Option<Instant>)
        ensures
            result == self@.deadline,
    {
        self.shutdown_deadline
    }

    pub fn input_modes(&self, mode: EngineModes) -> (result: TerminalModes)
        ensures
            result == terminal_modes(mode, self@.core.keyboard.state()),
    {
        self.core.input_modes(mode)
    }

    /// The connection to the child is lost: what waits for it is dropped.
    pub fn mark_failed(&mut self)
        ensures
            final(self)@ == (SessionModel {
                state: SessionState::Failed,
                input: Seq::empty(),
                input_bytes: 0,
                ..old(self)@
            }),
            old(self)@.wf() ==> final(self)@.wf(),
    {
        self.state = SessionState::Failed;
        self.pending_input.clear();
        self.pending_input_bytes = 0;
        assert(self@.input =~= Seq::empty());
    }

    /// Begins to shut the session down, once. Tells whether it did: then an update that is held
    /// back is dropped and the child is asked to end.
    pub fn begin_shutdown(&mut self, now: Instant) -> (result: bool)
        ensures
            result == old(self)@.can_shut_down(),
            final(self)@ == old(self)@.shutting_down(now),
            old(self)@.wf() ==> final(self)@.wf(),
    {
        if self.shutdown_deadline.is_some() || self.state == SessionState::Closed {
            return false;
        }
        self.state = SessionState::Closing;
        self.pending_input.clear();
        self.pending_input_bytes = 0;
        self.pending_replies.clear();
        assert(self@.input =~= Seq::empty());
        assert(self@.replies =~= Seq::empty());
        self.shutdown_deadline = Some(now.saturating_add(SHUTDOWN_DEADLINE));
        true
    }

    /// Looks whether a session that is being shut down is done: its child is gone, or was joined
    /// just now, or has run out of time.
    pub fn poll_shutdown(&mut self, now: Instant, joined: bool) -> (result: ShutdownPoll)
        ensures
            (final(self)@, result) == old(self)@.polled(now, joined),
            ({
                let m = old(self)@;
                let closed = SessionModel {
                    has_process: false,
                    state: SessionState::Closed,
                    deadline: None,
                    ..m
                };
                match m.deadline {
                    None => result is Pending && final(self)@ == m,
                    Some(deadline) => if !m.has_process || joined {
                        result is Complete && final(self)@ == closed
                    } else if now.nanos >= deadline.nanos {
                        result is TimedOut && final(self)@ == closed
                    } else {
                        result is Pending && final(self)@ == m
                    },
                }
            }),
            old(self)@.wf() ==> final(self)@.wf(),
    {
        let deadline = match self.shutdown_deadline {
            Some(deadline) => deadline,
            None => {
                return ShutdownPoll::Pending;
            },
        };
        let done = !self.has_process || joined;
        if !done && now.nanos < deadline.nanos {
            return ShutdownPoll::Pending;
        }
        self.has_process = false;
        self.state = SessionState::Closed;
        self.shutdown_deadline = None;
        if done {
            ShutdownPoll::Complete
        } else {
            ShutdownPoll::TimedOut
        }
    }
}

/// What became of input by hand: it is encoded, the display goes back to the bottom, and the
/// bytes are queued.
pub open spec fn typed(
    m: SessionModel,
    n: SessionModel,
    result: Result<InputTaken, SessionError>,
    class: QueueClass,
    encoded: Result<Seq<u8>, InputError>,
    display_offset: usize,
    worker_bytes: usize,
) -> bool {
    match encoded {
        Err(error) => result is Err && result->Err_0 == SessionError::Input(error) && n == m,
        Ok(bytes) => if m.cannot_restore(display_offset) {
            &&& result is Err && result->Err_0 == SessionError::Terminal(
                TerminalError::GenerationOverflow,
            )
            &&& n == m
        } else if m.refuses(class, bytes, worker_bytes) {
            &&& result is Err && result->Err_0 is InputCapacityExceeded
            &&& n == m.viewport_restored(display_offset)
        } else {
            &&& result is Ok && result->Ok_0.scroll_to_bottom == (display_offset != 0)
            &&& n == m.viewport_restored(display_offset).queued(bytes)
        },
    }
}

/// What became of a report to the program: where there is one, its bytes are queued.
pub open spec fn reported(
    m: SessionModel,
    n: SessionModel,
    result: Result<bool, SessionError>,
    encoded: Result<Option<Seq<u8>>, InputError>,
    worker_bytes: usize,
) -> bool {
    match encoded {
        Err(error) => result is Err && result->Err_0 == SessionError::Input(error) && n == m,
        Ok(None) => result is Ok && !result->Ok_0 && n == m,
        Ok(Some(bytes)) => if m.refuses(QueueClass::Interactive, bytes, worker_bytes) {
            result is Err && result->Err_0 is InputCapacityExceeded && n == m
        } else {
            result is Ok && result->Ok_0 && n == m.queued(bytes)
        },
    }
}

/// Input reaches the child in order and without loss: what is handed over, followed by what still
/// waits, is what waited before.
pub proof fn input_keeps_its_order(m: SessionModel, budget: usize)
    requires
        m.wf(),
        m.next_chunk(budget) is Some,
    ensures
        ({
            let chunk = m.next_chunk(budget)->0;
            joined(m.input) == chunk + joined(m.written(chunk.len() as int).input)
        }),
{
    let chunk = m.next_chunk(budget)->0;
    written_keeps_wf(m, chunk.len() as int);
}

proof fn written_keeps_wf(m: SessionModel, len: int)
    requires
        m.wf(),
        m.input.len() > 0,
        0 < len <= m.input[0].len(),
    ensures
        m.written(len).wf(),
        joined(m.input) == m.input[0].take(len) + joined(m.written(len).input),
{
    let front = m.input[0];
    let rest = front.skip(len);
    let n = m.written(len);
    let others = m.input.skip(1);
    assert(front =~= front.take(len) + rest);
    if rest.len() == 0 {
        assert(front.take(len) =~= front);
        assert(joined(m.input) =~= front.take(len) + joined(n.input));
        assert forall|i: int| 0 <= i < n.input.len() implies (#[trigger] n.input[i]).len() > 0 by {
            assert(n.input[i] == m.input[i + 1]);
        }
    } else {
        assert(n.input.skip(1) =~= others);
        assert(joined(m.input) =~= front.take(len) + joined(n.input));
        assert forall|i: int| 0 <= i < n.input.len() implies (#[trigger] n.input[i]).len() > 0 by {
            if i > 0 {
                assert(n.input[i] == m.input[i]);
            }
        }
    }
}

/// Pastes and replies can never use up the room that is kept for what the user types: where they
/// are let in, the reserve is still free.
pub proof fn typing_keeps_its_reserve(m: SessionModel, bytes: Seq<u8>, worker_bytes: usize)
    requires
        m.wf(),
        m.has_room(QueueClass::Bulk, bytes.len(), worker_bytes) || m.has_room(
            QueueClass::ParserReply,
            bytes.len(),
            worker_bytes,
        ),
    ensures
        m.input_bytes + bytes.len() + worker_bytes + INTERACTIVE_INPUT_RESERVE <= m.max_outstanding,
        forall|typed: nat|
            typed <= INTERACTIVE_INPUT_RESERVE ==> #[trigger] m.has_room(
                QueueClass::Interactive,
                bytes.len() + typed,
                worker_bytes,
            ),
{
}

/// The order in which the exit of the child and the end of its output are seen does not matter,
/// and only both together complete a session.
pub proof fn completion_needs_exit_and_end_of_output(m: SessionModel, exit: ChildExit)
    ensures
        ({
            let exited = SessionModel { exited: Some(exit), ..m };
            let ended = SessionModel { read_closed: true, ..m };
            let both = SessionModel { read_closed: true, ..exited };
            &&& both == (SessionModel { exited: Some(exit), ..ended })
            &&& both.natural_state() is Completed
            &&& m.exited is None && !m.read_closed ==> !(exited.natural_state() is Completed) && !(
            ended.natural_state() is Completed)
        }),
{
}

impl TerminalSession {
    pub fn terminal(&self) -> (result: &TerminalCoreAdapter)
        ensures
            result@ == self@.core,
    {
        &self.core
    }

    pub fn search(&self) -> (result: &SearchController)
        ensures
            result@ == self@.search,
    {
        &self.search
    }

    /// Takes new dimensions. Tells whether the child is to be told: it may still be writing.
    pub fn resize(&mut self, size: GridSize, now: Instant) -> (result: Result<bool, SessionError>)
        ensures
            ({
                let m = old(self)@;
                if size == m.core.size {
                    &&& result is Ok
                    &&& final(self)@ == (SessionModel { dirty: true, ..m })
                } else if !m.core.can_change() {
                    &&& result is Err && result->Err_0 == SessionError::Terminal(
                        TerminalError::GenerationOverflow,
                    )
                    &&& final(self)@ == (SessionModel {
                        core: CoreModel { size, ..m.core },
                        ..m
                    })
                } else {
                    &&& result is Ok
                    &&& final(self)@ == SessionModel {
                        core: CoreModel { size, ..m.core.changed() },
                        ..m
                    }.touched(true, now)
                }
            }),
            result is Ok ==> result->Ok_0 == (old(self)@.has_process && (old(self)@.state is Running
                || old(self)@.state is ExitObserved || old(self)@.state is ReadClosed)),
            old(self)@.wf() && size.wf() ==> final(self)@.wf(),
            old(self)@.wf() && result is Ok ==> search_follows(old(self)@, final(self)@),
    {
        match self.core.resize(size) {
            Ok(delta) => {
                if delta.dirty {
                    self.search.invalidate(now);
                }
            },
            Err(error) => {
                return Err(SessionError::Terminal(error));
            },
        }
        self.dirty = true;
        let writing = match self.state {
            SessionState::Running | SessionState::ExitObserved | SessionState::ReadClosed => true,
            _ => false,
        };
        Ok(writing && self.has_process)
    }

    /// What the display shows, if that has changed since this was last asked.
    pub fn snapshot_if_dirty(
        &mut self,
        screen: &TerminalScreen,
        cursor: EngineCursor,
        mode: EngineModes,
    ) -> (result: Result<Option<FrameSnapshot>, SessionError>)
        requires
            screen.wf(),
        ensures
            result is Ok,
            result->Ok_0 is Some <==> old(self)@.dirty,
            result->Ok_0 is Some ==> result->Ok_0->0.wf() && captures(
                &result->Ok_0->0,
                old(self).core_spec(),
                screen,
                cursor,
                mode,
            ),
            final(self)@ == (SessionModel { dirty: false, ..old(self)@ }),
    {
        if !self.dirty {
            return Ok(None);
        }
        match self.core.snapshot(screen, cursor, mode) {
            Ok(snapshot) => {
                self.dirty = false;
                Ok(Some(snapshot))
            },
            Err(error) => Err(SessionError::Terminal(error)),
        }
    }

    /// The terminal of this session.
    pub closed spec fn core_spec(&self) -> &TerminalCoreAdapter {
        &self.core
    }

    /// A selection starts at, or extends to, a visible cell; the engine does so at the point that
    /// is returned.
    pub fn select_at(&mut self, point: SelectionPoint, display_offset: usize) -> (result: Result<
        GridPoint,
        SessionError,
    >)
        requires
            old(self)@.wf(),
            display_offset <= MAX_HISTORY_LINES,
        ensures
            ({
                let m = old(self)@;
                match m.core.point_under(point, display_offset as int) {
                    None => {
                        &&& result is Err && result->Err_0 == SessionError::Terminal(
                            TerminalError::SelectionPoint,
                        )
                        &&& final(self)@ == m
                    },
                    Some(under) => if m.core.selection_revision == u64::MAX {
                        &&& result is Err && result->Err_0 == SessionError::Terminal(
                            TerminalError::GenerationOverflow,
                        )
                        &&& final(self)@ == m
                    } else {
                        &&& result is Ok && result->Ok_0 == under
                        &&& final(self)@ == (SessionModel {
                            core: CoreModel {
                                selection_revision: (m.core.selection_revision + 1) as u64,
                                ..m.core
                            },
                            dirty: true,
                            ..m
                        })
                    },
                }
            }),
            old(self)@.wf() ==> final(self)@.wf(),
    {
        match self.core.select_at(point, display_offset) {
            Ok(point) => {
                self.dirty = true;
                Ok(point)
            },
            Err(error) => Err(SessionError::Terminal(error)),
        }
    }

    /// The selection is dropped.
    pub fn clear_selection(&mut self) -> (result: Result<(), SessionError>)
        ensures
            ({
                let m = old(self)@;
                if m.core.selection_revision == u64::MAX {
                    &&& result is Err && result->Err_0 == SessionError::Terminal(
                        TerminalError::GenerationOverflow,
                    )
                    &&& final(self)@ == m
                } else {
                    &&& result is Ok
                    &&& final(self)@ == (SessionModel {
                        core: CoreModel {
                            selection_revision: (m.core.selection_revision + 1) as u64,
                            ..m.core
                        },
                        dirty: true,
                        ..m
                    })
                }
            }),
            old(self)@.wf() ==> final(self)@.wf(),
    {
        match self.core.clear_selection() {
            Ok(_) => {
                self.dirty = true;
                Ok(())
            },
            Err(error) => Err(SessionError::Terminal(error)),
        }
    }

    /// The selected cells of a frame.
    pub fn selection_overlay(
        &self,
        generation: u64,
        range: Option<SelectionRange>,
        display_offset: usize,
    ) -> (result: SelectionOverlay)
        requires
            self@.wf(),
            display_offset <= MAX_HISTORY_LINES,
        ensures
            result.snapshot_generation == generation,
            result.revision == self@.core.selection_revision,
            result.ranges@.len() <= 1,
            range is None ==> result.ranges@.len() == 0,
            range is Some ==> {
                let lines = self@.core.size.lines as int;
                let start = crate::terminal::adapter::visible_cell(
                    range->0.start.line as int,
                    range->0.start.column as int,
                    display_offset as int,
                    lines,
                    65_536,
                );
                let end = crate::terminal::adapter::visible_cell(
                    range->0.end.line as int,
                    range->0.end.column as int,
                    display_offset as int,
                    lines,
                    65_536,
                );
                &&& result.ranges@.len() == 1 <==> start is Some && end is Some
                &&& result.ranges@.len() == 1 ==> result.ranges@[0].start@ == seq![
                    (start->0).0,
                    (start->0).1,
                ] && result.ranges@[0].end@ == seq![(end->0).0, (end->0).1]
            },
    {
        let selection = self.core.projected_selection(range, display_offset);
        selection_overlay(generation, self.core.selection_revision(), selection)
    }

    /// The matches of the search in a frame, while its dialog is open.
    pub fn search_overlay(&self, snapshot: &FrameSnapshot) -> (result: Option<SearchOverlay>)
        requires
            snapshot.grid.wf(),
        ensures
            result is Some <==> self@.search.open,
            result is Some ==> {
                let overlay = result->0;
                &&& overlay.snapshot_generation == snapshot.generation
                &&& overlay.content_revision == snapshot.content_revision
                &&& overlay.revision == self@.search.revision
                &&& ranges_view(overlay.current@) == (match self@.search.current {
                    Some(value) => match_ranges(snapshot, value),
                    None => Seq::empty(),
                })
                &&& ranges_view(overlay.others@) == add_matches(
                    snapshot,
                    Seq::empty(),
                    self@.search.matches,
                    self@.search.current,
                )
            },
    {
        search_overlay(&self.search, snapshot)
    }

    /// The display is scrolled by hand.
    pub fn scroll(&mut self) -> (result: Result<(), SessionError>)
        ensures
            ({
                let m = old(self)@;
                if m.core.generation == u64::MAX {
                    &&& result is Err && result->Err_0 == SessionError::Terminal(
                        TerminalError::GenerationOverflow,
                    )
                    &&& final(self)@ == m
                } else {
                    &&& result is Ok
                    &&& final(self)@ == (SessionModel {
                        core: CoreModel { generation: (m.core.generation + 1) as u64, ..m.core },
                        dirty: true,
                        ..m
                    })
                }
            }),
            old(self)@.wf() ==> final(self)@.wf(),
    {
        match self.core.scroll_display() {
            Ok(_) => {
                self.dirty = true;
                Ok(())
            },
            Err(error) => Err(SessionError::Terminal(error)),
        }
    }

    /// The display is scrolled to an offset. Tells by how many lines.
    pub fn scroll_to_display_offset(&mut self, offset: usize, history_size: usize, current: usize) -> (
    result: Result<Option<i32>, SessionError>)
        requires
            history_size <= MAX_HISTORY_LINES,
            current <= history_size,
        ensures
            scrolled(
                old(self)@,
                final(self)@,
                result,
                offset as int,
                history_size as int,
                current as int,
            ),
            old(self)@.wf() ==> final(self)@.wf(),
    {
        match self.core.scroll_to_display_offset(offset, history_size, current) {
            Ok(delta) => {
                self.dirty = true;
                Ok(delta)
            },
            Err(error) => Err(SessionError::Terminal(error)),
        }
    }

    pub fn open_search(&mut self, now: Instant) -> (result: SearchEffect)
        ensures
            final(self)@ == (SessionModel {
                search: old(self)@.search.opened(now).search,
                ..old(self)@
            }),
            result == old(self)@.search.opened(now).effect,
            old(self)@.wf() ==> final(self)@.wf(),
    {
        self.search.open(now)
    }

    pub fn edit_search(&mut self, edit: SearchEdit<'_>, now: Instant) -> (result: SearchEffect)
        ensures
            final(self)@ == (SessionModel {
                search: old(self)@.search.edited(edit, now).search,
                ..old(self)@
            }),
            result == old(self)@.search.edited(edit, now).effect,
            old(self)@.wf() ==> final(self)@.wf(),
    {
        self.search.edit(edit, now)
    }

    pub fn cancel_search(&mut self) -> (result: SearchEffect)
        ensures
            final(self)@ == (SessionModel {
                search: old(self)@.search.cancelled().search,
                ..old(self)@
            }),
            result == old(self)@.search.cancelled().effect,
            old(self)@.wf() ==> final(self)@.wf(),
    {
        self.search.cancel()
    }

    /// Moves to another match. Where the display is to be scrolled to show it, tells by how many
    /// lines.
    pub fn navigate_search(
        &mut self,
        direction: SearchDirection,
        screen: &TerminalScreen,
        now: Instant,
    ) -> (result: Result<(SearchEffect, Option<i32>), SessionError>)
        requires
            old(self)@.wf(),
            screen.wf(),
        ensures
            exists|effect: SearchEffect|
                #[trigger] moved_to(
                    old(self)@.search,
                    final(self)@.search,
                    effect,
                    direction,
                    old(self)@.core,
                    screen,
                    now,
                ) && after_search_effect(old(self)@, final(self)@, result, effect, screen),
            final(self)@.wf(),
            ({
                let content = old(self)@.core.content_id(screen.alternate);
                old(self)@.search.tracks(content, screen) ==> final(self)@.search.tracks(
                    content,
                    screen,
                )
            }),
            final(self)@.core.content_id(screen.alternate) == old(self)@.core.content_id(
                screen.alternate,
            ),
    {
        let ghost m = self@;
        let effect = self.search.navigate(direction, &self.core, screen, now);
        assert(moved_to(m.search, self@.search, effect, direction, m.core, screen, now));
        self.apply_search_effect(effect, screen)
    }

    /// Goes on with the search. Where the display is to be scrolled to show a match, tells by how
    /// many lines.
    pub fn advance_search<C: Fn() -> Instant>(
        &mut self,
        screen: &TerminalScreen,
        now: Instant,
        clock: &C,
    ) -> (result: Result<(SearchEffect, Option<i32>), SessionError>)
        requires
            old(self)@.wf(),
            screen.wf(),
            clock.requires(()),
            old(self)@.search.tracks(old(self)@.core.content_id(screen.alternate), screen),
        ensures
            exists|effect: SearchEffect|
                #[trigger] advanced(
                    old(self)@.search,
                    final(self)@.search,
                    effect,
                    old(self)@.core,
                    screen,
                    now,
                    pace(*clock, now.later(SEARCH_SLICE)),
                ) && after_search_effect(old(self)@, final(self)@, result, effect, screen),
            final(self)@.wf(),
            final(self)@.core.content_id(screen.alternate) == old(self)@.core.content_id(
                screen.alternate,
            ),
            final(self)@.search.tracks(final(self)@.core.content_id(screen.alternate), screen),
    {
        let ghost m = self@;
        let effect = self.search.advance(&self.core, screen, now, clock);
        assert(advanced(
            m.search,
            self@.search,
            effect,
            m.core,
            screen,
            now,
            pace(*clock, now.later(SEARCH_SLICE)),
        ));
        self.apply_search_effect(effect, screen)
    }

    fn apply_search_effect(&mut self, effect: SearchEffect, screen: &TerminalScreen) -> (result:
        Result<(SearchEffect, Option<i32>), SessionError>)
        requires
            screen.wf(),
        ensures
            after_search_effect(old(self)@, final(self)@, result, effect, screen),
            final(self)@.search == old(self)@.search,
            final(self)@.core.content_id(screen.alternate) == old(self)@.core.content_id(
                screen.alternate,
            ),
            old(self)@.wf() ==> final(self)@.wf(),
    {
        match effect.scroll_target {
            Some(offset) => match self.scroll_to_display_offset(
                offset,
                screen.history_size,
                screen.display_offset,
            ) {
                Ok(delta) => Ok((effect, delta)),
                Err(error) => Err(error),
            },
            None => Ok((effect, None)),
        }
    }
}

/// What became of the display when it was to be scrolled to an offset.
pub open spec fn scrolled(
    m: SessionModel,
    n: SessionModel,
    result: Result<Option<i32>, SessionError>,
    offset: int,
    history_size: int,
    current: int,
) -> bool {
    let target = if offset <= history_size {
        offset
    } else {
        history_size
    };
    if target == current {
        result is Ok && result->Ok_0 is None && n == (SessionModel { dirty: true, ..m })
    } else if m.core.generation == u64::MAX {
        &&& result is Err && result->Err_0 == SessionError::Terminal(
            TerminalError::GenerationOverflow,
        )
        &&& n == m
    } else {
        &&& result is Ok && result->Ok_0 == Some((target - current) as i32)
        &&& n == (SessionModel {
            core: CoreModel { generation: (m.core.generation + 1) as u64, ..m.core },
            dirty: true,
            ..m
        })
    }
}

/// A search that was moved on only scrolls the display, to where its effect asks for.
pub open spec fn after_search_effect(
    m: SessionModel,
    n: SessionModel,
    result: Result<(SearchEffect, Option<i32>), SessionError>,
    effect: SearchEffect,
    screen: &TerminalScreen,
) -> bool {
    let searched = SessionModel { search: n.search, ..m };
    &&& result is Ok ==> (result->Ok_0).0 == effect
    &&& match effect.scroll_target {
        None => result is Ok && (result->Ok_0).1 is None && n == searched,
        Some(offset) => scrolled(
            searched,
            n,
            match result {
                Ok((_, delta)) => Ok(delta),
                Err(error) => Err(error),
            },
            offset as int,
            screen.history_size as int,
            screen.display_offset as int,
        ),
    }
}

/// What the terminal asks for is done in its order: the last title counts, a bell is remembered, and
/// what is to be answered waits behind what already waits.
pub proof fn what_the_terminal_asks_for_is_done(
    m: SessionModel,
    title: Seq<char>,
    bytes: Seq<u8>,
    query: TerminalQuery,
)
    ensures
        m.act(ActionModel::SetTitle(title)).title == Some(TitleModel::Show(title)),
        m.act(ActionModel::SetTitle(title)).act(ActionModel::ResetTitle).title == Some(
            TitleModel::Reset,
        ),
        m.act(ActionModel::Bell).bell,
        m.act(ActionModel::Bell).title == m.title,
        m.act(ActionModel::WriteToPty(bytes)).replies == m.replies.push(ReplyModel::Bytes(bytes)),
        m.act(ActionModel::Query(query)).replies == m.replies.push(ReplyModel::Query(query)),
        m.act(ActionModel::ClipboardRequestRejected) == m,
{
}

/// Input waits behind what already waits. Once a session is held, has failed or is being closed, or
/// where there is nothing to type, nothing is added.
pub proof fn input_waits_in_line(m: SessionModel, bytes: Seq<u8>)
    requires
        m.wf(),
        m.input_bytes + bytes.len() <= usize::MAX,
    ensures
        m.state is Running || m.state is ExitObserved || m.state is ReadClosed ==> joined(
            m.queued(bytes).input,
        ) == joined(m.input) + bytes && m.queued(bytes).input_bytes == m.input_bytes + bytes.len(),
        m.state is Held || m.state is Failed || m.state is Closing || m.state is Closed ==> m.queued(
            bytes,
        ) == m,
{
    joined_push(m.input, bytes);
    if bytes.len() == 0 {
        assert(joined(m.input) + bytes =~= joined(m.input));
    }
}

/// A session that is shut down drops what it would still say to its child, and has to be done within
/// two seconds. It is shut down only once.
pub proof fn a_session_is_shut_down_once(m: SessionModel, now: Instant, then: Instant)
    requires
        m.deadline is None,
        !(m.state is Closed),
        now.nanos + 2_000_000_000 <= u64::MAX,
    ensures
        ({
            let n = m.shutting_down(now);
            &&& n.state is Closing
            &&& n.input.len() == 0
            &&& n.input_bytes == 0
            &&& n.replies.len() == 0
            &&& n.deadline is Some
            &&& n.deadline->0.nanos == now.nanos + 2_000_000_000
            &&& n.shutting_down(then) == n
            &&& n.settled() == n
        }),
{
}

/// A session runs until its child has exited or its output has ended, and is completed once both
/// have.
pub proof fn a_session_is_in_the_state_that_was_seen(m: SessionModel)
    ensures
        m.natural_state() is Completed <==> m.exited is Some && m.read_closed,
        m.natural_state() is Running <==> m.exited is None && !m.read_closed,
        m.natural_state() is ExitObserved <==> m.exited is Some && !m.read_closed,
        m.natural_state() is ReadClosed <==> m.exited is None && m.read_closed,
{
}

/// A chunk is never larger than what is left, than 64 KiB and than what may be written, and is
/// as large as these let it be.
pub proof fn chunks_are_as_large_as_they_may_be(len: nat, budget: nat)
    ensures
        chunk_len(len, budget) <= len,
        chunk_len(len, budget) <= 65_536,
        chunk_len(len, budget) <= budget,
        chunk_len(len, budget) == len || chunk_len(len, budget) == 65_536 || chunk_len(
            len,
            budget,
        ) == budget,
{
}

/// Typing takes the display back to the bottom, and what is typed waits behind what already waits.
pub proof fn typing_leads_to_the_bottom(
    m: SessionModel,
    n: SessionModel,
    result: Result<InputTaken, SessionError>,
    bytes: Seq<u8>,
    offset: usize,
    worker_bytes: usize,
)
    requires
        m.wf(),
        m.state is Running,
        m.core.generation < u64::MAX,
        bytes.len() > 0,
        m.input_bytes + bytes.len() + worker_bytes <= m.max_outstanding,
        typed(m, n, result, QueueClass::Interactive, Ok(bytes), offset, worker_bytes),
    ensures
        result is Ok,
        result->Ok_0.scroll_to_bottom <==> offset > 0,
        joined(n.input) == joined(m.input) + bytes,
        n.dirty,
        offset > 0 ==> n.core.generation == m.core.generation + 1,
        n.core.content_revision == m.core.content_revision,
        n.title == m.title,
{
    joined_push(m.input, bytes);
}

impl SessionModel {
    /// What comes of a session that is being shut down when it is looked at.
    pub open spec fn polled(self, now: Instant, joined: bool) -> (SessionModel, ShutdownPoll) {
        let closed = SessionModel {
            has_process: false,
            state: SessionState::Closed,
            deadline: None,
            ..self
        };
        match self.deadline {
            None => (self, ShutdownPoll::Pending),
            Some(deadline) => if !self.has_process || joined {
                (closed, ShutdownPoll::Complete)
            } else if now.nanos >= deadline.nanos {
                (closed, ShutdownPoll::TimedOut)
            } else {
                (self, ShutdownPoll::Pending)
            },
        }
    }

    /// Whether a reply is sent: it is within the budget of its round, there is room for it, and the
    /// answer to a question is short.
    pub open spec fn answers(self, reply: Seq<u8>, is_query: bool, worker_bytes: usize) -> bool {
        &&& is_query ==> reply.len() <= MAX_QUERY_REPLY_BYTES
        &&& reply.len() <= self.reply_budget
        &&& !self.refuses(QueueClass::ParserReply, reply, worker_bytes)
    }
}

/// A session that is shut down waits for its child until two seconds have passed, and is closed then
/// or as soon as the child is gone.
pub proof fn a_session_waits_for_its_child(m: SessionModel, began: Instant, now: Instant)
    requires
        m.can_shut_down(),
        m.has_process,
        began.nanos + 2_000_000_000 <= u64::MAX,
    ensures
        ({
            let closing = m.shutting_down(began);
            let (waited, poll) = closing.polled(now, false);
            let (gone, joined) = closing.polled(now, true);
            &&& now.nanos < began.nanos + 2_000_000_000 ==> poll is Pending && waited == closing
            &&& now.nanos >= began.nanos + 2_000_000_000 ==> poll is TimedOut && waited.state is Closed
            &&& joined is Complete
            &&& gone.state is Closed
            &&& !gone.has_process
            &&& gone.deadline is None
        }),
{
}

/// A reply that is short enough is sent while the round has room for it, and leaves the room that is
/// kept for what the user types.
pub proof fn replies_leave_room_for_typing(
    m: SessionModel,
    reply: Seq<u8>,
    is_query: bool,
    worker_bytes: usize,
)
    requires
        m.wf(),
        m.state is Running,
        reply.len() > 0,
    ensures
        m.answers(reply, is_query, worker_bytes) ==> m.input_bytes + reply.len() + worker_bytes
            + 65_536 <= m.max_outstanding,
        reply.len() <= 64 && reply.len() <= m.reply_budget && m.input_bytes + reply.len()
            + worker_bytes + 65_536 <= m.max_outstanding ==> m.answers(
            reply,
            is_query,
            worker_bytes,
        ),
        reply.len() > m.reply_budget ==> !m.answers(reply, is_query, worker_bytes),
{
}

/// What a program is told waits behind what already waits, and nothing is told where there is nothing
/// to tell.
pub proof fn reports_wait_in_line(
    m: SessionModel,
    n: SessionModel,
    result: Result<bool, SessionError>,
    bytes: Seq<u8>,
    worker_bytes: usize,
)
    requires
        m.wf(),
        m.state is Running,
        bytes.len() > 0,
        m.input_bytes + bytes.len() + worker_bytes <= m.max_outstanding,
    ensures
        reported(m, n, result, Ok(Some(bytes)), worker_bytes) ==> result == Ok::<bool, SessionError>(
            true,
        ) && joined(n.input) == joined(m.input) + bytes,
        reported(m, n, result, Ok(None), worker_bytes) ==> result == Ok::<bool, SessionError>(false)
            && n == m,
{
    joined_push(m.input, bytes);
}

/// The display is scrolled to the offset that is asked for, or as far as there is history, and what it
/// shows is drawn again. Its content stays.
pub proof fn the_display_is_scrolled_where_it_was_asked(
    m: SessionModel,
    n: SessionModel,
    result: Result<Option<i32>, SessionError>,
    offset: int,
    history: int,
    current: int,
)
    requires
        m.core.generation < u64::MAX,
        0 <= offset <= 1_000_000,
        0 <= current <= history <= 1_000_000,
        scrolled(m, n, result, offset, history, current),
    ensures
        result is Ok,
        n.dirty,
        n.core.content_revision == m.core.content_revision,
        n.input == m.input,
        ({
            let moved: int = match result->Ok_0 {
                Some(delta) => delta as int,
                None => 0,
            };
            &&& offset <= history ==> current + moved == offset
            &&& offset > history ==> current + moved == history
        }),
{
}

/// Output is followed for the reports and the protocols in it before the engine is fed, and there is
/// none after its end.
pub proof fn output_is_followed_before_it_is_fed(
    m: SessionModel,
    n: SessionModel,
    bytes: Seq<u8>,
    result: Result<Option<AdvancePlan>, SessionError>,
)
    requires
        output_begun(m, bytes, result, n),
        0 < bytes.len() <= MAX_ADVANCE_BYTES,
    ensures
        m.read_closed ==> result is Err && n == m,
        !m.read_closed ==> {
            &&& result is Ok
            &&& result->Ok_0 is Some
            &&& n.cwd == crate::terminal::cwd::run(m.cwd, bytes)
            &&& n.core.keyboard == run(m.core.keyboard, bytes).tracker
            &&& n.core.title == m.core.title
            &&& n.input == m.input
        },
{
}

/// What a round of output counted is added to what was counted before, each kind to its own. A
/// refused reply counts as a refused query where it answers one and as a refused action where it
/// does not.
pub proof fn counts_are_kept_apart(m: SessionModel, d: ParseAuditDelta)
    ensures
        ({
            let a = m.audit;
            let n = m.audited(d).audit;
            &&& a.unknown_sequences + d.unknown_sequences <= u32::MAX ==> n.unknown_sequences
                == a.unknown_sequences + d.unknown_sequences
            &&& a.rejected_actions + d.rejected_actions <= u32::MAX ==> n.rejected_actions
                == a.rejected_actions + d.rejected_actions
            &&& a.truncated_sequences + d.truncated_sequences <= u32::MAX
                ==> n.truncated_sequences == a.truncated_sequences + d.truncated_sequences
            &&& a.reply_bytes + d.reply_bytes <= usize::MAX ==> n.reply_bytes == a.reply_bytes
                + d.reply_bytes
            &&& a.sync_forced_commits + d.sync_forced_commits <= u32::MAX
                ==> n.sync_forced_commits == a.sync_forced_commits + d.sync_forced_commits
            &&& a.sync_timeouts + d.sync_timeouts <= u32::MAX ==> n.sync_timeouts
                == a.sync_timeouts + d.sync_timeouts
            &&& a.query_replies + d.query_replies <= u32::MAX ==> n.query_replies
                == a.query_replies + d.query_replies
            &&& a.query_rejected + d.query_rejected <= u32::MAX ==> n.query_rejected
                == a.query_rejected + d.query_rejected
            &&& a.display_state_fallbacks + d.display_state_fallbacks <= u32::MAX
                ==> n.display_state_fallbacks == a.display_state_fallbacks
                + d.display_state_fallbacks
            &&& n.keyboard_protocol_changes == a.keyboard_protocol_changes
            &&& n.keyboard_queries == a.keyboard_queries
        }),
        m.audit.query_rejected < u32::MAX ==> m.reply_refused(true).audit.query_rejected
            == m.audit.query_rejected + 1,
        m.reply_refused(true).audit.rejected_actions == m.audit.rejected_actions,
        m.audit.rejected_actions < u32::MAX ==> m.reply_refused(false).audit.rejected_actions
            == m.audit.rejected_actions + 1,
        m.reply_refused(false).audit.query_rejected == m.audit.query_rejected,
        m.audited(d).input == m.input && m.reply_refused(true).input == m.input
            && m.reply_refused(false).input == m.input,
{
}

/// A change of what is shown is drawn; where nothing changed the session stays as it is.
pub proof fn a_change_is_drawn(m: SessionModel, now: Instant)
    ensures
        m.touched(true, now).dirty,
        m.touched(true, now).input == m.input,
        m.touched(true, now).core == m.core,
        m.touched(false, now) == m,
{
}

/// A session whose child has exited and whose output has ended lets go of its process; any other
/// keeps it. Nothing is settled any more once it is shut down.
pub proof fn a_completed_session_lets_go_of_its_process(m: SessionModel)
    ensures
        m.deadline is None && m.exited is Some && m.read_closed ==> !m.settled().has_process,
        m.deadline is None && !(m.exited is Some && m.read_closed) ==> m.settled().has_process
            == m.has_process,
        m.deadline is None ==> m.settled().state == m.natural_state(),
        m.deadline is Some ==> m.settled() == m,
        m.settled().input == m.input,
        m.settled().exited == m.exited && m.settled().read_closed == m.read_closed,
{
}

} // verus!
