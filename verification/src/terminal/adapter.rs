//! The state that the terminal keeps around the engine that interprets its output.
//!
//! The engine parses output and holds the grid. This module decides what is fed to it, what its
//! events become, when its content counts as changed and how its grid is read.
use vstd::prelude::*;
use vstd::string::StringExecFns;
use crate::app::event::{batch_text, describe_batch};
use crate::security::{title_error, validate_title, PolicyDecision, MAX_PTY_REPLY_BYTES};
use crate::terminal::protocol::{
    replies_match, run, KeyboardProtocolTracker, ProtocolAudit, TrackerModel,
};
use crate::terminal::regex::{
    compile_regex, lines_fit, scan_regex, too_long_within, CompiledRegex, RegexLimits,
    RegexScanCursor, RegexScanStep,
};
use crate::terminal::screen::{TerminalScreen, Token, MAX_HISTORY_LINES};
use crate::terminal::search::{
    at_most, compile, pace, query_error, scan_literal, CompiledLiteral, SearchBudget,
    SearchContentId, SearchError, SearchMatch, SearchScanCursor, SearchScanStep,
    MAX_SEARCH_SLICE_ROWS,
};
use crate::terminal::snapshot::{
    CursorShape, GridSize, KeyboardProtocolState, MouseEncoding, MouseProtocol,
    ProjectedSelection, SearchBuffer, SelectionPoint, TerminalModes,
};
use crate::time::Instant;

pub mod laws;

verus! {

/// The longest batch of output that is taken at once.
pub const MAX_ADVANCE_BYTES: usize = 65_536;

#[derive(Clone, Copy, Debug, PartialEq, Eq, Structural)]
pub enum DefaultColorSlot {
    Foreground,
    Background,
}

#[derive(Clone, Copy, Debug, PartialEq, Eq, Structural)]
pub enum QueryTerminator {
    Bell,
    StringTerminator,
}

/// A question of the program that the terminal answers itself.
#[derive(Clone, Copy, Debug, PartialEq, Eq, Structural)]
pub enum TerminalQuery {
    DefaultColor { slot: DefaultColorSlot, terminator: QueryTerminator },
    TextAreaPixels,
}

/// What output asks of the application.
#[derive(Clone, Debug, PartialEq, Eq)]
pub enum TerminalAction {
    SetTitle(String),
    ResetTitle,
    Bell,
    WriteToPty(Vec<u8>),
    Query(TerminalQuery),
    ClipboardRequestRejected,
    UnsupportedSequence,
}

/// An action over its text and bytes.
pub enum ActionModel {
    SetTitle(Seq<char>),
    ResetTitle,
    Bell,
    WriteToPty(Seq<u8>),
    Query(TerminalQuery),
    ClipboardRequestRejected,
    UnsupportedSequence,
}

impl View for TerminalAction {
    type V = ActionModel;

    open spec fn view(&self) -> ActionModel {
        match *self {
            TerminalAction::SetTitle(title) => ActionModel::SetTitle(title@),
            TerminalAction::ResetTitle => ActionModel::ResetTitle,
            TerminalAction::Bell => ActionModel::Bell,
            TerminalAction::WriteToPty(bytes) => ActionModel::WriteToPty(bytes@),
            TerminalAction::Query(query) => ActionModel::Query(query),
            TerminalAction::ClipboardRequestRejected => ActionModel::ClipboardRequestRejected,
            TerminalAction::UnsupportedSequence => ActionModel::UnsupportedSequence,
        }
    }
}

/// The views of actions.
pub open spec fn actions_view(actions: Seq<TerminalAction>) -> Seq<ActionModel> {
    actions.map_values(|a: TerminalAction| a@)
}

#[derive(Clone, Copy, Debug, PartialEq, Eq, Structural)]
pub struct TerminalCoreConfig {
    pub history_lines: usize,
    pub default_cursor_shape: CursorShape,
}

impl From<usize> for TerminalCoreConfig {
    fn from(history_lines: usize) -> (result: TerminalCoreConfig) {
        TerminalCoreConfig { history_lines, default_cursor_shape: CursorShape::Block }
    }
}

impl vstd::std_specs::convert::FromSpecImpl<usize> for TerminalCoreConfig {
    open spec fn obeys_from_spec() -> bool {
        true
    }

    open spec fn from_spec(history_lines: usize) -> TerminalCoreConfig {
        TerminalCoreConfig { history_lines, default_cursor_shape: CursorShape::Block }
    }
}

impl TerminalCoreConfig {
    /// How many lines of history the engine is to keep.
    pub fn engine_history(self) -> (result: usize)
        ensures
            result == if self.history_lines <= MAX_HISTORY_LINES {
                self.history_lines
            } else {
                MAX_HISTORY_LINES
            },
    {
        if self.history_lines <= MAX_HISTORY_LINES {
            self.history_lines
        } else {
            MAX_HISTORY_LINES
        }
    }
}

/// A synchronized update that the engine holds back.
#[derive(Clone, Copy, Debug, PartialEq, Eq, Structural)]
pub struct SyncStatus {
    pub bytes: usize,
    pub deadline: Instant,
}

#[derive(Clone, Copy, Debug, PartialEq, Eq, Structural)]
pub struct PendingSync {
    pub epoch: u64,
    pub bytes: usize,
    pub deadline: Instant,
}

#[derive(Clone, Copy, Debug, PartialEq, Eq, Structural)]
pub enum SyncFlushReason {
    Timeout,
    SessionEnd,
}

#[derive(Clone, Copy, Debug, PartialEq, Eq, Structural)]
pub struct ParseAuditDelta {
    pub unknown_sequences: u32,
    pub rejected_actions: u32,
    pub truncated_sequences: u32,
    pub reply_bytes: usize,
    pub sync_forced_commits: u32,
    pub sync_timeouts: u32,
    pub query_replies: u32,
    pub query_rejected: u32,
    pub display_state_fallbacks: u32,
    pub keyboard_protocol_changes: u32,
    pub keyboard_queries: u32,
    pub keyboard_unknown_flags: u32,
    pub keyboard_stack_overflow: u32,
}

impl ParseAuditDelta {
    pub open spec fn none() -> ParseAuditDelta {
        ParseAuditDelta {
            unknown_sequences: 0,
            rejected_actions: 0,
            truncated_sequences: 0,
            reply_bytes: 0,
            sync_forced_commits: 0,
            sync_timeouts: 0,
            query_replies: 0,
            query_rejected: 0,
            display_state_fallbacks: 0,
            keyboard_protocol_changes: 0,
            keyboard_queries: 0,
            keyboard_unknown_flags: 0,
            keyboard_stack_overflow: 0,
        }
    }
}

impl Default for ParseAuditDelta {
    fn default() -> (result: ParseAuditDelta)
        ensures
            result == ParseAuditDelta::none(),
    {
        ParseAuditDelta {
            unknown_sequences: 0,
            rejected_actions: 0,
            truncated_sequences: 0,
            reply_bytes: 0,
            sync_forced_commits: 0,
            sync_timeouts: 0,
            query_replies: 0,
            query_rejected: 0,
            display_state_fallbacks: 0,
            keyboard_protocol_changes: 0,
            keyboard_queries: 0,
            keyboard_unknown_flags: 0,
            keyboard_stack_overflow: 0,
        }
    }
}

/// What one operation did to the terminal.
#[derive(Clone, Copy, Debug, PartialEq, Eq, Structural)]
pub struct TerminalDelta {
    pub dirty: bool,
    pub actions: usize,
    pub audit: ParseAuditDelta,
}

impl TerminalDelta {
    /// Nothing happened.
    pub open spec fn none() -> TerminalDelta {
        TerminalDelta { dirty: false, actions: 0, audit: ParseAuditDelta::none() }
    }
}

impl Default for TerminalDelta {
    fn default() -> (result: TerminalDelta)
        ensures
            result == TerminalDelta::none(),
    {
        TerminalDelta { dirty: false, actions: 0, audit: ParseAuditDelta::default() }
    }
}

#[derive(Clone, Copy, Debug, PartialEq, Eq, Structural)]
pub enum TerminalError {
    BatchTooLarge(usize),
    GenerationOverflow,
    SnapshotTooLarge,
    CombiningLimit,
    HyperlinkTooLarge,
    TooManyHyperlinks,
    SelectionPoint,
}

impl TerminalError {
    pub open spec fn text(self) -> Seq<char> {
        match self {
            TerminalError::BatchTooLarge(length) => batch_text(length),
            TerminalError::GenerationOverflow => "terminal generation overflow"@,
            TerminalError::SnapshotTooLarge => "terminal snapshot dimensions overflow"@,
            TerminalError::CombiningLimit => "terminal combining character resource limit exceeded"@,
            TerminalError::HyperlinkTooLarge => "terminal hyperlink is too large"@,
            TerminalError::TooManyHyperlinks => "terminal hyperlink table is full"@,
            TerminalError::SelectionPoint => "selection point is outside the visible grid"@,
        }
    }

    /// What the error says.
    pub fn message(&self) -> (result: String)
        ensures
            result@ == self.text(),
    {
        let text = match *self {
            TerminalError::BatchTooLarge(length) => {
                return describe_batch(length);
            },
            TerminalError::GenerationOverflow => "terminal generation overflow",
            TerminalError::SnapshotTooLarge => "terminal snapshot dimensions overflow",
            TerminalError::CombiningLimit => "terminal combining character resource limit exceeded",
            TerminalError::HyperlinkTooLarge => "terminal hyperlink is too large",
            TerminalError::TooManyHyperlinks => "terminal hyperlink table is full",
            TerminalError::SelectionPoint => "selection point is outside the visible grid",
        };
        String::from_str(text)
    }
}

/// What the engine reports while it parses. A colour or size query carries what the engine would
/// reply to a probe: black-and-blue `#010203` for a colour, three columns by two lines of five by
/// seven pixels for a size.
#[derive(Clone, Debug)]
pub enum TerminalEvent {
    Title(String),
    ResetTitle,
    PtyWrite(Vec<u8>),
    ClipboardStore,
    ClipboardLoad,
    ColorRequest { index: usize, probe: Vec<u8> },
    TextAreaSizeRequest { probe: Vec<u8> },
    Other,
}

/// What the engine counted while it parsed.
#[derive(Clone, Copy, Debug, PartialEq, Eq, Structural)]
pub struct ParserAudit {
    pub unknown_sequences: u32,
    pub rejected_actions: u32,
    pub truncated_sequences: u32,
}

/// What the engine did with the output that it was fed.
#[derive(Clone, Debug)]
pub struct ParserOutcome {
    pub was_pending: bool,
    pub is_pending: bool,
    pub explicit_commits: u32,
    pub capacity_commits: u32,
    pub audit: ParserAudit,
    /// Any number of bells is one bell.
    pub bell: bool,
    pub events: Vec<TerminalEvent>,
}

impl ParserOutcome {
    /// A synchronized update was committed.
    pub open spec fn commits(&self) -> bool {
        self.explicit_commits != 0 || self.capacity_commits != 0
    }

    /// The grid may have changed: nothing is held back, or something was committed.
    pub open spec fn dirty(&self) -> bool {
        !self.is_pending || self.commits()
    }

    /// The update that is held back began with this output.
    pub open spec fn begins_update(&self) -> bool {
        self.is_pending && (!self.was_pending || self.commits())
    }
}

/// Part of a batch: the bytes to feed to the engine, and a reply to send once they are parsed.
#[derive(Clone, Debug)]
pub struct AdvancePiece {
    pub start: usize,
    pub end: usize,
    pub reply: Option<Vec<u8>>,
}

/// How a batch is fed to the engine.
#[derive(Clone, Debug)]
pub struct AdvancePlan {
    pub pieces: Vec<AdvancePiece>,
    pub audit: ProtocolAudit,
}

impl AdvancePlan {
    /// The pieces follow each other from the first byte to the last, and piece `i` ends with the
    /// byte that completes query `i`, whose reply it carries; the last piece carries none.
    pub open spec fn follows(&self, len: int, replies: Seq<(int, Seq<u8>)>) -> bool {
        &&& self.pieces@.len() == replies.len() + 1
        &&& self.pieces@[0].start == 0
        &&& self.pieces@.last().end == len
        &&& self.pieces@.last().reply is None
        &&& forall|i: int|
            0 <= i < replies.len() ==> {
                let piece = #[trigger] self.pieces@[i];
                &&& piece.end == replies[i].0 + 1
                &&& piece.end == self.pieces@[i + 1].start
                &&& piece.reply is Some
                &&& piece.reply->0@ == replies[i].1
            }
        &&& forall|i: int|
            0 <= i < self.pieces@.len() ==> {
                let piece = #[trigger] self.pieces@[i];
                piece.start <= piece.end <= len
            }
    }
}

/// The reply to the probe of a colour query.
pub open spec fn probe_reply(slot: DefaultColorSlot, terminator: QueryTerminator) -> Seq<u8> {
    let code = match slot {
        DefaultColorSlot::Foreground => 48u8,
        DefaultColorSlot::Background => 49u8,
    };
    // OSC 1x ; rgb:0101/0202/0303
    seq![
        27u8, 93, 49, code, 59, 114, 103, 98, 58, 48, 49, 48, 49, 47, 48, 50, 48, 50, 47, 48, 51,
        48, 51,
    ] + (match terminator {
        QueryTerminator::Bell => seq![7u8],
        QueryTerminator::StringTerminator => seq![27u8, 92],
    })
}

/// Decides which colour query an event is: the index is that of the default foreground or
/// background, and the reply to the probe is that of such a query.
pub open spec fn color_query(index: usize, probe: Seq<u8>) -> Option<TerminalQuery> {
    if index != 256 && index != 257 {
        None
    } else {
        let slot = if index == 256 {
            DefaultColorSlot::Foreground
        } else {
            DefaultColorSlot::Background
        };
        if probe == probe_reply(slot, QueryTerminator::Bell) {
            Some(TerminalQuery::DefaultColor { slot, terminator: QueryTerminator::Bell })
        } else if probe == probe_reply(slot, QueryTerminator::StringTerminator) {
            Some(
                TerminalQuery::DefaultColor {
                    slot,
                    terminator: QueryTerminator::StringTerminator,
                },
            )
        } else {
            None
        }
    }
}

/// Computes [`color_query`].
pub fn map_color_query(index: usize, probe: &Vec<u8>) -> (result: Option<TerminalQuery>)
    ensures
        result == color_query(index, probe@),
{
    let (slot, code): (DefaultColorSlot, u8) = if index == 256 {
        (DefaultColorSlot::Foreground, 48)
    } else if index == 257 {
        (DefaultColorSlot::Background, 49)
    } else {
        return None;
    };
    let mut bell: Vec<u8> = vec![
        27, 93, 49, code, 59, 114, 103, 98, 58, 48, 49, 48, 49, 47, 48, 50, 48, 50, 47, 48, 51, 48,
        51, 7,
    ];
    let mut string: Vec<u8> = vec![
        27, 93, 49, code, 59, 114, 103, 98, 58, 48, 49, 48, 49, 47, 48, 50, 48, 50, 47, 48, 51, 48,
        51, 27, 92,
    ];
    assert(bell@ =~= probe_reply(slot, QueryTerminator::Bell));
    assert(string@ =~= probe_reply(slot, QueryTerminator::StringTerminator));
    if crate::text::bytes_eq(probe.as_slice(), bell.as_slice()) {
        Some(TerminalQuery::DefaultColor { slot, terminator: QueryTerminator::Bell })
    } else if crate::text::bytes_eq(probe.as_slice(), string.as_slice()) {
        Some(TerminalQuery::DefaultColor { slot, terminator: QueryTerminator::StringTerminator })
    } else {
        None
    }
}

/// `CSI 4 ; 14 ; 15 t`: the reply to the probe of a size query.
pub open spec fn text_area_probe() -> Seq<u8> {
    seq![27u8, 91, 52, 59, 49, 52, 59, 49, 53, 116]
}

/// Whether a size query asks for the pixels of the text area.
pub fn validate_text_area_formatter(probe: &Vec<u8>) -> (result: bool)
    ensures
        result == (probe@ == text_area_probe()),
{
    let expected: Vec<u8> = vec![27, 91, 52, 59, 49, 52, 59, 49, 53, 116];
    assert(expected@ =~= text_area_probe());
    crate::text::bytes_eq(probe.as_slice(), expected.as_slice())
}

/// One more, unless the counter is full.
pub open spec fn bump(count: u32) -> u32 {
    if count < u32::MAX {
        (count + 1) as u32
    } else {
        count
    }
}

/// The title, the actions and the audit that events leave.
pub struct EventsModel {
    pub title: Option<Seq<char>>,
    pub actions: Seq<ActionModel>,
    pub audit: ParseAuditDelta,
}

impl EventsModel {
    pub open spec fn act(self, action: ActionModel) -> EventsModel {
        EventsModel { actions: self.actions.push(action), ..self }
    }

    pub open spec fn reject(self) -> EventsModel {
        EventsModel {
            audit: ParseAuditDelta {
                rejected_actions: bump(self.audit.rejected_actions),
                ..self.audit
            },
            ..self
        }
    }

    pub open spec fn refuse_query(self) -> EventsModel {
        EventsModel {
            audit: ParseAuditDelta {
                query_rejected: bump(self.audit.query_rejected),
                ..self.audit
            },
            ..self
        }
    }
}

/// What one event does. A title that is not allowed, and a reply past the limit of a round, are
/// refused; so is every access to the clipboard.
pub open spec fn event_step(m: EventsModel, event: TerminalEvent) -> EventsModel {
    match event {
        TerminalEvent::Title(title) => if title_error(title@) is None {
            EventsModel { title: Some(title@), ..m.act(ActionModel::SetTitle(title@)) }
        } else {
            m.reject()
        },
        TerminalEvent::ResetTitle => EventsModel { title: None, ..m.act(ActionModel::ResetTitle) },
        TerminalEvent::PtyWrite(bytes) => if m.audit.reply_bytes + bytes@.len()
            <= MAX_PTY_REPLY_BYTES {
            EventsModel {
                audit: ParseAuditDelta {
                    reply_bytes: (m.audit.reply_bytes + bytes@.len()) as usize,
                    ..m.audit
                },
                ..m.act(ActionModel::WriteToPty(bytes@))
            }
        } else {
            m.reject()
        },
        TerminalEvent::ClipboardStore
        | TerminalEvent::ClipboardLoad => m.reject().act(ActionModel::ClipboardRequestRejected),
        TerminalEvent::ColorRequest { index, probe } => match color_query(index, probe@) {
            Some(query) => m.act(ActionModel::Query(query)),
            None => m.refuse_query(),
        },
        TerminalEvent::TextAreaSizeRequest { probe } => if probe@ == text_area_probe() {
            m.act(ActionModel::Query(TerminalQuery::TextAreaPixels))
        } else {
            m.refuse_query()
        },
        TerminalEvent::Other => m,
    }
}

/// What events do, one after the other.
pub open spec fn events_fold(m: EventsModel, events: Seq<TerminalEvent>) -> EventsModel
    decreases events.len(),
{
    if events.len() == 0 {
        m
    } else {
        event_step(events_fold(m, events.drop_last()), events.last())
    }
}

/// A sum that stops at the largest `u32`.
pub open spec fn capped(a: u32, b: u32) -> u32 {
    if a + b <= u32::MAX {
        (a + b) as u32
    } else {
        u32::MAX
    }
}

/// The audit of a round: what the events, the engine and the keyboard protocols counted.
pub open spec fn merged_audit(
    event: ParseAuditDelta,
    parser: ParserAudit,
    forced_commits: u32,
    keyboard: ProtocolAudit,
) -> ParseAuditDelta {
    ParseAuditDelta {
        unknown_sequences: capped(event.unknown_sequences, parser.unknown_sequences),
        rejected_actions: capped(
            capped(event.rejected_actions, parser.rejected_actions),
            keyboard.rejected,
        ),
        truncated_sequences: parser.truncated_sequences,
        sync_forced_commits: forced_commits,
        keyboard_protocol_changes: capped(event.keyboard_protocol_changes, keyboard.changes),
        keyboard_queries: capped(event.keyboard_queries, keyboard.queries),
        keyboard_unknown_flags: capped(event.keyboard_unknown_flags, keyboard.unknown_flags),
        keyboard_stack_overflow: capped(event.keyboard_stack_overflow, keyboard.stack_overflow),
        ..event
    }
}

fn merge_audit(
    event: ParseAuditDelta,
    parser: ParserAudit,
    forced_commits: u32,
    keyboard: ProtocolAudit,
) -> (result: ParseAuditDelta)
    ensures
        result == merged_audit(event, parser, forced_commits, keyboard),
{
    ParseAuditDelta {
        unknown_sequences: event.unknown_sequences.saturating_add(parser.unknown_sequences),
        rejected_actions: event.rejected_actions.saturating_add(
            parser.rejected_actions,
        ).saturating_add(keyboard.rejected),
        truncated_sequences: parser.truncated_sequences,
        reply_bytes: event.reply_bytes,
        sync_forced_commits: forced_commits,
        sync_timeouts: event.sync_timeouts,
        query_replies: event.query_replies,
        query_rejected: event.query_rejected,
        display_state_fallbacks: event.display_state_fallbacks,
        keyboard_protocol_changes: event.keyboard_protocol_changes.saturating_add(keyboard.changes),
        keyboard_queries: event.keyboard_queries.saturating_add(keyboard.queries),
        keyboard_unknown_flags: event.keyboard_unknown_flags.saturating_add(keyboard.unknown_flags),
        keyboard_stack_overflow: event.keyboard_stack_overflow.saturating_add(
            keyboard.stack_overflow,
        ),
    }
}

/// The terminal's state around its engine.
pub struct TerminalCoreAdapter {
    actions: Vec<TerminalAction>,
    generation: u64,
    content_revision: u64,
    size: GridSize,
    title: Option<String>,
    selection_revision: u64,
    sync_epoch: u64,
    keyboard_protocol: KeyboardProtocolTracker,
}

/// The state of an adapter.
pub struct CoreModel {
    pub actions: Seq<ActionModel>,
    pub generation: u64,
    pub content_revision: u64,
    pub size: GridSize,
    pub title: Option<Seq<char>>,
    pub selection_revision: u64,
    pub sync_epoch: u64,
    pub keyboard: TrackerModel,
}

impl CoreModel {
    pub open spec fn initial(size: GridSize) -> CoreModel {
        CoreModel {
            actions: Seq::empty(),
            generation: 0,
            content_revision: 0,
            size,
            title: None,
            selection_revision: 0,
            sync_epoch: 0,
            keyboard: TrackerModel::initial(),
        }
    }

    /// The dimensions and the keyboard state are within their limits.
    pub open spec fn wf(self) -> bool {
        self.size.wf() && self.keyboard.wf()
    }

    /// Whether the content can be counted as changed once more.
    pub open spec fn can_change(self) -> bool {
        self.generation < u64::MAX && self.content_revision < u64::MAX
    }

    /// The content counts as changed.
    pub open spec fn changed(self) -> CoreModel {
        CoreModel {
            generation: (self.generation + 1) as u64,
            content_revision: (self.content_revision + 1) as u64,
            ..self
        }
    }

    /// What the events of a round leave: the bell first, then the events in order.
    pub open spec fn after_events(self, bell: bool, events: Seq<TerminalEvent>) -> EventsModel {
        let start = EventsModel {
            title: self.title,
            actions: if bell {
                self.actions.push(ActionModel::Bell)
            } else {
                self.actions
            },
            audit: ParseAuditDelta::none(),
        };
        events_fold(start, events)
    }

    pub open spec fn with_events(self, m: EventsModel) -> CoreModel {
        CoreModel { title: m.title, actions: m.actions, ..self }
    }

    pub open spec fn content_id(self, alternate: bool) -> SearchContentId {
        SearchContentId {
            content_revision: self.content_revision,
            columns: self.size.columns,
            lines: self.size.lines,
            buffer: if alternate {
                SearchBuffer::Alternate
            } else {
                SearchBuffer::Normal
            },
        }
    }
}

/// The view of an optional string.
pub open spec fn opt_view(s: Option<String>) -> Option<Seq<char>> {
    match s {
        Some(s) => Some(s@),
        None => None,
    }
}

impl View for TerminalCoreAdapter {
    type V = CoreModel;

    closed spec fn view(&self) -> CoreModel {
        CoreModel {
            actions: actions_view(self.actions@),
            generation: self.generation,
            content_revision: self.content_revision,
            size: self.size,
            title: opt_view(self.title),
            selection_revision: self.selection_revision,
            sync_epoch: self.sync_epoch,
            keyboard: self.keyboard_protocol@,
        }
    }
}

impl TerminalCoreAdapter {
    /// A terminal of the given size before any output.
    pub fn new(size: GridSize) -> (result: TerminalCoreAdapter)
        ensures
            result@ == CoreModel::initial(size),
    {
        let result = TerminalCoreAdapter {
            actions: Vec::new(),
            generation: 0,
            content_revision: 0,
            size,
            title: None,
            selection_revision: 0,
            sync_epoch: 0,
            keyboard_protocol: KeyboardProtocolTracker::default(),
        };
        assert(result@.actions =~= Seq::empty());
        result
    }

    /// Takes a batch of output: follows the keyboard protocols in it and plans how it is fed to
    /// the engine. There is nothing to feed in an empty batch, and a batch over the limit is
    /// refused.
    pub fn begin_advance(&mut self, bytes: &[u8]) -> (result: Result<
        Option<AdvancePlan>,
        TerminalError,
    >)
        ensures
            if bytes@.len() == 0 {
                result is Ok && result->Ok_0 is None && final(self)@ == old(self)@
            } else if bytes@.len() > MAX_ADVANCE_BYTES {
                result is Err && result->Err_0 == TerminalError::BatchTooLarge(
                    bytes@.len() as usize,
                ) && final(self)@ == old(self)@
            } else {
                let followed = run(old(self)@.keyboard, bytes@);
                &&& result is Ok
                &&& result->Ok_0 is Some
                &&& result->Ok_0->0.follows(bytes@.len() as int, followed.replies)
                &&& result->Ok_0->0.audit == followed.audit
                &&& final(self)@ == (CoreModel { keyboard: followed.tracker, ..old(self)@ })
            },
            old(self)@.wf() ==> final(self)@.wf(),
    {
        if bytes.len() == 0 {
            return Ok(None);
        }
        if bytes.len() > MAX_ADVANCE_BYTES {
            return Err(TerminalError::BatchTooLarge(bytes.len()));
        }
        let ghost model = run(self@.keyboard, bytes@).replies;
        let (replies, audit) = self.keyboard_protocol.advance(bytes);
        proof {
            reply_offsets(old(self)@.keyboard, bytes@);
        }
        let pieces = cut_pieces(bytes.len(), replies, Ghost(model));
        Ok(Some(AdvancePlan { pieces, audit }))
    }

    /// Takes what the engine did with a batch. Content that is held back for a synchronized
    /// update does not count as changed; a new update gets a new epoch.
    pub fn finish_advance(&mut self, keyboard: ProtocolAudit, outcome: ParserOutcome) -> (result:
        Result<TerminalDelta, TerminalError>)
        ensures
            ({
                let begun = CoreModel {
                    sync_epoch: (old(self)@.sync_epoch + 1) as u64,
                    ..old(self)@
                };
                let synced = if outcome.begins_update() {
                    begun
                } else {
                    old(self)@
                };
                let events = old(self)@.after_events(outcome.bell, outcome.events@);
                if outcome.begins_update() && old(self)@.sync_epoch == u64::MAX {
                    &&& result is Err && result->Err_0 == TerminalError::GenerationOverflow
                    &&& final(self)@ == old(self)@
                } else if outcome.dirty() && !old(self)@.can_change() {
                    &&& result is Err && result->Err_0 == TerminalError::GenerationOverflow
                    &&& final(self)@ == synced
                } else {
                    &&& result is Ok
                    &&& final(self)@ == (if outcome.dirty() {
                        synced.changed()
                    } else {
                        synced
                    }).with_events(events)
                    &&& result->Ok_0.dirty == outcome.dirty()
                    &&& result->Ok_0.actions == events.actions.len()
                    &&& result->Ok_0.audit == merged_audit(
                        events.audit,
                        outcome.audit,
                        outcome.capacity_commits,
                        keyboard,
                    )
                }
            }),
            old(self)@.wf() ==> final(self)@.wf(),
    {
        let commits = outcome.explicit_commits != 0 || outcome.capacity_commits != 0;
        if outcome.is_pending && (!outcome.was_pending || commits) {
            match self.sync_epoch.checked_add(1) {
                Some(epoch) => {
                    self.sync_epoch = epoch;
                },
                None => {
                    return Err(TerminalError::GenerationOverflow);
                },
            }
        }
        let dirty = !outcome.is_pending || commits;
        if dirty {
            match self.bump_content_revision() {
                Ok(_) => {},
                Err(error) => {
                    return Err(error);
                },
            }
        }
        let event_audit = self.collect_events(outcome.bell, outcome.events);
        Ok(
            TerminalDelta {
                dirty,
                actions: self.actions.len(),
                audit: merge_audit(event_audit, outcome.audit, outcome.capacity_commits, keyboard),
            },
        )
    }

    fn bump_content_revision(&mut self) -> (result: Result<(), TerminalError>)
        ensures
            if old(self)@.can_change() {
                result is Ok && final(self)@ == old(self)@.changed()
            } else {
                result is Err && result->Err_0 == TerminalError::GenerationOverflow && final(self)@
                    == old(self)@
            },
            final(self).actions == old(self).actions,
            final(self).title == old(self).title,
    {
        if self.generation == u64::MAX || self.content_revision == u64::MAX {
            return Err(TerminalError::GenerationOverflow);
        }
        self.generation = self.generation + 1;
        self.content_revision = self.content_revision + 1;
        Ok(())
    }

    fn collect_events(&mut self, bell: bool, events: Vec<TerminalEvent>) -> (result:
        ParseAuditDelta)
        ensures
            ({
                let m = old(self)@.after_events(bell, events@);
                &&& result == m.audit
                &&& final(self)@ == old(self)@.with_events(m)
            }),
    {
        let mut audit = ParseAuditDelta::default();
        if bell {
            let ghost before = self.actions@;
            self.actions.push(TerminalAction::Bell);
            assert(actions_view(self.actions@) =~= actions_view(before).push(ActionModel::Bell));
        }
        let ghost start = EventsModel {
            title: self@.title,
            actions: self@.actions,
            audit: ParseAuditDelta::none(),
        };
        let mut i: usize = 0;
        while i < events.len()
            invariant
                i <= events@.len(),
                ({
                    let m = events_fold(start, events@.take(i as int));
                    &&& audit == m.audit
                    &&& self@ == old(self)@.with_events(m)
                }),
            decreases events@.len() - i,
        {
            proof {
                assert(events@.take(i + 1).drop_last() =~= events@.take(i as int));
            }
            let ghost before = self.actions@;
            let ghost m = events_fold(start, events@.take(i as int));
            let ghost next = event_step(m, events@[i as int]);
            match &events[i] {
                TerminalEvent::Title(title) => {
                    match validate_title(title.as_str()) {
                        PolicyDecision::Allow(title) => {
                            self.title = Some(title.clone());
                            self.actions.push(TerminalAction::SetTitle(title));
                        },
                        _ => {
                            audit.rejected_actions = audit.rejected_actions.saturating_add(1);
                        },
                    }
                },
                TerminalEvent::ResetTitle => {
                    self.title = None;
                    self.actions.push(TerminalAction::ResetTitle);
                },
                TerminalEvent::PtyWrite(bytes) => {
                    let room: usize = if audit.reply_bytes <= MAX_PTY_REPLY_BYTES {
                        MAX_PTY_REPLY_BYTES - audit.reply_bytes
                    } else {
                        0
                    };
                    if audit.reply_bytes <= MAX_PTY_REPLY_BYTES && bytes.len() <= room {
                        audit.reply_bytes = audit.reply_bytes + bytes.len();
                        let reply = vstd::slice::slice_to_vec(bytes.as_slice());
                        self.actions.push(TerminalAction::WriteToPty(reply));
                    } else {
                        audit.rejected_actions = audit.rejected_actions.saturating_add(1);
                    }
                },
                TerminalEvent::ClipboardStore => {
                    audit.rejected_actions = audit.rejected_actions.saturating_add(1);
                    self.actions.push(TerminalAction::ClipboardRequestRejected);
                },
                TerminalEvent::ClipboardLoad => {
                    audit.rejected_actions = audit.rejected_actions.saturating_add(1);
                    self.actions.push(TerminalAction::ClipboardRequestRejected);
                },
                TerminalEvent::ColorRequest { index, probe } => {
                    match map_color_query(*index, probe) {
                        Some(query) => {
                            self.actions.push(TerminalAction::Query(query));
                        },
                        None => {
                            audit.query_rejected = audit.query_rejected.saturating_add(1);
                        },
                    }
                },
                TerminalEvent::TextAreaSizeRequest { probe } => {
                    if validate_text_area_formatter(probe) {
                        self.actions.push(TerminalAction::Query(TerminalQuery::TextAreaPixels));
                    } else {
                        audit.query_rejected = audit.query_rejected.saturating_add(1);
                    }
                },
                TerminalEvent::Other => {},
            }
            proof {
                if self.actions@.len() > before.len() {
                    assert(actions_view(self.actions@) =~= actions_view(before).push(
                        self.actions@.last()@,
                    ));
                }
                assert(self@.actions =~= next.actions);
            }
            i += 1;
        }
        assert(events@.take(i as int) =~= events@);
        audit
    }

    /// Hands the actions out.
    pub fn drain_actions(&mut self, out: &mut Vec<TerminalAction>)
        ensures
            actions_view(final(out)@) == actions_view(old(out)@) + old(self)@.actions,
            final(self)@ == (CoreModel { actions: Seq::empty(), ..old(self)@ }),
    {
        let ghost mine = self.actions@;
        out.append(&mut self.actions);
        assert(actions_view(out@) =~= actions_view(old(out)@) + actions_view(mine));
        assert(actions_view(self.actions@) =~= Seq::empty());
    }
}

/// The replies of a run come in order, each from a byte of the run.
proof fn reply_offsets(t: TrackerModel, bytes: Seq<u8>)
    ensures
        forall|i: int|
            0 <= i < run(t, bytes).replies.len() ==> 0 <= (#[trigger] run(t, bytes).replies[i]).0
                < bytes.len(),
        forall|i: int, j: int|
            0 <= i < j < run(t, bytes).replies.len() ==> (#[trigger] run(t, bytes).replies[i]).0
                < (#[trigger] run(t, bytes).replies[j]).0,
    decreases bytes.len(),
{
    if bytes.len() > 0 {
        reply_offsets(t, bytes.drop_last());
    }
}

fn cut_pieces(len: usize, replies: Vec<(usize, Vec<u8>)>, model: Ghost<Seq<(int, Seq<u8>)>>) -> (
result: Vec<AdvancePiece>)
    requires
        replies_match(replies@, model@),
        forall|i: int| 0 <= i < model@.len() ==> 0 <= (#[trigger] model@[i]).0 < len,
        forall|i: int, j: int|
            0 <= i < j < model@.len() ==> (#[trigger] model@[i]).0 < (#[trigger] model@[j]).0,
    ensures
        (AdvancePlan { pieces: result, audit: ProtocolAudit::none() }).follows(len as int, model@),
{
    let mut pieces: Vec<AdvancePiece> = Vec::new();
    let mut start: usize = 0;
    let mut i: usize = 0;
    while i < replies.len()
        invariant
            i <= replies@.len(),
            replies_match(replies@, model@),
            forall|i: int| 0 <= i < model@.len() ==> 0 <= (#[trigger] model@[i]).0 < len,
            forall|i: int, j: int|
                0 <= i < j < model@.len() ==> (#[trigger] model@[i]).0 < (#[trigger] model@[j]).0,
            pieces@.len() == i,
            start <= len,
            i == 0 ==> start == 0,
            i > 0 ==> pieces@[0].start == 0 && start == model@[i - 1].0 + 1 && start
                == pieces@[i - 1].end,
            forall|k: int|
                0 <= k < i ==> {
                    let piece = #[trigger] pieces@[k];
                    &&& piece.end == model@[k].0 + 1
                    &&& k + 1 < i ==> piece.end == pieces@[k + 1].start
                    &&& piece.reply is Some
                    &&& piece.reply->0@ == model@[k].1
                    &&& piece.start <= piece.end <= len
                },
        decreases replies@.len() - i,
    {
        let end: usize = replies[i].0 + 1;
        let reply = vstd::slice::slice_to_vec(replies[i].1.as_slice());
        proof {
            if i > 0 {
                assert(model@[i - 1].0 < model@[i as int].0);
            }
        }
        pieces.push(AdvancePiece { start, end, reply: Some(reply) });
        start = end;
        i += 1;
    }
    pieces.push(AdvancePiece { start, end: len, reply: None });
    pieces
}

/// A point of the engine's grid: line zero is the first of the grid, lines of the history are
/// negative.
#[derive(Clone, Copy, Debug, PartialEq, Eq, Structural)]
pub struct GridPoint {
    pub line: i32,
    pub column: usize,
}

/// The first and the last point of a selection.
#[derive(Clone, Copy, Debug, PartialEq, Eq, Structural)]
pub struct SelectionRange {
    pub start: GridPoint,
    pub end: GridPoint,
}

/// A match in visible cells, each end as column and line.
#[derive(Clone, Copy, Debug, PartialEq, Eq)]
pub struct SearchProjection {
    pub start: [u16; 2],
    pub end: [u16; 2],
}

/// Where a cell of the engine's grid is on a display of so many lines, if the display shows it
/// and its column is below the limit.
pub open spec fn visible_cell(
    line: int,
    column: int,
    display_offset: int,
    lines: int,
    columns: int,
) -> Option<(u16, u16)> {
    if 0 <= line + display_offset < lines && 0 <= column < columns {
        Some((column as u16, (line + display_offset) as u16))
    } else {
        None
    }
}

/// Where a selection is on a display of so many lines, if both of its ends are visible: each end as
/// column and line.
pub open spec fn projected(range: SelectionRange, display_offset: int, lines: int) -> Option<
    ((u16, u16), (u16, u16)),
> {
    let start = visible_cell(
        range.start.line as int,
        range.start.column as int,
        display_offset,
        lines,
        65_536,
    );
    let end = visible_cell(
        range.end.line as int,
        range.end.column as int,
        display_offset,
        lines,
        65_536,
    );
    if start is Some && end is Some {
        Some((start->0, end->0))
    } else {
        None
    }
}

/// Where a match is on a display, if both of its ends are visible: each end as column and line.
pub open spec fn projected_match(value: SearchMatch, display_offset: int, size: GridSize) -> Option<
    ((u16, u16), (u16, u16)),
> {
    let start = visible_cell(
        value.start.history_line as int,
        value.start.column as int,
        display_offset,
        size.lines as int,
        size.columns as int,
    );
    let end = visible_cell(
        value.end.history_line as int,
        value.end.column as int,
        display_offset,
        size.lines as int,
        size.columns as int,
    );
    if start is Some && end is Some {
        Some((start->0, end->0))
    } else {
        None
    }
}

/// By how many lines the display is scrolled up to get to an offset, or as near as there is
/// history.
pub open spec fn scroll_delta(offset: usize, history_size: usize, current: usize) -> int {
    (if offset <= history_size {
        offset as int
    } else {
        history_size as int
    }) - current
}

fn show_cell(line: i32, column: usize, display_offset: usize, lines: u16, columns: u32) -> (result:
    Option<[u16; 2]>)
    requires
        columns <= 65_536,
        display_offset <= MAX_HISTORY_LINES,
    ensures
        match visible_cell(
            line as int,
            column as int,
            display_offset as int,
            lines as int,
            columns as int,
        ) {
            Some((x, y)) => result is Some && result->0@ == seq![x, y],
            None => result is None,
        },
{
    if column >= columns as usize {
        return None;
    }
    let shown: i64 = line as i64 + display_offset as i64;
    if shown < 0 || shown >= lines as i64 {
        return None;
    }
    let cell: [u16; 2] = [column as u16, shown as u16];
    assert(cell@ =~= seq![column as u16, shown as u16]);
    Some(cell)
}

impl CoreModel {
    /// Whether a synchronized update that is held back is the one of the given epoch.
    pub open spec fn owns_update(self, epoch: u64, pending: Option<SyncStatus>) -> bool {
        pending is Some && self.sync_epoch == epoch
    }

    /// The point of the engine's grid under a visible cell.
    pub open spec fn point_under(self, point: SelectionPoint, display_offset: int) -> Option<
        GridPoint,
    > {
        if point.column < self.size.columns && point.line < self.size.lines {
            Some(
                GridPoint {
                    line: (point.line - display_offset) as i32,
                    column: point.column as usize,
                },
            )
        } else {
            None
        }
    }

    /// The display offset at which a match is visible: as it is where the match is, else the
    /// nearest.
    pub open spec fn offset_for(
        self,
        value: SearchMatch,
        history_size: int,
        display_offset: int,
    ) -> int {
        let top = -display_offset;
        let bottom = top + self.size.lines - 1;
        let target = if value.start.history_line < top {
            value.start.history_line as int
        } else if value.end.history_line > bottom {
            value.end.history_line - self.size.lines + 1
        } else {
            top
        };
        if -target <= history_size {
            -target
        } else {
            history_size
        }
    }
}

impl TerminalCoreAdapter {
    pub fn reset_keyboard_protocol(&mut self)
        ensures
            final(self)@ == (CoreModel {
                keyboard: TrackerModel::initial().at(old(self)@.keyboard.scan),
                ..old(self)@
            }),
    {
        self.keyboard_protocol.reset();
    }

    /// The synchronized update that is held back, with its epoch.
    pub fn pending_sync(&self, pending: Option<SyncStatus>) -> (result: Option<PendingSync>)
        ensures
            result == match pending {
                Some(status) => Some(
                    PendingSync {
                        epoch: self@.sync_epoch,
                        bytes: status.bytes,
                        deadline: status.deadline,
                    },
                ),
                None => None,
            },
    {
        match pending {
            Some(status) => Some(
                PendingSync {
                    epoch: self.sync_epoch,
                    bytes: status.bytes,
                    deadline: status.deadline,
                },
            ),
            None => None,
        }
    }

    /// Whether the update that is held back is the one of the given epoch: only then is the
    /// engine told to commit or to drop it.
    pub fn owns_synchronized_update(&self, epoch: u64, pending: Option<SyncStatus>) -> (result: bool)
        ensures
            result == self@.owns_update(epoch, pending),
    {
        pending.is_some() && self.sync_epoch == epoch
    }

    /// Takes what the engine did when it committed the update of `epoch`. Without such an update
    /// nothing happens.
    pub fn flush_synchronized_update(
        &mut self,
        epoch: u64,
        reason: SyncFlushReason,
        pending: Option<SyncStatus>,
        outcome: ParserOutcome,
    ) -> (result: Result<TerminalDelta, TerminalError>)
        ensures
            ({
                let events = old(self)@.after_events(outcome.bell, outcome.events@);
                if !old(self)@.owns_update(epoch, pending) {
                    result is Ok && result->Ok_0 == TerminalDelta::none() && final(self)@
                        == old(self)@
                } else if !old(self)@.can_change() {
                    result is Err && result->Err_0 == TerminalError::GenerationOverflow && final(self)@ == old(self)@
                } else {
                    &&& result is Ok
                    &&& final(self)@ == old(self)@.changed().with_events(events)
                    &&& result->Ok_0.dirty
                    &&& result->Ok_0.actions == events.actions.len()
                    &&& result->Ok_0.audit == (ParseAuditDelta {
                        sync_timeouts: if reason is Timeout {
                            1
                        } else {
                            0
                        },
                        ..merged_audit(events.audit, outcome.audit, 0, ProtocolAudit::none())
                    })
                }
            }),
            old(self)@.wf() ==> final(self)@.wf(),
    {
        if !self.owns_synchronized_update(epoch, pending) {
            return Ok(TerminalDelta::default());
        }
        match self.bump_content_revision() {
            Ok(_) => {},
            Err(error) => {
                return Err(error);
            },
        }
        let event_audit = self.collect_events(outcome.bell, outcome.events);
        let mut audit = merge_audit(event_audit, outcome.audit, 0, ProtocolAudit::default());
        audit.sync_timeouts = match reason {
            SyncFlushReason::Timeout => 1,
            SyncFlushReason::SessionEnd => 0,
        };
        Ok(TerminalDelta { dirty: true, actions: self.actions.len(), audit })
    }

    /// Whether the engine is to drop the update of `epoch`. The content does not change.
    pub fn discard_synchronized_update(&self, epoch: u64, pending: Option<SyncStatus>) -> (result:
        bool)
        ensures
            result == self@.owns_update(epoch, pending),
    {
        self.owns_synchronized_update(epoch, pending)
    }

    /// Takes new dimensions. The engine is resized where they differ.
    pub fn resize(&mut self, size: GridSize) -> (result: Result<TerminalDelta, TerminalError>)
        ensures
            if size == old(self)@.size {
                result is Ok && result->Ok_0 == TerminalDelta::none() && final(self)@ == old(self)@
            } else if !old(self)@.can_change() {
                result is Err && result->Err_0 == TerminalError::GenerationOverflow && final(self)@
                    == (CoreModel { size, ..old(self)@ })
            } else {
                result is Ok && result->Ok_0 == (TerminalDelta {
                    dirty: true,
                    ..TerminalDelta::none()
                }) && final(self)@ == (CoreModel { size, ..old(self)@.changed() })
            },
    {
        if size == self.size {
            return Ok(TerminalDelta::default());
        }
        self.size = size;
        match self.bump_content_revision() {
            Ok(_) => {},
            Err(error) => {
                return Err(error);
            },
        }
        Ok(TerminalDelta { dirty: true, actions: 0, audit: ParseAuditDelta::default() })
    }

    pub fn size(&self) -> (result: GridSize)
        ensures
            result == self@.size,
    {
        self.size
    }

    /// The content that a search would run on.
    pub fn search_content_id(&self, alternate: bool) -> (result: SearchContentId)
        ensures
            result == self@.content_id(alternate),
    {
        let buffer = if alternate {
            SearchBuffer::Alternate
        } else {
            SearchBuffer::Normal
        };
        SearchContentId::new(self.content_revision, self.size, buffer)
    }

    pub fn selection_revision(&self) -> (result: u64)
        ensures
            result == self@.selection_revision,
    {
        self.selection_revision
    }

    /// Where a match is on the display. Both of its ends have to be visible.
    pub fn project_search_match(&self, value: SearchMatch, display_offset: usize) -> (result: Result<
        SearchProjection,
        SearchError,
    >)
        requires
            self@.wf(),
            display_offset <= MAX_HISTORY_LINES,
        ensures
            match projected_match(value, display_offset as int, self@.size) {
                Some((start, end)) => {
                    &&& result is Ok
                    &&& result->Ok_0.start@ == seq![start.0, start.1]
                    &&& result->Ok_0.end@ == seq![end.0, end.1]
                },
                None => result is Err,
            },
            ({
                let start = visible_cell(
                    value.start.history_line as int,
                    value.start.column as int,
                    display_offset as int,
                    self@.size.lines as int,
                    self@.size.columns as int,
                );
                let end = visible_cell(
                    value.end.history_line as int,
                    value.end.column as int,
                    display_offset as int,
                    self@.size.lines as int,
                    self@.size.columns as int,
                );
                match result {
                    Ok(shown) => {
                        &&& start is Some && shown.start@ == seq![(start->0).0, (start->0).1]
                        &&& end is Some && shown.end@ == seq![(end->0).0, (end->0).1]
                    },
                    Err(error) => {
                        &&& error == SearchError::InvalidCoordinate
                        &&& start is None || end is None
                    },
                }
            }),
    {
        let start = show_cell(
            value.start.history_line,
            value.start.column as usize,
            display_offset,
            self.size.lines,
            self.size.columns as u32,
        );
        let end = show_cell(
            value.end.history_line,
            value.end.column as usize,
            display_offset,
            self.size.lines,
            self.size.columns as u32,
        );
        match (start, end) {
            (Some(start), Some(end)) => Ok(SearchProjection { start, end }),
            _ => Err(SearchError::InvalidCoordinate),
        }
    }

    /// The display offset that shows a match. A match that ends before it starts, or that would
    /// lie below the grid, has none.
    pub fn search_display_offset(
        &self,
        value: SearchMatch,
        history_size: usize,
        display_offset: usize,
    ) -> (result: Result<usize, SearchError>)
        requires
            self@.wf(),
            display_offset <= MAX_HISTORY_LINES,
        ensures
            ({
                let offset = self@.offset_for(value, history_size as int, display_offset as int);
                if value.start.is_after(value.end) || offset < 0 {
                    result is Err && result->Err_0 == SearchError::InvalidCoordinate
                } else {
                    result is Ok && result->Ok_0 == offset
                }
            }),
    {
        if value.start.after(value.end) {
            return Err(SearchError::InvalidCoordinate);
        }
        let lines: i64 = self.size.lines as i64;
        let top: i64 = -(display_offset as i64);
        let bottom: i64 = top + lines - 1;
        let target: i64 = if (value.start.history_line as i64) < top {
            value.start.history_line as i64
        } else if value.end.history_line as i64 > bottom {
            value.end.history_line as i64 - lines + 1
        } else {
            top
        };
        if target > 0 {
            return Err(SearchError::InvalidCoordinate);
        }
        let offset: usize = (-target) as usize;
        if offset <= history_size {
            Ok(offset)
        } else {
            Ok(history_size)
        }
    }

    fn history_point(&self, point: SelectionPoint, display_offset: usize) -> (result: Result<
        GridPoint,
        TerminalError,
    >)
        requires
            self@.wf(),
            display_offset <= MAX_HISTORY_LINES,
        ensures
            match self@.point_under(point, display_offset as int) {
                Some(point) => result is Ok && result->Ok_0 == point,
                None => result is Err && result->Err_0 == TerminalError::SelectionPoint,
            },
    {
        if point.column >= self.size.columns || point.line >= self.size.lines {
            return Err(TerminalError::SelectionPoint);
        }
        Ok(
            GridPoint {
                line: point.line as i32 - display_offset as i32,
                column: point.column as usize,
            },
        )
    }

    /// The point of the engine's grid at which a selection starts, or to which it extends, when
    /// the pointer is at a visible cell. A new revision of the selection begins.
    pub fn select_at(&mut self, point: SelectionPoint, display_offset: usize) -> (result: Result<
        GridPoint,
        TerminalError,
    >)
        requires
            old(self)@.wf(),
            display_offset <= MAX_HISTORY_LINES,
        ensures
            match old(self)@.point_under(point, display_offset as int) {
                None => result is Err && result->Err_0 == TerminalError::SelectionPoint && final(self)@ == old(self)@,
                Some(under) => if old(self)@.selection_revision == u64::MAX {
                    result is Err && result->Err_0 == TerminalError::GenerationOverflow && final(self)@ == old(self)@
                } else {
                    result is Ok && result->Ok_0 == under && final(self)@ == (CoreModel {
                        selection_revision: (old(self)@.selection_revision + 1) as u64,
                        ..old(self)@
                    })
                },
            },
    {
        let point = match self.history_point(point, display_offset) {
            Ok(point) => point,
            Err(error) => {
                return Err(error);
            },
        };
        match self.clear_selection() {
            Ok(_) => Ok(point),
            Err(error) => Err(error),
        }
    }

    /// A new revision of the selection begins.
    pub fn clear_selection(&mut self) -> (result: Result<(), TerminalError>)
        ensures
            if old(self)@.selection_revision == u64::MAX {
                result is Err && result->Err_0 == TerminalError::GenerationOverflow && final(self)@
                    == old(self)@
            } else {
                result is Ok && final(self)@ == (CoreModel {
                    selection_revision: (old(self)@.selection_revision + 1) as u64,
                    ..old(self)@
                })
            },
    {
        match self.selection_revision.checked_add(1) {
            Some(revision) => {
                self.selection_revision = revision;
                Ok(())
            },
            None => Err(TerminalError::GenerationOverflow),
        }
    }

    /// Where the selection is on the display. Both of its ends have to be visible.
    pub fn projected_selection(&self, range: Option<SelectionRange>, display_offset: usize) -> (
    result: Option<ProjectedSelection>)
        requires
            self@.wf(),
            display_offset <= MAX_HISTORY_LINES,
        ensures
            match range {
                None => result is None,
                Some(range) => match projected(
                    range,
                    display_offset as int,
                    self@.size.lines as int,
                ) {
                    Some((start, end)) => {
                        &&& result is Some
                        &&& result->0.start@ == seq![start.0, start.1]
                        &&& result->0.end@ == seq![end.0, end.1]
                    },
                    None => result is None,
                },
            },
            match range {
                None => result is None,
                Some(range) => {
                    let start = visible_cell(
                        range.start.line as int,
                        range.start.column as int,
                        display_offset as int,
                        self@.size.lines as int,
                        65_536,
                    );
                    let end = visible_cell(
                        range.end.line as int,
                        range.end.column as int,
                        display_offset as int,
                        self@.size.lines as int,
                        65_536,
                    );
                    if start is Some && end is Some {
                        &&& result is Some
                        &&& result->0.start@ == seq![(start->0).0, (start->0).1]
                        &&& result->0.end@ == seq![(end->0).0, (end->0).1]
                    } else {
                        result is None
                    }
                },
            },
    {
        match range {
            None => None,
            Some(range) => {
                let start = show_cell(
                    range.start.line,
                    range.start.column,
                    display_offset, self.size.lines, 65_536);
                let end = show_cell(range.end.line, range.end.column, display_offset, self.size.lines, 65_536);
                match (start, end) {
                    (Some(start), Some(end)) => Some(ProjectedSelection { start, end }),
                    _ => None,
                }
            },
        }
    }

    /// The display is scrolled: what is shown changes, the content does not.
    pub fn scroll_display(&mut self) -> (result: Result<(), TerminalError>)
        ensures
            if old(self)@.generation == u64::MAX {
                result is Err && result->Err_0 == TerminalError::GenerationOverflow && final(self)@
                    == old(self)@
            } else {
                result is Ok && final(self)@ == (CoreModel {
                    generation: (old(self)@.generation + 1) as u64,
                    ..old(self)@
                })
            },
    {
        match self.generation.checked_add(1) {
            Some(generation) => {
                self.generation = generation;
                Ok(())
            },
            None => Err(TerminalError::GenerationOverflow),
        }
    }

    /// By how many lines the display is scrolled to reach an offset, which is cut to the size of
    /// the history. Where it is reached already, nothing happens.
    pub fn scroll_to_display_offset(&mut self, offset: usize, history_size: usize, current: usize) -> (
    result: Result<Option<i32>, TerminalError>)
        requires
            history_size <= MAX_HISTORY_LINES,
            current <= history_size,
        ensures
            result is Ok ==> scroll_delta(offset, history_size, current) == match result->Ok_0 {
                Some(delta) => delta as int,
                None => 0,
            },
            ({
                let target = if offset <= history_size {
                    offset as int
                } else {
                    history_size as int
                };
                if target == current {
                    result is Ok && result->Ok_0 is None && final(self)@ == old(self)@
                } else if old(self)@.generation == u64::MAX {
                    result is Err && result->Err_0 == TerminalError::GenerationOverflow && final(self)@ == old(self)@
                } else {
                    result is Ok && result->Ok_0 == Some((target - current) as i32) && final(self)@
                        == (CoreModel {
                        generation: (old(self)@.generation + 1) as u64,
                        ..old(self)@
                    })
                }
            }),
    {
        let target: usize = if offset <= history_size {
            offset
        } else {
            history_size
        };
        if target == current {
            return Ok(None);
        }
        let delta: i32 = target as i32 - current as i32;
        match self.scroll_display() {
            Ok(_) => Ok(Some(delta)),
            Err(error) => Err(error),
        }
    }

    /// Whether the display is to be scrolled to the bottom: it is not there already.
    pub fn scroll_to_bottom(&mut self, display_offset: usize) -> (result: Result<
        bool,
        TerminalError,
    >)
        ensures
            if display_offset == 0 {
                result is Ok && !result->Ok_0 && final(self)@ == old(self)@
            } else if old(self)@.generation == u64::MAX {
                result is Err && result->Err_0 == TerminalError::GenerationOverflow && final(self)@
                    == old(self)@
            } else {
                result is Ok && result->Ok_0 && final(self)@ == (CoreModel {
                    generation: (old(self)@.generation + 1) as u64,
                    ..old(self)@
                })
            },
    {
        if display_offset == 0 {
            return Ok(false);
        }
        match self.scroll_display() {
            Ok(_) => Ok(true),
            Err(error) => Err(error),
        }
    }

    /// The modes that decide how input is encoded.
    pub fn input_modes(&self, mode: EngineModes) -> (result: TerminalModes)
        ensures
            result == terminal_modes(mode, self@.keyboard.state()),
    {
        map_modes(mode, self.keyboard_protocol.state())
    }

    /// The title that is shown.
    pub fn title(&self) -> (result: Option<String>)
        ensures
            opt_view(result) == self@.title,
    {
        match &self.title {
            Some(title) => Some(title.clone()),
            None => None,
        }
    }

    pub fn content_revision(&self) -> (result: u64)
        ensures
            result == self@.content_revision,
    {
        self.content_revision
    }

    pub fn generation(&self) -> (result: u64)
        ensures
            result == self@.generation,
    {
        self.generation
    }
}

impl TerminalCoreAdapter {
    /// Compiles a literal to search for.
    pub fn compile_literal_search(&self, query: &str) -> (result: Result<
        CompiledLiteral,
        SearchError,
    >)
        ensures
            match query_error(query@) {
                Some(error) => result is Err && result->Err_0 == error,
                None => result is Ok && result->Ok_0@ == query@ && result->Ok_0.wf(),
            },
    {
        compile(query)
    }

    /// Compiles a regular expression to search for.
    pub fn compile_regex_search(&self, query: &str) -> (result: Result<CompiledRegex, SearchError>)
        ensures
            match query_error(query@) {
                Some(error) => result is Err && result->Err_0 == error,
                None => match result {
                    Ok(compiled) => compiled@ == query@ && compiled.limits()
                        == RegexLimits::standard(),
                    Err(error) => error == SearchError::InvalidRegex,
                },
            },
    {
        compile_regex(query)
    }

    /// The start of a scan for a literal.
    pub fn search_scan_cursor(&self, screen: &TerminalScreen) -> (result: SearchScanCursor)
        requires
            screen.wf(),
        ensures
            result.content() == self@.content_id(screen.alternate),
            result.read(screen) == Seq::<Token>::empty(),
            forall|pattern: Seq<char>|
                pattern.len() > 0 ==> #[trigger] result.valid(pattern, screen),
    {
        SearchScanCursor::start(self.search_content_id(screen.alternate), screen)
    }

    /// The start of a scan with a regular expression.
    pub fn regex_scan_cursor(&self, screen: &TerminalScreen) -> (result: RegexScanCursor)
        requires
            screen.wf(),
        ensures
            result.content() == self@.content_id(screen.alternate),
            result.read(screen) == Seq::<Token>::empty(),
            forall|pattern: Seq<char>| #[trigger] result.valid(pattern, screen),
            forall|pattern: Seq<char>| (#[trigger] result.found(pattern, screen)).len() == 0,
    {
        RegexScanCursor::start(self.search_content_id(screen.alternate), screen)
    }

    /// Scans on for a literal, unless the content has changed since the scan was started.
    pub fn scan_search_slice<C: Fn() -> Instant>(
        &self,
        screen: &TerminalScreen,
        compiled: &CompiledLiteral,
        cursor: SearchScanCursor,
        budget: SearchBudget,
        clock: &C,
    ) -> (result: Result<SearchScanStep, SearchError>)
        requires
            screen.wf(),
            compiled.wf(),
            cursor.content() == self@.content_id(screen.alternate) ==> cursor.valid(
                compiled@,
                screen,
            ),
            clock.requires(()),
        ensures
            ({
                let content = self@.content_id(screen.alternate);
                if cursor.content() != content {
                    result is Err && result->Err_0 == SearchError::StaleContent
                } else {
                    &&& result is Ok
                    &&& result->Ok_0.content == content
                    &&& result->Ok_0.continues(compiled@, screen, cursor.read(screen))
                    &&& result->Ok_0.uses(
                        budget,
                        pace(*clock, budget.deadline),
                        &cursor,
                        screen,
                    )
                }
            }),
    {
        scan_literal(
            screen,
            self.search_content_id(screen.alternate),
            compiled,
            cursor,
            budget,
            clock,
        )
    }

    /// Scans on with a regular expression, unless the content has changed since the scan was
    /// started.
    pub fn scan_regex_slice<C: Fn() -> Instant>(
        &self,
        screen: &TerminalScreen,
        compiled: &CompiledRegex,
        cursor: RegexScanCursor,
        budget: SearchBudget,
        clock: &C,
    ) -> (result: Result<RegexScanStep, SearchError>)
        requires
            screen.wf(),
            cursor.content() == self@.content_id(screen.alternate) ==> cursor.valid(
                compiled@,
                screen,
            ),
            clock.requires(()),
        ensures
            ({
                let content = self@.content_id(screen.alternate);
                if cursor.content() != content {
                    result is Err && result->Err_0 == SearchError::StaleContent
                } else {
                    match result {
                        Ok(step) => {
                            &&& step.content == content
                            &&& step.continues(compiled@, screen, cursor.found(compiled@, screen))
                            &&& step.uses(
                                budget,
                                pace(*clock, budget.deadline),
                                &cursor,
                                screen,
                            )
                        },
                        Err(error) => {
                            &&& error == SearchError::RegexLineTooLong
                            &&& too_long_within(
                                screen,
                                cursor.row(screen),
                                at_most(budget.max_rows, MAX_SEARCH_SLICE_ROWS) as int,
                            )
                            &&& !lines_fit(screen)
                        },
                    }
                }
            }),
    {
        scan_regex(
            screen,
            self.search_content_id(screen.alternate),
            compiled,
            cursor,
            budget,
            clock,
        )
    }
}

/// The modes of the engine.
#[derive(Clone, Copy, Debug, PartialEq, Eq, Structural)]
pub struct EngineModes {
    pub alt_screen: bool,
    pub bracketed_paste: bool,
    pub app_cursor: bool,
    pub app_keypad: bool,
    pub focus_in_out: bool,
    pub alternate_scroll: bool,
    pub mouse_motion: bool,
    pub mouse_drag: bool,
    pub mouse_report_click: bool,
    pub sgr_mouse: bool,
    pub utf8_mouse: bool,
    pub show_cursor: bool,
}

/// The modes of the terminal. Of the pointer protocols and encodings the richest counts.
pub open spec fn terminal_modes(mode: EngineModes, keyboard: KeyboardProtocolState) -> TerminalModes {
    TerminalModes {
        alternate_screen: mode.alt_screen,
        bracketed_paste: mode.bracketed_paste,
        application_cursor: mode.app_cursor,
        application_keypad: mode.app_keypad,
        keyboard,
        focus_reporting: mode.focus_in_out,
        alternate_scroll: mode.alternate_scroll,
        mouse_protocol: if mode.mouse_motion {
            MouseProtocol::AnyEvent
        } else if mode.mouse_drag {
            MouseProtocol::ButtonEvent
        } else if mode.mouse_report_click {
            MouseProtocol::Normal
        } else {
            MouseProtocol::Off
        },
        mouse_encoding: if mode.sgr_mouse {
            MouseEncoding::Sgr
        } else if mode.utf8_mouse {
            MouseEncoding::Utf8
        } else {
            MouseEncoding::Legacy
        },
    }
}

pub(crate) fn map_modes(mode: EngineModes, keyboard: KeyboardProtocolState) -> (result:
    TerminalModes)
    ensures
        result == terminal_modes(mode, keyboard),
{
    TerminalModes {
        alternate_screen: mode.alt_screen,
        bracketed_paste: mode.bracketed_paste,
        application_cursor: mode.app_cursor,
        application_keypad: mode.app_keypad,
        keyboard,
        focus_reporting: mode.focus_in_out,
        alternate_scroll: mode.alternate_scroll,
        mouse_protocol: if mode.mouse_motion {
            MouseProtocol::AnyEvent
        } else if mode.mouse_drag {
            MouseProtocol::ButtonEvent
        } else if mode.mouse_report_click {
            MouseProtocol::Normal
        } else {
            MouseProtocol::Off
        },
        mouse_encoding: if mode.sgr_mouse {
            MouseEncoding::Sgr
        } else if mode.utf8_mouse {
            MouseEncoding::Utf8
        } else {
            MouseEncoding::Legacy
        },
    }
}

/// Scrolling never makes a search stale: the content it runs on keeps its identity.
pub proof fn scrolling_keeps_the_content(m: CoreModel, alternate: bool)
    requires
        m.generation < u64::MAX,
    ensures
        (CoreModel { generation: (m.generation + 1) as u64, ..m }).content_id(alternate)
            == m.content_id(alternate),
{
}

/// A change of the content always makes a search stale.
pub proof fn a_change_makes_searches_stale(m: CoreModel, alternate: bool, now_alternate: bool)
    requires
        m.can_change(),
    ensures
        m.changed().content_id(now_alternate) != m.content_id(alternate),
        m.changed().generation > m.generation,
{
}

/// Bounded replies: however many events a round has, its replies stay within the limit, and
/// access to the clipboard is never granted.
pub proof fn replies_stay_within_the_limit(m: EventsModel, events: Seq<TerminalEvent>)
    requires
        m.audit.reply_bytes <= MAX_PTY_REPLY_BYTES,
    ensures
        events_fold(m, events).audit.reply_bytes <= MAX_PTY_REPLY_BYTES,
        m.actions.len() <= events_fold(m, events).actions.len() <= m.actions.len() + events.len(),
    decreases events.len(),
{
    if events.len() > 0 {
        replies_stay_within_the_limit(m, events.drop_last());
    }
}

/// A title that is shown is one that is allowed, or the one that was shown before.
pub proof fn titles_are_allowed(m: EventsModel, events: Seq<TerminalEvent>)
    requires
        m.title is Some ==> title_error(m.title->0) is None,
    ensures
        events_fold(m, events).title is Some ==> title_error(events_fold(m, events).title->0) is None,
    decreases events.len(),
{
    if events.len() > 0 {
        titles_are_allowed(m, events.drop_last());
    }
}

/// The pieces of a plan, one after the other, are the batch.
pub proof fn pieces_make_the_batch(
    plan: AdvancePlan,
    bytes: Seq<u8>,
    replies: Seq<(int, Seq<u8>)>,
    n: int,
)
    requires
        plan.follows(bytes.len() as int, replies),
        0 <= n < plan.pieces@.len(),
    ensures
        joined(plan, bytes, n) == bytes.take(plan.pieces@[n].end as int),
        n == plan.pieces@.len() - 1 ==> joined(plan, bytes, n) == bytes,
    decreases n,
{
    let piece = plan.pieces@[n];
    if n == 0 {
        assert(joined(plan, bytes, n) =~= bytes.take(piece.end as int));
    } else {
        pieces_make_the_batch(plan, bytes, replies, n - 1);
        let before = plan.pieces@[n - 1];
        assert(before.end == piece.start);
        assert(joined(plan, bytes, n) =~= bytes.take(piece.end as int));
    }
    if n == plan.pieces@.len() - 1 {
        assert(bytes.take(bytes.len() as int) =~= bytes);
    }
}

/// The bytes of the pieces up to piece `n`.
pub open spec fn joined(plan: AdvancePlan, bytes: Seq<u8>, n: int) -> Seq<u8>
    decreases n,
{
    let piece = plan.pieces@[n];
    let part = bytes.subrange(piece.start as int, piece.end as int);
    if n <= 0 {
        part
    } else {
        joined(plan, bytes, n - 1) + part
    }
}

} // verus!
