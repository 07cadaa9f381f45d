//! Who owns the clipboard and the primary selection, and how a paste proceeds.
use vstd::prelude::*;
use vstd::utf8::encode_utf8;
use std::collections::HashMap;
use crate::clipboard::{
    evaluate_paste, paste_policy, PasteConfirmationOverlay, PastePolicy, PolicyModel,
    TransferError, TransferTarget,
};
use crate::keys::{KeyInput, KeyState, LogicalKey};
use crate::security::MAX_CLIPBOARD_BYTES;
use crate::tab::SessionId;
use crate::text::string_bytes;

verus! {

broadcast use vstd::std_specs::hash::group_hash_axioms;

#[derive(Clone, Copy, Debug, PartialEq, Eq, Hash, Structural)]
pub struct RequestToken {
    pub value: u64,
}

impl RequestToken {
    pub fn get(self) -> (result: u64)
        ensures
            result == self.value,
    {
        self.value
    }

    pub fn from_raw(value: u64) -> (result: RequestToken)
        ensures
            result.value == value,
    {
        RequestToken { value }
    }
}

#[derive(Clone, Copy, Debug, PartialEq, Eq, Hash, Structural)]
pub struct SourceToken {
    pub value: u64,
}

impl SourceToken {
    pub fn get(self) -> (result: u64)
        ensures
            result == self.value,
    {
        self.value
    }

    pub fn from_raw(value: u64) -> (result: SourceToken)
        ensures
            result.value == value,
    {
        SourceToken { value }
    }
}

#[derive(Clone, Copy, Debug, PartialEq, Eq, Structural)]
pub enum OfferState {
    Unavailable,
    Empty,
    Unsupported,
    TextAvailable,
}

#[derive(Clone, Copy, Debug, PartialEq, Eq, Structural)]
pub enum InteractionMode {
    Normal,
    ConfirmPaste { request: RequestToken },
}

/// What is to be done when a paste ends before its time.
#[derive(Clone, Copy, Debug, PartialEq, Eq, Structural)]
pub struct PasteCancellation {
    pub request: Option<RequestToken>,
    pub resume_ime: bool,
    pub overlay_changed: bool,
}

impl PasteCancellation {
    pub open spec fn none() -> PasteCancellation {
        PasteCancellation { request: None, resume_ime: false, overlay_changed: false }
    }
}

impl Default for PasteCancellation {
    fn default() -> (result: PasteCancellation)
        ensures
            result == PasteCancellation::none(),
    {
        PasteCancellation { request: None, resume_ime: false, overlay_changed: false }
    }
}

#[derive(Clone, Copy, Debug, PartialEq, Eq, Structural)]
pub struct PublishStart {
    pub source: SourceToken,
    pub replaced: Option<SourceToken>,
}

#[derive(Clone, Copy, Debug, PartialEq, Eq, Structural)]
pub struct RequestStart {
    pub request: RequestToken,
    pub cancel: PasteCancellation,
}

/// What becomes of a transfer that has come to its end.
#[derive(Clone, Debug, PartialEq, Eq)]
pub enum PasteTransition {
    IgnoreStale,
    Failed(TransferError),
    Rejected,
    Noop,
    Paste { owner: SessionId, text: String },
    Confirming,
}

/// A transition over its text.
pub enum TransitionModel {
    IgnoreStale,
    Failed(TransferError),
    Rejected,
    Noop,
    Paste { owner: SessionId, text: Seq<char> },
    Confirming,
}

impl View for PasteTransition {
    type V = TransitionModel;

    open spec fn view(&self) -> TransitionModel {
        match *self {
            PasteTransition::IgnoreStale => TransitionModel::IgnoreStale,
            PasteTransition::Failed(error) => TransitionModel::Failed(error),
            PasteTransition::Rejected => TransitionModel::Rejected,
            PasteTransition::Noop => TransitionModel::Noop,
            PasteTransition::Paste { owner, text } => TransitionModel::Paste { owner, text: text@ },
            PasteTransition::Confirming => TransitionModel::Confirming,
        }
    }
}

/// What becomes of a key while a paste is to be confirmed.
#[derive(Clone, Debug, PartialEq, Eq)]
pub enum ConfirmationOutcome {
    NotActive,
    Consumed,
    Closed,
    Paste { owner: SessionId, text: String },
}

/// An outcome over its text.
pub enum OutcomeModel {
    NotActive,
    Consumed,
    Closed,
    Paste { owner: SessionId, text: Seq<char> },
}

impl View for ConfirmationOutcome {
    type V = OutcomeModel;

    open spec fn view(&self) -> OutcomeModel {
        match *self {
            ConfirmationOutcome::NotActive => OutcomeModel::NotActive,
            ConfirmationOutcome::Consumed => OutcomeModel::Consumed,
            ConfirmationOutcome::Closed => OutcomeModel::Closed,
            ConfirmationOutcome::Paste { owner, text } => OutcomeModel::Paste {
                owner,
                text: text@,
            },
        }
    }
}

enum PasteState {
    Idle,
    Reading {
        request: RequestToken,
        target: TransferTarget,
        owner: SessionId,
        offer_generation: u64,
    },
    Confirming {
        request: RequestToken,
        target: TransferTarget,
        owner: SessionId,
        offer_generation: u64,
        text: String,
        overlay: PasteConfirmationOverlay,
        ime_suspended: bool,
    },
}

/// How far a paste is.
pub enum PasteModel {
    Idle,
    Reading {
        request: RequestToken,
        target: TransferTarget,
        owner: SessionId,
        offer_generation: u64,
    },
    Confirming {
        request: RequestToken,
        target: TransferTarget,
        owner: SessionId,
        offer_generation: u64,
        text: Seq<char>,
        overlay: PasteConfirmationOverlay,
        ime_suspended: bool,
    },
}

impl PasteState {
    closed spec fn model(&self) -> PasteModel {
        match *self {
            PasteState::Idle => PasteModel::Idle,
            PasteState::Reading { request, target, owner, offer_generation } =>
                PasteModel::Reading { request, target, owner, offer_generation },
            PasteState::Confirming {
                request,
                target,
                owner,
                offer_generation,
                text,
                overlay,
                ime_suspended,
            } => PasteModel::Confirming {
                request,
                target,
                owner,
                offer_generation,
                text: text@,
                overlay,
                ime_suspended,
            },
        }
    }
}

impl PasteModel {
    pub open spec fn request(self) -> Option<RequestToken> {
        match self {
            PasteModel::Idle => None,
            PasteModel::Reading { request, .. } => Some(request),
            PasteModel::Confirming { request, .. } => Some(request),
        }
    }

    pub open spec fn target(self) -> Option<TransferTarget> {
        match self {
            PasteModel::Idle => None,
            PasteModel::Reading { target, .. } => Some(target),
            PasteModel::Confirming { target, .. } => Some(target),
        }
    }

    /// What is to be done when the paste is dropped: a transfer is cancelled, and a question is
    /// taken down.
    pub open spec fn cancellation(self) -> PasteCancellation {
        match self {
            PasteModel::Idle => PasteCancellation::none(),
            PasteModel::Reading { request, .. } => PasteCancellation {
                request: Some(request),
                ..PasteCancellation::none()
            },
            PasteModel::Confirming { ime_suspended, .. } => PasteCancellation {
                request: None,
                resume_ime: ime_suspended,
                overlay_changed: true,
            },
        }
    }
}

/// What is known of a target.
#[derive(Clone, Copy, Debug, PartialEq, Eq, Structural)]
pub struct TargetState {
    pub offer_generation: u64,
    pub offer: OfferState,
    pub current_source: Option<SourceToken>,
}

struct SourceRecord {
    target: TransferTarget,
    bytes: Vec<u8>,
}

/// Text that this application offers.
pub struct RecordModel {
    pub target: TransferTarget,
    pub bytes: Seq<u8>,
}

impl SourceRecord {
    closed spec fn model(&self) -> RecordModel {
        RecordModel { target: self.target, bytes: self.bytes@ }
    }
}

/// Follows both targets, the texts that are offered and the paste that is under way.
pub struct SelectionController {
    clipboard: TargetState,
    primary: TargetState,
    sources: HashMap<u64, SourceRecord>,
    next_source: u64,
    next_request: u64,
    overlay_revision: u64,
    paste: PasteState,
    shutdown: bool,
}

/// The state of a controller.
pub struct SelectionModel {
    pub clipboard: TargetState,
    pub primary: TargetState,
    pub sources: Map<u64, RecordModel>,
    pub next_source: u64,
    pub next_request: u64,
    pub overlay_revision: u64,
    pub paste: PasteModel,
    pub shutdown: bool,
}

/// The number after `n`; zero is left out.
pub open spec fn next_number(n: u64) -> u64 {
    if n < u64::MAX {
        (n + 1) as u64
    } else {
        1
    }
}

fn after(n: u64) -> (result: u64)
    ensures
        result == next_number(n),
{
    if n < u64::MAX {
        n + 1
    } else {
        1
    }
}

impl SelectionModel {
    pub open spec fn initial() -> SelectionModel {
        let target = TargetState {
            offer_generation: 0,
            offer: OfferState::Unavailable,
            current_source: None,
        };
        SelectionModel {
            clipboard: target,
            primary: target,
            sources: Map::empty(),
            next_source: 1,
            next_request: 1,
            overlay_revision: 0,
            paste: PasteModel::Idle,
            shutdown: false,
        }
    }

    pub open spec fn target(self, target: TransferTarget) -> TargetState {
        match target {
            TransferTarget::Clipboard => self.clipboard,
            TransferTarget::Primary => self.primary,
        }
    }

    pub open spec fn with_target(self, target: TransferTarget, state: TargetState) -> SelectionModel {
        match target {
            TransferTarget::Clipboard => SelectionModel { clipboard: state, ..self },
            TransferTarget::Primary => SelectionModel { primary: state, ..self },
        }
    }

    pub open spec fn with_source(self, target: TransferTarget, source: Option<SourceToken>) -> SelectionModel {
        self.with_target(target, TargetState { current_source: source, ..self.target(target) })
    }

    /// Whether a text is offered to a target.
    pub open spec fn offers(self, target: TransferTarget, source: SourceToken) -> bool {
        self.sources.contains_key(source.value) && self.sources[source.value].target == target
    }

    /// The text that is offered to a target, if there is one, is held for that target.
    pub open spec fn holds_current(self, target: TransferTarget) -> bool {
        match self.target(target).current_source {
            Some(source) => self.offers(target, source),
            None => true,
        }
    }

    /// What is offered is held; every text that is held was given its number before; a paste goes
    /// by the offer that stands; and after the shutdown nothing is held or pasted.
    pub open spec fn wf(self) -> bool {
        &&& self.holds_current(TransferTarget::Clipboard)
        &&& self.holds_current(TransferTarget::Primary)
        &&& forall|token: u64| #[trigger]
            self.sources.contains_key(token) ==> token < self.next_source
        &&& match self.paste {
            PasteModel::Idle => true,
            PasteModel::Reading { target, offer_generation, .. } => offer_generation
                == self.target(target).offer_generation,
            PasteModel::Confirming { target, offer_generation, .. } => offer_generation
                == self.target(target).offer_generation,
        }
        &&& self.shutdown ==> self.sources == Map::<u64, RecordModel>::empty()
            && self.paste is Idle
    }

    /// Whether a text may be prepared: not after the shutdown, nor an empty one or one that is too
    /// long.
    pub open spec fn takes(self, text: Seq<char>) -> bool {
        !self.shutdown && text.len() > 0 && encode_utf8(text).len() <= MAX_CLIPBOARD_BYTES
    }

    /// The controller that holds a text for a target under the next number.
    pub open spec fn prepared(self, target: TransferTarget, text: Seq<char>) -> SelectionModel {
        SelectionModel {
            next_source: next_number(self.next_source),
            sources: self.sources.insert(
                self.next_source,
                RecordModel { target, bytes: encode_utf8(text) },
            ),
            ..self
        }
    }

    /// What comes of a text being offered now: it takes the place of the one that was.
    pub open spec fn submitted(self, target: TransferTarget, source: SourceToken) -> SelectionModel {
        let replaced = self.target(target).current_source;
        if !self.offers(target, source) {
            self
        } else if replaced is Some && replaced->0 != source {
            SelectionModel { sources: self.sources.remove(replaced->0.value), ..self }.with_source(
                target,
                Some(source),
            )
        } else {
            self.with_source(target, Some(source))
        }
    }

    /// What comes of a text that could not be offered: it is dropped.
    pub open spec fn not_published(self, source: SourceToken) -> SelectionModel {
        if self.sources.contains_key(source.value) {
            self.withdrawn(self.sources[source.value].target, source)
        } else {
            self
        }
    }

    /// What can be told of the controller.
    pub open spec fn snapshot(self) -> SelectionDebugSnapshot {
        SelectionDebugSnapshot {
            paste: match self.paste {
                PasteModel::Idle => PasteStateKind::Idle,
                PasteModel::Reading { .. } => PasteStateKind::Reading,
                PasteModel::Confirming { .. } => PasteStateKind::Confirming,
            },
            request: self.paste.request(),
            source_count: self.sources.len() as usize,
            shutdown: self.shutdown,
            clipboard_offer: self.clipboard.offer,
            clipboard_generation: self.clipboard.offer_generation,
            clipboard_source: self.clipboard.current_source,
            primary_offer: self.primary.offer,
            primary_generation: self.primary.offer_generation,
            primary_source: self.primary.current_source,
        }
    }

    /// The controller without a text that it offered.
    pub open spec fn withdrawn(self, target: TransferTarget, source: SourceToken) -> SelectionModel {
        let left = SelectionModel { sources: self.sources.remove(source.value), ..self };
        if self.target(target).current_source == Some(source) {
            left.with_source(target, None)
        } else {
            left
        }
    }

    pub open spec fn idle(self) -> SelectionModel {
        SelectionModel { paste: PasteModel::Idle, ..self }
    }

    /// What a new offer for a target does. A paste from that target is dropped; one from the
    /// other is not.
    pub open spec fn offered(self, target: TransferTarget, offer: OfferState) -> SelectionModel {
        let state = self.target(target);
        let gone = offer is Unavailable && state.current_source is Some;
        let fresh = self.with_target(
            target,
            TargetState {
                offer_generation: next_number(state.offer_generation),
                offer,
                current_source: if offer is Unavailable {
                    None
                } else {
                    state.current_source
                },
            },
        );
        let kept = SelectionModel {
            sources: if gone {
                self.sources.remove(state.current_source->0.value)
            } else {
                self.sources
            },
            ..fresh
        };
        if self.paste.target() == Some(target) {
            kept.idle()
        } else {
            kept
        }
    }

    /// What becomes of a transfer that has come to its end. It counts only if it is the one that
    /// is awaited, its tab is still active and its offer still stands.
    pub open spec fn completed(
        self,
        request: RequestToken,
        target: TransferTarget,
        result: Result<Seq<char>, TransferError>,
        confirm_multiline: bool,
        active_owner: SessionId,
    ) -> (SelectionModel, TransitionModel) {
        match self.paste {
            PasteModel::Reading { request: current, target: from, owner, offer_generation } => if current
                != request || from != target {
                (self, TransitionModel::IgnoreStale)
            } else if owner != active_owner || offer_generation != self.target(
                target,
            ).offer_generation {
                (self.idle(), TransitionModel::IgnoreStale)
            } else {
                match result {
                    Err(error) => (self.idle(), TransitionModel::Failed(error)),
                    Ok(text) => if text.len() == 0 {
                        (self.idle(), TransitionModel::Noop)
                    } else {
                        match paste_policy(text, confirm_multiline) {
                            PolicyModel::Allowed(text) => (
                                self.idle(),
                                TransitionModel::Paste { owner, text },
                            ),
                            PolicyModel::Rejected => (self.idle(), TransitionModel::Rejected),
                            PolicyModel::NeedsConfirmation { text, bytes, lines, risk } => {
                                let revision = next_number(self.overlay_revision);
                                let overlay = PasteConfirmationOverlay {
                                    revision,
                                    source: target,
                                    bytes,
                                    lines,
                                    risk,
                                };
                                (
                                    SelectionModel {
                                        overlay_revision: revision,
                                        paste: PasteModel::Confirming {
                                            request,
                                            target,
                                            owner,
                                            offer_generation,
                                            text,
                                            overlay,
                                            ime_suspended: false,
                                        },
                                        ..self
                                    },
                                    TransitionModel::Confirming,
                                )
                            },
                        }
                    },
                }
            },
            _ => (self, TransitionModel::IgnoreStale),
        }
    }

    /// What becomes of a key while a paste is to be confirmed. Only a yes of the tab that asked
    /// for the paste lets it through.
    pub open spec fn answered(self, key: KeyInput, active_owner: SessionId) -> (
        SelectionModel,
        OutcomeModel,
    ) {
        match self.paste {
            PasteModel::Confirming { target, owner, offer_generation, text, .. } => if owner
                != active_owner || offer_generation != self.target(target).offer_generation {
                (self.idle(), OutcomeModel::Closed)
            } else if key.state is Released {
                (self, OutcomeModel::Consumed)
            } else if is_yes(key.logical_key) {
                (self.idle(), OutcomeModel::Paste { owner, text })
            } else {
                (self.idle(), OutcomeModel::Closed)
            },
            _ => (self, OutcomeModel::NotActive),
        }
    }
}

/// Whether a key says yes.
pub open spec fn is_yes(key: LogicalKey) -> bool {
    key is Enter || key == LogicalKey::Character('y') || key == LogicalKey::Character('Y')
}

spec fn records(sources: Map<u64, SourceRecord>) -> Map<u64, RecordModel> {
    sources.map_values(|r: SourceRecord| r.model())
}

impl View for SelectionController {
    type V = SelectionModel;

    closed spec fn view(&self) -> SelectionModel {
        SelectionModel {
            clipboard: self.clipboard,
            primary: self.primary,
            sources: records(self.sources@),
            next_source: self.next_source,
            next_request: self.next_request,
            overlay_revision: self.overlay_revision,
            paste: self.paste.model(),
            shutdown: self.shutdown,
        }
    }
}

/// What can be told of a controller.
#[derive(Clone, Copy, Debug, PartialEq, Eq, Structural)]
pub struct SelectionDebugSnapshot {
    pub paste: PasteStateKind,
    pub request: Option<RequestToken>,
    pub source_count: usize,
    pub shutdown: bool,
    pub clipboard_offer: OfferState,
    pub clipboard_generation: u64,
    pub clipboard_source: Option<SourceToken>,
    pub primary_offer: OfferState,
    pub primary_generation: u64,
    pub primary_source: Option<SourceToken>,
}

#[derive(Clone, Copy, Debug, PartialEq, Eq, Structural)]
pub enum PasteStateKind {
    Idle,
    Reading,
    Confirming,
}

impl Default for SelectionController {
    fn default() -> (result: SelectionController)
        ensures
            result@ == SelectionModel::initial(),
            result@.wf(),
    {
        let target = TargetState {
            offer_generation: 0,
            offer: OfferState::Unavailable,
            current_source: None,
        };
        let result = SelectionController {
            clipboard: target,
            primary: target,
            sources: HashMap::new(),
            next_source: 1,
            next_request: 1,
            overlay_revision: 0,
            paste: PasteState::Idle,
            shutdown: false,
        };
        assert(result@.sources =~= Map::empty());
        result
    }
}

impl SelectionController {
    fn target(&self, target: TransferTarget) -> (result: TargetState)
        ensures
            result == self@.target(target),
    {
        match target {
            TransferTarget::Clipboard => self.clipboard,
            TransferTarget::Primary => self.primary,
        }
    }

    fn set_source(&mut self, target: TransferTarget, source: Option<SourceToken>)
        ensures
            final(self)@ == old(self)@.with_source(target, source),
    {
        match target {
            TransferTarget::Clipboard => {
                self.clipboard.current_source = source;
            },
            TransferTarget::Primary => {
                self.primary.current_source = source;
            },
        }
    }

    fn remove_record(&mut self, source: u64)
        ensures
            final(self)@ == (SelectionModel {
                sources: old(self)@.sources.remove(source),
                ..old(self)@
            }),
    {
        let ghost before = self.sources@;
        self.sources.remove(&source);
        assert(records(self.sources@) =~= records(before).remove(source));
    }

    fn is_offered(&self, target: TransferTarget, source: SourceToken) -> (result: bool)
        ensures
            result == self@.offers(target, source),
    {
        match self.sources.get(&source.value) {
            Some(record) => record.target == target,
            None => false,
        }
    }

    /// Prepares a text to be offered. Nothing is offered after the shutdown, nor an empty text or
    /// one that is too long. The numbers of the texts start over after the last one; until then
    /// the controller stays well-formed.
    pub fn prepare_publish(&mut self, target: TransferTarget, text: String) -> (result: Option<
        PublishStart,
    >)
        ensures
            ({
                let m = old(self)@;
                let source = SourceToken { value: m.next_source };
                if m.takes(text@) {
                    &&& result == Some(
                        PublishStart { source, replaced: m.target(target).current_source },
                    )
                    &&& final(self)@ == m.prepared(target, text@)
                } else {
                    result is None && final(self)@ == m
                }
            }),
            old(self)@.wf() && old(self)@.next_source < u64::MAX ==> final(self)@.wf(),
    {
        if self.shutdown || text.as_str().is_empty() || text.as_str().as_bytes().len()
            > MAX_CLIPBOARD_BYTES {
            return None;
        }
        let source: u64 = self.next_source;
        self.next_source = after(source);
        let replaced = self.target(target).current_source;
        let ghost before = self.sources@;
        let record = SourceRecord { target, bytes: string_bytes(text.as_str()) };
        let ghost model = record.model();
        self.sources.insert(source, record);
        assert(records(self.sources@) =~= records(before).insert(source, model));
        Some(PublishStart { source: SourceToken { value: source }, replaced })
    }

    /// A text that was prepared is offered now. The one that was offered before is dropped.
    pub fn publish_submitted(&mut self, target: TransferTarget, source: SourceToken)
        ensures
            final(self)@ == old(self)@.submitted(target, source),
            old(self)@.wf() ==> final(self)@.wf(),
    {
        if !self.is_offered(target, source) {
            return ;
        }
        if let Some(replaced) = self.target(target).current_source {
            if replaced != source {
                self.remove_record(replaced.value);
            }
        }
        self.set_source(target, Some(source));
    }

    /// A text that was prepared could not be offered.
    pub fn publish_failed(&mut self, source: SourceToken)
        ensures
            final(self)@ == old(self)@.not_published(source),
            old(self)@.wf() ==> final(self)@.wf(),
    {
        let target = match self.sources.get(&source.value) {
            Some(record) => record.target,
            None => {
                return ;
            },
        };
        self.withdraw(target, source);
    }

    fn withdraw(&mut self, target: TransferTarget, source: SourceToken)
        ensures
            final(self)@ == old(self)@.withdrawn(target, source),
    {
        let is_current = match self.target(target).current_source {
            Some(current) => current == source,
            None => false,
        };
        self.remove_record(source.value);
        if is_current {
            self.set_source(target, None);
        }
    }

    /// The bytes of a text that is offered to a target.
    pub fn source_bytes(&self, target: TransferTarget, source: SourceToken) -> (result: Option<
        Vec<u8>,
    >)
        ensures
            result is Some <==> self@.offers(target, source),
            result is Some ==> result->0@ == self@.sources[source.value].bytes,
    {
        match self.sources.get(&source.value) {
            Some(record) => if record.target == target {
                Some(vstd::slice::slice_to_vec(record.bytes.as_slice()))
            } else {
                None
            },
            None => None,
        }
    }

    /// Another client took the target over. Only the text that was offered to it is dropped.
    pub fn source_cancelled(&mut self, target: TransferTarget, source: SourceToken)
        ensures
            final(self)@ == (if old(self)@.offers(target, source) {
                old(self)@.withdrawn(target, source)
            } else {
                old(self)@
            }),
            old(self)@.wf() ==> final(self)@.wf(),
    {
        if self.is_offered(target, source) {
            self.withdraw(target, source);
        }
    }

    /// There is a new offer for a target.
    pub fn offer_changed(&mut self, target: TransferTarget, offer: OfferState) -> (result:
        PasteCancellation)
        ensures
            final(self)@ == old(self)@.offered(target, offer),
            old(self)@.wf() ==> final(self)@.wf(),
            result == (if old(self)@.paste.target() == Some(target) {
                old(self)@.paste.cancellation()
            } else {
                PasteCancellation::none()
            }),
    {
        let state = self.target(target);
        let generation: u64 = after(state.offer_generation);
        let gone = offer == OfferState::Unavailable;
        if gone {
            if let Some(source) = state.current_source {
                self.remove_record(source.value);
            }
        }
        let fresh = TargetState {
            offer_generation: generation,
            offer,
            current_source: if gone {
                None
            } else {
                state.current_source
            },
        };
        match target {
            TransferTarget::Clipboard => {
                self.clipboard = fresh;
            },
            TransferTarget::Primary => {
                self.primary = fresh;
            },
        }
        let same = match self.paste_target() {
            Some(from) => from == target,
            None => false,
        };
        if same {
            self.cancel_paste()
        } else {
            PasteCancellation::default()
        }
    }

    fn paste_target(&self) -> (result: Option<TransferTarget>)
        ensures
            result == self@.paste.target(),
    {
        match &self.paste {
            PasteState::Idle => None,
            PasteState::Reading { target, .. } => Some(*target),
            PasteState::Confirming { target, .. } => Some(*target),
        }
    }

    fn active_request(&self) -> (result: Option<RequestToken>)
        ensures
            result == self@.paste.request(),
    {
        match &self.paste {
            PasteState::Idle => None,
            PasteState::Reading { request, .. } => Some(*request),
            PasteState::Confirming { request, .. } => Some(*request),
        }
    }

    /// Asks for the text of a target on behalf of a tab. A paste that was under way is dropped.
    pub fn begin_request(&mut self, target: TransferTarget, owner: SessionId) -> (result: Option<
        RequestStart,
    >)
        ensures
            final(self)@ == old(self)@.requested(target, owner),
            ({
                let m = old(self)@;
                let request = RequestToken { value: m.next_request };
                if m.shutdown {
                    result is None && final(self)@ == m
                } else {
                    &&& result == Some(RequestStart { request, cancel: m.paste.cancellation() })
                    &&& final(self)@ == (SelectionModel {
                        next_request: next_number(m.next_request),
                        paste: PasteModel::Reading {
                            request,
                            target,
                            owner,
                            offer_generation: m.target(target).offer_generation,
                        },
                        ..m
                    })
                }
            }),
            old(self)@.wf() ==> final(self)@.wf(),
    {
        if self.shutdown {
            return None;
        }
        let cancel = self.cancel_paste();
        let request = RequestToken { value: self.next_request };
        self.next_request = after(self.next_request);
        let offer_generation: u64 = self.target(target).offer_generation;
        self.paste = PasteState::Reading { request, target, owner, offer_generation };
        Some(RequestStart { request, cancel })
    }

    /// A request could not be made.
    pub fn request_failed(&mut self, request: RequestToken)
        ensures
            final(self)@ == (if old(self)@.paste.request() == Some(request) {
                old(self)@.idle()
            } else {
                old(self)@
            }),
            old(self)@.wf() ==> final(self)@.wf(),
    {
        let same = match self.active_request() {
            Some(active) => active == request,
            None => false,
        };
        if same {
            self.paste = PasteState::Idle;
        }
    }

    /// A transfer has come to its end.
    pub fn transfer_completed(
        &mut self,
        request: RequestToken,
        target: TransferTarget,
        result: Result<String, TransferError>,
        confirm_multiline: bool,
        active_owner: SessionId,
    ) -> (transition: PasteTransition)
        ensures
            ({
                let text = match result {
                    Ok(text) => Ok(text@),
                    Err(error) => Err(error),
                };
                (final(self)@, transition@) == old(self)@.completed(
                    request,
                    target,
                    text,
                    confirm_multiline,
                    active_owner,
                )
            }),
            old(self)@.wf() ==> final(self)@.wf(),
    {
        let (current, from, owner, offer_generation) = match &self.paste {
            PasteState::Reading { request, target, owner, offer_generation } => (
                *request,
                *target,
                *owner,
                *offer_generation,
            ),
            _ => {
                return PasteTransition::IgnoreStale;
            },
        };
        if current != request || from != target {
            return PasteTransition::IgnoreStale;
        }
        let fresh = owner == active_owner && offer_generation == self.target(
            target,
        ).offer_generation;
        self.paste = PasteState::Idle;
        if !fresh {
            return PasteTransition::IgnoreStale;
        }
        let text = match result {
            Ok(text) => text,
            Err(error) => {
                return PasteTransition::Failed(error);
            },
        };
        if text.as_str().is_empty() {
            return PasteTransition::Noop;
        }
        match evaluate_paste(text.as_str(), confirm_multiline) {
            PastePolicy::Allowed(text) => PasteTransition::Paste { owner, text },
            PastePolicy::Rejected => PasteTransition::Rejected,
            PastePolicy::NeedsConfirmation { text, bytes, lines, risk } => {
                let revision: u64 = after(self.overlay_revision);
                self.overlay_revision = revision;
                self.paste =
                PasteState::Confirming {
                    request,
                    target,
                    owner,
                    offer_generation,
                    text,
                    overlay: PasteConfirmationOverlay {
                        revision,
                        source: target,
                        bytes,
                        lines,
                        risk,
                    },
                    ime_suspended: false,
                };
                PasteTransition::Confirming
            },
        }
    }

    /// Takes a key while a paste is to be confirmed.
    pub fn confirmation_input(&mut self, key: &KeyInput, active_owner: SessionId) -> (result:
        ConfirmationOutcome)
        ensures
            (final(self)@, result@) == old(self)@.answered(*key, active_owner),
            old(self)@.wf() ==> final(self)@.wf(),
    {
        let (owner, target, offer_generation) = match &self.paste {
            PasteState::Confirming { owner, target, offer_generation, .. } => (
                *owner,
                *target,
                *offer_generation,
            ),
            _ => {
                return ConfirmationOutcome::NotActive;
            },
        };
        if owner != active_owner || offer_generation != self.target(target).offer_generation {
            self.paste = PasteState::Idle;
            return ConfirmationOutcome::Closed;
        }
        if key.state == KeyState::Released {
            return ConfirmationOutcome::Consumed;
        }
        let yes = match key.logical_key {
            LogicalKey::Enter => true,
            LogicalKey::Character(c) => c == 'y' || c == 'Y',
            _ => false,
        };
        let mut paste = PasteState::Idle;
        core::mem::swap(&mut self.paste, &mut paste);
        if yes {
            if let PasteState::Confirming { owner, text, .. } = paste {
                return ConfirmationOutcome::Paste { owner, text };
            }
        }
        ConfirmationOutcome::Closed
    }

    /// Drops the paste that is under way.
    pub fn cancel_paste(&mut self) -> (result: PasteCancellation)
        ensures
            result == old(self)@.paste.cancellation(),
            final(self)@ == old(self)@.idle(),
            old(self)@.wf() ==> final(self)@.wf(),
    {
        let cancellation = match &self.paste {
            PasteState::Idle => PasteCancellation::default(),
            PasteState::Reading { request, .. } => PasteCancellation {
                request: Some(*request),
                resume_ime: false,
                overlay_changed: false,
            },
            PasteState::Confirming { ime_suspended, .. } => PasteCancellation {
                request: None,
                resume_ime: *ime_suspended,
                overlay_changed: true,
            },
        };
        self.paste = PasteState::Idle;
        cancellation
    }

    /// Nothing is offered or pasted any more.
    pub fn shutdown(&mut self) -> (result: PasteCancellation)
        ensures
            result == old(self)@.paste.cancellation(),
            final(self)@ == (SelectionModel {
                shutdown: true,
                sources: Map::empty(),
                ..old(self)@.idle().with_source(TransferTarget::Clipboard, None).with_source(
                    TransferTarget::Primary,
                    None,
                )
            }),
            final(self)@.wf(),
    {
        self.shutdown = true;
        let cancellation = self.cancel_paste();
        self.sources.clear();
        assert(records(self.sources@) =~= Map::empty());
        self.clipboard.current_source = None;
        self.primary.current_source = None;
        cancellation
    }

    pub fn interaction_mode(&self) -> (result: InteractionMode)
        ensures
            result == match self@.paste {
                PasteModel::Confirming { request, .. } => InteractionMode::ConfirmPaste {
                    request,
                },
                _ => InteractionMode::Normal,
            },
    {
        match &self.paste {
            PasteState::Confirming { request, .. } => InteractionMode::ConfirmPaste {
                request: *request,
            },
            _ => InteractionMode::Normal,
        }
    }

    pub fn overlay(&self) -> (result: Option<PasteConfirmationOverlay>)
        ensures
            result == match self@.paste {
                PasteModel::Confirming { overlay, .. } => Some(overlay),
                _ => None,
            },
    {
        match &self.paste {
            PasteState::Confirming { overlay, .. } => Some(*overlay),
            _ => None,
        }
    }

    pub fn set_modal_ime_suspended(&mut self, suspended: bool)
        ensures
            final(self)@ == (SelectionModel {
                paste: match old(self)@.paste {
                    PasteModel::Confirming {
                        request,
                        target,
                        owner,
                        offer_generation,
                        text,
                        overlay,
                        ime_suspended,
                    } => PasteModel::Confirming {
                        request,
                        target,
                        owner,
                        offer_generation,
                        text,
                        overlay,
                        ime_suspended: suspended,
                    },
                    other => other,
                },
                ..old(self)@
            }),
            old(self)@.wf() ==> final(self)@.wf(),
    {
        match &mut self.paste {
            PasteState::Confirming { ime_suspended, .. } => {
                *ime_suspended = suspended;
            },
            _ => {},
        }
    }

    pub fn modal_ime_suspended(&self) -> (result: bool)
        ensures
            result == match self@.paste {
                PasteModel::Confirming { ime_suspended, .. } => ime_suspended,
                _ => false,
            },
    {
        match &self.paste {
            PasteState::Confirming { ime_suspended, .. } => *ime_suspended,
            _ => false,
        }
    }

    pub fn debug_snapshot(&self) -> (result: SelectionDebugSnapshot)
        ensures
            result == self@.snapshot(),
    {
        assert(records(self.sources@).dom() =~= self.sources@.dom());
        SelectionDebugSnapshot {
            paste: match &self.paste {
                PasteState::Idle => PasteStateKind::Idle,
                PasteState::Reading { .. } => PasteStateKind::Reading,
                PasteState::Confirming { .. } => PasteStateKind::Confirming,
            },
            request: self.active_request(),
            source_count: self.sources.len(),
            shutdown: self.shutdown,
            clipboard_offer: self.clipboard.offer,
            clipboard_generation: self.clipboard.offer_generation,
            clipboard_source: self.clipboard.current_source,
            primary_offer: self.primary.offer,
            primary_generation: self.primary.offer_generation,
            primary_source: self.primary.current_source,
        }
    }
}

/// A text that is offered now is the one that its target offers, and its bytes can be read; the one
/// that was offered before is dropped, and no other. Nothing changes for the other target, for a
/// text that is not held for the target, or when the same text is offered once more.
pub proof fn an_offered_text_takes_the_place_of_the_last(
    m: SelectionModel,
    target: TransferTarget,
    other: TransferTarget,
    source: SourceToken,
)
    requires
        m.wf(),
        target != other,
    ensures
        ({
            let n = m.submitted(target, source);
            let replaced = m.target(target).current_source;
            &&& n.wf()
            &&& !m.offers(target, source) ==> n == m
            &&& n.target(other) == m.target(other)
            &&& n.submitted(target, source) == n
            &&& m.offers(target, source) ==> {
                &&& n.target(target).current_source == Some(source)
                &&& n.offers(target, source)
                &&& n.sources[source.value] == m.sources[source.value]
                &&& n.sources == if replaced is Some && replaced != Some(source) {
                    m.sources.remove(replaced->0.value)
                } else {
                    m.sources
                }
            }
        }),
{
    let n = m.submitted(target, source);
    assert(n.submitted(target, source) == n);
}

/// A text that was prepared and could not be offered leaves no trace: what can be told of the
/// controller is as before, its bytes cannot be read for either target, and only its number is
/// used up. For a text that is not held nothing changes.
pub proof fn a_text_that_was_not_offered_leaves_no_trace(
    m: SelectionModel,
    target: TransferTarget,
    text: Seq<char>,
    unknown: SourceToken,
)
    requires
        m.wf(),
    ensures
        ({
            let source = SourceToken { value: m.next_source };
            let n = m.prepared(target, text).not_published(source);
            &&& n == (SelectionModel { next_source: next_number(m.next_source), ..m })
            &&& n.snapshot() == m.snapshot()
            &&& !n.offers(TransferTarget::Clipboard, source)
            &&& !n.offers(TransferTarget::Primary, source)
        }),
        !m.sources.contains_key(unknown.value) ==> m.not_published(unknown) == m,
{
    let p = m.prepared(target, text);
    assert(!m.sources.contains_key(m.next_source));
    assert(p.sources.remove(m.next_source) =~= m.sources);
}

/// A transfer ends in a paste, or in a question, only if it is the one that is awaited, for the
/// tab that asked for it, and its offer still stands. Any other leaves no trace in the terminal.
pub proof fn stale_transfers_are_never_pasted(
    m: SelectionModel,
    request: RequestToken,
    target: TransferTarget,
    result: Result<Seq<char>, TransferError>,
    confirm_multiline: bool,
    active_owner: SessionId,
)
    ensures
        ({
            let (n, transition) = m.completed(
                request,
                target,
                result,
                confirm_multiline,
                active_owner,
            );
            transition is Paste || transition is Confirming ==> m.paste == (PasteModel::Reading {
                request,
                target,
                owner: active_owner,
                offer_generation: m.target(target).offer_generation,
            })
        }),
{
}

/// A new offer for one target leaves a paste from the other target, and the text offered to it,
/// as they are; a new offer for the same target drops the paste.
pub proof fn offers_concern_their_own_target(
    m: SelectionModel,
    target: TransferTarget,
    other: TransferTarget,
    offer: OfferState,
)
    requires
        target != other,
    ensures
        m.paste.target() == Some(other) ==> m.offered(target, offer).paste == m.paste,
        m.paste.target() == Some(target) ==> m.offered(target, offer).paste is Idle,
        m.offered(target, offer).target(other) == m.target(other),
{
}

/// A paste that was confirmed is the text that was asked about.
pub proof fn confirmed_text_is_what_was_shown(
    m: SelectionModel,
    key: KeyInput,
    active_owner: SessionId,
)
    requires
        m.answered(key, active_owner).1 is Paste,
    ensures
        m.paste is Confirming,
        m.answered(key, active_owner).1 == (OutcomeModel::Paste {
            owner: active_owner,
            text: m.paste->Confirming_text,
        }),
        is_yes(key.logical_key),
        !(key.state is Released),
{
}

/// The two targets are kept apart: what is set for one is found for it, and the other stays as it
/// was.
pub proof fn targets_are_kept_apart(m: SelectionModel, state: TargetState)
    ensures
        m.with_target(TransferTarget::Clipboard, state).clipboard == state,
        m.with_target(TransferTarget::Clipboard, state).primary == m.primary,
        m.with_target(TransferTarget::Primary, state).primary == state,
        m.with_target(TransferTarget::Primary, state).clipboard == m.clipboard,
        m.target(TransferTarget::Clipboard) == m.clipboard,
        m.target(TransferTarget::Primary) == m.primary,
{
}

/// A text that is prepared is held as its bytes, for its target, under a number that no other text
/// has, and is offered there once that was asked for.
pub proof fn a_prepared_text_is_held_as_it_is(
    m: SelectionModel,
    target: TransferTarget,
    text: Seq<char>,
)
    requires
        m.wf(),
        m.next_source < u64::MAX,
        m.takes(text),
    ensures
        ({
            let source = SourceToken { value: m.next_source };
            let held = m.prepared(target, text);
            let offered = held.submitted(target, source);
            &&& !m.sources.contains_key(m.next_source)
            &&& held.sources[m.next_source].bytes == encode_utf8(text)
            &&& held.sources[m.next_source].target == target
            &&& held.next_source == m.next_source + 1
            &&& offered.target(target).current_source == Some(source)
            &&& offered.sources.contains_key(m.next_source)
            &&& offered.sources[m.next_source].bytes == encode_utf8(text)
            &&& forall|token: u64|
                m.sources.contains_key(token) && m.target(target).current_source != Some(
                    SourceToken { value: token },
                ) ==> #[trigger] offered.sources.contains_key(token)
        }),
{
}

/// A text that is transferred goes to the tab that asked for it, as the rules for pastes have it:
/// a harmless one is pasted at once, one that has to be confirmed is asked about, and nothing is
/// pasted after an error.
pub proof fn a_transfer_goes_to_the_tab_that_asked(
    m: SelectionModel,
    request: RequestToken,
    target: TransferTarget,
    owner: SessionId,
    text: Seq<char>,
    error: TransferError,
    confirm_multiline: bool,
)
    requires
        m.paste == (PasteModel::Reading {
            request,
            target,
            owner,
            offer_generation: m.target(target).offer_generation,
        }),
        text.len() > 0,
    ensures
        ({
            let (n, done) = m.completed(request, target, Ok(text), confirm_multiline, owner);
            let (_, failed) = m.completed(request, target, Err(error), confirm_multiline, owner);
            let policy = paste_policy(text, confirm_multiline);
            &&& policy is Allowed ==> n.paste is Idle && done == (TransitionModel::Paste {
                owner,
                text: policy->Allowed_0,
            })
            &&& policy is Rejected ==> n.paste is Idle && done is Rejected
            &&& policy is NeedsConfirmation ==> {
                &&& done is Confirming
                &&& n.paste is Confirming
                &&& n.paste->Confirming_text == policy->text
                &&& n.paste->overlay.lines == policy->lines
                &&& n.paste->overlay.bytes == policy->bytes
                &&& n.paste->overlay.risk == policy->risk
                &&& n.paste->overlay.source == target
            }
            &&& failed == TransitionModel::Failed(error)
        }),
{
}

/// Only the Enter key and `y` let a paste through; any other key that is pressed drops it.
pub proof fn only_a_yes_pastes(m: SelectionModel, key: KeyInput, owner: SessionId)
    requires
        m.paste is Confirming,
        m.paste->Confirming_owner == owner,
        m.paste->Confirming_offer_generation == m.target(
            m.paste->Confirming_target,
        ).offer_generation,
        !(key.state is Released),
    ensures
        key.logical_key is Enter || key.logical_key == LogicalKey::Character('y') || key.logical_key
            == LogicalKey::Character('Y') ==> m.answered(key, owner).1 == (OutcomeModel::Paste {
            owner,
            text: m.paste->Confirming_text,
        }),
        key.logical_key is Escape || key.logical_key is Tab || key.logical_key
            == LogicalKey::Character('n') ==> m.answered(key, owner).1 is Closed,
        m.answered(key, owner).0.paste is Idle,
{
}

impl SelectionModel {
    /// The text of a target is asked for on behalf of a tab.
    pub open spec fn requested(self, target: TransferTarget, owner: SessionId) -> SelectionModel {
        if self.shutdown {
            self
        } else {
            SelectionModel {
                next_request: next_number(self.next_request),
                paste: PasteModel::Reading {
                    request: RequestToken { value: self.next_request },
                    target,
                    owner,
                    offer_generation: self.target(target).offer_generation,
                },
                ..self
            }
        }
    }
}

/// A text that is asked for and arrives is pasted into the tab that asked, if it is harmless and the
/// tab is still the active one. One that was asked for before is not, nor one of the other target.
pub proof fn a_text_arrives_where_it_was_asked_for(
    m: SelectionModel,
    target: TransferTarget,
    other: TransferTarget,
    owner: SessionId,
    stranger: SessionId,
    text: Seq<char>,
    earlier: RequestToken,
)
    requires
        !m.shutdown,
        text.len() > 0,
        paste_policy(text, true) is Allowed,
        other != target,
        stranger != owner,
        earlier.value != m.next_request,
    ensures
        ({
            let asked = m.requested(target, owner);
            let request = RequestToken { value: m.next_request };
            &&& asked.paste is Reading
            &&& asked.completed(request, target, Ok(text), true, owner).1 == (TransitionModel::Paste {
                owner,
                text: paste_policy(text, true)->Allowed_0,
            })
            &&& asked.completed(earlier, target, Ok(text), true, owner).1 is IgnoreStale
            &&& asked.completed(request, other, Ok(text), true, owner).1 is IgnoreStale
            &&& asked.completed(request, target, Ok(text), true, stranger).1 is IgnoreStale
        }),
{
}

/// A paste that is dropped while its text is read cancels that transfer and nothing else. One that
/// is dropped while it is asked about takes its question down, and lets the input method go on
/// where it had been stopped. Where nothing is pasted there is nothing to drop.
pub proof fn a_dropped_paste_leaves_nothing_behind(paste: PasteModel)
    ensures
        paste is Idle ==> paste.cancellation().request is None
            && !paste.cancellation().overlay_changed && !paste.cancellation().resume_ime,
        paste is Reading ==> paste.cancellation().request == paste.request()
            && paste.cancellation().request is Some && !paste.cancellation().overlay_changed
            && !paste.cancellation().resume_ime,
        paste is Confirming ==> paste.cancellation().request is None
            && paste.cancellation().overlay_changed && paste.cancellation().resume_ime
            == paste->ime_suspended,
{
}

/// A key that is let go of answers nothing: the question stays as it is. Without a question no key
/// is an answer.
pub proof fn a_key_that_is_released_answers_nothing(m: SelectionModel, key: KeyInput, owner: SessionId)
    requires
        key.state is Released,
    ensures
        m.paste is Confirming && m.paste->Confirming_owner == owner
            && m.paste->Confirming_offer_generation == m.target(
            m.paste->Confirming_target,
        ).offer_generation ==> m.answered(key, owner) == (m, OutcomeModel::Consumed),
        !(m.paste is Confirming) ==> m.answered(key, owner) == (m, OutcomeModel::NotActive),
{
}

} // verus!
