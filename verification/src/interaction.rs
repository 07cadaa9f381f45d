//! Clicks, links, the scrollbar and text that is being composed.
use vstd::prelude::*;
use vstd::utf8::{encode_utf8, is_char_boundary};
use crate::config::{Color, Number, ScrollbarConfig, ScrollbarMode};
use crate::keys::ModifierMask;
use crate::terminal::snapshot::{SelectionKind, SelectionPoint};
use crate::text::{chars_of, string_bytes};
use crate::time::Instant;

pub mod laws;

verus! {

/// The longest text that can be composed, in bytes.
pub const MAX_PREEDIT_BYTES: usize = 4_096;

/// The longest text that can be composed, in characters.
pub const MAX_PREEDIT_SCALARS: usize = 1_024;

/// The longest text that can be committed at once, in bytes.
pub const MAX_IME_COMMIT_BYTES: usize = 65_536;

/// How long after a click another one counts with it, in milliseconds.
pub const MULTI_CLICK_MS: u32 = 400;

/// How long the scrollbar stays visible after it was used, in nanoseconds.
pub const SCROLLBAR_VISIBILITY: u64 = 800_000_000;

/// A rectangle whose sides need not be whole pixels.
#[derive(Clone, Copy, Debug, PartialEq, Eq, Structural)]
pub struct PixelRect {
    pub x: Number,
    pub y: Number,
    pub width: Number,
    pub height: Number,
}

/// What is done with the scrollbar. `grab_offset_px` is how far below the upper end of the thumb
/// it was grabbed.
#[derive(Clone, Copy, Debug, PartialEq, Eq, Structural)]
pub enum ScrollbarInteraction {
    Idle,
    Hover,
    Dragging { grab_offset_px: Number },
}

/// How the scrollbar is drawn.
#[derive(Clone, Copy, Debug, PartialEq, Eq, Structural)]
pub struct ScrollbarPresentation {
    pub track: PixelRect,
    pub thumb: PixelRect,
    pub track_color: Color,
    pub thumb_color: Color,
}

/// Whether the scrollbar is used and shown.
#[derive(Clone, Copy, Debug, PartialEq, Eq, Structural)]
pub struct ScrollbarController {
    pub interaction: ScrollbarInteraction,
    pub visible_until: Option<Instant>,
}

impl Default for ScrollbarController {
    fn default() -> (result: ScrollbarController)
        ensures
            result == (ScrollbarController {
                interaction: ScrollbarInteraction::Idle,
                visible_until: None,
            }),
    {
        ScrollbarController { interaction: ScrollbarInteraction::Idle, visible_until: None }
    }
}

/// Where on the scrollbar the pointer was pressed.
#[derive(Clone, Copy, Debug, PartialEq, Eq, Structural)]
pub enum ScrollbarHit {
    Outside,
    /// On the thumb, so far below its upper end. It may have no room to move.
    Thumb { movable: bool, grab_offset_px: Number },
    AboveThumb,
    BelowThumb,
}

/// The offset to which the display is scrolled by a press: a page is one line less than the
/// viewport has.
pub open spec fn paged(hit: ScrollbarHit, history: usize, viewport: usize, offset: usize) -> Option<
    usize,
> {
    let page = if viewport > 1 {
        viewport - 1
    } else {
        1
    };
    match hit {
        ScrollbarHit::Outside => None,
        ScrollbarHit::Thumb { movable: true, .. } => Some(offset),
        ScrollbarHit::AboveThumb => Some(
            if offset + page <= history {
                (offset + page) as usize
            } else {
                history
            },
        ),
        _ => Some(
            if offset >= page {
                (offset - page) as usize
            } else {
                0
            },
        ),
    }
}

impl ScrollbarController {
    /// The scrollbar is used at `now`.
    pub open spec fn shown(self, now: Instant) -> ScrollbarController {
        ScrollbarController {
            visible_until: Some(now.later(SCROLLBAR_VISIBILITY)),
            ..self
        }
    }

    pub fn interaction(&self) -> (result: ScrollbarInteraction)
        ensures
            result == self.interaction,
    {
        self.interaction
    }

    /// How far below the upper end of the thumb the pointer holds it, where it drags it.
    pub open spec fn grabbed(self) -> Option<Number> {
        match self.interaction {
            ScrollbarInteraction::Dragging { grab_offset_px } => Some(grab_offset_px),
            _ => None,
        }
    }

    /// The scrollbar once the pointer has moved.
    pub open spec fn moved(self, inside: bool, now: Instant) -> ScrollbarController {
        if self.interaction is Dragging {
            self.shown(now)
        } else if inside {
            ScrollbarController { interaction: ScrollbarInteraction::Hover, ..self.shown(now) }
        } else {
            ScrollbarController { interaction: ScrollbarInteraction::Idle, ..self }
        }
    }

    /// The scrollbar once the pointer was pressed.
    pub open spec fn pressed(self, hit: ScrollbarHit, now: Instant) -> ScrollbarController {
        match hit {
            ScrollbarHit::Outside => self,
            ScrollbarHit::Thumb { movable: true, grab_offset_px } => ScrollbarController {
                interaction: ScrollbarInteraction::Dragging { grab_offset_px },
                ..self.shown(now)
            },
            _ => self.shown(now),
        }
    }

    /// The pointer moved. Where it drags the thumb, gives how far below the upper end of the thumb
    /// it holds it.
    pub fn pointer_motion(&mut self, inside: bool, now: Instant) -> (result: Option<Number>)
        ensures
            result == old(self).grabbed(),
            *final(self) == old(self).moved(inside, now),
            result == (match old(self).interaction {
                ScrollbarInteraction::Dragging { grab_offset_px } => Some(grab_offset_px),
                _ => None,
            }),
            *final(self) == (if old(self).interaction is Dragging {
                old(self).shown(now)
            } else if inside {
                ScrollbarController {
                    interaction: ScrollbarInteraction::Hover,
                    ..old(self).shown(now)
                }
            } else {
                ScrollbarController { interaction: ScrollbarInteraction::Idle, ..*old(self) }
            }),
    {
        if let ScrollbarInteraction::Dragging { grab_offset_px } = self.interaction {
            self.note_scroll(now);
            return Some(grab_offset_px);
        }
        if inside {
            self.interaction = ScrollbarInteraction::Hover;
            self.note_scroll(now);
        } else {
            self.interaction = ScrollbarInteraction::Idle;
        }
        None
    }

    /// The pointer was pressed. Gives the offset to which the display is to be scrolled: a page
    /// up or down beside the thumb, nowhere on it.
    pub fn press(
        &mut self,
        hit: ScrollbarHit,
        history_size: usize,
        viewport_lines: usize,
        current_offset: usize,
        now: Instant,
    ) -> (result: Option<usize>)
        ensures
            result == paged(hit, history_size, viewport_lines, current_offset),
            *final(self) == old(self).pressed(hit, now),
            ({
                let page = if viewport_lines > 1 {
                    viewport_lines - 1
                } else {
                    1
                };
                let down = if current_offset >= page {
                    current_offset - page
                } else {
                    0
                };
                let up = if current_offset + page <= history_size {
                    current_offset + page
                } else {
                    history_size as int
                };
                match hit {
                    ScrollbarHit::Outside => result is None && *final(self) == *old(self),
                    ScrollbarHit::Thumb { movable, grab_offset_px } => if movable {
                        &&& result == Some(current_offset)
                        &&& *final(self) == (ScrollbarController {
                            interaction: ScrollbarInteraction::Dragging { grab_offset_px },
                            ..old(self).shown(now)
                        })
                    } else {
                        &&& result is Some && result->0 == down
                        &&& *final(self) == old(self).shown(now)
                    },
                    ScrollbarHit::AboveThumb => {
                        &&& result is Some && result->0 == up
                        &&& *final(self) == old(self).shown(now)
                    },
                    ScrollbarHit::BelowThumb => {
                        &&& result is Some && result->0 == down
                        &&& *final(self) == old(self).shown(now)
                    },
                }
            }),
    {
        if hit == ScrollbarHit::Outside {
            return None;
        }
        self.note_scroll(now);
        let page: usize = if viewport_lines > 1 {
            viewport_lines - 1
        } else {
            1
        };
        match hit {
            ScrollbarHit::Thumb { movable: true, grab_offset_px } => {
                self.interaction = ScrollbarInteraction::Dragging { grab_offset_px };
                Some(current_offset)
            },
            ScrollbarHit::AboveThumb => {
                let up: usize = current_offset.saturating_add(page);
                if up <= history_size {
                    Some(up)
                } else {
                    Some(history_size)
                }
            },
            _ => Some(current_offset.saturating_sub(page)),
        }
    }

    /// The pointer was released. Tells whether it dragged the thumb.
    pub fn release(&mut self) -> (result: bool)
        ensures
            result == (old(self).interaction is Dragging),
            *final(self) == (ScrollbarController {
                interaction: ScrollbarInteraction::Idle,
                ..*old(self)
            }),
    {
        let consumed = matches!(self.interaction, ScrollbarInteraction::Dragging { .. });
        self.interaction = ScrollbarInteraction::Idle;
        consumed
    }

    pub fn cancel(&mut self)
        ensures
            *final(self) == (ScrollbarController {
                interaction: ScrollbarInteraction::Idle,
                ..*old(self)
            }),
    {
        self.interaction = ScrollbarInteraction::Idle;
    }

    pub fn note_scroll(&mut self, now: Instant)
        ensures
            *final(self) == old(self).shown(now),
    {
        self.visible_until = Some(now.saturating_add(SCROLLBAR_VISIBILITY));
    }

    /// Hides the scrollbar once its time is over, unless it is in use. Tells whether it did.
    pub fn expire(&mut self, now: Instant) -> (result: bool)
        ensures
            result == (old(self).visible_until is Some && now.nanos
                >= old(self).visible_until->0.nanos && old(self).interaction is Idle),
            *final(self) == (if result {
                ScrollbarController { visible_until: None, ..*old(self) }
            } else {
                *old(self)
            }),
    {
        let over = match self.visible_until {
            Some(deadline) => now.nanos >= deadline.nanos,
            None => false,
        };
        if over && self.interaction == ScrollbarInteraction::Idle {
            self.visible_until = None;
            return true;
        }
        false
    }

    pub fn next_deadline(&self) -> (result: Option<Instant>)
        ensures
            result == self.visible_until,
    {
        self.visible_until
    }

    /// How the scrollbar is drawn, if it is.
    pub open spec fn drawn(
        self,
        track: PixelRect,
        thumb: PixelRect,
        display_offset: usize,
        history_size: usize,
        config: ScrollbarConfig,
        now: Instant,
    ) -> Option<ScrollbarPresentation> {
        let used = !(self.interaction is Idle);
        let wanted = config.mode is Always || used || display_offset > 0 || (self.visible_until is Some
            && now.nanos < self.visible_until->0.nanos);
        if wanted && (history_size > 0 || config.mode is Always) {
            Some(
                ScrollbarPresentation {
                    track,
                    thumb,
                    track_color: config.track,
                    thumb_color: if used {
                        config.thumb_hover
                    } else {
                        config.thumb
                    },
                },
            )
        } else {
            None
        }
    }

    /// How the scrollbar is drawn, if it is: always, or where there is a history, and the scrollbar
    /// is in use or was so recently, or the display is scrolled. It is highlighted while in use.
    pub fn presentation(
        &self,
        track: PixelRect,
        thumb: PixelRect,
        display_offset: usize,
        history_size: usize,
        config: &ScrollbarConfig,
        now: Instant,
    ) -> (result: Option<ScrollbarPresentation>)
        ensures
            result == self.drawn(track, thumb, display_offset, history_size, *config, now),
    {
        let used = self.interaction != ScrollbarInteraction::Idle;
        let recent = match self.visible_until {
            Some(deadline) => now.nanos < deadline.nanos,
            None => false,
        };
        let always = config.mode == ScrollbarMode::Always;
        if (always || used || display_offset > 0 || recent) && (history_size > 0 || always) {
            let thumb_color = if used {
                config.thumb_hover
            } else {
                config.thumb
            };
            Some(ScrollbarPresentation { track, thumb, track_color: config.track, thumb_color })
        } else {
            None
        }
    }
}

#[derive(Clone, Copy, Debug, PartialEq, Eq, Structural)]
pub struct ClickRecord {
    pub button: u32,
    pub point: SelectionPoint,
    pub time_ms: u32,
    pub count: u8,
}

/// Counts clicks that belong together.
#[derive(Clone, Copy, Debug, PartialEq, Eq, Structural)]
pub struct ClickTracker {
    pub last: Option<ClickRecord>,
}

impl Default for ClickTracker {
    fn default() -> (result: ClickTracker)
        ensures
            result.last is None,
    {
        ClickTracker { last: None }
    }
}

/// The time from one reading of a clock to another; the clock starts again at zero.
pub open spec fn elapsed(from: u32, to: u32) -> int {
    if to >= from {
        to - from
    } else {
        to - from + 0x1_0000_0000
    }
}

impl ClickTracker {
    /// The number of a click among those that belong together: up to three, then one again. They
    /// are of one button, in one cell and close in time.
    pub open spec fn count(self, button: u32, point: SelectionPoint, time_ms: u32) -> u8 {
        match self.last {
            Some(last) => if last.button == button && last.point == point && elapsed(
                last.time_ms,
                time_ms,
            ) <= MULTI_CLICK_MS {
                (last.count % 3 + 1) as u8
            } else {
                1
            },
            None => 1,
        }
    }

    /// The tracker after a click.
    pub open spec fn after(self, button: u32, point: SelectionPoint, time_ms: u32) -> ClickTracker {
        let count = self.count(button, point, time_ms);
        ClickTracker { last: Some(ClickRecord { button, point, time_ms, count }) }
    }

    /// What a click selects.
    pub open spec fn selects(self, button: u32, point: SelectionPoint, time_ms: u32) -> SelectionKind {
        let count = self.count(button, point, time_ms);
        if count == 2 {
            SelectionKind::Semantic
        } else if count == 3 {
            SelectionKind::Lines
        } else {
            SelectionKind::Simple
        }
    }

    /// What a click selects.
    pub fn register(&mut self, button: u32, point: SelectionPoint, time_ms: u32) -> (result:
        SelectionKind)
        ensures
            *final(self) == old(self).after(button, point, time_ms),
            result == old(self).selects(button, point, time_ms),
            ({
                let count = old(self).count(button, point, time_ms);
                &&& final(self).last == Some(ClickRecord { button, point, time_ms, count })
                &&& result == (if count == 2 {
                    SelectionKind::Semantic
                } else if count == 3 {
                    SelectionKind::Lines
                } else {
                    SelectionKind::Simple
                })
            }),
    {
        let count: u8 = match self.last {
            Some(last) => if last.button == button && last.point == point && time_ms.wrapping_sub(
                last.time_ms,
            ) <= MULTI_CLICK_MS {
                last.count % 3 + 1
            } else {
                1
            },
            None => 1,
        };
        self.last = Some(ClickRecord { button, point, time_ms, count });
        if count == 2 {
            SelectionKind::Semantic
        } else if count == 3 {
            SelectionKind::Lines
        } else {
            SelectionKind::Simple
        }
    }

    pub fn reset(&mut self)
        ensures
            final(self).last is None,
    {
        self.last = None;
    }
}

/// A link on which the pointer was pressed.
#[derive(Clone, Copy, Debug, PartialEq, Eq, Structural)]
pub struct LinkCandidate {
    pub snapshot_generation: u64,
    pub hyperlink: u16,
    pub point: SelectionPoint,
    pub modifiers: ModifierMask,
}

impl LinkCandidate {
    /// Whether the pointer was released on the same link, in the same frame and the same way.
    pub fn matches(
        &self,
        snapshot_generation: u64,
        hyperlink: u16,
        point: SelectionPoint,
        modifiers: ModifierMask,
    ) -> (result: bool)
        ensures
            result == (*self == (LinkCandidate {
                snapshot_generation,
                hyperlink,
                point,
                modifiers,
            })),
    {
        self.snapshot_generation == snapshot_generation && self.hyperlink == hyperlink
            && self.point == point && self.modifiers == modifiers
    }
}

#[derive(Clone, Copy, Debug, PartialEq, Eq, Structural)]
pub enum PreeditCursor {
    Hidden,
    Caret(u16),
    Selection { start: u16, end: u16 },
}

/// Text that is being composed, as it is shown.
#[derive(Clone, Debug, PartialEq, Eq)]
pub struct PreeditOverlay {
    pub snapshot_generation: u64,
    pub revision: u64,
    pub anchor: [u16; 2],
    pub text: String,
    pub cursor: PreeditCursor,
}

#[derive(Clone, Copy, Debug, PartialEq, Eq, Structural)]
pub struct ImeOutboundState {
    pub commit_serial: u32,
    pub dirty: bool,
}

/// What the input method has said since it last said that it was done.
#[derive(Clone, Debug, PartialEq, Eq)]
pub struct ImeTransaction {
    pub preedit: Option<(String, Option<(i32, i32)>)>,
    pub commit: Option<String>,
    pub delete_surrounding: Option<(u32, u32)>,
}

/// The conversation with an input method.
#[derive(Clone, Debug)]
pub struct ImeState {
    pub active: bool,
    pub pending: ImeTransaction,
    pub revision: u64,
    pub outbound: ImeOutboundState,
    pub preedit: Option<PreeditOverlay>,
}

/// What a completed transaction asks for.
#[derive(Clone, Debug, PartialEq, Eq)]
pub struct ImeDone {
    pub commit: Option<Vec<u8>>,
    pub delete_surrounding: Option<(u32, u32)>,
    pub outbound_resend_required: bool,
}

#[derive(Clone, Copy, Debug, PartialEq, Eq, Structural)]
pub enum ImeError {
    Inactive,
    PreeditTooLarge,
    CommitTooLarge,
    InvalidCursor,
    SerialOverflow,
    RevisionOverflow,
}

impl ImeError {
    /// What the error says.
    pub fn message(&self) -> (result: &'static str)
        ensures
            result@ == match *self {
                ImeError::Inactive => "text input is inactive"@,
                ImeError::PreeditTooLarge => "preedit exceeds its hard limit"@,
                ImeError::CommitTooLarge => "IME commit exceeds its hard limit or contains NUL"@,
                ImeError::InvalidCursor => "preedit cursor is not a valid UTF-8 byte range"@,
                ImeError::SerialOverflow => "IME serial overflow"@,
                ImeError::RevisionOverflow => "IME revision overflow"@,
            },
    {
        match self {
            ImeError::Inactive => "text input is inactive",
            ImeError::PreeditTooLarge => "preedit exceeds its hard limit",
            ImeError::CommitTooLarge => "IME commit exceeds its hard limit or contains NUL",
            ImeError::InvalidCursor => "preedit cursor is not a valid UTF-8 byte range",
            ImeError::SerialOverflow => "IME serial overflow",
            ImeError::RevisionOverflow => "IME revision overflow",
        }
    }
}

impl ImeTransaction {
    /// Nothing was said.
    pub open spec fn is_none(self) -> bool {
        self.preedit is None && self.commit is None && self.delete_surrounding is None
    }
}

impl Default for ImeTransaction {
    fn default() -> (result: ImeTransaction)
        ensures
            result.is_none(),
    {
        ImeTransaction { preedit: None, commit: None, delete_surrounding: None }
    }
}

impl Default for ImeState {
    fn default() -> (result: ImeState)
        ensures
            !result.active,
            result.pending.is_none(),
            result.revision == 0,
            result.outbound == (ImeOutboundState { commit_serial: 0, dirty: false }),
            result.preedit is None,
    {
        ImeState {
            active: false,
            pending: ImeTransaction::default(),
            revision: 0,
            outbound: ImeOutboundState { commit_serial: 0, dirty: false },
            preedit: None,
        }
    }
}

/// Whether two bytes of a text are the ends of a run of its characters.
pub open spec fn is_cursor(text: Seq<char>, begin: int, end: int) -> bool {
    let bytes = encode_utf8(text);
    0 <= begin <= end <= bytes.len() && is_char_boundary(bytes, begin) && is_char_boundary(
        bytes,
        end,
    )
}

fn validate_cursor(text: &str, begin: i32, end: i32) -> (result: Result<(), ImeError>)
    ensures
        result == (if is_cursor(text@, begin as int, end as int) {
            Ok(())
        } else {
            Err(ImeError::InvalidCursor)
        }),
{
    if begin < 0 || end < begin {
        return Err(ImeError::InvalidCursor);
    }
    let length: usize = text.as_bytes().len();
    if end as usize > length || !text.is_char_boundary(begin as usize) || !text.is_char_boundary(
        end as usize,
    ) {
        return Err(ImeError::InvalidCursor);
    }
    Ok(())
}

/// The cursor that a run of bytes is.
pub open spec fn preedit_cursor(cursor: Option<(i32, i32)>) -> PreeditCursor {
    match cursor {
        None => PreeditCursor::Hidden,
        Some((begin, end)) => if begin == end {
            PreeditCursor::Caret(byte16(begin))
        } else {
            PreeditCursor::Selection { start: byte16(begin), end: byte16(end) }
        },
    }
}

/// A byte offset, or the largest one where it does not fit.
pub open spec fn byte16(value: i32) -> u16 {
    if 0 <= value <= u16::MAX {
        value as u16
    } else {
        u16::MAX
    }
}

fn narrow(value: i32) -> (result: u16)
    ensures
        result == byte16(value),
{
    if 0 <= value && value <= 65_535 {
        value as u16
    } else {
        65_535
    }
}

impl ImeState {
    pub fn activate(&mut self)
        ensures
            *final(self) == (ImeState {
                active: true,
                outbound: ImeOutboundState { dirty: true, ..old(self).outbound },
                ..*old(self)
            }),
    {
        self.active = true;
        self.outbound.dirty = true;
    }

    /// The conversation ends: what was said and what is shown is dropped.
    pub fn deactivate(&mut self)
        ensures
            !final(self).active,
            final(self).pending.is_none(),
            final(self).preedit is None,
            final(self).revision == old(self).revision,
            final(self).outbound == old(self).outbound,
    {
        self.active = false;
        self.pending = ImeTransaction::default();
        self.preedit = None;
    }

    pub fn is_active(&self) -> (result: bool)
        ensures
            result == self.active,
    {
        self.active
    }

    /// Whether text is being composed, shown or not.
    pub fn has_preedit(&self) -> (result: bool)
        ensures
            result == ((self.pending.preedit is Some && (self.pending.preedit->0).0@.len() > 0) || (
            self.preedit is Some && self.preedit->0.text@.len() > 0)),
    {
        let pending = match &self.pending.preedit {
            Some((text, _)) => !text.as_str().is_empty(),
            None => false,
        };
        let shown = match &self.preedit {
            Some(preedit) => !preedit.text.as_str().is_empty(),
            None => false,
        };
        pending || shown
    }

    /// The text that is shown moves with the cursor of the terminal.
    pub fn reanchor_preedit(&mut self, generation: u64, anchor: [u16; 2])
        ensures
            *final(self) == (ImeState { preedit: final(self).preedit, ..*old(self) }),
            final(self).preedit == (match old(self).preedit {
                Some(preedit) => Some(
                    PreeditOverlay { snapshot_generation: generation, anchor, ..preedit },
                ),
                None => None,
            }),
    {
        match &mut self.preedit {
            Some(preedit) => {
                preedit.snapshot_generation = generation;
                preedit.anchor = anchor;
            },
            None => {},
        }
    }

    /// The application's own state is sent. Gives its serial.
    pub fn sent_commit(&mut self) -> (result: Result<u32, ImeError>)
        ensures
            if old(self).outbound.commit_serial == u32::MAX {
                result is Err && result->Err_0 is SerialOverflow && *final(self) == *old(self)
            } else {
                let serial = (old(self).outbound.commit_serial + 1) as u32;
                &&& result is Ok && result->Ok_0 == serial
                &&& *final(self) == (ImeState {
                    outbound: ImeOutboundState { commit_serial: serial, dirty: false },
                    ..*old(self)
                })
            },
    {
        match self.outbound.commit_serial.checked_add(1) {
            Some(serial) => {
                self.outbound.commit_serial = serial;
                self.outbound.dirty = false;
                Ok(serial)
            },
            None => Err(ImeError::SerialOverflow),
        }
    }

    pub fn record_commit_serial(&mut self, serial: u32)
        ensures
            *final(self) == (ImeState {
                outbound: ImeOutboundState { commit_serial: serial, dirty: false },
                ..*old(self)
            }),
    {
        self.outbound.commit_serial = serial;
        self.outbound.dirty = false;
    }

    /// Text is being composed.
    pub open spec fn composing(self, text: String, cursor: Option<(i32, i32)>) -> ImeState {
        ImeState {
            pending: ImeTransaction { preedit: Some((text, cursor)), ..self.pending },
            ..self
        }
    }

    /// Text is to be typed.
    pub open spec fn committing(self, text: String) -> ImeState {
        ImeState { pending: ImeTransaction { commit: Some(text), ..self.pending }, ..self }
    }

    /// What became of the conversation once the input method was done.
    pub open spec fn is_done(
        self,
        now: ImeState,
        serial: u32,
        generation: u64,
        anchor: [u16; 2],
        result: Result<ImeDone, ImeError>,
    ) -> bool {
        let mismatch = serial != self.outbound.commit_serial;
        if !self.active {
            result is Err && result->Err_0 is Inactive && now == self
        } else if self.revision == u64::MAX {
            &&& result is Err && result->Err_0 is RevisionOverflow
            &&& now == (ImeState { pending: now.pending, ..self })
            &&& now.pending.is_none()
        } else {
            &&& result is Ok
            &&& now.active
            &&& now.pending.is_none()
            &&& now.revision == self.revision + 1
            &&& now.outbound == (ImeOutboundState {
                dirty: self.outbound.dirty || mismatch,
                ..self.outbound
            })
            &&& match self.pending.preedit {
                None => now.preedit is None,
                Some((text, cursor)) => {
                    &&& now.preedit is Some
                    &&& now.preedit->0 == (PreeditOverlay {
                        snapshot_generation: generation,
                        revision: (self.revision + 1) as u64,
                        anchor,
                        text,
                        cursor: preedit_cursor(cursor),
                    })
                },
            }
            &&& match self.pending.commit {
                None => result->Ok_0.commit is None,
                Some(text) => result->Ok_0.commit is Some && result->Ok_0.commit->0@ == encode_utf8(
                    text@,
                ),
            }
            &&& result->Ok_0.delete_surrounding == self.pending.delete_surrounding
            &&& result->Ok_0.outbound_resend_required == mismatch
        }
    }

    /// Text that is being composed, to be shown once the input method is done.
    pub fn preedit_string(&mut self, text: String, cursor: Option<(i32, i32)>) -> (result: Result<
        (),
        ImeError,
    >)
        ensures
            ({
                let error = if !old(self).active {
                    Some(ImeError::Inactive)
                } else if encode_utf8(text@).len() > MAX_PREEDIT_BYTES || text@.len()
                    > MAX_PREEDIT_SCALARS {
                    Some(ImeError::PreeditTooLarge)
                } else if cursor is Some && !is_cursor(
                    text@,
                    (cursor->0).0 as int,
                    (cursor->0).1 as int,
                ) {
                    Some(ImeError::InvalidCursor)
                } else {
                    None
                };
                match error {
                    Some(error) => result == Err::<(), ImeError>(error) && *final(self) == *old(self),
                    None => {
                        &&& result is Ok
                        &&& *final(self) == old(self).composing(text, cursor)
                    },
                }
            }),
    {
        if !self.active {
            return Err(ImeError::Inactive);
        }
        let scalars: usize = chars_of(text.as_str()).len();
        if text.as_str().as_bytes().len() > MAX_PREEDIT_BYTES || scalars > MAX_PREEDIT_SCALARS {
            return Err(ImeError::PreeditTooLarge);
        }
        if let Some((begin, end)) = cursor {
            match validate_cursor(text.as_str(), begin, end) {
                Ok(_) => {},
                Err(error) => {
                    return Err(error);
                },
            }
        }
        self.pending.preedit = Some((text, cursor));
        Ok(())
    }

    /// Text to be typed once the input method is done.
    pub fn commit_string(&mut self, text: String) -> (result: Result<(), ImeError>)
        ensures
            if !old(self).active {
                result == Err::<(), ImeError>(ImeError::Inactive) && *final(self) == *old(self)
            } else if encode_utf8(text@).len() > MAX_IME_COMMIT_BYTES || text@.contains('\0') {
                result == Err::<(), ImeError>(ImeError::CommitTooLarge) && *final(self) == *old(self)
            } else {
                &&& result is Ok
                &&& *final(self) == old(self).committing(text)
            },
    {
        if !self.active {
            return Err(ImeError::Inactive);
        }
        let chars = chars_of(text.as_str());
        let mut has_nul = false;
        let mut i: usize = 0;
        while i < chars.len()
            invariant
                i <= chars@.len(),
                has_nul == exists|k: int| 0 <= k < i && chars@[k] == '\0',
            decreases chars@.len() - i,
        {
            if chars[i] == '\0' {
                has_nul = true;
            }
            i += 1;
        }
        if text.as_str().as_bytes().len() > MAX_IME_COMMIT_BYTES || has_nul {
            return Err(ImeError::CommitTooLarge);
        }
        self.pending.commit = Some(text);
        Ok(())
    }

    pub fn delete_surrounding_text(&mut self, before: u32, after: u32) -> (result: Result<
        (),
        ImeError,
    >)
        ensures
            if !old(self).active {
                result == Err::<(), ImeError>(ImeError::Inactive) && *final(self) == *old(self)
            } else {
                &&& result is Ok
                &&& *final(self) == (ImeState {
                    pending: ImeTransaction {
                        delete_surrounding: Some((before, after)),
                        ..old(self).pending
                    },
                    ..*old(self)
                })
            },
    {
        if !self.active {
            return Err(ImeError::Inactive);
        }
        self.pending.delete_surrounding = Some((before, after));
        Ok(())
    }

    /// The input method is done: all that it said takes effect at once. If it answered to an
    /// older state of the application, that state has to be sent again.
    pub fn done(&mut self, serial: u32, generation: u64, anchor: [u16; 2]) -> (result: Result<
        ImeDone,
        ImeError,
    >)
        ensures
            old(self).is_done(*final(self), serial, generation, anchor, result),
    {
        if !self.active {
            return Err(ImeError::Inactive);
        }
        let mut pending = ImeTransaction::default();
        core::mem::swap(&mut self.pending, &mut pending);
        match self.revision.checked_add(1) {
            Some(revision) => {
                self.revision = revision;
            },
            None => {
                return Err(ImeError::RevisionOverflow);
            },
        }
        let ImeTransaction { preedit, commit, delete_surrounding } = pending;
        self.preedit =
        match preedit {
            None => None,
            Some((text, cursor)) => {
                let cursor = match cursor {
                    None => PreeditCursor::Hidden,
                    Some((begin, end)) => if begin == end {
                        PreeditCursor::Caret(narrow(begin))
                    } else {
                        PreeditCursor::Selection { start: narrow(begin), end: narrow(end) }
                    },
                };
                Some(
                    PreeditOverlay {
                        snapshot_generation: generation,
                        revision: self.revision,
                        anchor,
                        text,
                        cursor,
                    },
                )
            },
        };
        let mismatch = serial != self.outbound.commit_serial;
        if mismatch {
            self.outbound.dirty = true;
        }
        let commit = match commit {
            None => None,
            Some(text) => Some(string_bytes(text.as_str())),
        };
        Ok(ImeDone { commit, delete_surrounding, outbound_resend_required: mismatch })
    }
}

} // verus!
