//! The search dialog: its layout, its editor and the search that it runs.
pub mod laws;

use vstd::prelude::*;
use crate::memory::{capped, more_items_take_more, room, vec_capacity};
use vstd::string::StringExecFns;
use vstd::utf8::encode_utf8;
use crate::tab::{diff32, lesser, min32, sum32, PixelRect};
use crate::terminal::adapter::{visible_cell, CoreModel, TerminalCoreAdapter};
use crate::terminal::regex::{
    all_matches, fit_from, lines_fit, too_long_within, CompiledRegex, RegexLimits, RegexScanCursor,
    REGEX_ENGINE_BUDGET,
};
use crate::terminal::screen::{TerminalScreen, Token};
use crate::terminal::search::{
    occurrences, pace, query_error, CompiledLiteral, Pace, SearchAnchor, SearchBudget,
    SearchContentId, SearchError, SearchMatch, SearchScanCursor, CLOCK_CHARACTERS,
    MAX_SEARCH_MATCHES, MAX_SEARCH_QUERY_BYTES, MAX_SEARCH_QUERY_SCALARS, MAX_SEARCH_SLICE_ROWS,
};
use crate::text::{
    byte_offset, chars_of, dec, encode_concat, is_control, is_control_char, push_dec, string_of,
    utf8_len,
};
use crate::time::Instant;

verus! {

/// How long an edit waits before it is searched for.
pub const SEARCH_DEBOUNCE: u64 = 50_000_000;

/// How long one step of a scan may take.
pub const SEARCH_SLICE: u64 = 2_000_000;

/// The parts of the search dialog.
#[derive(Clone, Debug, PartialEq, Eq)]
pub struct SearchDialogPresentation {
    pub panel: PixelRect,
    pub input: PixelRect,
    pub previous: PixelRect,
    pub next: PixelRect,
    pub query_text: String,
}

/// A length in pixels at a scale of so many parts of 120, rounded up.
pub open spec fn scaled(value: u32, scale_120: u32) -> u32 {
    let product = if value * scale_120 <= u32::MAX {
        (value * scale_120) as int
    } else {
        u32::MAX as int
    };
    ((product + 119) / 120) as u32
}

pub(crate) fn scale_up(value: u32, scale_120: u32) -> (result: u32)
    ensures
        result == scaled(value, scale_120),
{
    let product: u64 = match value.checked_mul(scale_120) {
        Some(product) => product as u64,
        None => u32::MAX as u64,
    };
    ((product + 119) / 120) as u32
}

/// The distance between the panel and the edges of the viewport.
pub open spec fn dialog_margin(w: u32, h: u32, scale: u32) -> u32 {
    min32(min32(scaled(12, scale), w / 2), h / 2)
}

/// The panel: as large as the viewport allows, in the middle and a quarter down.
pub open spec fn dialog_panel(w: u32, h: u32, scale: u32) -> PixelRect {
    let margin = dialog_margin(w, h, scale);
    let width = min32(scaled(180, scale), diff32(w, (margin * 2) as u32));
    let height = min32(scaled(44, scale), diff32(h, (margin * 2) as u32));
    PixelRect { x: diff32(w, width) / 2, y: diff32(h, height) / 4, width, height }
}

/// The distance between the panel's edge and what it holds.
pub open spec fn dialog_inner(panel: PixelRect, scale: u32) -> u32 {
    min32(min32(scaled(6, scale), panel.width / 4), panel.height / 4)
}

/// The height of the row in the panel.
pub open spec fn dialog_row(panel: PixelRect, scale: u32) -> u32 {
    (panel.height - 2 * dialog_inner(panel, scale)) as u32
}

/// The width of a button.
pub open spec fn dialog_button(panel: PixelRect, scale: u32) -> u32 {
    min32(scaled(28, scale), dialog_row(panel, scale))
}

/// The text field: what the two buttons leave of the row.
pub open spec fn dialog_input(panel: PixelRect, scale: u32) -> PixelRect {
    let inner = dialog_inner(panel, scale);
    let button = dialog_button(panel, scale);
    PixelRect {
        x: (panel.x + inner) as u32,
        y: (panel.y + inner) as u32,
        width: diff32(
            (panel.width - 2 * inner) as u32,
            if 2 * button <= u32::MAX {
                (2 * button) as u32
            } else {
                u32::MAX
            },
        ),
        height: dialog_row(panel, scale),
    }
}

/// The rectangle of the given width to the right of another.
pub open spec fn right_of(rect: PixelRect, width: u32) -> PixelRect {
    PixelRect { x: sum32(rect.x, rect.width), width, ..rect }
}

/// `value` moved by the distance from `from` to `to`, or zero where it would leave the axis.
pub open spec fn moved(value: u32, from: u32, to: u32) -> u32 {
    let target = value + to - from;
    if 0 <= target <= u32::MAX {
        target as u32
    } else {
        0
    }
}

pub open spec fn moved_rect(rect: PixelRect, panel: PixelRect, x: u32, y: u32) -> PixelRect {
    PixelRect { x: moved(rect.x, panel.x, x), y: moved(rect.y, panel.y, y), ..rect }
}

fn move_axis(value: u32, from: u32, to: u32) -> (result: u32)
    ensures
        result == moved(value, from, to),
{
    let target: i64 = value as i64 + to as i64 - from as i64;
    if target >= 0 && target <= u32::MAX as i64 {
        target as u32
    } else {
        0
    }
}

fn move_rect(rect: PixelRect, panel: PixelRect, x: u32, y: u32) -> (result: PixelRect)
    ensures
        result == moved_rect(rect, panel, x, y),
{
    PixelRect {
        x: move_axis(rect.x, panel.x, x),
        y: move_axis(rect.y, panel.y, y),
        width: rect.width,
        height: rect.height,
    }
}

/// The parts of the dialog: the panel, its text field, and the buttons to the previous and to the
/// next match.
pub open spec fn dialog_parts(w: u32, h: u32, scale: u32) -> (
    PixelRect,
    PixelRect,
    PixelRect,
    PixelRect,
) {
    let panel = dialog_panel(w, h, scale);
    let input = dialog_input(panel, scale);
    let previous = right_of(input, dialog_button(panel, scale));
    (panel, input, previous, right_of(previous, dialog_button(panel, scale)))
}

impl SearchDialogPresentation {
    /// Lays the dialog out in a viewport.
    pub fn layout(viewport: [u32; 2], scale_120: u32, query_text: String) -> (result:
        SearchDialogPresentation)
        ensures
            result.panel == dialog_panel(viewport@[0], viewport@[1], scale_120),
            result.input == dialog_input(result.panel, scale_120),
            result.previous == right_of(result.input, dialog_button(result.panel, scale_120)),
            result.next == right_of(result.previous, dialog_button(result.panel, scale_120)),
            (result.panel, result.input, result.previous, result.next) == dialog_parts(
                viewport@[0],
                viewport@[1],
                scale_120,
            ),
            result.query_text@ == query_text@,
    {
        let w: u32 = viewport[0];
        let h: u32 = viewport[1];
        let margin: u32 = lesser(lesser(scale_up(12, scale_120), w / 2), h / 2);
        let width: u32 = lesser(scale_up(180, scale_120), w.saturating_sub(margin * 2));
        let height: u32 = lesser(scale_up(44, scale_120), h.saturating_sub(margin * 2));
        let panel = PixelRect {
            x: w.saturating_sub(width) / 2,
            y: h.saturating_sub(height) / 4,
            width,
            height,
        };
        let inner: u32 = lesser(lesser(scale_up(6, scale_120), width / 4), height / 4);
        let row: u32 = height - inner * 2;
        let button: u32 = lesser(scale_up(28, scale_120), row);
        let buttons: u32 = button.saturating_add(button);
        let input = PixelRect {
            x: panel.x + inner,
            y: panel.y + inner,
            width: (width - inner * 2).saturating_sub(buttons),
            height: row,
        };
        let previous = PixelRect {
            x: input.x.saturating_add(input.width),
            y: input.y,
            width: button,
            height: row,
        };
        let next = PixelRect {
            x: previous.x.saturating_add(previous.width),
            y: input.y,
            width: button,
            height: row,
        };
        SearchDialogPresentation { panel, input, previous, next, query_text }
    }

    /// Moves the dialog to a place, as far as the viewport lets it.
    pub fn move_to(&mut self, origin: [u32; 2], viewport: [u32; 2])
        ensures
            ({
                let x = min32(origin@[0], diff32(viewport@[0], old(self).panel.width));
                let y = min32(origin@[1], diff32(viewport@[1], old(self).panel.height));
                let panel = old(self).panel;
                &&& final(self).panel == moved_rect(panel, panel, x, y)
                &&& final(self).input == moved_rect(old(self).input, panel, x, y)
                &&& final(self).previous == moved_rect(old(self).previous, panel, x, y)
                &&& final(self).next == moved_rect(old(self).next, panel, x, y)
                &&& final(self).query_text == old(self).query_text
            }),
    {
        let panel = self.panel;
        let x: u32 = lesser(origin[0], viewport[0].saturating_sub(panel.width));
        let y: u32 = lesser(origin[1], viewport[1].saturating_sub(panel.height));
        self.panel = move_rect(self.panel, panel, x, y);
        self.input = move_rect(self.input, panel, x, y);
        self.previous = move_rect(self.previous, panel, x, y);
        self.next = move_rect(self.next, panel, x, y);
    }

    /// The area by which the dialog can be dragged: the panel with a border around it, cut to
    /// the viewport.
    pub open spec fn drag_area(&self, w: u32, h: u32, outset: u32) -> PixelRect {
        let x = diff32(self.panel.x, outset);
        let y = diff32(self.panel.y, outset);
        let right = min32(sum32(sum32(self.panel.x, self.panel.width), outset), w);
        let bottom = min32(sum32(sum32(self.panel.y, self.panel.height), outset), h);
        PixelRect { x, y, width: diff32(right, x), height: diff32(bottom, y) }
    }

    /// Whether the dialog can be dragged at a point: in its area and on none of its parts.
    pub fn drag_hit_test(&self, point: [u32; 2], viewport: [u32; 2], outset: u32) -> (result: bool)
        ensures
            result == (self.drag_area(viewport@[0], viewport@[1], outset).holds(
                point@[0],
                point@[1],
            ) && !self.input.holds(point@[0], point@[1]) && !self.previous.holds(
                point@[0],
                point@[1],
            ) && !self.next.holds(point@[0], point@[1])),
    {
        let x: u32 = self.panel.x.saturating_sub(outset);
        let y: u32 = self.panel.y.saturating_sub(outset);
        let right: u32 = lesser(
            self.panel.x.saturating_add(self.panel.width).saturating_add(outset),
            viewport[0],
        );
        let bottom: u32 = lesser(
            self.panel.y.saturating_add(self.panel.height).saturating_add(outset),
            viewport[1],
        );
        let area = PixelRect {
            x,
            y,
            width: right.saturating_sub(x),
            height: bottom.saturating_sub(y),
        };
        area.contains(point) && !self.input.contains(point) && !self.previous.contains(point)
            && !self.next.contains(point)
    }
}

/// However small the viewport is, the panel lies inside it, and its text field lies inside the
/// panel. Where the buttons fit, they lie inside the panel too, side by side.
#[verifier::spinoff_prover]
#[verifier::rlimit(60)]
pub proof fn dialog_stays_inside(w: u32, h: u32, scale: u32)
    ensures
        ({
            let panel = dialog_panel(w, h, scale);
            let input = dialog_input(panel, scale);
            let button = dialog_button(panel, scale);
            let previous = right_of(input, button);
            let next = right_of(previous, button);
            &&& panel.x + panel.width <= w
            &&& panel.y + panel.height <= h
            &&& panel.x <= input.x
            &&& panel.y <= input.y
            &&& input.x + input.width <= panel.x + panel.width
            &&& input.y + input.height <= panel.y + panel.height
            &&& 2 * button + 2 * dialog_inner(panel, scale) <= panel.width ==> {
                &&& previous.x == input.x + input.width
                &&& next.x == previous.x + button
                &&& next.x + button + dialog_inner(panel, scale) == panel.x + panel.width
            }
        }),
{
}

/// Moving the dialog keeps its panel inside a viewport that it fits, and keeps its parts where
/// they were in the panel.
pub proof fn moving_keeps_the_dialog_inside(
    panel: PixelRect,
    part: PixelRect,
    x: u32,
    y: u32,
    w: u32,
    h: u32,
)
    requires
        panel.width <= w,
        panel.height <= h,
        x <= w - panel.width,
        y <= h - panel.height,
        panel.x <= part.x,
        panel.y <= part.y,
        part.x + part.width <= panel.x + panel.width,
        part.y + part.height <= panel.y + panel.height,
    ensures
        ({
            let at = moved_rect(panel, panel, x, y);
            let now = moved_rect(part, panel, x, y);
            &&& at.x == x && at.y == y
            &&& at.x + at.width <= w && at.y + at.height <= h
            &&& now.x - at.x == part.x - panel.x
            &&& now.y - at.y == part.y - panel.y
        }),
{
}

#[derive(Clone, Copy, Debug, PartialEq, Eq, Structural)]
pub enum SearchPhase {
    Empty,
    Debouncing,
    Scanning,
    Ready,
    Truncated,
    Failed,
}

#[derive(Clone, Copy, Debug, PartialEq, Eq, Structural)]
pub enum SearchDirection {
    Next,
    Previous,
}

/// An edit of the query.
#[derive(Clone, Copy, Debug)]
pub enum SearchEdit<'a> {
    Insert(&'a str),
    Backspace,
    Delete,
    Left,
    Right,
    Home,
    End,
    DeleteSurrounding { before_bytes: u32, after_bytes: u32 },
}

/// What an operation on the search asks for.
#[derive(Clone, Copy, Debug, PartialEq, Eq, Structural)]
pub struct SearchEffect {
    pub needs_frame: bool,
    pub needs_deadline: bool,
    pub scroll_target: Option<usize>,
    pub ime_changed: bool,
}

impl SearchEffect {
    pub open spec fn none() -> SearchEffect {
        SearchEffect {
            needs_frame: false,
            needs_deadline: false,
            scroll_target: None,
            ime_changed: false,
        }
    }
}

impl Default for SearchEffect {
    fn default() -> (result: SearchEffect)
        ensures
            result == SearchEffect::none(),
    {
        SearchEffect {
            needs_frame: false,
            needs_deadline: false,
            scroll_target: None,
            ime_changed: false,
        }
    }
}

/// A query that has been compiled.
#[derive(Debug)]
pub enum CompiledSearch {
    Literal(CompiledLiteral),
    Regex(CompiledRegex),
}

/// Where a scan stands.
#[derive(Debug)]
pub enum ControllerScanCursor {
    Literal(SearchScanCursor),
    Regex(RegexScanCursor),
}

/// What one step of a scan found.
#[derive(Debug)]
pub struct ControllerScanStep {
    pub matches: Vec<SearchMatch>,
    pub next: Option<ControllerScanCursor>,
}

/// What a scan for the match next to an origin has met.
#[derive(Clone, Copy, Debug, PartialEq, Eq, Structural)]
pub struct NavigationProgress {
    pub direction: SearchDirection,
    pub origin: SearchAnchor,
    pub first: Option<SearchMatch>,
    pub last: Option<SearchMatch>,
    pub directional: Option<SearchMatch>,
}

/// A scan for the match next to an origin, past the matches that are kept.
#[derive(Debug)]
pub struct NavigationScan {
    pub progress: NavigationProgress,
    pub cursor: ControllerScanCursor,
}

/// The search of one terminal.
#[derive(Debug)]
pub struct SearchController {
    open: bool,
    before: Vec<char>,
    after: Vec<char>,
    regex_enabled: bool,
    revision: u64,
    phase: SearchPhase,
    editor_notice: Option<SearchError>,
    bound_content: Option<SearchContentId>,
    compiled: Option<CompiledSearch>,
    matches: Vec<SearchMatch>,
    current: Option<SearchMatch>,
    current_saved_index: Option<usize>,
    scan: Option<ControllerScanCursor>,
    deadline: Option<Instant>,
    pending_navigation: Option<SearchDirection>,
    navigation_scan: Option<NavigationScan>,
}

/// The state of a search. The query is what stands before and after the editor's cursor.
pub struct SearchModel {
    pub open: bool,
    pub before: Seq<char>,
    pub after: Seq<char>,
    pub regex_enabled: bool,
    pub revision: u64,
    pub phase: SearchPhase,
    pub notice: Option<SearchError>,
    pub bound: Option<SearchContentId>,
    pub compiled: Option<CompiledSearch>,
    pub matches: Seq<SearchMatch>,
    pub current: Option<SearchMatch>,
    pub saved: Option<usize>,
    pub scan: Option<ControllerScanCursor>,
    pub deadline: Option<Instant>,
    pub pending: Option<SearchDirection>,
    pub navigation: Option<NavigationScan>,
}

/// Why a text cannot be typed as a query, if it cannot.
pub open spec fn candidate_error(query: Seq<char>) -> Option<SearchError> {
    if encode_utf8(query).len() > MAX_SEARCH_QUERY_BYTES || query.len() > MAX_SEARCH_QUERY_SCALARS {
        Some(SearchError::QueryTooLong)
    } else if exists|i: int| 0 <= i < query.len() && is_control(#[trigger] query[i]) {
        Some(SearchError::ControlCharacter)
    } else {
        None
    }
}

/// How many characters at the end of a text take up exactly so many bytes.
pub open spec fn chars_back(text: Seq<char>, bytes: nat) -> Option<nat>
    decreases text.len(),
{
    if bytes == 0 {
        Some(0)
    } else if text.len() == 0 || encode_utf8(seq![text.last()]).len() > bytes {
        None
    } else {
        match chars_back(
            text.drop_last(),
            (bytes - encode_utf8(seq![text.last()]).len()) as nat,
        ) {
            Some(n) => Some(n + 1),
            None => None,
        }
    }
}

/// How many characters at the start of a text take up exactly so many bytes.
pub open spec fn chars_ahead(text: Seq<char>, bytes: nat) -> Option<nat>
    decreases text.len(),
{
    if bytes == 0 {
        Some(0)
    } else if text.len() == 0 || encode_utf8(seq![text[0]]).len() > bytes {
        None
    } else {
        match chars_ahead(text.skip(1), (bytes - encode_utf8(seq![text[0]]).len()) as nat) {
            Some(n) => Some(n + 1),
            None => None,
        }
    }
}

/// What an edit makes of the text around the cursor.
pub struct EditModel {
    pub before: Seq<char>,
    pub after: Seq<char>,
    pub notice: Option<SearchError>,
    /// The edit counts as a change of the query.
    pub changed: bool,
}

/// What an operation leaves and asks for.
pub struct SearchOutcome {
    pub search: SearchModel,
    pub effect: SearchEffect,
}

impl SearchModel {
    pub open spec fn initial() -> SearchModel {
        SearchModel {
            open: false,
            before: Seq::empty(),
            after: Seq::empty(),
            regex_enabled: false,
            revision: 0,
            phase: SearchPhase::Empty,
            notice: None,
            bound: None,
            compiled: None,
            matches: Seq::empty(),
            current: None,
            saved: None,
            scan: None,
            deadline: None,
            pending: None,
            navigation: None,
        }
    }

    pub open spec fn query(self) -> Seq<char> {
        self.before + self.after
    }

    /// The number of the current match is one of the matches that are kept, and they are within
    /// their limit. Nothing is kept while the dialog is closed or the query may still change, and
    /// nothing is searched for where there is no query. An open dialog searches with expressions, and what it has compiled is of the kind that it
    /// searches with.
    pub open spec fn wf(self) -> bool {
        &&& self.saved is Some ==> self.saved->0 < self.matches.len()
        &&& self.matches.len() <= MAX_SEARCH_MATCHES
        &&& !self.open || self.phase is Debouncing ==> self.matches.len() == 0 && self.navigation
            is None
        &&& !self.open ==> self.bound is None && self.compiled is None && self.scan is None
        &&& self.query().len() == 0 ==> self.bound is None
        &&& self.open ==> self.regex_enabled
        &&& self.compiled is Some ==> (self.compiled->0 is Regex <==> self.regex_enabled)
    }

    /// The dialog opens with the cursor at the end of the query. A query that was left behind is
    /// searched for at once.
    pub open spec fn opened(self, now: Instant) -> SearchOutcome {
        let reopening = !self.open && self.query().len() > 0;
        let opened = SearchModel {
            open: true,
            regex_enabled: true,
            before: self.query(),
            after: Seq::empty(),
            ..self.bumped()
        };
        SearchOutcome {
            search: if reopening {
                SearchModel { phase: SearchPhase::Debouncing, deadline: Some(now), ..opened }
            } else {
                opened
            },
            effect: SearchEffect {
                needs_frame: true,
                needs_deadline: reopening,
                scroll_target: None,
                ime_changed: true,
            },
        }
    }

    /// The dialog closes. The query is kept, the results are not.
    pub open spec fn cancelled(self) -> SearchOutcome {
        SearchOutcome {
            search: SearchModel {
                open: false,
                phase: SearchPhase::Empty,
                notice: None,
                deadline: None,
                ..self.bumped().reset()
            },
            effect: SearchEffect {
                needs_frame: true,
                needs_deadline: false,
                scroll_target: None,
                ime_changed: true,
            },
        }
    }

    /// A new revision, or a failed search where there is none left.
    pub open spec fn bumped(self) -> SearchModel {
        if self.revision < u64::MAX {
            SearchModel { revision: (self.revision + 1) as u64, ..self }
        } else {
            SearchModel { phase: SearchPhase::Failed, ..self }
        }
    }

    /// All results are dropped.
    pub open spec fn reset(self) -> SearchModel {
        SearchModel {
            bound: None,
            compiled: None,
            matches: Seq::empty(),
            current: None,
            saved: None,
            scan: None,
            pending: None,
            navigation: None,
            ..self
        }
    }

    /// The search is to run again in a while.
    pub open spec fn debouncing(self, now: Instant) -> SearchModel {
        SearchModel {
            phase: SearchPhase::Debouncing,
            deadline: Some(now.later(SEARCH_DEBOUNCE)),
            ..self
        }
    }

    /// The results no longer hold.
    pub open spec fn invalidated(self, now: Instant) -> SearchModel {
        if !self.open || self.query().len() == 0 {
            self
        } else {
            self.reset().debouncing(now)
        }
    }

    /// What an edit makes of the text around the cursor.
    pub open spec fn edit_text(self, edit: SearchEdit<'_>) -> EditModel {
        let same = EditModel {
            before: self.before,
            after: self.after,
            notice: self.notice,
            changed: false,
        };
        match edit {
            SearchEdit::Insert(value) => match candidate_error(self.before + value@ + self.after) {
                None => EditModel { before: self.before + value@, changed: true, ..same },
                Some(error) => EditModel { notice: Some(error), ..same },
            },
            SearchEdit::Backspace => if self.before.len() > 0 {
                EditModel { before: self.before.drop_last(), changed: true, ..same }
            } else {
                same
            },
            SearchEdit::Delete => if self.after.len() > 0 {
                EditModel { after: self.after.skip(1), changed: true, ..same }
            } else {
                same
            },
            SearchEdit::Left => if self.before.len() > 0 {
                EditModel {
                    before: self.before.drop_last(),
                    after: seq![self.before.last()] + self.after,
                    ..same
                }
            } else {
                same
            },
            SearchEdit::Right => if self.after.len() > 0 {
                EditModel {
                    before: self.before.push(self.after[0]),
                    after: self.after.skip(1),
                    ..same
                }
            } else {
                same
            },
            SearchEdit::Home => EditModel { before: Seq::empty(), after: self.query(), ..same },
            SearchEdit::End => EditModel { before: self.query(), after: Seq::empty(), ..same },
            SearchEdit::DeleteSurrounding { before_bytes, after_bytes } => match (
                chars_back(self.before, before_bytes as nat),
                chars_ahead(self.after, after_bytes as nat),
            ) {
                (Some(back), Some(ahead)) => EditModel {
                    before: self.before.take(self.before.len() - back),
                    after: self.after.skip(ahead as int),
                    changed: true,
                    ..same
                },
                _ => EditModel { notice: Some(SearchError::InvalidCoordinate), ..same },
            },
        }
    }

    /// What an edit does. A change of the query drops the results and, unless the query is empty
    /// now, starts the wait for a new search.
    pub open spec fn edited(self, edit: SearchEdit<'_>, now: Instant) -> SearchOutcome {
        let text = self.edit_text(edit);
        let moved = text.before != self.before || text.after != self.after;
        let typed = SearchModel {
            before: text.before,
            after: text.after,
            notice: text.notice,
            ..self
        };
        let counted = if moved {
            typed.bumped()
        } else {
            typed
        };
        let empty = counted.query().len() == 0;
        let search = if !text.changed {
            counted
        } else {
            let fresh = SearchModel { notice: None, ..counted.reset() };
            if empty {
                SearchModel { phase: SearchPhase::Empty, ..fresh }
            } else {
                fresh.debouncing(now)
            }
        };
        if !self.open {
            SearchOutcome { search: self, effect: SearchEffect::none() }
        } else {
            SearchOutcome {
                search,
                effect: SearchEffect {
                    needs_frame: moved || search.notice is Some,
                    needs_deadline: text.changed && !empty,
                    scroll_target: None,
                    ime_changed: moved,
                },
            }
        }
    }
}

impl View for SearchController {
    type V = SearchModel;

    closed spec fn view(&self) -> SearchModel {
        SearchModel {
            open: self.open,
            before: self.before@,
            after: self.after@,
            regex_enabled: self.regex_enabled,
            revision: self.revision,
            phase: self.phase,
            notice: self.editor_notice,
            bound: self.bound_content,
            compiled: self.compiled,
            matches: self.matches@,
            current: self.current,
            saved: self.current_saved_index,
            scan: self.scan,
            deadline: self.deadline,
            pending: self.pending_navigation,
            navigation: self.navigation_scan,
        }
    }
}

impl Default for SearchController {
    fn default() -> (result: SearchController)
        ensures
            result@ == SearchModel::initial(),
    {
        let result = SearchController {
            open: false,
            before: Vec::new(),
            after: Vec::new(),
            regex_enabled: false,
            revision: 0,
            phase: SearchPhase::Empty,
            editor_notice: None,
            bound_content: None,
            compiled: None,
            matches: Vec::new(),
            current: None,
            current_saved_index: None,
            scan: None,
            deadline: None,
            pending_navigation: None,
            navigation_scan: None,
        };
        assert(result@.before =~= Seq::empty());
        assert(result@.after =~= Seq::empty());
        assert(result@.matches =~= Seq::empty());
        result
    }
}

fn concat(a: &Vec<char>, b: &Vec<char>) -> (result: Vec<char>)
    ensures
        result@ == a@ + b@,
{
    let mut out: Vec<char> = vstd::slice::slice_to_vec(a.as_slice());
    let mut rest: Vec<char> = vstd::slice::slice_to_vec(b.as_slice());
    out.append(&mut rest);
    out
}

fn validate_query(query: &Vec<char>) -> (result: Result<(), SearchError>)
    ensures
        match candidate_error(query@) {
            Some(error) => result is Err && result->Err_0 == error,
            None => result is Ok,
        },
{
    if query.len() > MAX_SEARCH_QUERY_SCALARS {
        return Err(SearchError::QueryTooLong);
    }
    let text = string_of(query);
    if text.as_str().as_bytes().len() > MAX_SEARCH_QUERY_BYTES {
        return Err(SearchError::QueryTooLong);
    }
    let mut i: usize = 0;
    while i < query.len()
        invariant
            i <= query@.len(),
            query@.len() <= MAX_SEARCH_QUERY_SCALARS,
            encode_utf8(query@).len() <= MAX_SEARCH_QUERY_BYTES,
            forall|k: int| 0 <= k < i ==> !is_control(#[trigger] query@[k]),
        decreases query@.len() - i,
    {
        if is_control_char(query[i]) {
            assert(is_control(query@[i as int]));
            return Err(SearchError::ControlCharacter);
        }
        i += 1;
    }
    Ok(())
}

fn count_back(text: &Vec<char>, bytes: u32) -> (result: Option<usize>)
    ensures
        match chars_back(text@, bytes as nat) {
            Some(n) => result is Some && result->0 == n && n <= text@.len(),
            None => result is None,
        },
{
    let mut left: usize = bytes as usize;
    let mut n: usize = text.len();
    assert(text@.take(n as int) =~= text@);
    while left > 0
        invariant
            n <= text@.len(),
            chars_back(text@, bytes as nat) == match chars_back(text@.take(n as int), left as nat) {
                Some(k) => Some((k + (text@.len() - n)) as nat),
                None => None,
            },
        decreases left,
    {
        if n == 0 {
            return None;
        }
        let ghost here = text@.take(n as int);
        let size: usize = utf8_len(text[n - 1]);
        assert(here.last() == text@[n - 1]);
        assert(here.drop_last() =~= text@.take(n - 1));
        if size > left {
            return None;
        }
        left -= size;
        n -= 1;
    }
    Some(text.len() - n)
}

fn count_ahead(text: &Vec<char>, bytes: u32) -> (result: Option<usize>)
    ensures
        match chars_ahead(text@, bytes as nat) {
            Some(n) => result is Some && result->0 == n && n <= text@.len(),
            None => result is None,
        },
{
    let mut left: usize = bytes as usize;
    let mut n: usize = 0;
    assert(text@.skip(0) =~= text@);
    while left > 0
        invariant
            n <= text@.len(),
            chars_ahead(text@, bytes as nat) == match chars_ahead(
                text@.skip(n as int),
                left as nat,
            ) {
                Some(k) => Some((k + n) as nat),
                None => None,
            },
        decreases left,
    {
        if n == text.len() {
            return None;
        }
        let ghost here = text@.skip(n as int);
        let size: usize = utf8_len(text[n]);
        assert(here[0] == text@[n as int]);
        assert(here.skip(1) =~= text@.skip(n + 1));
        if size > left {
            return None;
        }
        left -= size;
        n += 1;
    }
    Some(n)
}

impl SearchController {
    pub fn is_open(&self) -> (result: bool)
        ensures
            result == self@.open,
    {
        self.open
    }

    pub fn query(&self) -> (result: String)
        ensures
            result@ == self@.query(),
    {
        let chars = concat(&self.before, &self.after);
        string_of(&chars)
    }

    /// The cursor of the editor, in bytes. It stands between two characters.
    pub fn cursor_byte(&self) -> (result: usize)
        ensures
            result == byte_offset(self@.query(), self@.before.len() as int),
    {
        let text = string_of(&self.before);
        assert(self@.query().take(self@.before.len() as int) =~= self@.before);
        text.as_str().as_bytes().len()
    }

    pub fn revision(&self) -> (result: u64)
        ensures
            result == self@.revision,
    {
        self.revision
    }

    pub fn phase(&self) -> (result: SearchPhase)
        ensures
            result == self@.phase,
    {
        self.phase
    }

    pub fn matches(&self) -> (result: &Vec<SearchMatch>)
        ensures
            result@ == self@.matches,
    {
        &self.matches
    }

    pub fn current(&self) -> (result: Option<SearchMatch>)
        ensures
            result == self@.current,
    {
        self.current
    }

    pub fn current_saved_index(&self) -> (result: Option<usize>)
        ensures
            result == self@.saved,
    {
        self.current_saved_index
    }

    /// When the search wants to go on: at once while it scans.
    pub fn next_deadline(&self, now: Instant) -> (result: Option<Instant>)
        ensures
            result == if self@.phase is Scanning || self@.navigation is Some {
                Some(now)
            } else {
                self@.deadline
            },
    {
        if self.phase == SearchPhase::Scanning || self.navigation_scan.is_some() {
            Some(now)
        } else {
            self.deadline
        }
    }

    /// The status line of the dialog.
    pub fn status(&self) -> (result: String)
        requires
            self@.wf(),
        ensures
            result@ == status_text(self@),
            result@ == match self@.phase {
                SearchPhase::Empty => ""@,
                SearchPhase::Debouncing | SearchPhase::Scanning => "Searching..."@,
                SearchPhase::Failed => match self@.notice {
                    Some(SearchError::InvalidRegex) => "Invalid regular expression"@,
                    Some(SearchError::RegexLineTooLong) => "Logical line is too long"@,
                    _ => "Search failed"@,
                },
                SearchPhase::Truncated => ">="@ + dec(MAX_SEARCH_MATCHES as nat),
                SearchPhase::Ready => if self@.matches.len() == 0 {
                    "Not found"@
                } else {
                    match self@.saved {
                        None => ""@ + dec(self@.matches.len()),
                        Some(index) => ""@ + dec((index + 1) as nat) + "/"@ + dec(
                            self@.matches.len(),
                        ),
                    }
                },
            },
    {
        match self.phase {
            SearchPhase::Empty => "".to_owned(),
            SearchPhase::Debouncing => "Searching...".to_owned(),
            SearchPhase::Scanning => "Searching...".to_owned(),
            SearchPhase::Failed => match self.editor_notice {
                Some(SearchError::InvalidRegex) => "Invalid regular expression".to_owned(),
                Some(SearchError::RegexLineTooLong) => "Logical line is too long".to_owned(),
                _ => "Search failed".to_owned(),
            },
            SearchPhase::Truncated => {
                let mut out: String = ">=".to_owned();
                push_dec(&mut out, MAX_SEARCH_MATCHES as u64);
                out
            },
            SearchPhase::Ready => {
                if self.matches.len() == 0 {
                    return "Not found".to_owned();
                }
                let mut out: String = "".to_owned();
                match self.current_saved_index {
                    None => {},
                    Some(index) => {
                        let count: usize = self.matches.len();
                        assert(index < count);
                        push_dec(&mut out, (index + 1) as u64);
                        out.append("/");
                    },
                }
                push_dec(&mut out, self.matches.len() as u64);
                out
            },
        }
    }

    fn bump_revision(&mut self)
        ensures
            final(self)@ == old(self)@.bumped(),
    {
        match self.revision.checked_add(1) {
            Some(revision) => {
                self.revision = revision;
            },
            None => {
                self.phase = SearchPhase::Failed;
            },
        }
    }

    fn reset_results(&mut self)
        ensures
            final(self)@ == old(self)@.reset(),
    {
        self.bound_content = None;
        self.compiled = None;
        self.matches.clear();
        self.current = None;
        self.current_saved_index = None;
        self.scan = None;
        self.pending_navigation = None;
        self.navigation_scan = None;
        assert(self.matches@ =~= Seq::empty());
    }

    /// Opens the dialog with the cursor at the end of the query. A query that was left behind is
    /// searched for at once.
    pub fn open(&mut self, now: Instant) -> (result: SearchEffect)
        ensures
            final(self)@ == old(self)@.opened(now).search,
            result == old(self)@.opened(now).effect,
    {
        self.bump_revision();
        let reopening = !self.open && (self.before.len() > 0 || self.after.len() > 0);
        self.open = true;
        self.regex_enabled = true;
        self.before.append(&mut self.after);
        assert(self.after@ =~= Seq::empty());
        if reopening {
            self.phase = SearchPhase::Debouncing;
            self.deadline = Some(now);
        }
        SearchEffect {
            needs_frame: true,
            needs_deadline: reopening,
            scroll_target: None,
            ime_changed: true,
        }
    }

    /// Closes the dialog. The query is kept, the results are not.
    pub fn cancel(&mut self) -> (result: SearchEffect)
        ensures
            final(self)@ == old(self)@.cancelled().search,
            result == old(self)@.cancelled().effect,
    {
        self.bump_revision();
        self.reset_results();
        self.open = false;
        self.phase = SearchPhase::Empty;
        self.editor_notice = None;
        self.deadline = None;
        SearchEffect {
            needs_frame: true,
            needs_deadline: false,
            scroll_target: None,
            ime_changed: true,
        }
    }

    fn edit_query(&mut self, edit: SearchEdit<'_>) -> (result: (bool, bool))
        ensures
            ({
                let m = old(self)@;
                let text = m.edit_text(edit);
                &&& final(self)@ == (SearchModel {
                    before: text.before,
                    after: text.after,
                    notice: text.notice,
                    ..m
                })
                &&& result.0 == text.changed
                &&& result.1 == (text.before != m.before || text.after != m.after)
            }),
    {
        let ghost m = self@;
        match edit {
            SearchEdit::Insert(value) => {
                let inserted = chars_of(value);
                let before = concat(&self.before, &inserted);
                let candidate = concat(&before, &self.after);
                match validate_query(&candidate) {
                    Ok(_) => {
                        let moved = inserted.len() > 0;
                        proof {
                            if inserted@.len() == 0 {
                                assert(before@ =~= m.before);
                            } else {
                                assert(before@.len() != m.before.len());
                            }
                        }
                        self.before = before;
                        (true, moved)
                    },
                    Err(error) => {
                        self.editor_notice = Some(error);
                        (false, false)
                    },
                }
            },
            SearchEdit::Backspace => {
                if self.before.len() == 0 {
                    return (false, false);
                }
                self.before.pop();
                assert(self.before@ =~= m.before.drop_last());
                assert(self.before@.len() != m.before.len());
                (true, true)
            },
            SearchEdit::Delete => {
                if self.after.len() == 0 {
                    return (false, false);
                }
                self.after.remove(0);
                assert(self.after@ =~= m.after.skip(1));
                assert(self.after@.len() != m.after.len());
                (true, true)
            },
            SearchEdit::Left => {
                match self.before.pop() {
                    None => (false, false),
                    Some(c) => {
                        self.after.insert(0, c);
                        assert(self.before@ =~= m.before.drop_last());
                        assert(self.after@ =~= seq![m.before.last()] + m.after);
                        assert(self.before@.len() != m.before.len());
                        (false, true)
                    },
                }
            },
            SearchEdit::Right => {
                if self.after.len() == 0 {
                    return (false, false);
                }
                let c = self.after.remove(0);
                self.before.push(c);
                assert(self.after@ =~= m.after.skip(1));
                assert(self.after@.len() != m.after.len());
                (false, true)
            },
            SearchEdit::Home => {
                let moved = self.before.len() > 0;
                let mut text: Vec<char> = Vec::new();
                core::mem::swap(&mut self.before, &mut text);
                text.append(&mut self.after);
                self.after = text;
                assert(self.before@ =~= Seq::empty());
                proof {
                    if !moved {
                        assert(self.after@ =~= m.after);
                        assert(self.before@ =~= m.before);
                    } else {
                        assert(self.before@.len() != m.before.len());
                    }
                }
                (false, moved)
            },
            SearchEdit::End => {
                let moved = self.after.len() > 0;
                self.before.append(&mut self.after);
                assert(self.after@ =~= Seq::empty());
                proof {
                    if !moved {
                        assert(self.after@ =~= m.after);
                        assert(self.before@ =~= m.before);
                    } else {
                        assert(self.after@.len() != m.after.len());
                    }
                }
                (false, moved)
            },
            SearchEdit::DeleteSurrounding { before_bytes, after_bytes } => {
                match (count_back(&self.before, before_bytes), count_ahead(
                    &self.after,
                    after_bytes,
                )) {
                    (Some(back), Some(ahead)) => {
                        let keep: usize = self.before.len() - back;
                        self.before.truncate(keep);
                        let rest = self.after.split_off(ahead);
                        self.after = rest;
                        proof {
                            assert(self.before@ =~= m.before.take(m.before.len() - back));
                            assert(self.after@ =~= m.after.skip(ahead as int));
                            if back == 0 {
                                assert(self.before@ =~= m.before);
                            } else {
                                assert(self.before@.len() != m.before.len());
                            }
                            if ahead == 0 {
                                assert(self.after@ =~= m.after);
                            } else {
                                assert(self.after@.len() != m.after.len());
                            }
                        }
                        (true, back > 0 || ahead > 0)
                    },
                    _ => {
                        self.editor_notice = Some(SearchError::InvalidCoordinate);
                        (false, false)
                    },
                }
            },
        }
    }

    /// Edits the query. An edit that cannot be made leaves the text as it is.
    pub fn edit(&mut self, edit: SearchEdit<'_>, now: Instant) -> (result: SearchEffect)
        ensures
            final(self)@ == old(self)@.edited(edit, now).search,
            result == old(self)@.edited(edit, now).effect,
    {
        if !self.open {
            return SearchEffect::default();
        }
        let (changed, moved) = self.edit_query(edit);
        if moved {
            self.bump_revision();
        }
        let empty = self.before.len() == 0 && self.after.len() == 0;
        if changed {
            self.editor_notice = None;
            self.reset_results();
            if empty {
                self.phase = SearchPhase::Empty;
            } else {
                self.phase = SearchPhase::Debouncing;
                self.deadline = Some(now.saturating_add(SEARCH_DEBOUNCE));
            }
        }
        SearchEffect {
            needs_frame: moved || self.editor_notice.is_some(),
            needs_deadline: changed && !empty,
            scroll_target: None,
            ime_changed: moved,
        }
    }

    /// The content has changed: the results no longer hold.
    pub fn invalidate(&mut self, now: Instant)
        ensures
            final(self)@ == old(self)@.invalidated(now),
    {
        if !self.open || (self.before.len() == 0 && self.after.len() == 0) {
            return ;
        }
        self.reset_results();
        self.phase = SearchPhase::Debouncing;
        self.deadline = Some(now.saturating_add(SEARCH_DEBOUNCE));
    }
}

/// Whether both ends of a match are on the display.
pub open spec fn is_visible(value: SearchMatch, core: CoreModel, display_offset: int) -> bool {
    let lines = core.size.lines as int;
    let columns = core.size.columns as int;
    &&& visible_cell(
        value.start.history_line as int,
        value.start.column as int,
        display_offset,
        lines,
        columns,
    ) is Some
    &&& visible_cell(
        value.end.history_line as int,
        value.end.column as int,
        display_offset,
        lines,
        columns,
    ) is Some
}

/// The first match that is on the display.
pub open spec fn first_visible(
    matches: Seq<SearchMatch>,
    core: CoreModel,
    display_offset: int,
) -> Option<usize>
    decreases matches.len(),
{
    if matches.len() == 0 {
        None
    } else {
        match first_visible(matches.drop_last(), core, display_offset) {
            Some(i) => Some(i),
            None => if is_visible(matches.last(), core, display_offset) {
                Some((matches.len() - 1) as usize)
            } else {
                None
            },
        }
    }
}

/// The first match that starts at an anchor.
pub open spec fn starting_at(matches: Seq<SearchMatch>, anchor: SearchAnchor) -> Option<usize>
    decreases matches.len(),
{
    if matches.len() == 0 {
        None
    } else {
        match starting_at(matches.drop_last(), anchor) {
            Some(i) => Some(i),
            None => if matches.last().start == anchor {
                Some((matches.len() - 1) as usize)
            } else {
                None
            },
        }
    }
}

proof fn first_visible_is_there(matches: Seq<SearchMatch>, core: CoreModel, display_offset: int)
    ensures
        first_visible(matches, core, display_offset) is Some ==> first_visible(
            matches,
            core,
            display_offset,
        )->0 < matches.len(),
    decreases matches.len(),
{
    if matches.len() > 0 {
        first_visible_is_there(matches.drop_last(), core, display_offset);
    }
}

proof fn starting_at_is_there(matches: Seq<SearchMatch>, anchor: SearchAnchor)
    ensures
        starting_at(matches, anchor) is Some ==> starting_at(matches, anchor)->0 < matches.len(),
    decreases matches.len(),
{
    if matches.len() > 0 {
        starting_at_is_there(matches.drop_last(), anchor);
    }
}

/// The display offset that shows a match, if there is one.
pub open spec fn scroll_target(value: SearchMatch, core: CoreModel, screen: &TerminalScreen) -> Option<
    usize,
> {
    let offset = core.offset_for(value, screen.history_size as int, screen.display_offset as int);
    if value.start.is_after(value.end) || offset < 0 {
        None
    } else {
        Some(offset as usize)
    }
}

fn find_visible(
    matches: &Vec<SearchMatch>,
    core: &TerminalCoreAdapter,
    screen: &TerminalScreen,
) -> (result: Option<usize>)
    requires
        core@.wf(),
        screen.wf(),
    ensures
        result == first_visible(matches@, core@, screen.display_offset as int),
        result is Some ==> result->0 < matches@.len(),
{
    let mut i: usize = 0;
    while i < matches.len()
        invariant
            i <= matches@.len(),
            core@.wf(),
            screen.wf(),
            first_visible(matches@.take(i as int), core@, screen.display_offset as int) is None,
        decreases matches@.len() - i,
    {
        assert(matches@.take(i + 1).drop_last() =~= matches@.take(i as int));
        assert(matches@.take(i + 1).last() == matches@[i as int]);
        if core.project_search_match(matches[i], screen.display_offset).is_ok() {
            proof {
                first_stays_visible(matches@, core@, screen.display_offset as int, i + 1);
            }
            return Some(i);
        }
        i += 1;
    }
    assert(matches@.take(i as int) =~= matches@);
    None
}

proof fn first_stays_visible(
    matches: Seq<SearchMatch>,
    core: CoreModel,
    display_offset: int,
    n: int,
)
    requires
        0 <= n <= matches.len(),
        first_visible(matches.take(n), core, display_offset) is Some,
    ensures
        first_visible(matches, core, display_offset) == first_visible(
            matches.take(n),
            core,
            display_offset,
        ),
    decreases matches.len() - n,
{
    if n < matches.len() {
        assert(matches.take(n + 1).drop_last() =~= matches.take(n));
        first_stays_visible(matches, core, display_offset, n + 1);
    } else {
        assert(matches.take(n) =~= matches);
    }
}

fn find_start(matches: &Vec<SearchMatch>, anchor: SearchAnchor) -> (result: Option<usize>)
    ensures
        result == starting_at(matches@, anchor),
        result is Some ==> result->0 < matches@.len(),
{
    let mut i: usize = 0;
    while i < matches.len()
        invariant
            i <= matches@.len(),
            starting_at(matches@.take(i as int), anchor) is None,
        decreases matches@.len() - i,
    {
        assert(matches@.take(i + 1).drop_last() =~= matches@.take(i as int));
        assert(matches@.take(i + 1).last() == matches@[i as int]);
        if matches[i].start == anchor {
            proof {
                first_stays_there(matches@, anchor, i + 1);
            }
            return Some(i);
        }
        i += 1;
    }
    assert(matches@.take(i as int) =~= matches@);
    None
}

proof fn first_stays_there(matches: Seq<SearchMatch>, anchor: SearchAnchor, n: int)
    requires
        0 <= n <= matches.len(),
        starting_at(matches.take(n), anchor) is Some,
    ensures
        starting_at(matches, anchor) == starting_at(matches.take(n), anchor),
    decreases matches.len() - n,
{
    if n < matches.len() {
        assert(matches.take(n + 1).drop_last() =~= matches.take(n));
        first_stays_there(matches, anchor, n + 1);
    } else {
        assert(matches.take(n) =~= matches);
    }
}

/// An effect that only asks for a frame.
pub open spec fn frame_only() -> SearchEffect {
    SearchEffect { needs_frame: true, ..SearchEffect::none() }
}

/// An effect that asks for a frame and to be called again.
pub open spec fn frame_and_deadline() -> SearchEffect {
    SearchEffect { needs_frame: true, needs_deadline: true, ..SearchEffect::none() }
}

fn ask(needs_frame: bool, needs_deadline: bool) -> (result: SearchEffect)
    ensures
        result == (SearchEffect { needs_frame, needs_deadline, ..SearchEffect::none() }),
{
    SearchEffect { needs_frame, needs_deadline, scroll_target: None, ime_changed: false }
}

/// A scan that meets one more match.
pub open spec fn met(n: NavigationProgress, value: SearchMatch) -> NavigationProgress {
    NavigationProgress {
        first: if n.first is None {
            Some(value)
        } else {
            n.first
        },
        last: Some(value),
        directional: match n.direction {
            SearchDirection::Next => if value.start.is_after(n.origin) && n.directional is None {
                Some(value)
            } else {
                n.directional
            },
            SearchDirection::Previous => if n.origin.is_after(value.start) {
                Some(value)
            } else {
                n.directional
            },
        },
        ..n
    }
}

/// A scan that meets matches in order.
pub open spec fn met_all(n: NavigationProgress, matches: Seq<SearchMatch>) -> NavigationProgress
    decreases matches.len(),
{
    if matches.len() == 0 {
        n
    } else {
        met(met_all(n, matches.drop_last()), matches.last())
    }
}

/// The match that a finished scan leads to: the next one in its direction, or around the end.
pub open spec fn destination(n: NavigationProgress) -> Option<SearchMatch> {
    if n.directional is Some {
        n.directional
    } else {
        match n.direction {
            SearchDirection::Next => n.first,
            SearchDirection::Previous => n.last,
        }
    }
}

impl SearchModel {
    /// A match becomes the current one.
    pub open spec fn at_match(self, index: int, core: CoreModel, screen: &TerminalScreen) -> SearchOutcome {
        let value = self.matches[index];
        SearchOutcome {
            search: SearchModel {
                current: Some(value),
                saved: Some(index as usize),
                ..self
            },
            effect: SearchEffect {
                scroll_target: scroll_target(value, core, screen),
                ..frame_only()
            },
        }
    }

    /// The search cannot go on.
    pub open spec fn failed(self, error: SearchError) -> SearchModel {
        SearchModel { notice: Some(error), phase: SearchPhase::Failed, ..self }
    }

    /// What an error of a scan does.
    pub open spec fn refused(self, error: SearchError, now: Instant) -> SearchOutcome {
        if error == SearchError::StaleContent {
            SearchOutcome { search: self.invalidated(now), effect: frame_and_deadline() }
        } else {
            SearchOutcome { search: self.failed(error), effect: frame_only() }
        }
    }

    /// The search with the matches of one more step: it is finished where there is nothing left
    /// to scan, and cut off where there is no room for more.
    pub open spec fn collected(self, fresh: Seq<SearchMatch>, next: Option<ControllerScanCursor>) -> SearchModel {
        let all = self.matches + fresh;
        let saved = if self.saved is None && self.current is Some {
            starting_at(all, self.current->0.start)
        } else {
            self.saved
        };
        if all.len() >= MAX_SEARCH_MATCHES {
            SearchModel {
                matches: all.take(MAX_SEARCH_MATCHES as int),
                saved,
                scan: None,
                phase: SearchPhase::Truncated,
                ..self
            }
        } else {
            SearchModel {
                matches: all,
                saved,
                scan: next,
                phase: if next is Some {
                    SearchPhase::Scanning
                } else {
                    SearchPhase::Ready
                },
                ..self
            }
        }
    }

    /// What a step of the scan does. The first match that is wanted becomes the current one: one
    /// on the display if there is one, else the first or the last.
    pub open spec fn stepped(
        self,
        fresh: Seq<SearchMatch>,
        next: Option<ControllerScanCursor>,
        core: CoreModel,
        screen: &TerminalScreen,
    ) -> SearchOutcome {
        let n = self.collected(fresh, next);
        let effect = SearchEffect { needs_deadline: n.scan is Some, ..frame_only() };
        if n.current is None && n.matches.len() > 0 && (n.pending is Some || n.scan is None) {
            let index = match first_visible(n.matches, core, screen.display_offset as int) {
                Some(i) => i as int,
                None => if n.pending == Some(SearchDirection::Previous) {
                    n.matches.len() - 1
                } else {
                    0
                },
            };
            let shown = SearchModel { pending: None, ..n }.at_match(index, core, screen);
            SearchOutcome {
                search: shown.search,
                effect: SearchEffect { scroll_target: shown.effect.scroll_target, ..effect },
            }
        } else {
            SearchOutcome { search: n, effect }
        }
    }

    /// What the outcome of a step of the scan does.
    pub open spec fn took(
        self,
        step: Result<ControllerScanStep, SearchError>,
        core: CoreModel,
        screen: &TerminalScreen,
        now: Instant,
    ) -> SearchOutcome {
        match step {
            Ok(step) => self.stepped(step.matches@, step.next, core, screen),
            Err(error) => self.refused(error, now),
        }
    }

    /// What the outcome of a step of a scan past the matches that are kept does.
    pub open spec fn took_navigation(
        self,
        progress: NavigationProgress,
        step: Result<ControllerScanStep, SearchError>,
        core: CoreModel,
        screen: &TerminalScreen,
        now: Instant,
    ) -> SearchOutcome {
        match step {
            Ok(step) => self.navigated(progress, step.matches@, step.next, core, screen),
            Err(error) => self.refused(error, now),
        }
    }

    /// What a step of a scan past the matches that are kept does.
    pub open spec fn navigated(
        self,
        progress: NavigationProgress,
        fresh: Seq<SearchMatch>,
        next: Option<ControllerScanCursor>,
        core: CoreModel,
        screen: &TerminalScreen,
    ) -> SearchOutcome {
        let n = met_all(progress, fresh);
        match next {
            Some(cursor) => SearchOutcome {
                search: SearchModel {
                    navigation: Some(NavigationScan { progress: n, cursor }),
                    ..self
                },
                effect: frame_and_deadline(),
            },
            None => match destination(n) {
                None => SearchOutcome { search: self, effect: frame_only() },
                Some(value) => SearchOutcome {
                    search: SearchModel {
                        current: Some(value),
                        saved: starting_at(self.matches, value.start),
                        ..self
                    },
                    effect: SearchEffect {
                        scroll_target: scroll_target(value, core, screen),
                        ..frame_only()
                    },
                },
            },
        }
    }
}

fn target_of(value: SearchMatch, core: &TerminalCoreAdapter, screen: &TerminalScreen) -> (result:
    Option<usize>)
    requires
        core@.wf(),
        screen.wf(),
    ensures
        result == scroll_target(value, core@, screen),
{
    match core.search_display_offset(value, screen.history_size, screen.display_offset) {
        Ok(offset) => Some(offset),
        Err(_) => None,
    }
}

impl SearchController {
    fn set_current(&mut self, index: usize, core: &TerminalCoreAdapter, screen: &TerminalScreen) -> (
    result: SearchEffect)
        requires
            index < old(self)@.matches.len(),
            core@.wf(),
            screen.wf(),
        ensures
            final(self)@ == old(self)@.at_match(index as int, core@, screen).search,
            result == old(self)@.at_match(index as int, core@, screen).effect,
    {
        let value = self.matches[index];
        self.current = Some(value);
        self.current_saved_index = Some(index);
        SearchEffect {
            needs_frame: true,
            needs_deadline: false,
            scroll_target: target_of(value, core, screen),
            ime_changed: false,
        }
    }

    fn refuse(&mut self, error: SearchError, now: Instant) -> (result: SearchEffect)
        ensures
            final(self)@ == old(self)@.refused(error, now).search,
            result == old(self)@.refused(error, now).effect,
    {
        if error == SearchError::StaleContent {
            self.invalidate(now);
            ask(true, true)
        } else {
            self.editor_notice = Some(error);
            self.phase = SearchPhase::Failed;
            ask(true, false)
        }
    }

    /// Takes the outcome of a step of the scan.
    pub fn take_step(
        &mut self,
        step: Result<ControllerScanStep, SearchError>,
        core: &TerminalCoreAdapter,
        screen: &TerminalScreen,
        now: Instant,
    ) -> (result: SearchEffect)
        requires
            core@.wf(),
            screen.wf(),
        ensures
            final(self)@ == old(self)@.took(step, core@, screen, now).search,
            result == old(self)@.took(step, core@, screen, now).effect,
    {
        let step = match step {
            Ok(step) => step,
            Err(error) => {
                return self.refuse(error, now);
            },
        };
        let mut fresh = step.matches;
        self.matches.append(&mut fresh);
        if self.current_saved_index.is_none() {
            if let Some(current) = self.current {
                self.current_saved_index = find_start(&self.matches, current.start);
            }
        }
        if self.matches.len() >= MAX_SEARCH_MATCHES {
            let ghost all = self.matches@;
            self.matches.truncate(MAX_SEARCH_MATCHES);
            assert(self.matches@ =~= all.take(MAX_SEARCH_MATCHES as int));
            self.scan = None;
            self.phase = SearchPhase::Truncated;
        } else {
            self.scan = step.next;
            self.phase = if self.scan.is_some() {
                SearchPhase::Scanning
            } else {
                SearchPhase::Ready
            };
        }
        let ghost n = old(self)@.collected(step.matches@, step.next);
        assert(self@ == n);
        let more = self.scan.is_some();
        if self.current.is_none() && self.matches.len() > 0 && (self.pending_navigation.is_some()
            || !more) {
            let direction = self.pending_navigation;
            self.pending_navigation = None;
            let index: usize = match find_visible(&self.matches, core, screen) {
                Some(index) => index,
                None => match direction {
                    Some(SearchDirection::Previous) => self.matches.len() - 1,
                    _ => 0,
                },
            };
            let shown = self.set_current(index, core, screen);
            return SearchEffect {
                needs_frame: true,
                needs_deadline: more,
                scroll_target: shown.scroll_target,
                ime_changed: false,
            };
        }
        ask(true, more)
    }

    /// Takes the outcome of a step of a scan past the matches that are kept.
    pub fn take_navigation_step(
        &mut self,
        progress: NavigationProgress,
        step: Result<ControllerScanStep, SearchError>,
        core: &TerminalCoreAdapter,
        screen: &TerminalScreen,
        now: Instant,
    ) -> (result: SearchEffect)
        requires
            core@.wf(),
            screen.wf(),
        ensures
            final(self)@ == old(self)@.took_navigation(progress, step, core@, screen, now).search,
            result == old(self)@.took_navigation(progress, step, core@, screen, now).effect,
    {
        let step = match step {
            Ok(step) => step,
            Err(error) => {
                return self.refuse(error, now);
            },
        };
        let direction = progress.direction;
        let origin = progress.origin;
        let mut first = progress.first;
        let mut last = progress.last;
        let mut directional = progress.directional;
        let mut i: usize = 0;
        while i < step.matches.len()
            invariant
                i <= step.matches@.len(),
                met_all(progress, step.matches@.take(i as int)) == (NavigationProgress {
                    first,
                    last,
                    directional,
                    ..progress
                }),
                direction == progress.direction,
                origin == progress.origin,
            decreases step.matches@.len() - i,
        {
            let value = step.matches[i];
            assert(step.matches@.take(i + 1).drop_last() =~= step.matches@.take(i as int));
            assert(step.matches@.take(i + 1).last() == value);
            if first.is_none() {
                first = Some(value);
            }
            last = Some(value);
            match direction {
                SearchDirection::Next => {
                    if value.start.after(origin) && directional.is_none() {
                        directional = Some(value);
                    }
                },
                SearchDirection::Previous => {
                    if origin.after(value.start) {
                        directional = Some(value);
                    }
                },
            }
            i += 1;
        }
        assert(step.matches@.take(i as int) =~= step.matches@);
        match step.next {
            Some(cursor) => {
                let progress = NavigationProgress { direction, origin, first, last, directional };
                self.navigation_scan = Some(NavigationScan { progress, cursor });
                return ask(true, true);
            },
            None => {},
        }
        let value = if directional.is_some() {
            directional
        } else {
            match direction {
                SearchDirection::Next => first,
                SearchDirection::Previous => last,
            }
        };
        match value {
            None => ask(true, false),
            Some(value) => {
                self.current = Some(value);
                self.current_saved_index = find_start(&self.matches, value.start);
                SearchEffect {
                    needs_frame: true,
                    needs_deadline: false,
                    scroll_target: target_of(value, core, screen),
                    ime_changed: false,
                }
            },
        }
    }
}

impl CompiledSearch {
    /// The query that was compiled.
    pub open spec fn pattern(self) -> Seq<char> {
        match self {
            CompiledSearch::Literal(c) => c@,
            CompiledSearch::Regex(c) => c@,
        }
    }

    pub open spec fn wf(self) -> bool {
        match self {
            CompiledSearch::Literal(c) => c.wf() && c@.len() > 0,
            CompiledSearch::Regex(_) => true,
        }
    }

    /// Everything that there is to find on a screen.
    pub open spec fn everything(self, screen: &TerminalScreen) -> Seq<SearchMatch> {
        match self {
            CompiledSearch::Literal(c) => occurrences(c@, screen.all_tokens()),
            CompiledSearch::Regex(c) => all_matches(c@, screen),
        }
    }
}

impl ControllerScanCursor {
    /// The scan stands at the start of the content.
    pub open spec fn starts(
        self,
        regex: bool,
        content: SearchContentId,
        screen: &TerminalScreen,
    ) -> bool {
        match self {
            ControllerScanCursor::Literal(c) => {
                &&& !regex
                &&& c.content() == content
                &&& c.read(screen).len() == 0
                &&& forall|pattern: Seq<char>|
                    pattern.len() > 0 ==> #[trigger] c.valid(pattern, screen)
            },
            ControllerScanCursor::Regex(c) => {
                &&& regex
                &&& c.content() == content
                &&& c.read(screen).len() == 0
                &&& forall|pattern: Seq<char>| #[trigger] c.valid(pattern, screen)
                &&& forall|pattern: Seq<char>| (#[trigger] c.found(pattern, screen)).len() == 0
            },
        }
    }

    /// The scan for a query stands on a screen.
    pub open spec fn valid(
        self,
        compiled: CompiledSearch,
        content: SearchContentId,
        screen: &TerminalScreen,
    ) -> bool {
        match (compiled, self) {
            (CompiledSearch::Literal(q), ControllerScanCursor::Literal(c)) => c.content()
                == content && c.valid(q@, screen),
            (CompiledSearch::Regex(q), ControllerScanCursor::Regex(c)) => c.content() == content
                && c.valid(q@, screen),
            _ => false,
        }
    }

    /// The row in which the scan stands.
    pub open spec fn row(self, screen: &TerminalScreen) -> int {
        match self {
            ControllerScanCursor::Literal(c) => c.row(screen),
            ControllerScanCursor::Regex(c) => c.row(screen),
        }
    }

    /// What the scan has read.
    pub open spec fn read(self, screen: &TerminalScreen) -> Seq<Token> {
        match self {
            ControllerScanCursor::Literal(c) => c.read(screen),
            ControllerScanCursor::Regex(c) => c.read(screen),
        }
    }

    /// Whether the scan stands further on than another of its kind.
    pub open spec fn is_past(self, other: ControllerScanCursor) -> bool {
        match (self, other) {
            (ControllerScanCursor::Literal(c), ControllerScanCursor::Literal(o)) => c.is_past(&o),
            (ControllerScanCursor::Regex(c), ControllerScanCursor::Regex(o)) => c.is_past(&o),
            _ => false,
        }
    }

    /// What the scan for a query has found so far.
    pub open spec fn found(
        self,
        compiled: CompiledSearch,
        screen: &TerminalScreen,
    ) -> Seq<SearchMatch> {
        match (compiled, self) {
            (CompiledSearch::Literal(q), ControllerScanCursor::Literal(c)) => occurrences(
                q@,
                c.read(screen),
            ),
            (CompiledSearch::Regex(q), ControllerScanCursor::Regex(c)) => c.found(q@, screen),
            _ => Seq::empty(),
        }
    }
}

impl SearchModel {
    /// While the search is bound to the content on the screen, the matches that it keeps are what
    /// its scan has found of the query there, in order, and once it is ready they are all.
    pub open spec fn tracks(self, content: SearchContentId, screen: &TerminalScreen) -> bool {
        self.bound == Some(content) ==> {
            &&& self.compiled is Some
            &&& self.compiled->0.wf()
            &&& self.compiled->0.pattern() == self.query()
            &&& self.scan is Some ==> {
                &&& self.matches.len() < MAX_SEARCH_MATCHES
                &&& self.scan->0.valid(self.compiled->0, content, screen)
                &&& self.scan->0.found(self.compiled->0, screen) == self.matches
            }
            &&& self.phase is Ready ==> self.matches == self.compiled->0.everything(screen)
            &&& self.navigation is Some ==> self.navigation->0.cursor.valid(
                self.compiled->0,
                content,
                screen,
            )
        }
    }
}

/// What a step of a scan comes to, from a cursor, where it may find so many matches. It adds to
/// what had been found, in order; it gets on, by so many rows at most; one that is never late stops
/// only where it may not find or read more; one that is late from the first stops when it first
/// looks at the clock; and without a next one everything has been found. It fails only where a line
/// within its rows is too long to be matched, and where it does not, no line that it read was.
pub open spec fn scan_step(
    compiled: CompiledSearch,
    cursor: ControllerScanCursor,
    content: SearchContentId,
    screen: &TerminalScreen,
    most: int,
    pace: Pace,
    step: Result<ControllerScanStep, SearchError>,
) -> bool {
    match step {
        Ok(step) => {
            let now = match step.next {
                Some(next) => next.read(screen),
                None => screen.all_tokens(),
            };
            &&& step.matches@.len() <= most
            &&& pace.late ==> now.len() <= cursor.read(screen).len() + CLOCK_CHARACTERS
            &&& compiled is Regex ==> fit_from(now, cursor.read(screen).len() as int)
            &&& match step.next {
                Some(next) => {
                    let rows = next.row(screen) - cursor.row(screen);
                    &&& next.valid(compiled, content, screen)
                    &&& next.found(compiled, screen) == cursor.found(compiled, screen)
                        + step.matches@
                    &&& next.is_past(cursor) || compiled is Regex && step.matches@.len() > 0
                    &&& 0 <= rows <= MAX_SEARCH_SLICE_ROWS
                    &&& pace.punctual ==> step.matches@.len() == most || rows
                        == MAX_SEARCH_SLICE_ROWS
                    &&& pace.late ==> rows <= 1
                },
                None => {
                    &&& compiled.everything(screen) == cursor.found(compiled, screen)
                        + step.matches@
                    &&& screen.rows@.len() - cursor.row(screen) <= MAX_SEARCH_SLICE_ROWS
                    &&& pace.late ==> screen.rows@.len() - cursor.row(screen) <= 1
                },
            }
        },
        Err(error) => {
            &&& compiled is Regex
            &&& error == SearchError::RegexLineTooLong
            &&& too_long_within(screen, cursor.row(screen), MAX_SEARCH_SLICE_ROWS as int)
            &&& !lines_fit(screen)
        },
    }
}

fn scan_controller_slice<C: Fn() -> Instant>(
    core: &TerminalCoreAdapter,
    screen: &TerminalScreen,
    compiled: &CompiledSearch,
    cursor: ControllerScanCursor,
    deadline: Instant,
    max_matches: usize,
    clock: &C,
) -> (result: Result<ControllerScanStep, SearchError>)
    requires
        screen.wf(),
        compiled.wf(),
        cursor.valid(*compiled, core@.content_id(screen.alternate), screen),
        0 < max_matches <= MAX_SEARCH_MATCHES,
        clock.requires(()),
    ensures
        scan_step(
            *compiled,
            cursor,
            core@.content_id(screen.alternate),
            screen,
            max_matches as int,
            pace(*clock, deadline),
            result,
        ),
{
    let budget = SearchBudget { deadline, max_rows: MAX_SEARCH_SLICE_ROWS, max_matches };
    match (compiled, cursor) {
        (CompiledSearch::Literal(compiled), ControllerScanCursor::Literal(cursor)) => {
            match core.scan_search_slice(screen, compiled, cursor, budget, clock) {
                Ok(step) => Ok(
                    ControllerScanStep {
                        matches: step.matches,
                        next: match step.next {
                            Some(next) => Some(ControllerScanCursor::Literal(next)),
                            None => None,
                        },
                    },
                ),
                Err(error) => Err(error),
            }
        },
        (CompiledSearch::Regex(compiled), ControllerScanCursor::Regex(cursor)) => {
            match core.scan_regex_slice(screen, compiled, cursor, budget, clock) {
                Ok(step) => Ok(
                    ControllerScanStep {
                        matches: step.matches,
                        next: match step.next {
                            Some(next) => Some(ControllerScanCursor::Regex(next)),
                            None => None,
                        },
                    },
                ),
                Err(error) => Err(error),
            }
        },
        _ => Err(SearchError::StaleContent),
    }
}

/// What a move to the next or the previous match does, and asks for.
pub open spec fn moved_to(
    m: SearchModel,
    n: SearchModel,
    result: SearchEffect,
    direction: SearchDirection,
    core: CoreModel,
    screen: &TerminalScreen,
    now: Instant,
) -> bool {
    let len = m.matches.len() as int;
    let content = core.content_id(screen.alternate);
    if !m.open || m.query().len() == 0 {
        n == m && result == SearchEffect::none()
    } else if m.phase is Debouncing || m.phase is Empty {
        &&& n == (SearchModel { deadline: Some(now), pending: Some(direction), ..m })
        &&& result == frame_and_deadline()
    } else if len == 0 {
        &&& n == (SearchModel { pending: Some(direction), ..m })
        &&& result == (SearchEffect {
            needs_deadline: m.scan is Some,
            ..SearchEffect::none()
        })
    } else if m.phase is Scanning || m.phase is Truncated {
        &&& n.navigation is Some
        &&& n == (SearchModel { navigation: n.navigation, ..m })
        &&& n.navigation->0.progress == (NavigationProgress {
            direction,
            origin: match m.current {
                Some(value) => value.start,
                None => SearchAnchor {
                    history_line: i32::MIN,
                    column: 0,
                    scalar_offset: 0,
                },
            },
            first: None,
            last: None,
            directional: None,
        })
        &&& n.navigation->0.cursor.starts(m.regex_enabled, content, screen)
        &&& result == frame_and_deadline()
    } else {
        let at = match m.saved {
            Some(index) => index as int,
            None => if direction is Next {
                len - 1
            } else {
                0
            },
        };
        let next = if direction is Next {
            (at + 1) % len
        } else {
            (at + len - 1) % len
        };
        let outcome = m.at_match(next, core, screen);
        n == outcome.search && result == outcome.effect
    }
}

/// How many more matches a search may keep.
pub open spec fn room_left(m: SearchModel) -> int {
    MAX_SEARCH_MATCHES - m.matches.len()
}

/// How many matches a step of a scan past the matches that are kept may meet.
pub const NAVIGATION_MATCHES: usize = 1_024;

/// A query that has been compiled is about to be scanned for, from the start of the content.
pub open spec fn scan_began(
    m: SearchModel,
    s: SearchModel,
    compiled: CompiledSearch,
    content: SearchContentId,
    screen: &TerminalScreen,
) -> bool {
    &&& s.scan is Some
    &&& s.scan->0.starts(m.regex_enabled, content, screen)
    &&& s == (SearchModel {
        compiled: Some(compiled),
        bound: Some(content),
        scan: s.scan,
        phase: SearchPhase::Scanning,
        deadline: None,
        ..m
    })
}

/// Whether a query was compiled, as what the search searches with; an expression within the
/// standard limits.
pub open spec fn compiles(m: SearchModel, compiled: CompiledSearch) -> bool {
    &&& compiled.wf()
    &&& match compiled {
        CompiledSearch::Regex(compiled) => compiled.limits() == RegexLimits::standard(),
        CompiledSearch::Literal(_) => true,
    }
    &&& compiled.pattern() == m.query()
    &&& compiled is Regex <==> m.regex_enabled
}

/// What one step of the scan makes of a search, and asks for.
pub open spec fn scan_moved(
    m: SearchModel,
    n: SearchModel,
    effect: SearchEffect,
    core: CoreModel,
    screen: &TerminalScreen,
    now: Instant,
    pace: Pace,
) -> bool {
    exists|step: Result<ControllerScanStep, SearchError>|
        {
            let outcome = SearchModel { scan: None, ..m }.took(step, core, screen, now);
            &&& #[trigger] scan_step(
                m.compiled->0,
                m.scan->0,
                core.content_id(screen.alternate),
                screen,
                room_left(m),
                pace,
                step,
            )
            &&& n == outcome.search
            &&& effect == outcome.effect
        }
}

/// What one step of a scan past the matches that are kept makes of a search, and asks for.
pub open spec fn navigation_moved(
    m: SearchModel,
    n: SearchModel,
    effect: SearchEffect,
    core: CoreModel,
    screen: &TerminalScreen,
    now: Instant,
    pace: Pace,
) -> bool {
    exists|step: Result<ControllerScanStep, SearchError>|
        {
            let outcome = SearchModel { navigation: None, ..m }.took_navigation(
                m.navigation->0.progress,
                step,
                core,
                screen,
                now,
            );
            &&& #[trigger] scan_step(
                m.compiled->0,
                m.navigation->0.cursor,
                core.content_id(screen.alternate),
                screen,
                NAVIGATION_MATCHES as int,
                pace,
                step,
            )
            &&& n == outcome.search
            &&& effect == outcome.effect
        }
}

/// What going on with a search makes of it, and asks for. It waits while the query may still
/// change. Then the query is compiled: one that is refused as a query fails with the reason, and an
/// expression may be refused by its engine. A step of the scan follows, unless the content is not
/// the one that the search is bound to. `pace` tells how the clock keeps to the step's deadline.
pub open spec fn advanced(
    m: SearchModel,
    n: SearchModel,
    effect: SearchEffect,
    core: CoreModel,
    screen: &TerminalScreen,
    now: Instant,
    pace: Pace,
) -> bool {
    let content = core.content_id(screen.alternate);
    if !m.open || m.query().len() == 0 {
        n == m && effect == SearchEffect::none()
    } else if m.phase is Debouncing && m.deadline is Some && now.nanos < m.deadline->0.nanos {
        n == m && effect == (SearchEffect { needs_deadline: true, ..SearchEffect::none() })
    } else if m.phase is Debouncing {
        match query_error(m.query()) {
            Some(error) => n == m.failed(error) && effect == frame_only(),
            None => {
                ||| m.regex_enabled && n == m.failed(SearchError::InvalidRegex) && effect
                    == frame_only()
                ||| exists|s: SearchModel, compiled: CompiledSearch|
                    #[trigger] scan_began(m, s, compiled, content, screen) && compiles(m, compiled)
                        && scan_moved(s, n, effect, core, screen, now, pace)
            },
        }
    } else if m.bound != Some(content) {
        n == m.invalidated(now) && effect == frame_and_deadline()
    } else if m.navigation is Some {
        navigation_moved(m, n, effect, core, screen, now, pace)
    } else if m.scan is None {
        n == m && effect == SearchEffect::none()
    } else {
        scan_moved(m, n, effect, core, screen, now, pace)
    }
}

impl SearchController {
    fn start_cursor(&self, core: &TerminalCoreAdapter, screen: &TerminalScreen) -> (result:
        ControllerScanCursor)
        requires
            screen.wf(),
        ensures
            result.starts(self@.regex_enabled, core@.content_id(screen.alternate), screen),
    {
        if self.regex_enabled {
            ControllerScanCursor::Regex(core.regex_scan_cursor(screen))
        } else {
            ControllerScanCursor::Literal(core.search_scan_cursor(screen))
        }
    }

    /// Moves to the next or the previous match, around the ends. Where the matches are not all
    /// known, the move waits for the search or starts a scan of its own.
    pub fn navigate(
        &mut self,
        direction: SearchDirection,
        core: &TerminalCoreAdapter,
        screen: &TerminalScreen,
        now: Instant,
    ) -> (result: SearchEffect)
        requires
            old(self)@.wf(),
            core@.wf(),
            screen.wf(),
        ensures
            moved_to(old(self)@, final(self)@, result, direction, core@, screen, now),
            final(self)@.wf(),
            old(self)@.tracks(core@.content_id(screen.alternate), screen)
                ==> final(self)@.tracks(core@.content_id(screen.alternate), screen),
    {
        if !self.open || (self.before.len() == 0 && self.after.len() == 0) {
            return SearchEffect::default();
        }
        if self.phase == SearchPhase::Debouncing || self.phase == SearchPhase::Empty {
            self.deadline = Some(now);
            self.pending_navigation = Some(direction);
            return ask(true, true);
        }
        let len: usize = self.matches.len();
        if len == 0 {
            self.pending_navigation = Some(direction);
            return ask(false, self.scan.is_some());
        }
        if self.phase == SearchPhase::Scanning || self.phase == SearchPhase::Truncated {
            let origin = match self.current {
                Some(value) => value.start,
                None => SearchAnchor { history_line: i32::MIN, column: 0, scalar_offset: 0 },
            };
            let cursor = self.start_cursor(core, screen);
            let progress = NavigationProgress {
                direction,
                origin,
                first: None,
                last: None,
                directional: None,
            };
            self.navigation_scan = Some(NavigationScan { progress, cursor });
            return ask(true, true);
        }
        let at: usize = match self.current_saved_index {
            Some(index) => index,
            None => match direction {
                SearchDirection::Next => len - 1,
                SearchDirection::Previous => 0,
            },
        };
        let next: usize = match direction {
            SearchDirection::Next => if at + 1 == len {
                0
            } else {
                at + 1
            },
            SearchDirection::Previous => if at == 0 {
                len - 1
            } else {
                at - 1
            },
        };
        proof {
            if direction is Next {
                if at + 1 < len {
                    vstd::arithmetic::div_mod::lemma_small_mod((at + 1) as nat, len as nat);
                } else {
                    vstd::arithmetic::div_mod::lemma_mod_self_0(len as int);
                }
            } else {
                if at > 0 {
                    vstd::arithmetic::div_mod::lemma_mod_add_multiples_vanish(at - 1, len as int);
                    vstd::arithmetic::div_mod::lemma_small_mod((at - 1) as nat, len as nat);
                } else {
                    vstd::arithmetic::div_mod::lemma_small_mod((len - 1) as nat, len as nat);
                }
            }
        }
        self.set_current(next, core, screen)
    }

    /// Compiles the query, as what the search searches with.
    pub fn compile_query(&self, core: &TerminalCoreAdapter) -> (result: Result<
        CompiledSearch,
        SearchError,
    >)
        requires
            self@.query().len() > 0,
        ensures
            match query_error(self@.query()) {
                Some(error) => result is Err && result->Err_0 == error,
                None => match result {
                    Ok(compiled) => compiles(self@, compiled),
                    Err(error) => self@.regex_enabled && error == SearchError::InvalidRegex,
                },
            },
    {
        let query = self.query();
        if self.regex_enabled {
            match core.compile_regex_search(query.as_str()) {
                Ok(compiled) => Ok(CompiledSearch::Regex(compiled)),
                Err(error) => Err(error),
            }
        } else {
            match core.compile_literal_search(query.as_str()) {
                Ok(compiled) => Ok(CompiledSearch::Literal(compiled)),
                Err(error) => Err(error),
            }
        }
    }

    /// Takes what the query was compiled to. Tells whether it is scanned for now.
    pub fn take_compiled(
        &mut self,
        compiled: Result<CompiledSearch, SearchError>,
        core: &TerminalCoreAdapter,
        screen: &TerminalScreen,
    ) -> (result: bool)
        requires
            screen.wf(),
        ensures
            match compiled {
                Ok(compiled) => result && scan_began(
                    old(self)@,
                    final(self)@,
                    compiled,
                    core@.content_id(screen.alternate),
                    screen,
                ),
                Err(error) => !result && final(self)@ == old(self)@.failed(error),
            },
    {
        match compiled {
            Ok(compiled) => {
                self.compiled = Some(compiled);
                self.bound_content = Some(core.search_content_id(screen.alternate));
                self.scan = Some(self.start_cursor(core, screen));
                self.phase = SearchPhase::Scanning;
                self.deadline = None;
                true
            },
            Err(error) => {
                self.editor_notice = Some(error);
                self.phase = SearchPhase::Failed;
                false
            },
        }
    }

    /// Goes on with the search: waits while the query may still change, then compiles it, and
    /// scans on a little at each call.
    pub fn advance<C: Fn() -> Instant>(
        &mut self,
        core: &TerminalCoreAdapter,
        screen: &TerminalScreen,
        now: Instant,
        clock: &C,
    ) -> (result: SearchEffect)
        requires
            old(self)@.wf(),
            core@.wf(),
            screen.wf(),
            clock.requires(()),
            old(self)@.tracks(core@.content_id(screen.alternate), screen),
        ensures
            advanced(
                old(self)@,
                final(self)@,
                result,
                core@,
                screen,
                now,
                pace(*clock, now.later(SEARCH_SLICE)),
            ),
            final(self)@.wf(),
            final(self)@.tracks(core@.content_id(screen.alternate), screen),
    {
        if !self.open || (self.before.len() == 0 && self.after.len() == 0) {
            return SearchEffect::default();
        }
        let ghost content = core@.content_id(screen.alternate);
        if self.phase == SearchPhase::Debouncing {
            if let Some(deadline) = self.deadline {
                if now.nanos < deadline.nanos {
                    return ask(false, true);
                }
            }
            let ghost m = self@;
            let compiled = self.compile_query(core);
            let ghost made = compiled;
            if !self.take_compiled(compiled, core, screen) {
                return ask(true, false);
            }
            let ghost s = self@;
            proof {
                assert(s.scan->0.found(made->Ok_0, screen) =~= Seq::empty());
                assert(s.matches =~= Seq::empty());
                assert(s.tracks(content, screen));
            }
            let result = self.advance_scan(core, screen, now, clock);
            assert(scan_began(m, s, made->Ok_0, content, screen));
            return result;
        }
        if self.bound_content != Some(core.search_content_id(screen.alternate)) {
            self.invalidate(now);
            return ask(true, true);
        }
        if self.navigation_scan.is_some() {
            return self.advance_navigation(core, screen, now, clock);
        }
        if self.scan.is_none() {
            return SearchEffect::default();
        }
        self.advance_scan(core, screen, now, clock)
    }

    fn advance_scan<C: Fn() -> Instant>(
        &mut self,
        core: &TerminalCoreAdapter,
        screen: &TerminalScreen,
        now: Instant,
        clock: &C,
    ) -> (result: SearchEffect)
        requires
            old(self)@.wf(),
            core@.wf(),
            screen.wf(),
            clock.requires(()),
            old(self)@.open,
            old(self)@.bound == Some(core@.content_id(screen.alternate)),
            old(self)@.tracks(core@.content_id(screen.alternate), screen),
            old(self)@.scan is Some,
            old(self)@.navigation is None,
        ensures
            scan_moved(
                old(self)@,
                final(self)@,
                result,
                core@,
                screen,
                now,
                pace(*clock, now.later(SEARCH_SLICE)),
            ),
            final(self)@.wf(),
            final(self)@.tracks(core@.content_id(screen.alternate), screen),
    {
        let ghost m = self@;
        let ghost content = core@.content_id(screen.alternate);
        let mut scan: Option<ControllerScanCursor> = None;
        core::mem::swap(&mut self.scan, &mut scan);
        let (cursor, compiled) = match (scan, &self.compiled) {
            (Some(cursor), Some(compiled)) => (cursor, compiled),
            _ => {
                return SearchEffect::default();
            },
        };
        let ghost before = self@;
        let most: usize = MAX_SEARCH_MATCHES - self.matches.len();
        let deadline = now.saturating_add(SEARCH_SLICE);
        let step = scan_controller_slice(core, screen, compiled, cursor, deadline, most, clock);
        let ghost q = *compiled;
        let ghost taken = step;
        let result = self.take_step(step, core, screen, now);
        proof {
            assert(scan_step(
                m.compiled->0,
                m.scan->0,
                content,
                screen,
                room_left(m),
                pace(*clock, now.later(SEARCH_SLICE)),
                taken,
            ));
            match taken {
                Ok(found) => {
                    let all = before.matches + found.matches@;
                    if all.len() == MAX_SEARCH_MATCHES {
                        assert(all.take(MAX_SEARCH_MATCHES as int) =~= all);
                    }
                    first_visible_is_there(all, core@, screen.display_offset as int);
                    if before.current is Some {
                        starting_at_is_there(all, before.current->0.start);
                    }
                    if found.next is None {
                        assert(q.everything(screen) == all);
                    }
                },
                Err(_) => {},
            }
        }
        result
    }

    fn advance_navigation<C: Fn() -> Instant>(
        &mut self,
        core: &TerminalCoreAdapter,
        screen: &TerminalScreen,
        now: Instant,
        clock: &C,
    ) -> (result: SearchEffect)
        requires
            core@.wf(),
            screen.wf(),
            old(self)@.wf(),
            old(self)@.open,
            clock.requires(()),
            old(self)@.navigation is Some,
            old(self)@.bound == Some(core@.content_id(screen.alternate)),
            old(self)@.tracks(core@.content_id(screen.alternate), screen),
        ensures
            navigation_moved(
                old(self)@,
                final(self)@,
                result,
                core@,
                screen,
                now,
                pace(*clock, now.later(SEARCH_SLICE)),
            ),
            final(self)@.wf(),
            final(self)@.tracks(core@.content_id(screen.alternate), screen),
    {
        let ghost m = self@;
        let mut navigation: Option<NavigationScan> = None;
        core::mem::swap(&mut self.navigation_scan, &mut navigation);
        let (navigation, compiled) = match (navigation, &self.compiled) {
            (Some(navigation), Some(compiled)) => (navigation, compiled),
            _ => {
                return SearchEffect::default();
            },
        };
        let NavigationScan { progress, cursor } = navigation;
        let deadline = now.saturating_add(SEARCH_SLICE);
        let step = scan_controller_slice(
            core,
            screen,
            compiled,
            cursor,
            deadline,
            NAVIGATION_MATCHES,
            clock,
        );
        proof {
            assert(scan_step(
                m.compiled->0,
                m.navigation->0.cursor,
                core@.content_id(screen.alternate),
                screen,
                NAVIGATION_MATCHES as int,
                pace(*clock, now.later(SEARCH_SLICE)),
                step,
            ));
            if step is Ok && destination(met_all(progress, step->Ok_0.matches@)) is Some {
                let value = destination(met_all(progress, step->Ok_0.matches@))->0;
                starting_at_is_there(self@.matches, value.start);
            }
        }
        self.take_navigation_step(progress, step, core, screen, now)
    }
}

/// A search that is bound to the content on the screen gets on: a step never starts over, never
/// loses a match that is kept, and fails only where a line is too long to be matched. Once it is
/// ready it has found everything.
pub proof fn a_bound_search_gets_on(
    m: SearchModel,
    n: SearchModel,
    effect: SearchEffect,
    core: CoreModel,
    screen: &TerminalScreen,
    now: Instant,
    pace: Pace,
)
    requires
        m.wf(),
        m.open,
        m.query().len() > 0,
        m.phase is Scanning,
        m.bound == Some(core.content_id(screen.alternate)),
        m.tracks(core.content_id(screen.alternate), screen),
        m.scan is Some,
        advanced(m, n, effect, core, screen, now, pace),
    ensures
        effect.needs_frame,
        n.phase is Scanning || n.phase is Ready || n.phase is Truncated || n.phase is Failed,
        n.phase is Failed ==> n.notice == Some(SearchError::RegexLineTooLong) && !lines_fit(screen),
        n.matches.len() >= m.matches.len(),
        n.matches.take(m.matches.len() as int) == m.matches,
        n.phase is Ready ==> n.matches == m.compiled->0.everything(screen),
        n.bound == m.bound && n.compiled == m.compiled && n.query() == m.query(),
{
    if m.navigation is Some {
        assert(n.matches.take(m.matches.len() as int) =~= m.matches);
    } else {
        let step = choose|step: Result<ControllerScanStep, SearchError>|
            {
                let outcome = SearchModel { scan: None, ..m }.took(step, core, screen, now);
                &&& #[trigger] scan_step(
                    m.compiled->0,
                    m.scan->0,
                    core.content_id(screen.alternate),
                    screen,
                    room_left(m),
                    pace,
                    step,
                )
                &&& n == outcome.search
                &&& effect == outcome.effect
            };
        match step {
            Ok(found) => {
                let all = m.matches + found.matches@;
                assert(all.take(m.matches.len() as int) =~= m.matches);
                if all.len() >= MAX_SEARCH_MATCHES {
                    assert(all.take(MAX_SEARCH_MATCHES as int) =~= all);
                }
            },
            Err(_) => {
                assert(n.matches.take(m.matches.len() as int) =~= m.matches);
            },
        }
    }
}

/// Whatever is done to the dialog, what it keeps stays consistent, and results that are bound to
/// a content stay the results on it.
pub proof fn dialog_keeps_its_results_consistent(
    m: SearchModel,
    edit: SearchEdit<'_>,
    now: Instant,
    content: SearchContentId,
    screen: &TerminalScreen,
)
    requires
        m.wf(),
        m.tracks(content, screen),
    ensures
        m.edited(edit, now).search.wf(),
        m.edited(edit, now).search.tracks(content, screen),
        m.invalidated(now).wf(),
        m.invalidated(now).tracks(content, screen),
        m.opened(now).search.wf(),
        m.opened(now).search.tracks(content, screen),
        m.cancelled().search.wf(),
        m.cancelled().search.tracks(content, screen),
        SearchModel::initial().wf(),
        SearchModel::initial().tracks(content, screen),
{
    let text = m.edit_text(edit);
    if !text.changed {
        same_text_when_not_changed(m, edit);
    }
    assert(m.query() + Seq::<char>::empty() =~= m.query());
}

proof fn same_text_when_not_changed(m: SearchModel, edit: SearchEdit<'_>)
    requires
        !m.edit_text(edit).changed,
    ensures
        m.edit_text(edit).before + m.edit_text(edit).after == m.query(),
{
    let text = m.edit_text(edit);
    assert(text.before + text.after =~= m.query());
}

/// An edit that cannot be made leaves the text and the cursor alone; moves of the cursor leave
/// the text alone; and a query that fits its limits still fits them after every edit.
pub proof fn edits_keep_the_query_valid(m: SearchModel, edit: SearchEdit<'_>)
    requires
        candidate_error(m.query()) is None,
    ensures
        ({
            let text = m.edit_text(edit);
            &&& candidate_error(text.before + text.after) is None
            &&& !text.changed ==> text.before + text.after == m.query()
            &&& text.notice != m.notice ==> text.before == m.before && text.after == m.after
        }),
{
    let text = m.edit_text(edit);
    if !text.changed {
        same_text_when_not_changed(m, edit);
    } else {
        match edit {
            SearchEdit::Insert(value) => {
                assert(text.before + text.after =~= m.before + value@ + m.after);
            },
            SearchEdit::Backspace => {
                cut_keeps_valid(m.query(), m.before.len() - 1, m.before.len() as int);
                assert(text.before + text.after =~= m.query().take(m.before.len() - 1)
                    + m.query().skip(m.before.len() as int));
            },
            SearchEdit::Delete => {
                cut_keeps_valid(m.query(), m.before.len() as int, m.before.len() as int + 1);
                assert(text.before + text.after =~= m.query().take(m.before.len() as int)
                    + m.query().skip(m.before.len() as int + 1));
            },
            SearchEdit::DeleteSurrounding { before_bytes, after_bytes } => {
                let back = chars_back(m.before, before_bytes as nat)->0;
                let ahead = chars_ahead(m.after, after_bytes as nat)->0;
                back_fits(m.before, before_bytes as nat);
                ahead_fits(m.after, after_bytes as nat);
                let i = m.before.len() - back;
                let j = m.before.len() as int + ahead;
                cut_keeps_valid(m.query(), i, j);
                assert(text.before + text.after =~= m.query().take(i) + m.query().skip(j));
            },
            _ => {},
        }
    }
}

proof fn back_fits(text: Seq<char>, bytes: nat)
    ensures
        chars_back(text, bytes) is Some ==> chars_back(text, bytes)->0 <= text.len(),
    decreases text.len(),
{
    if bytes > 0 && text.len() > 0 && encode_utf8(seq![text.last()]).len() <= bytes {
        back_fits(text.drop_last(), (bytes - encode_utf8(seq![text.last()]).len()) as nat);
    }
}

proof fn ahead_fits(text: Seq<char>, bytes: nat)
    ensures
        chars_ahead(text, bytes) is Some ==> chars_ahead(text, bytes)->0 <= text.len(),
    decreases text.len(),
{
    if bytes > 0 && text.len() > 0 && encode_utf8(seq![text[0]]).len() <= bytes {
        ahead_fits(text.skip(1), (bytes - encode_utf8(seq![text[0]]).len()) as nat);
    }
}

proof fn cut_keeps_valid(text: Seq<char>, i: int, j: int)
    requires
        0 <= i <= j <= text.len(),
        candidate_error(text) is None,
    ensures
        candidate_error(text.take(i) + text.skip(j)) is None,
{
    let head = text.take(i);
    let middle = text.subrange(i, j);
    let rest = text.skip(j);
    assert(text =~= head + middle + rest);
    encode_concat(head + middle, rest);
    encode_concat(head, middle);
    encode_concat(head, rest);
    let cut = head + rest;
    assert forall|k: int| 0 <= k < cut.len() implies !is_control(#[trigger] cut[k]) by {
        if k < i {
            assert(!is_control(text[k]));
        } else {
            assert(!is_control(text[k - i + j]));
        }
    }
}

impl CompiledSearch {
    /// What the query needs in memory: what an expression may hold is its budget.
    pub open spec fn least_bytes(self) -> nat {
        match self {
            CompiledSearch::Literal(literal) => literal.least_bytes(),
            CompiledSearch::Regex(_) => REGEX_ENGINE_BUDGET as nat,
        }
    }

    /// What the query takes in memory where so many bytes are counted: a literal has room for its
    /// characters and their overlaps, an expression takes its budget.
    pub open spec fn takes(self, bytes: usize) -> bool {
        match self {
            CompiledSearch::Literal(literal) => exists|characters: usize, overlaps: usize|
                characters >= literal@.len() && overlaps >= literal.borders() && bytes == capped(
                    #[trigger] CompiledLiteral::bytes(characters as nat, overlaps as nat),
                ),
            CompiledSearch::Regex(_) => bytes == REGEX_ENGINE_BUDGET,
        }
    }

    pub fn allocated_bytes(&self) -> (result: usize)
        ensures
            self.takes(result),
            result >= capped(self.least_bytes()),
    {
        match self {
            CompiledSearch::Literal(literal) => literal.allocated_bytes(),
            CompiledSearch::Regex(regex) => regex.allocated_bytes(),
        }
    }
}

impl ControllerScanCursor {
    /// What the scan needs in memory.
    pub open spec fn least_bytes(self) -> nat {
        match self {
            ControllerScanCursor::Literal(cursor) => cursor.least_bytes(),
            ControllerScanCursor::Regex(cursor) => cursor.least_bytes(),
        }
    }

    /// What the scan takes in memory where so many bytes are counted: it has room for the places
    /// that it remembers, with an expression also for its line and the offsets in it.
    pub open spec fn takes(self, bytes: usize) -> bool {
        match self {
            ControllerScanCursor::Literal(cursor) => exists|places: usize|
                places >= cursor.remembered() && bytes == capped(
                    #[trigger] SearchScanCursor::bytes(places as nat),
                ),
            ControllerScanCursor::Regex(cursor) => exists|
                text: usize,
                places: usize,
                offsets: usize,
            |
                text >= encode_utf8(cursor.line_text()).len() && places >= cursor.remembered().0
                    && offsets >= cursor.remembered().1 && bytes == capped(
                    #[trigger] RegexScanCursor::bytes(
                        text as nat,
                        places as nat,
                        offsets as nat,
                    ),
                ),
        }
    }

    pub fn allocated_bytes(&self) -> (result: usize)
        ensures
            self.takes(result),
            result >= capped(self.least_bytes()),
    {
        match self {
            ControllerScanCursor::Literal(cursor) => cursor.allocated_bytes(),
            ControllerScanCursor::Regex(cursor) => cursor.allocated_bytes(),
        }
    }
}

/// What a search has room for: characters of the query before and after the cursor, matches, and
/// the bytes of what it searches with.
#[derive(Clone, Copy, Debug, PartialEq, Eq, Structural)]
pub struct SearchRoom {
    pub before: usize,
    pub after: usize,
    pub matches: usize,
    pub compiled: usize,
    pub scan: usize,
    pub navigation: usize,
}

impl SearchRoom {
    pub open spec fn total(self) -> nat {
        self.before as nat * vstd::layout::size_of::<char>() + self.after as nat
            * vstd::layout::size_of::<char>() + self.matches as nat * vstd::layout::size_of::<
            SearchMatch,
        >() + self.compiled as nat + self.scan as nat + self.navigation as nat
    }

    /// Whether there is room for all that a search holds. What is not there takes no room, and an
    /// expression takes its budget.
    pub open spec fn holds(self, m: SearchModel) -> bool {
        &&& self.before >= m.before.len()
        &&& self.after >= m.after.len()
        &&& self.matches >= m.matches.len()
        &&& match m.compiled {
            Some(compiled) => {
                &&& compiled.takes(self.compiled)
                &&& self.compiled >= capped(compiled.least_bytes())
            },
            None => self.compiled == 0,
        }
        &&& match m.scan {
            Some(cursor) => {
                &&& cursor.takes(self.scan)
                &&& self.scan >= capped(cursor.least_bytes())
            },
            None => self.scan == 0,
        }
        &&& match m.navigation {
            Some(scan) => {
                &&& scan.cursor.takes(self.navigation)
                &&& self.navigation >= capped(scan.cursor.least_bytes())
            },
            None => self.navigation == 0,
        }
    }

    /// The bytes of a search, by what it has room for.
    pub fn bytes(&self) -> (result: usize)
        ensures
            result == capped(self.total()),
    {
        let size: usize = core::mem::size_of::<char>();
        room(self.before, size).saturating_add(room(self.after, size)).saturating_add(
            room(self.matches, core::mem::size_of::<SearchMatch>()),
        ).saturating_add(self.compiled).saturating_add(self.scan).saturating_add(self.navigation)
    }
}

impl SearchModel {
    /// What a search needs in memory: its query, its matches, and what it searches with.
    pub open spec fn least_bytes(self) -> nat {
        let compiled = match self.compiled {
            Some(compiled) => compiled.least_bytes(),
            None => 0,
        };
        let scan = match self.scan {
            Some(cursor) => cursor.least_bytes(),
            None => 0,
        };
        let navigation = match self.navigation {
            Some(scan) => scan.cursor.least_bytes(),
            None => 0,
        };
        self.before.len() * vstd::layout::size_of::<char>() + self.after.len()
            * vstd::layout::size_of::<char>() + self.matches.len() * vstd::layout::size_of::<
            SearchMatch,
        >() + compiled + scan + navigation
    }
}

impl SearchController {
    /// What the search holds in memory: its query, its matches, and what it searches with. How
    /// much room it has beyond what it needs depends on the allocator.
    pub fn allocated_bytes(&self) -> (result: usize)
        ensures
            exists|held: SearchRoom|
                held.holds(self@) && result == capped(#[trigger] held.total()),
            result >= capped(self@.least_bytes()),
    {
        let held = SearchRoom {
            before: vec_capacity(&self.before),
            after: vec_capacity(&self.after),
            matches: vec_capacity(&self.matches),
            compiled: match &self.compiled {
                Some(compiled) => compiled.allocated_bytes(),
                None => 0,
            },
            scan: match &self.scan {
                Some(cursor) => cursor.allocated_bytes(),
                None => 0,
            },
            navigation: match &self.navigation_scan {
                Some(scan) => scan.cursor.allocated_bytes(),
                None => 0,
            },
        };
        proof {
            let m = self@;
            let c = vstd::layout::size_of::<char>();
            more_items_take_more(m.before.len(), held.before as nat, c);
            more_items_take_more(m.after.len(), held.after as nat, c);
            more_items_take_more(
                m.matches.len(),
                held.matches as nat,
                vstd::layout::size_of::<SearchMatch>(),
            );
            assert(held.holds(m));
        }
        held.bytes()
    }
}

/// What the status line says.
pub open spec fn status_text(m: SearchModel) -> Seq<char> {
    match m.phase {
        SearchPhase::Empty => ""@,
        SearchPhase::Debouncing | SearchPhase::Scanning => "Searching..."@,
        SearchPhase::Failed => match m.notice {
            Some(SearchError::InvalidRegex) => "Invalid regular expression"@,
            Some(SearchError::RegexLineTooLong) => "Logical line is too long"@,
            _ => "Search failed"@,
        },
        SearchPhase::Truncated => ">="@ + dec(MAX_SEARCH_MATCHES as nat),
        SearchPhase::Ready => if m.matches.len() == 0 {
            "Not found"@
        } else {
            match m.saved {
                None => ""@ + dec(m.matches.len()),
                Some(index) => ""@ + dec((index + 1) as nat) + "/"@ + dec(m.matches.len()),
            }
        },
    }
}

/// The status line tells the number of the current match, counted from one, and how many matches
/// there are.
pub proof fn matches_are_counted_from_one(m: SearchModel, index: usize)
    requires
        m.phase is Ready,
        m.saved == Some(index),
        index < m.matches.len(),
    ensures
        ({
            let text = status_text(m);
            let number = dec((index + 1) as nat);
            let count = dec(m.matches.len());
            &&& text.take(number.len() as int) == number
            &&& text[number.len() as int] == '/'
            &&& text.skip((number.len() + 1) as int) == count
            &&& text.len() == number.len() + 1 + count.len()
        }),
{
    reveal_strlit("");
    reveal_strlit("/");
    let text = status_text(m);
    let number = dec((index + 1) as nat);
    let count = dec(m.matches.len());
    assert(text.take(number.len() as int) =~= number);
    assert(text.skip((number.len() + 1) as int) =~= count);
}

/// In a window that has room for it, the dialog stands in the middle, a quarter of the rest down, and
/// has from left to right its text field, the button to the previous match and the button to the next
/// one, side by side and equally large.
#[verifier::spinoff_prover]
#[verifier::rlimit(60)]
pub proof fn the_dialog_reads_from_left_to_right(w: u32, h: u32)
    requires
        300 <= w <= 100_000,
        100 <= h <= 100_000,
    ensures
        ({
            let (panel, input, previous, next) = dialog_parts(w, h, 120);
            &&& panel.width == 180 && panel.height == 44
            &&& 0 <= (w - panel.width) - 2 * panel.x <= 1
            &&& 0 <= (h - panel.height) - 4 * panel.y <= 3
            &&& input.x == panel.x + 6
            &&& input.y == panel.y + 6
            &&& previous.x == input.x + input.width
            &&& next.x == previous.x + previous.width
            &&& next.x + next.width + 6 == panel.x + panel.width
            &&& previous.width == 28 && next.width == 28
            &&& previous.height == input.height && next.height == input.height
            &&& previous.y == input.y && next.y == input.y
        }),
{
}

/// The dialog is dragged by its border: all around it as far as the border reaches, but not past the
/// window.
pub proof fn the_dialog_is_dragged_by_its_border(
    dialog: SearchDialogPresentation,
    w: u32,
    h: u32,
    outset: u32,
    x: u32,
    y: u32,
)
    requires
        outset <= dialog.panel.x,
        outset <= dialog.panel.y,
        dialog.panel.x + dialog.panel.width + outset <= w,
        dialog.panel.y + dialog.panel.height + outset <= h,
    ensures
        dialog.drag_area(w, h, outset).holds(x, y) <==> dialog.panel.x - outset <= x
            < dialog.panel.x + dialog.panel.width + outset && dialog.panel.y - outset <= y
            < dialog.panel.y + dialog.panel.height + outset,
{
}

} // verus!
