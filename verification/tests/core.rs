use alacritty_terminal::event::{Event, EventListener, WindowSize};
use alacritty_terminal::grid::{Dimensions, Scroll};
use alacritty_terminal::index::{Column, Line, Point, Side};
use alacritty_terminal::selection::{Selection, SelectionType};
use alacritty_terminal::term::cell::{Cell, Flags};
use alacritty_terminal::term::test::TermSize;
use alacritty_terminal::term::{Config, Osc52, TermMode, SEMANTIC_ESCAPE_CHARS};
use alacritty_terminal::vte::ansi;
use alacritty_terminal::Term;
use leyline::app::event::ByteBatch;
use leyline::overlay::project_search_ranges;
use leyline::search::{
    CompiledSearch, SearchController, SearchDialogPresentation, SearchDirection, SearchEdit,
    SearchPhase, SearchRoom, SEARCH_DEBOUNCE,
};
use leyline::security::{MAX_HYPERLINK_BYTES, MAX_PTY_REPLY_BYTES, MAX_ZERO_WIDTH_PER_CELL};
use leyline::terminal::adapter::{
    DefaultColorSlot, EngineModes, GridPoint, ParseAuditDelta, ParserAudit, ParserOutcome,
    PendingSync, QueryTerminator, SelectionRange, SyncFlushReason, SyncStatus, TerminalAction,
    TerminalCoreAdapter, TerminalCoreConfig, TerminalDelta, TerminalError, TerminalEvent,
    TerminalQuery,
};
use leyline::terminal::capture::{EngineCursor, EngineCursorShape};
use leyline::terminal::debug_grid::format_debug_grid;
use leyline::terminal::regex::{take_found, FoundStep, RegexScanCursor, REGEX_ENGINE_BUDGET};
use leyline::terminal::screen::{ScreenCell, ScreenFlags, TerminalScreen};
use leyline::terminal::search::{
    CompiledLiteral, SearchAnchor, SearchBudget, SearchContentId, SearchError, SearchMatch,
    SearchScanCursor, MAX_SEARCH_MATCHES, MAX_SEARCH_QUERY_SCALARS,
};
use leyline::terminal::snapshot::{
    CellWidth, CursorBlink, CursorShape, FrameSnapshot, GridSize, KeyboardProtocolState,
    ModifyOtherKeysLevel, MouseProtocol, ProjectedSelection, SelectionKind, SelectionPoint,
    SelectionSide, SnapshotHyperlink, TerminalColor, TerminalModes, UnderlineStyle,
};
use leyline::time::Instant;
use std::cell::RefCell;
use std::rc::Rc;

#[derive(Default)]
struct ListenerState {
    events: Vec<TerminalEvent>,
    bell: bool,
}

#[derive(Clone, Default)]
struct Listener(Rc<RefCell<ListenerState>>);

impl EventListener for Listener {
    fn send_event(&self, event: Event) {
        let mut state = self.0.borrow_mut();
        let event = match event {
            Event::Bell => {
                state.bell = true;
                return;
            }
            Event::Title(title) => TerminalEvent::Title(title),
            Event::ResetTitle => TerminalEvent::ResetTitle,
            Event::PtyWrite(text) => TerminalEvent::PtyWrite(text.into_bytes()),
            Event::ClipboardStore(..) => TerminalEvent::ClipboardStore,
            Event::ClipboardLoad(..) => TerminalEvent::ClipboardLoad,
            Event::ColorRequest(index, formatter) => TerminalEvent::ColorRequest {
                index,
                probe: formatter(ansi::Rgb { r: 1, g: 2, b: 3 }).into_bytes(),
            },
            Event::TextAreaSizeRequest(formatter) => {
                let probe = formatter(WindowSize {
                    num_lines: 2,
                    num_cols: 3,
                    cell_width: 5,
                    cell_height: 7,
                });
                TerminalEvent::TextAreaSizeRequest { probe: probe.into_bytes() }
            }
            _ => TerminalEvent::Other,
        };
        state.events.push(event);
    }
}

/// A terminal: the engine that parses, and the library that decides.
struct Terminal {
    core: TerminalCoreAdapter,
    term: Term<Listener>,
    parser: ansi::Processor,
    state: Rc<RefCell<ListenerState>>,
}

const NO_AUDIT: ParserAudit =
    ParserAudit { unknown_sequences: 0, rejected_actions: 0, truncated_sequences: 0 };

const START: Instant = Instant { nanos: 1_000_000_000 };

fn color(color: ansi::Color) -> TerminalColor {
    match color {
        ansi::Color::Named(named) => TerminalColor::Named(named as u16),
        ansi::Color::Indexed(index) => TerminalColor::Indexed(index),
        ansi::Color::Spec(rgb) => TerminalColor::Rgb(rgb.r, rgb.g, rgb.b),
    }
}

fn screen_cell(cell: &Cell) -> ScreenCell {
    let has = |flag| cell.flags.contains(flag);
    ScreenCell {
        ch: cell.c,
        zerowidth: cell.zerowidth().map(<[char]>::to_vec).unwrap_or_default(),
        foreground: color(cell.fg),
        background: color(cell.bg),
        underline_color: cell.underline_color().map(color),
        flags: ScreenFlags {
            bold: has(Flags::BOLD),
            dim: has(Flags::DIM),
            italic: has(Flags::ITALIC),
            inverse: has(Flags::INVERSE),
            hidden: has(Flags::HIDDEN),
            strikeout: has(Flags::STRIKEOUT),
            underline: has(Flags::UNDERLINE),
            double_underline: has(Flags::DOUBLE_UNDERLINE),
            undercurl: has(Flags::UNDERCURL),
            dotted_underline: has(Flags::DOTTED_UNDERLINE),
            dashed_underline: has(Flags::DASHED_UNDERLINE),
            wide_char: has(Flags::WIDE_CHAR),
            wide_char_spacer: has(Flags::WIDE_CHAR_SPACER),
            leading_wide_char_spacer: has(Flags::LEADING_WIDE_CHAR_SPACER),
            wrapline: has(Flags::WRAPLINE),
        },
        hyperlink: cell.hyperlink().map(|link| SnapshotHyperlink {
            id: link.id().to_owned(),
            uri: link.uri().to_owned(),
        }),
    }
}

impl Terminal {
    fn new(columns: u16, lines: u16, config: impl Into<TerminalCoreConfig>) -> Terminal {
        let config = config.into();
        let size = GridSize::new(columns, lines).unwrap();
        let listener = Listener::default();
        let state = Rc::clone(&listener.0);
        let shape = match config.default_cursor_shape {
            CursorShape::Block => ansi::CursorShape::Block,
            CursorShape::Beam => ansi::CursorShape::Beam,
            CursorShape::Underline => ansi::CursorShape::Underline,
        };
        let engine = Config {
            scrolling_history: config.engine_history(),
            default_cursor_style: ansi::CursorStyle { shape, blinking: false },
            semantic_escape_chars: format!("{SEMANTIC_ESCAPE_CHARS};，。：；"),
            osc52: Osc52::Disabled,
            ..Config::default()
        };
        Terminal {
            core: TerminalCoreAdapter::new(size),
            term: Term::new(engine, &TermSize::new(size.columns(), size.lines()), listener),
            parser: ansi::Processor::new(),
            state,
        }
    }

    fn sync_status(&self) -> Option<SyncStatus> {
        self.parser.sync_timeout().sync_timeout().map(|_| SyncStatus {
            bytes: self.parser.sync_bytes_count(),
            deadline: START,
        })
    }

    fn is_pending(&self) -> bool {
        self.parser.sync_timeout().sync_timeout().is_some()
    }

    fn outcome(&mut self, was_pending: bool, explicit: u32, audit: ParserAudit) -> ParserOutcome {
        let mut state = self.state.borrow_mut();
        ParserOutcome {
            was_pending,
            is_pending: self.parser.sync_timeout().sync_timeout().is_some(),
            explicit_commits: explicit,
            capacity_commits: 0,
            audit,
            bell: std::mem::take(&mut state.bell),
            events: std::mem::take(&mut state.events),
        }
    }

    fn advance(&mut self, bytes: &[u8]) -> Result<TerminalDelta, TerminalError> {
        self.advance_counted(bytes, NO_AUDIT)
    }

    /// Feeds output of which the parser counted what it did not know or refused.
    fn advance_counted(
        &mut self,
        bytes: &[u8],
        audit: ParserAudit,
    ) -> Result<TerminalDelta, TerminalError> {
        let Some(plan) = self.core.begin_advance(bytes)? else {
            return Ok(TerminalDelta::default());
        };
        let was_pending = self.is_pending();
        let mut explicit = 0;
        for piece in &plan.pieces {
            for byte in &bytes[piece.start..piece.end] {
                let before = self.is_pending();
                self.parser.advance(&mut self.term, std::slice::from_ref(byte));
                if before && !self.is_pending() {
                    explicit += 1;
                }
            }
            if let Some(reply) = &piece.reply {
                self.state.borrow_mut().events.push(TerminalEvent::PtyWrite(reply.clone()));
            }
        }
        let outcome = self.outcome(was_pending, explicit, audit);
        self.core.finish_advance(plan.audit, outcome)
    }

    fn pending_sync(&self) -> Option<PendingSync> {
        self.core.pending_sync(self.sync_status())
    }

    fn flush(&mut self, epoch: u64, reason: SyncFlushReason) -> TerminalDelta {
        let pending = self.sync_status();
        let was_pending = self.is_pending();
        if self.core.owns_synchronized_update(epoch, pending) {
            self.parser.stop_sync(&mut self.term);
        }
        let outcome = self.outcome(was_pending, 0, NO_AUDIT);
        self.core.flush_synchronized_update(epoch, reason, pending, outcome).unwrap()
    }

    fn modes(&self) -> EngineModes {
        let mode = *self.term.mode();
        EngineModes {
            alt_screen: mode.contains(TermMode::ALT_SCREEN),
            bracketed_paste: mode.contains(TermMode::BRACKETED_PASTE),
            app_cursor: mode.contains(TermMode::APP_CURSOR),
            app_keypad: mode.contains(TermMode::APP_KEYPAD),
            focus_in_out: mode.contains(TermMode::FOCUS_IN_OUT),
            alternate_scroll: mode.contains(TermMode::ALTERNATE_SCROLL),
            mouse_motion: mode.contains(TermMode::MOUSE_MOTION),
            mouse_drag: mode.contains(TermMode::MOUSE_DRAG),
            mouse_report_click: mode.contains(TermMode::MOUSE_REPORT_CLICK),
            sgr_mouse: mode.contains(TermMode::SGR_MOUSE),
            utf8_mouse: mode.contains(TermMode::UTF8_MOUSE),
            show_cursor: mode.contains(TermMode::SHOW_CURSOR),
        }
    }

    fn input_modes(&self) -> TerminalModes {
        self.core.input_modes(self.modes())
    }

    fn history_size(&self) -> usize {
        self.term.grid().history_size()
    }

    fn display_offset(&self) -> usize {
        self.term.grid().display_offset()
    }

    fn screen(&self) -> TerminalScreen {
        let size = self.core.size();
        let history_size = self.history_size();
        let rows = (0..history_size + size.lines())
            .map(|row| {
                let line = Line(row as i32 - history_size as i32);
                let cells = (0..size.columns()).map(|column| &self.term.grid()[line][Column(column)]);
                cells.map(screen_cell).collect()
            })
            .collect();
        TerminalScreen {
            size,
            rows,
            history_size,
            display_offset: self.display_offset(),
            alternate: self.term.mode().contains(TermMode::ALT_SCREEN),
        }
    }

    fn snapshot(&self) -> FrameSnapshot {
        let style = self.term.cursor_style();
        let point = self.term.grid().cursor.point;
        let cursor = EngineCursor {
            line: point.line.0,
            column: point.column.0,
            shape: match style.shape {
                ansi::CursorShape::Block => EngineCursorShape::Block,
                ansi::CursorShape::Beam => EngineCursorShape::Beam,
                ansi::CursorShape::Underline => EngineCursorShape::Underline,
                ansi::CursorShape::HollowBlock => EngineCursorShape::HollowBlock,
                ansi::CursorShape::Hidden => EngineCursorShape::Hidden,
            },
            blinking: style.blinking,
        };
        self.core.snapshot(&self.screen(), cursor, self.modes()).unwrap()
    }

    fn search_content_id(&self) -> SearchContentId {
        self.core.search_content_id(self.term.mode().contains(TermMode::ALT_SCREEN))
    }

    fn drain_actions(&mut self) -> Vec<TerminalAction> {
        let mut actions = Vec::new();
        self.core.drain_actions(&mut actions);
        actions
    }

    fn select(&mut self, point: SelectionPoint) -> Point {
        let GridPoint { line, column } =
            self.core.select_at(point, self.display_offset()).unwrap();
        Point::new(Line(line), Column(column))
    }

    fn start_selection(&mut self, kind: SelectionKind, point: SelectionPoint, side: SelectionSide) {
        let point = self.select(point);
        let kind = match kind {
            SelectionKind::Simple => SelectionType::Simple,
            SelectionKind::Semantic => SelectionType::Semantic,
            SelectionKind::Lines => SelectionType::Lines,
        };
        self.term.selection = Some(Selection::new(kind, point, engine_side(side)));
    }

    fn update_selection(&mut self, point: SelectionPoint, side: SelectionSide) {
        let point = self.select(point);
        if let Some(selection) = self.term.selection.as_mut() {
            selection.update(point, engine_side(side));
        }
    }

    fn selected_text(&self) -> Option<String> {
        self.term.selection_to_string()
    }

    fn projected_selection(&self) -> Option<ProjectedSelection> {
        let grid_point = |point: Point| GridPoint { line: point.line.0, column: point.column.0 };
        let range = self.term.selection.as_ref().and_then(|s| s.to_range(&self.term));
        let range = range.map(|range| SelectionRange {
            start: grid_point(range.start),
            end: grid_point(range.end),
        });
        self.core.projected_selection(range, self.display_offset())
    }

    fn scroll_display(&mut self, lines: i32) {
        self.term.scroll_display(Scroll::Delta(lines));
        self.core.scroll_display().unwrap();
    }

    fn scroll_to_display_offset(&mut self, offset: usize) {
        let (history, current) = (self.history_size(), self.display_offset());
        if let Some(delta) = self.core.scroll_to_display_offset(offset, history, current).unwrap() {
            self.term.scroll_display(Scroll::Delta(delta));
        }
    }

    fn scroll_to_bottom(&mut self) {
        if self.core.scroll_to_bottom(self.display_offset()).unwrap() {
            self.term.scroll_display(Scroll::Bottom);
        }
    }
}

fn engine_side(side: SelectionSide) -> Side {
    match side {
        SelectionSide::Left => Side::Left,
        SelectionSide::Right => Side::Right,
    }
}

fn clock() -> Instant {
    START
}

fn replies(actions: Vec<TerminalAction>) -> Vec<Vec<u8>> {
    actions
        .into_iter()
        .filter_map(|action| match action {
            TerminalAction::WriteToPty(bytes) => Some(bytes),
            _ => None,
        })
        .collect()
}

fn budget(max_rows: usize, max_matches: usize) -> SearchBudget {
    SearchBudget { deadline: Instant { nanos: START.nanos + 1_000_000_000 }, max_rows, max_matches }
}

fn search_all(terminal: &Terminal, query: &str) -> Vec<SearchMatch> {
    let core = &terminal.core;
    let screen = terminal.screen();
    let compiled = core.compile_literal_search(query).unwrap();
    let mut cursor = Some(core.search_scan_cursor(&screen));
    let mut matches = Vec::new();
    while let Some(current) = cursor {
        let step = core
            .scan_search_slice(&screen, &compiled, current, budget(256, 10_000), &clock)
            .unwrap();
        matches.extend(step.matches);
        cursor = step.next;
    }
    matches
}

fn regex_search_all(terminal: &Terminal, query: &str) -> Vec<SearchMatch> {
    let core = &terminal.core;
    let screen = terminal.screen();
    let compiled = core.compile_regex_search(query).unwrap();
    let mut cursor = Some(core.regex_scan_cursor(&screen));
    let mut matches = Vec::new();
    while let Some(current) = cursor {
        let step = core
            .scan_regex_slice(&screen, &compiled, current, budget(256, 10_000), &clock)
            .unwrap();
        matches.extend(step.matches);
        cursor = step.next;
    }
    matches
}

fn visible(snapshot: &FrameSnapshot) -> String {
    snapshot.cells.iter().map(|cell| cell.ch).collect()
}

#[test]
fn parses_utf8_color_modes_title_and_rejects_clipboard() {
    let mut core = Terminal::new(20, 4, 100);
    let delta = core
        .advance_counted(
            b"A\xe4\xb8\xad\x1b[38;2;1;2;3mR\x1b[?2004h\x1b]0;safe\x07\x1b]52;c;Zm9v\x07",
            ParserAudit { rejected_actions: 1, ..NO_AUDIT },
        )
        .unwrap();
    let snapshot = core.snapshot();
    assert!(snapshot.cells.iter().any(|cell| cell.ch == '\u{4e2d}'));
    assert!(snapshot.cells.iter().any(|cell| cell.foreground == TerminalColor::Rgb(1, 2, 3)));
    assert!(snapshot.modes.bracketed_paste);
    assert_eq!(snapshot.title.as_deref(), Some("safe"));
    assert_eq!(delta.audit.rejected_actions, 1);
}

#[test]
fn horizontal_tab_advances_without_exposing_a_control_glyph() {
    let mut core = Terminal::new(16, 2, 0);
    core.advance(b"\tX").unwrap();

    let snapshot = core.snapshot();
    assert_eq!(snapshot.cells[8].ch, 'X');
    assert!(!snapshot.cells.iter().any(|cell| cell.ch == '\t'));
    assert_eq!(snapshot.cursor.column, 9);
}

#[test]
fn standard_device_queries_emit_bounded_xterm_replies() {
    let mut core = Terminal::new(20, 4, 100);
    let delta = core
        .advance_counted(
            b"\x1b[c\x1b[>c\x1b[5n\x1b[2;3H\x1b[6n\x1b[?1$p\x1b[4$p\x1b[?9999$p\x1b[99n",
            ParserAudit { unknown_sequences: 1, ..NO_AUDIT },
        )
        .unwrap();
    let replies = replies(core.drain_actions());
    assert_eq!(
        replies,
        [
            b"\x1b[?6c".to_vec(),
            b"\x1b[>0;2501;1c".to_vec(),
            b"\x1b[0n".to_vec(),
            b"\x1b[2;3R".to_vec(),
            b"\x1b[?1;2$y".to_vec(),
            b"\x1b[4;2$y".to_vec(),
            b"\x1b[?9999;0$y".to_vec(),
        ]
    );
    assert_eq!(delta.audit.unknown_sequences, 1);
    assert_eq!(delta.audit.reply_bytes, replies.iter().map(Vec::len).sum::<usize>());
    assert!(delta.audit.reply_bytes <= MAX_PTY_REPLY_BYTES);
}

#[test]
fn keyboard_protocol_state_query_and_screen_lifecycle_form_a_closed_loop() {
    let mut core = Terminal::new(20, 4, 0);
    let delta = core.advance(b"\x1b[=3;1u\x1b[>4;2m\x1b[?u\x1b[?4m").unwrap();
    assert_eq!(core.input_modes().keyboard.kitty.bits(), 3);
    assert_eq!(core.input_modes().keyboard.modify_other_keys, ModifyOtherKeysLevel::All);
    let found = replies(core.drain_actions());
    assert_eq!(found, [b"\x1b[?3u".to_vec(), b"\x1b[>4;2m".to_vec()]);
    assert_eq!(delta.audit.keyboard_queries, 2);
    assert_eq!(delta.audit.keyboard_protocol_changes, 2);

    core.advance(b"\x1b[?1049h\x1b[=8u").unwrap();
    assert_eq!(core.input_modes().keyboard.kitty.bits(), 8);
    core.advance(b"\x1b[?1049l").unwrap();
    assert_eq!(core.input_modes().keyboard.kitty.bits(), 3);
    core.advance(b"\x1bc").unwrap();
    assert_eq!(core.input_modes().keyboard, KeyboardProtocolState::default());
}

#[test]
fn decscusr_and_underline_styles_survive_in_the_snapshot() {
    let config =
        TerminalCoreConfig { history_lines: 0, default_cursor_shape: CursorShape::Beam };
    let mut core = Terminal::new(12, 2, config);

    for (parameter, shape, blink) in [
        (1, CursorShape::Block, CursorBlink::Blinking),
        (2, CursorShape::Block, CursorBlink::Steady),
        (3, CursorShape::Underline, CursorBlink::Blinking),
        (4, CursorShape::Underline, CursorBlink::Steady),
        (5, CursorShape::Beam, CursorBlink::Blinking),
        (6, CursorShape::Beam, CursorBlink::Steady),
    ] {
        core.advance(format!("\x1b[{parameter} q").as_bytes()).unwrap();
        let cursor = core.snapshot().cursor;
        assert_eq!((cursor.shape, cursor.blink), (shape, blink));
    }
    core.advance(b"\x1b[0 q").unwrap();
    assert_eq!(core.snapshot().cursor.shape, CursorShape::Beam);

    core.advance(b"\r\x1b[4m1\x1b[4:2m2\x1b[4:3m3\x1b[4:4m4\x1b[4:5m5\x1b[24m0").unwrap();
    let snapshot = core.snapshot();
    assert_eq!(
        snapshot.cells[..6].iter().map(|cell| cell.underline_style).collect::<Vec<_>>(),
        [
            UnderlineStyle::Single,
            UnderlineStyle::Double,
            UnderlineStyle::Curly,
            UnderlineStyle::Dotted,
            UnderlineStyle::Dashed,
            UnderlineStyle::Off,
        ]
    );
}

#[test]
fn synchronized_updates_publish_only_when_committed() {
    let mut core = Terminal::new(8, 2, 0);
    core.advance(b"old").unwrap();
    let before = core.snapshot();
    let before_content = core.search_content_id();
    assert!(!core.advance(b"\x1b[?2026hnew").unwrap().dirty);
    assert!(core.pending_sync().is_some());
    assert_eq!(core.search_content_id(), before_content);
    assert_eq!(core.snapshot(), before);
    assert!(!core.advance(b"er").unwrap().dirty);
    assert!(core.advance(b"\x1b[?2026l").unwrap().dirty);
    assert!(core.pending_sync().is_none());
    assert_ne!(core.snapshot().cells, before.cells);
    assert!(core.search_content_id().content_revision > before_content.content_revision);

    let committed = core.search_content_id();
    core.advance(b"\x1b[?2026hdiscarded").unwrap();
    let discard_epoch = core.pending_sync().unwrap().epoch;
    assert!(core.core.discard_synchronized_update(discard_epoch, core.sync_status()));
    assert!(!core.core.discard_synchronized_update(discard_epoch + 1, core.sync_status()));
    assert_eq!(core.search_content_id(), committed);
    core.advance(b"\x1b[?2026l").unwrap();

    core.advance(b"\x1b[?2026hfirst").unwrap();
    let first_epoch = core.pending_sync().unwrap().epoch;
    core.advance(b"\x1b[?2026l\x1b[?2026hsecond").unwrap();
    assert!(core.pending_sync().unwrap().epoch > first_epoch);

    core.advance(b"\x1b[?2026htimeout").unwrap();
    let pending = core.pending_sync().unwrap();
    assert!(core.flush(pending.epoch, SyncFlushReason::Timeout).dirty);
    assert!(core.flush(pending.epoch, SyncFlushReason::Timeout).audit.sync_timeouts == 0);
    assert!(pending.epoch >= 1);
}

#[test]
fn approved_queries_are_typed_and_color_mutations_remain_blocked() {
    let mut core = Terminal::new(20, 4, 0);
    let delta = core
        .advance_counted(
            b"\x1b]10;?\x1b\\\x1b]11;?\x07\x1b[14t\x1b[18t\x1b]10;#ffffff\x07\x1b]112\x07",
            ParserAudit { rejected_actions: 2, ..NO_AUDIT },
        )
        .unwrap();
    assert_eq!(
        core.drain_actions(),
        [
            TerminalAction::Query(TerminalQuery::DefaultColor {
                slot: DefaultColorSlot::Foreground,
                terminator: QueryTerminator::StringTerminator,
            }),
            TerminalAction::Query(TerminalQuery::DefaultColor {
                slot: DefaultColorSlot::Background,
                terminator: QueryTerminator::Bell,
            }),
            TerminalAction::Query(TerminalQuery::TextAreaPixels),
            TerminalAction::WriteToPty(b"\x1b[8;4;20t".to_vec()),
        ]
    );
    assert_eq!(delta.audit.rejected_actions, 2);
}

#[test]
fn display_protocol_state_is_isolated_between_terminal_cores() {
    let mut first = Terminal::new(8, 2, 0);
    let mut second = Terminal::new(8, 2, 0);
    first.advance(b"\x1b[5 q\x1b[4:3mA\x1b[?2026hpending").unwrap();
    second.advance(b"B").unwrap();

    let first_snapshot = first.snapshot();
    let second_snapshot = second.snapshot();
    assert_eq!(first_snapshot.cursor.shape, CursorShape::Beam);
    assert_eq!(first_snapshot.cells[0].underline_style, UnderlineStyle::Curly);
    assert!(first.pending_sync().is_some());
    assert_eq!(second_snapshot.cursor.shape, CursorShape::Block);
    assert_eq!(second_snapshot.cells[0].underline_style, UnderlineStyle::Off);
    assert!(second.pending_sync().is_none());
}

#[test]
fn osc52_set_query_and_clear_are_rejected_without_a_reply() {
    let mut core = Terminal::new(20, 4, 100);
    let delta = core
        .advance_counted(
            b"\x1b]52;c;Zm9v\x07\x1b]52;c;?\x07\x1b]52;c;\x07",
            ParserAudit { rejected_actions: 3, ..NO_AUDIT },
        )
        .unwrap();
    let actions = core.drain_actions();

    assert_eq!(delta.audit.rejected_actions, 3);
    assert_eq!(delta.audit.reply_bytes, 0);
    assert!(actions.is_empty(), "OSC 52 reached the application boundary");
}

#[test]
fn overlong_title_is_rejected_instead_of_byte_unsafe_truncation() {
    let mut core = Terminal::new(4, 2, 0);
    let input = format!("\x1b]0;{}\x07", "中".repeat(342));
    let delta = core.advance(input.as_bytes()).unwrap();
    assert_eq!(delta.audit.rejected_actions, 1);
    assert!(core.snapshot().title.is_none());
}

#[test]
fn unknown_sequences_are_counted_without_blocking_following_text() {
    let mut core = Terminal::new(8, 2, 0);
    let delta = core
        .advance_counted(
            b"\x1b]999;secret\x07\x1b]998;private\x07ok",
            ParserAudit { unknown_sequences: 2, ..NO_AUDIT },
        )
        .unwrap();
    assert!(delta.audit.unknown_sequences >= 2);
    assert!(visible(&core.snapshot()).starts_with("ok"));
}

#[test]
fn advance_rejects_a_batch_above_the_ingress_contract() {
    let mut core = Terminal::new(2, 2, 0);
    let oversized = vec![b'x'; ByteBatch::MAX_LEN + 1];
    assert!(matches!(
        core.advance(&oversized),
        Err(TerminalError::BatchTooLarge(length)) if length == oversized.len()
    ));
}

#[test]
fn oversized_hyperlink_metadata_does_not_hide_cell_text() {
    let mut core = Terminal::new(4, 2, 0);
    let mut input = b"\x1b]8;;https://example/".to_vec();
    input.extend(std::iter::repeat(b'a').take(MAX_HYPERLINK_BYTES));
    input.extend_from_slice(b"\x1b\\X\x1b]8;;\x1b\\");
    core.advance(&input).unwrap();
    let snapshot = core.snapshot();
    assert_eq!(snapshot.cells[0].ch, 'X');
    assert_eq!(snapshot.cells[0].hyperlink, None);
    assert!(snapshot.hyperlinks.is_empty());
}

#[test]
fn links_are_numbered_in_the_order_in_which_they_are_met() {
    let mut core = Terminal::new(6, 1, 0);
    core.advance(b"\x1b]8;id=a;https://a\x1b\\A\x1b]8;id=b;https://b\x1b\\B\x1b]8;id=a;https://a\x1b\\C\x1b]8;;\x1b\\D")
        .unwrap();
    let snapshot = core.snapshot();
    let links: Vec<Option<u16>> =
        snapshot.cells[..4].iter().map(|cell| cell.hyperlink).collect();
    assert_eq!(links, vec![Some(0), Some(1), Some(0), None]);
    assert_eq!(snapshot.hyperlinks[1].uri, "https://b");
}

#[test]
fn excessive_combining_metadata_is_dropped_without_failing_the_terminal() {
    let mut core = Terminal::new(4, 2, 0);
    let input = format!("e{}", "\u{301}".repeat(MAX_ZERO_WIDTH_PER_CELL + 1));
    core.advance(input.as_bytes()).unwrap();
    let snapshot = core.snapshot();
    assert_eq!(snapshot.cells[0].ch, 'e');
    assert!(snapshot.cells[0].zerowidth.is_none());
}

#[test]
fn selection_facade_extracts_text_and_projects_current_generation() {
    let mut core = Terminal::new(8, 2, 10);
    core.advance(b"hello").unwrap();
    core.start_selection(
        SelectionKind::Simple,
        SelectionPoint { column: 0, line: 0 },
        SelectionSide::Left,
    );
    core.update_selection(SelectionPoint { column: 4, line: 0 }, SelectionSide::Right);
    assert_eq!(core.selected_text().as_deref(), Some("hello"));
    assert_eq!(
        core.projected_selection(),
        Some(ProjectedSelection { start: [0, 0], end: [4, 0] })
    );
    assert_eq!(core.core.selection_revision(), 2);
}

#[test]
fn selections_start_inside_the_grid() {
    let mut core = Terminal::new(8, 2, 10);
    assert!(matches!(
        core.core.select_at(SelectionPoint { column: 8, line: 0 }, 0),
        Err(TerminalError::SelectionPoint)
    ));
    core.core.clear_selection().unwrap();
    assert_eq!(core.core.selection_revision(), 1);
}

#[test]
fn semantic_and_line_selection_use_terminal_boundaries() {
    let mut core = Terminal::new(12, 2, 10);
    core.advance(b"one two\r\nsecond").unwrap();
    let point = SelectionPoint { column: 1, line: 0 };
    core.start_selection(SelectionKind::Semantic, point, SelectionSide::Left);
    core.update_selection(point, SelectionSide::Right);
    assert_eq!(core.selected_text().as_deref(), Some("one"));

    let point = SelectionPoint { column: 2, line: 1 };
    core.start_selection(SelectionKind::Lines, point, SelectionSide::Left);
    core.update_selection(point, SelectionSide::Right);
    assert_eq!(core.selected_text().as_deref(), Some("second\n"));
}

#[test]
fn semantic_selection_treats_ascii_and_cjk_punctuation_as_boundaries() {
    for (separator, right_column) in
        [(",", 5), ("，", 6), ("。", 6), (":", 5), ("：", 6), (";", 5), ("；", 6)]
    {
        let mut core = Terminal::new(16, 2, 0);
        core.advance(format!("left{separator}right").as_bytes()).unwrap();

        for (column, expected) in [(1, "left"), (right_column, "right")] {
            let point = SelectionPoint { column, line: 0 };
            core.start_selection(SelectionKind::Semantic, point, SelectionSide::Left);
            core.update_selection(point, SelectionSide::Right);
            assert_eq!(
                core.selected_text().as_deref(),
                Some(expected),
                "separator {separator:?} did not terminate semantic selection"
            );
        }
    }

    let mut core = Terminal::new(16, 2, 0);
    core.advance(b"left.right").unwrap();
    let point = SelectionPoint { column: 1, line: 0 };
    core.start_selection(SelectionKind::Semantic, point, SelectionSide::Left);
    core.update_selection(point, SelectionSide::Right);
    assert_eq!(core.selected_text().as_deref(), Some("left.right"));
}

#[test]
fn snapshot_preserves_indexed_color_wide_combining_cursor_and_modes() {
    let mut core = Terminal::new(12, 3, 10);
    core.advance(b"e\xcc\x81\xe4\xb8\xad\x1b[38;5;196mX\x1b[2;4H\x1b[?1h\x1b[?1000h").unwrap();
    let snapshot = core.snapshot();
    assert!(snapshot.cells.iter().any(|cell| {
        cell.ch == 'e' && cell.zerowidth.as_deref() == Some(['\u{301}'].as_slice())
    }));
    assert!(snapshot
        .cells
        .iter()
        .any(|cell| cell.ch == '\u{4e2d}' && cell.width == CellWidth::Wide));
    assert!(snapshot
        .cells
        .iter()
        .any(|cell| cell.ch == 'X' && cell.foreground == TerminalColor::Indexed(196)));
    assert_eq!((snapshot.cursor.column, snapshot.cursor.line), (3, 1));
    assert!(
        snapshot.modes.application_cursor && snapshot.modes.mouse_protocol == MouseProtocol::Normal
    );
}

#[test]
fn alternate_screen_restores_main_screen() {
    let mut core = Terminal::new(8, 2, 10);
    core.advance(b"MAIN\x1b[?1049hALT").unwrap();
    assert!(core.snapshot().modes.alternate_screen);
    core.advance(b"\x1b[?1049l").unwrap();
    let snapshot = core.snapshot();
    assert!(!snapshot.modes.alternate_screen);
    assert!(visible(&snapshot).contains("MAIN"));
}

#[test]
fn user_input_can_restore_scrollback_to_bottom() {
    let mut core = Terminal::new(8, 2, 10);
    core.advance(b"one\r\ntwo\r\nthree").unwrap();
    core.scroll_display(1);
    assert_eq!(core.snapshot().display_offset, 1);
    core.scroll_to_bottom();
    assert_eq!(core.snapshot().display_offset, 0);
}

#[test]
fn absolute_scrollback_offset_is_clamped_to_the_frozen_history_size() {
    let mut core = Terminal::new(8, 2, 10);
    core.advance(b"one\r\ntwo\r\nthree\r\nfour").unwrap();
    let history = core.snapshot().history_size;
    assert!(history > 0);
    core.scroll_to_display_offset(usize::MAX);
    assert_eq!(core.snapshot().display_offset, history);
    core.scroll_to_display_offset(0);
    assert_eq!(core.snapshot().display_offset, 0);
}

#[test]
fn cursor_is_hidden_while_viewing_scrollback() {
    let mut core = Terminal::new(8, 2, 10);
    core.advance(b"one\r\ntwo\r\nthree").unwrap();
    assert!(core.snapshot().cursor.visible);

    core.scroll_display(1);
    let snapshot = core.snapshot();
    assert_eq!(snapshot.display_offset, 1);
    assert!(!snapshot.cursor.visible);

    core.scroll_to_bottom();
    assert!(core.snapshot().cursor.visible);
}

#[test]
fn parser_chunking_does_not_change_final_snapshot() {
    let fixture = b"A\xe4\xb8\xad\x1b[38;2;4;5;6mRGB\x1b[0m\x1b]0;chunked\x07";
    let mut whole = Terminal::new(16, 3, 10);
    whole.advance(fixture).unwrap();
    let mut chunked = Terminal::new(16, 3, 10);
    for byte in fixture {
        chunked.advance(std::slice::from_ref(byte)).unwrap();
    }
    let whole = whole.snapshot();
    let chunked = chunked.snapshot();
    assert_eq!(whole.cells, chunked.cells);
    assert_eq!(whole.cursor, chunked.cursor);
    assert_eq!(whole.modes, chunked.modes);
    assert_eq!(whole.title, chunked.title);
}

#[test]
fn deterministic_random_chunking_preserves_state_and_audit() {
    let fixture = b"A\xe4\xb8\xad\x1b[38;2;4;5;6mRGB\x1b[0m\x1b]0;chunked\x07\x1b]8;;https://example.test\x1b\\X\x1b]8;;\x1b\\\x1b]52;c;Zm9v\x07\x1b]999;private\x07Z";
    let mut whole = Terminal::new(32, 3, 10);
    let expected_audit = whole.advance(fixture).unwrap().audit;
    let expected = whole.snapshot();

    for seed in [1_u64, 0x5eed, 0xdead_beef] {
        let mut state = seed;
        let mut offset = 0;
        let mut audit = ParseAuditDelta::default();
        let mut chunked = Terminal::new(32, 3, 10);
        while offset < fixture.len() {
            state = state.wrapping_mul(6_364_136_223_846_793_005).wrapping_add(1);
            let length =
                (usize::try_from(state >> 32).unwrap_or(1) % 11 + 1).min(fixture.len() - offset);
            let delta = chunked.advance(&fixture[offset..offset + length]).unwrap();
            audit.unknown_sequences =
                audit.unknown_sequences.saturating_add(delta.audit.unknown_sequences);
            audit.rejected_actions =
                audit.rejected_actions.saturating_add(delta.audit.rejected_actions);
            audit.truncated_sequences =
                audit.truncated_sequences.saturating_add(delta.audit.truncated_sequences);
            audit.reply_bytes = audit.reply_bytes.saturating_add(delta.audit.reply_bytes);
            offset += length;
        }
        let actual = chunked.snapshot();
        assert_eq!(actual.cells, expected.cells, "seed {seed}");
        assert_eq!(actual.cursor, expected.cursor, "seed {seed}");
        assert_eq!(actual.modes, expected.modes, "seed {seed}");
        assert_eq!(actual.title, expected.title, "seed {seed}");
        assert_eq!(audit, expected_audit, "seed {seed}");
    }
}

#[test]
fn scrollback_storage_stops_at_the_configured_limit() {
    let mut core = Terminal::new(4, 2, 10);
    core.advance("line\r\n".repeat(100).as_bytes()).unwrap();
    assert_eq!(core.history_size(), 10);
}

#[test]
fn search_content_revision_excludes_viewport_scrolling() {
    let mut core = Terminal::new(8, 2, 10);
    let initial = core.search_content_id();
    core.advance(b"one\r\ntwo\r\nthree").unwrap();
    let changed = core.search_content_id();
    assert!(changed.content_revision > initial.content_revision);
    core.scroll_display(1);
    assert_eq!(core.search_content_id(), changed);
    assert!(core.snapshot().generation > initial.content_revision);
}

#[test]
fn literal_search_handles_overlap_metacharacters_and_case() {
    let mut core = Terminal::new(16, 2, 10);
    core.advance(b"aaa .* Aa").unwrap();
    assert_eq!(search_all(&core, "aa").len(), 2);
    assert_eq!(search_all(&core, ".*").len(), 1);
    assert_eq!(search_all(&core, "Aa").len(), 1);
    assert!(search_all(&core, "aA").is_empty());
}

#[test]
fn literal_search_crosses_soft_wrap_but_not_hard_break() {
    let mut wrapped = Terminal::new(4, 2, 10);
    wrapped.advance(b"abcdef").unwrap();
    let matches = search_all(&wrapped, "cdef");
    assert_eq!(matches.len(), 1);
    assert_eq!(matches[0].start.column, 2);
    assert_eq!(matches[0].end.column, 1);

    let mut hard = Terminal::new(4, 2, 10);
    hard.advance(b"ab\r\ncd").unwrap();
    assert!(search_all(&hard, "abcd").is_empty());
}

#[test]
fn literal_search_tracks_combining_scalars_and_skips_wide_spacers() {
    let mut core = Terminal::new(8, 2, 10);
    core.advance("e\u{301}中x".as_bytes()).unwrap();
    let combining = search_all(&core, "\u{301}");
    assert_eq!(combining[0].start.scalar_offset, 1);
    let wide = search_all(&core, "中x");
    assert_eq!(wide.len(), 1);
    assert_eq!(wide[0].start.column, 1);
    assert_eq!(wide[0].end.column, 3);
}

#[test]
fn literal_search_enforces_query_and_slice_limits() {
    let terminal = Terminal::new(8, 2, 10);
    let core = &terminal.core;
    assert_eq!(
        core.compile_literal_search("\n").unwrap_err(),
        SearchError::ControlCharacter
    );
    assert_eq!(
        core.compile_literal_search(&"x".repeat(MAX_SEARCH_QUERY_SCALARS + 1)).unwrap_err(),
        SearchError::QueryTooLong
    );
    let compiled = core.compile_literal_search(" ").unwrap();
    let screen = terminal.screen();
    let cursor = core.search_scan_cursor(&screen);
    let step = core.scan_search_slice(&screen, &compiled, cursor, budget(1, 2), &clock).unwrap();
    assert!(step.scanned_rows <= 1);
    assert_eq!(step.matches.len(), 2);
    assert!(step.next.is_some());
}

#[test]
fn searches_of_older_content_are_stale() {
    let mut terminal = Terminal::new(8, 2, 10);
    let compiled = terminal.core.compile_literal_search("x").unwrap();
    let cursor = terminal.core.search_scan_cursor(&terminal.screen());
    terminal.advance(b"x").unwrap();
    let screen = terminal.screen();
    let step =
        terminal.core.scan_search_slice(&screen, &compiled, cursor, budget(256, 10), &clock);
    assert!(matches!(step, Err(SearchError::StaleContent)));
}

#[test]
fn regex_search_is_bounded_and_preserves_terminal_line_semantics() {
    let mut core = Terminal::new(8, 3, 10);
    core.advance(b"error erring abcdef\r\nghi").unwrap();
    assert_eq!(regex_search_all(&core, r"err(or|ing)").len(), 2);
    assert_eq!(regex_search_all(&core, r"cdef").len(), 1);
    assert!(regex_search_all(&core, r"fg.*hi").is_empty());
    assert!(matches!(
        core.core.compile_regex_search("["),
        Err(SearchError::InvalidRegex)
    ));
    assert!(core.core.compile_regex_search(&"(".repeat(256)).is_err());
}

#[test]
fn a_step_that_is_late_from_the_start_stops_when_it_first_looks_at_the_clock() {
    let late = |max_rows: usize| SearchBudget { deadline: START, max_rows, max_matches: 10_000 };
    for (columns, rows) in [(8, 1), (200, 0)] {
        let terminal = Terminal::new(columns, 4, 10);
        let core = &terminal.core;
        let screen = terminal.screen();

        let literal = core.compile_literal_search("x").unwrap();
        let cursor = core.search_scan_cursor(&screen);
        let step = core.scan_search_slice(&screen, &literal, cursor, late(256), &clock).unwrap();
        assert_eq!(step.scanned_rows, rows);
        assert!(step.next.is_some());

        let regex = core.compile_regex_search("x").unwrap();
        let cursor = core.regex_scan_cursor(&screen);
        let step = core.scan_regex_slice(&screen, &regex, cursor, late(256), &clock).unwrap();
        assert_eq!(step.scanned_rows, rows);
        assert!(step.next.is_some());
    }
}

#[test]
fn what_is_found_within_a_character_is_invalid() {
    let place = |column: u16| SearchAnchor { history_line: 0, column, scalar_offset: 0 };
    let (offsets, anchors) = (vec![0, 2], vec![place(0), place(1)]);
    let step = |found| take_found("éx", &offsets, &anchors, found);
    assert_eq!(step(None), FoundStep::Finished);
    assert_eq!(step(Some((3, 3))), FoundStep::Finished);
    assert_eq!(step(Some((0, 0))), FoundStep::Skip { next: 2 });
    assert_eq!(step(Some((2, 2))), FoundStep::Skip { next: 3 });
    assert_eq!(
        step(Some((0, 3))),
        FoundStep::Match { value: SearchMatch { start: place(0), end: place(1) }, next: 3 }
    );
    for found in [(1, 2), (0, 1), (1, 1), (2, 0), (2, 4), (4, 4)] {
        assert_eq!(step(Some(found)), FoundStep::Invalid, "{found:?}");
    }
}

#[test]
fn expressions_match_whole_characters() {
    let mut core = Terminal::new(8, 2, 10);
    core.advance("é中xx".as_bytes()).unwrap();
    assert_eq!(regex_search_all(&core, r"\w").len(), 4);
    assert_eq!(regex_search_all(&core, r"x*").len(), 1);
    let wide = regex_search_all(&core, "中");
    assert_eq!((wide[0].start.column, wide[0].end.column), (1, 1));
    assert!(matches!(
        core.core.compile_regex_search(r"(?-u:\xA9)"),
        Err(SearchError::InvalidRegex)
    ));
}

#[test]
fn bell_flood_is_coalesced_before_the_event_and_action_vectors() {
    let mut core = Terminal::new(4, 2, 10);
    let bells = vec![b'\x07'; ByteBatch::MAX_LEN];
    let delta = core.advance(&bells).unwrap();
    assert_eq!(delta.actions, 1);
    assert!(core.state.borrow().events.is_empty());
    assert_eq!(core.drain_actions(), [TerminalAction::Bell]);
}

#[test]
fn search_projection_uses_the_scrolled_viewport() {
    let mut core = Terminal::new(4, 2, 10);
    core.advance("one\r\ntwo\r\n中x".as_bytes()).unwrap();
    core.scroll_to_display_offset(1);
    let snapshot = core.snapshot();
    let anchor = SearchAnchor { history_line: -1, column: 0, scalar_offset: 0 };
    let ranges = project_search_ranges(&snapshot, SearchMatch { start: anchor, end: anchor });
    assert_eq!(ranges.len(), 1);
    assert_eq!(ranges[0].start, [0, 0]);
    assert_eq!(ranges[0].end, [0, 0]);
}

#[test]
fn debug_grid_escapes_controls_and_reports_state() {
    let mut core = Terminal::new(4, 2, 0);
    core.advance(b"A\x01B").unwrap();
    let text = format_debug_grid(&core.snapshot());
    assert!(text.contains("grid=4x2"));
    assert!(!text.contains('\x01'));
}

#[test]
fn debug_grid_is_a_structured_tmux_scene_oracle() {
    let mut core = Terminal::new(12, 3, 0);
    core.advance(
        b"\x1b[1;3;4;9;38;5;196;48;5;17mA\x1b[0me\xcc\x81\xe4\xb8\xad\x1b[?1000h\x1b[?1006h\x1b[?1004h\x1b[?2004h",
    )
    .unwrap();

    let text = format_debug_grid(&core.snapshot());
    assert!(text.contains("paste=true focus=true mouse=Normal/Sgr"));
    assert!(text.contains(
        "cell=0,0 ch=U+0041 width=Narrow fg=indexed:196 bg=indexed:17 ul=none flags=b-iu--s"
    ));
    assert!(text.contains("cell=1,0 ch=U+0065 width=Narrow"));
    assert!(text.contains("combining=1"));
    assert!(text.contains("cell=2,0 ch=U+4E2D width=Wide"));
    assert!(text.contains("cell=3,0 ch=U+0020 width=Spacer"));
}

fn debounced() -> Instant {
    Instant { nanos: START.nanos + SEARCH_DEBOUNCE }
}

#[test]
fn editor_moves_on_utf8_boundaries_and_rejects_atomic_invalid_edits() {
    let mut search = SearchController::default();
    search.open(START);
    search.edit(SearchEdit::Insert("a中"), START);
    assert_eq!(search.cursor_byte(), 4);
    search.edit(SearchEdit::Left, START);
    assert_eq!(search.cursor_byte(), 1);
    search.edit(SearchEdit::Backspace, START);
    assert_eq!(search.query(), "中");
    search.edit(SearchEdit::Insert("\nno"), START);
    assert_eq!(search.query(), "中");
}

#[test]
fn controller_scans_navigates_and_invalidates_per_content_revision() {
    let mut core = Terminal::new(8, 2, 10);
    core.advance(b"one one").unwrap();
    let mut search = SearchController::default();
    search.open(START);
    search.edit(SearchEdit::Insert("one"), START);
    let effect = search.advance(&core.core, &core.screen(), debounced(), &clock);
    assert_eq!(search.phase(), SearchPhase::Ready);
    assert_eq!(search.matches().len(), 2);
    assert_eq!(effect.scroll_target, Some(0));
    search.navigate(SearchDirection::Next, &core.core, &core.screen(), START);
    assert_eq!(search.current_saved_index(), Some(1));
    core.advance(b"x").unwrap();
    search.advance(&core.core, &core.screen(), START, &clock);
    assert_eq!(search.phase(), SearchPhase::Debouncing);
    assert!(search.matches().is_empty());
}

#[test]
fn dense_matches_stop_at_the_result_and_memory_limits() {
    let core = Terminal::new(512, 256, 0);
    let mut search = SearchController::default();
    search.open(START);
    search.edit(SearchEdit::Insert(" "), START);
    search.advance(&core.core, &core.screen(), debounced(), &clock);
    assert_eq!(search.phase(), SearchPhase::Truncated);
    assert_eq!(search.matches().len(), MAX_SEARCH_MATCHES);
    assert!(search.allocated_bytes() <= 1024 * 1024);
    assert!(search.allocated_bytes() >= MAX_SEARCH_MATCHES * std::mem::size_of::<SearchMatch>());
}

#[test]
fn memory_is_counted_by_what_there_is_room_for() {
    let room = SearchRoom {
        before: 3,
        after: 2,
        matches: 10,
        compiled: REGEX_ENGINE_BUDGET,
        scan: 7,
        navigation: 1,
    };
    let size = std::mem::size_of::<SearchMatch>();
    assert_eq!(room.bytes(), 5 * 4 + 10 * size + REGEX_ENGINE_BUDGET + 8);
    assert_eq!(SearchRoom { matches: usize::MAX, ..room }.bytes(), usize::MAX);
    assert_eq!(CompiledLiteral::bytes_of(3, 2), 3 * 4 + 2 * std::mem::size_of::<usize>());
    let anchor = std::mem::size_of::<SearchAnchor>();
    assert_eq!(SearchScanCursor::bytes_of(5), 5 * anchor);
    assert_eq!(RegexScanCursor::bytes_of(9, 2, 1), 9 + 2 * anchor + std::mem::size_of::<usize>());
    assert_eq!(RegexScanCursor::bytes_of(9, usize::MAX, 1), usize::MAX);
}

#[test]
fn a_deadline_past_the_end_of_the_clock_is_its_end() {
    let end = Instant { nanos: u64::MAX };
    let mut search = SearchController::default();
    search.open(end);
    search.edit(SearchEdit::Insert("one"), end);
    assert_eq!(search.query(), "one");
    assert_eq!(search.next_deadline(end), Some(end));
}

#[test]
fn queries_are_compiled_and_taken() {
    let mut core = Terminal::new(8, 2, 10);
    core.advance(b"one").unwrap();
    let screen = core.screen();
    let mut search = SearchController::default();
    search.open(START);
    search.edit(SearchEdit::Insert("o"), START);
    let compiled = search.compile_query(&core.core);
    assert!(matches!(compiled, Ok(CompiledSearch::Regex(_))));
    assert!(search.take_compiled(compiled, &core.core, &screen));
    assert_eq!(search.phase(), SearchPhase::Scanning);
    assert!(!search.take_compiled(Err(SearchError::InvalidRegex), &core.core, &screen));
    assert_eq!(search.phase(), SearchPhase::Failed);
}

#[test]
fn navigation_goes_on_beyond_the_saved_matches() {
    let core = Terminal::new(512, 256, 0);
    let screen = core.screen();
    let mut search = SearchController::default();
    search.open(START);
    search.edit(SearchEdit::Insert(" "), START);
    search.advance(&core.core, &screen, debounced(), &clock);
    assert_eq!(search.phase(), SearchPhase::Truncated);
    let last = search.matches()[MAX_SEARCH_MATCHES - 1];
    search.navigate(SearchDirection::Previous, &core.core, &screen, START);
    while search.next_deadline(START).is_some() {
        search.advance(&core.core, &screen, START, &clock);
    }
    let current = search.current().unwrap();
    assert!(current.start.after(last.start));
    assert_eq!(search.current_saved_index(), None);
}

#[test]
fn dialog_search_compiles_regex_reports_errors_and_matches_history() {
    let mut core = Terminal::new(16, 2, 10);
    core.advance(b"foo1 fooA foo22").unwrap();
    let screen = core.screen();
    let mut search = SearchController::default();
    search.open(START);
    search.edit(SearchEdit::Insert(r"foo\d+"), START);
    for _ in 0..8 {
        search.advance(&core.core, &screen, debounced(), &clock);
        if search.phase() == SearchPhase::Ready {
            break;
        }
    }
    assert_eq!(search.phase(), SearchPhase::Ready);
    assert_eq!(search.matches().len(), 2);
    assert!(search.allocated_bytes() <= 1024 * 1024);

    let mut invalid = SearchController::default();
    invalid.open(START);
    invalid.edit(SearchEdit::Insert("["), START);
    invalid.advance(&core.core, &screen, debounced(), &clock);
    assert_eq!(invalid.phase(), SearchPhase::Failed);
    assert_eq!(invalid.status(), "Invalid regular expression");
}

#[test]
fn dialog_layout_stays_inside_narrow_viewports() {
    let mut dialog = SearchDialogPresentation::layout([240, 120], 150, "query".into());
    assert!(dialog.panel.x + dialog.panel.width <= 240);
    assert!(dialog.panel.y + dialog.panel.height <= 120);
    assert!(dialog.panel.contains([dialog.input.x, dialog.input.y]));
    assert!(
        dialog
            .panel
            .contains([dialog.previous.x, dialog.previous.y])
    );
    assert!(dialog.panel.contains([dialog.next.x, dialog.next.y]));
    assert!(dialog.panel.height < 100);
    dialog.move_to([u32::MAX, u32::MAX], [240, 120]);
    assert_eq!(dialog.panel.x + dialog.panel.width, 240);
    assert_eq!(dialog.panel.y + dialog.panel.height, 120);
    assert!(dialog.panel.contains([dialog.input.x, dialog.input.y]));

    let regular = SearchDialogPresentation::layout([800, 500], 120, String::new());
    assert_eq!(regular.panel.width, 180);
    assert_eq!(regular.panel.x, 310);
    assert_eq!(regular.panel.y, 114);
    assert!(regular.drag_hit_test([306, 120], [800, 500], 8));
    assert!(!regular.drag_hit_test([300, 120], [800, 500], 8));
    assert!(!regular.drag_hit_test([regular.input.x, regular.input.y], [800, 500], 8));
}

#[test]
fn matches_are_found_in_order() {
    let mut terminal = Terminal::new(6, 3, 10);
    terminal.advance("aaaa\r\nxaa\r\naaa e\u{301}aa\r\naa".as_bytes()).unwrap();
    for found in [search_all(&terminal, "aa"), regex_search_all(&terminal, "a+")] {
        assert!(found.len() > 3);
        assert!(found.windows(2).all(|pair| pair[1].start.after(pair[0].start)));
    }
}
