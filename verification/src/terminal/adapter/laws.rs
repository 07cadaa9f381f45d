//! What holds of the terminal around its engine.
use vstd::prelude::*;
use vstd::utf8::encode_utf8;
use crate::terminal::protocol::ProtocolAudit;
use crate::terminal::search::SearchMatch;
use crate::terminal::snapshot::{GridSize, KeyboardProtocolState, SelectionPoint};
use super::{
    color_query, event_step, events_fold, merged_audit, probe_reply, projected, projected_match,
    scroll_delta, terminal_modes, visible_cell, ActionModel, CoreModel, DefaultColorSlot,
    EngineModes, EventsModel, ParseAuditDelta, ParserAudit, QueryTerminator, SelectionRange, TerminalEvent, TerminalQuery,
};

verus! {

/// A cell that is pointed at is the one that is seen there: the display shows it at the same
/// column and line. Scrolled up by so many lines, the display shows lines that are so much older.
pub proof fn what_is_pointed_at_is_what_is_seen(m: CoreModel, point: SelectionPoint, offset: int)
    requires
        m.wf(),
        0 <= offset <= 1_000_000,
        point.column < m.size.columns,
        point.line < m.size.lines,
    ensures
        ({
            let under = m.point_under(point, offset);
            &&& under is Some
            &&& under->0.column == point.column
            &&& under->0.line == point.line - offset
            &&& visible_cell(
                under->0.line as int,
                under->0.column as int,
                offset,
                m.size.lines as int,
                m.size.columns as int,
            ) == Some((point.column, point.line))
        }),
{
}

/// Nothing is pointed at outside the grid.
pub proof fn nothing_is_outside_the_grid(m: CoreModel, point: SelectionPoint, offset: int)
    requires
        point.column >= m.size.columns || point.line >= m.size.lines,
    ensures
        m.point_under(point, offset) is None,
{
}

/// A selection is shown from its first cell to its last, each at its own column and at its line
/// moved down by as much as the display is scrolled up. It is shown only if both are in view.
pub proof fn a_selection_is_shown_from_end_to_end(range: SelectionRange, offset: int, lines: int)
    requires
        0 <= offset <= 1_000_000,
        0 < lines <= 256,
        range.start.column < 65_536,
        range.end.column < 65_536,
    ensures
        ({
            let shown = projected(range, offset, lines);
            &&& shown is Some <==> 0 <= range.start.line + offset < lines && 0 <= range.end.line
                + offset < lines
            &&& shown is Some ==> {
                let (start, end) = shown->0;
                &&& start.0 == range.start.column
                &&& start.1 == range.start.line + offset
                &&& end.0 == range.end.column
                &&& end.1 == range.end.line + offset
            }
        }),
{
}

/// A scroll leads to the offset that was asked for, and no further than there is history.
pub proof fn a_scroll_leads_where_it_was_asked(offset: usize, history: usize, current: usize)
    ensures
        offset <= history ==> current + scroll_delta(offset, history, current) == offset,
        offset > history ==> current + scroll_delta(offset, history, current) == history,
{
}

/// Whether a title can be shown: it is short enough and holds no NUL.
pub open spec fn is_title(title: Seq<char>) -> bool {
    encode_utf8(title).len() <= 1_024 && forall|i: int|
        0 <= i < title.len() ==> #[trigger] title[i] != '\0'
}

/// The last title that a program sets is the title, and once it takes its title back there is
/// none. A title that cannot be shown leaves the title as it is.
pub proof fn the_last_title_counts(m: EventsModel, events: Seq<TerminalEvent>, title: String)
    ensures
        ({
            let before = events_fold(m, events);
            let after = events_fold(m, events.push(TerminalEvent::Title(title)));
            let none = events_fold(m, events.push(TerminalEvent::ResetTitle));
            &&& is_title(title@) ==> {
                &&& after.title == Some(title@)
                &&& after.actions == before.actions.push(ActionModel::SetTitle(title@))
            }
            &&& title@.contains('\0') ==> after.title == before.title && after.actions
                == before.actions
            &&& none.title is None
            &&& none.actions == before.actions.push(ActionModel::ResetTitle)
        }),
{
    assert(events.push(TerminalEvent::Title(title)).drop_last() =~= events);
    assert(events.push(TerminalEvent::ResetTitle).drop_last() =~= events);
    if is_title(title@) {
        assert(!title@.contains('\0'));
    }
}

/// A program never gets at the clipboard: whether it wants to read or to write, all that comes of
/// it is that it was refused.
pub proof fn programs_do_not_get_at_the_clipboard(m: EventsModel, event: TerminalEvent)
    requires
        event is ClipboardStore || event is ClipboardLoad,
    ensures
        event_step(m, event).title == m.title,
        event_step(m, event).actions == m.actions.push(ActionModel::ClipboardRequestRejected),
        m.audit.rejected_actions < u32::MAX ==> event_step(m, event).audit.rejected_actions
            == m.audit.rejected_actions + 1,
{
}

/// What the engine has to say to the program is said as it is, in the order in which it was asked
/// for, up to 64 KiB in a round.
pub proof fn replies_are_sent_as_they_are(m: EventsModel, bytes: Vec<u8>)
    ensures
        ({
            let after = event_step(m, TerminalEvent::PtyWrite(bytes));
            if m.audit.reply_bytes + bytes@.len() <= 65_536 {
                &&& after.actions == m.actions.push(ActionModel::WriteToPty(bytes@))
                &&& after.audit.reply_bytes == m.audit.reply_bytes + bytes@.len()
            } else {
                after.actions == m.actions && after.audit.reply_bytes == m.audit.reply_bytes
            }
        }),
{
}

/// Events are taken in their order: what came before is kept, and each event adds one action at
/// most. The bell comes first.
pub proof fn events_are_taken_in_order(m: CoreModel, bell: bool, events: Seq<TerminalEvent>)
    ensures
        ({
            let after = m.after_events(bell, events).actions;
            let first: int = if bell {
                (m.actions.len() + 1) as int
            } else {
                m.actions.len() as int
            };
            &&& first <= after.len() <= first + events.len()
            &&& after.take(m.actions.len() as int) == m.actions
            &&& bell ==> after[m.actions.len() as int] is Bell
        }),
    decreases events.len(),
{
    let after = m.after_events(bell, events).actions;
    if events.len() == 0 {
        assert(after.take(m.actions.len() as int) =~= m.actions);
    } else {
        events_are_taken_in_order(m, bell, events.drop_last());
        let before = m.after_events(bell, events.drop_last()).actions;
        assert(after.take(m.actions.len() as int) =~= before.take(m.actions.len() as int));
    }
}

/// A question about the default foreground is told from one about the default background, and the
/// way it ended is kept for the answer. Other colors are not told.
pub proof fn questions_about_colors_are_told_apart(
    index: usize,
    slot: DefaultColorSlot,
    terminator: QueryTerminator,
)
    ensures
        ({
            let query = color_query(index, probe_reply(slot, terminator));
            &&& index == 256 && slot is Foreground ==> query == Some(
                TerminalQuery::DefaultColor { slot: DefaultColorSlot::Foreground, terminator },
            )
            &&& index == 257 && slot is Background ==> query == Some(
                TerminalQuery::DefaultColor { slot: DefaultColorSlot::Background, terminator },
            )
            &&& index < 256 || index > 257 ==> query is None
            &&& index == 256 && slot is Background ==> query is None
            &&& index == 257 && slot is Foreground ==> query is None
            &&& probe_reply(slot, terminator)[2] == 49
            &&& slot is Foreground ==> probe_reply(slot, terminator)[3] == 48
            &&& slot is Background ==> probe_reply(slot, terminator)[3] == 49
            &&& terminator is Bell ==> probe_reply(slot, terminator).last() == 7
            &&& terminator is StringTerminator ==> probe_reply(slot, terminator).last() == 92
        }),
{
    let probe = probe_reply(slot, terminator);
    let fg_bell = probe_reply(DefaultColorSlot::Foreground, QueryTerminator::Bell);
    let fg_string = probe_reply(DefaultColorSlot::Foreground, QueryTerminator::StringTerminator);
    let bg_bell = probe_reply(DefaultColorSlot::Background, QueryTerminator::Bell);
    let bg_string = probe_reply(DefaultColorSlot::Background, QueryTerminator::StringTerminator);
    assert(fg_bell.len() == 24 && bg_bell.len() == 24);
    assert(fg_string.len() == 25 && bg_string.len() == 25);
    assert(fg_bell[3] == 48 && bg_bell[3] == 49 && fg_string[3] == 48 && bg_string[3] == 49);
}

/// The modes that a program has switched on are those that are told of the terminal, each by its
/// own name; motion reports take precedence over drags, and drags over clicks.
pub proof fn modes_are_told_by_their_names(mode: EngineModes, keyboard: KeyboardProtocolState)
    ensures
        ({
            let told = terminal_modes(mode, keyboard);
            &&& told.keyboard == keyboard
            &&& told.bracketed_paste <==> mode.bracketed_paste
            &&& told.application_cursor <==> mode.app_cursor
            &&& told.application_keypad <==> mode.app_keypad
            &&& told.focus_reporting <==> mode.focus_in_out
            &&& told.alternate_scroll <==> mode.alternate_scroll
            &&& told.alternate_screen <==> mode.alt_screen
            &&& told.mouse_protocol is Off <==> !mode.mouse_motion && !mode.mouse_drag
                && !mode.mouse_report_click
            &&& mode.mouse_motion ==> told.mouse_protocol is AnyEvent
            &&& mode.mouse_drag && !mode.mouse_motion ==> told.mouse_protocol is ButtonEvent
            &&& told.mouse_protocol is Normal ==> mode.mouse_report_click
            &&& mode.sgr_mouse ==> told.mouse_encoding is Sgr
            &&& mode.utf8_mouse && !mode.sgr_mouse ==> told.mouse_encoding is Utf8
            &&& told.mouse_encoding is Legacy <==> !mode.sgr_mouse && !mode.utf8_mouse
        }),
{
}

/// A match is shown from its first cell to its last, each at its own column and at its line moved down
/// by as much as the display is scrolled up.
pub proof fn a_match_is_shown_from_end_to_end(value: SearchMatch, offset: int, size: GridSize)
    requires
        size.wf(),
        0 <= offset <= 1_000_000,
        value.start.column < size.columns,
        value.end.column < size.columns,
    ensures
        ({
            let shown = projected_match(value, offset, size);
            &&& shown is Some <==> 0 <= value.start.history_line + offset < size.lines && 0
                <= value.end.history_line + offset < size.lines
            &&& shown is Some ==> {
                let (start, end) = shown->0;
                &&& start.0 == value.start.column
                &&& start.1 == value.start.history_line + offset
                &&& end.0 == value.end.column
                &&& end.1 == value.end.history_line + offset
            }
        }),
{
}

/// What the events, the engine and the keyboard protocols counted in a round adds up, each kind to
/// its own.
pub proof fn a_round_counts_each_kind(
    event: ParseAuditDelta,
    parser: ParserAudit,
    forced: u32,
    keyboard: ProtocolAudit,
)
    ensures
        ({
            let all = merged_audit(event, parser, forced, keyboard);
            &&& event.unknown_sequences + parser.unknown_sequences <= u32::MAX
                ==> all.unknown_sequences == event.unknown_sequences + parser.unknown_sequences
            &&& event.rejected_actions + parser.rejected_actions + keyboard.rejected <= u32::MAX
                ==> all.rejected_actions == event.rejected_actions + parser.rejected_actions
                + keyboard.rejected
            &&& all.truncated_sequences == parser.truncated_sequences
            &&& all.sync_forced_commits == forced
            &&& event.keyboard_protocol_changes + keyboard.changes <= u32::MAX
                ==> all.keyboard_protocol_changes == event.keyboard_protocol_changes
                + keyboard.changes
            &&& event.keyboard_queries + keyboard.queries <= u32::MAX ==> all.keyboard_queries
                == event.keyboard_queries + keyboard.queries
            &&& event.keyboard_unknown_flags + keyboard.unknown_flags <= u32::MAX
                ==> all.keyboard_unknown_flags == event.keyboard_unknown_flags
                + keyboard.unknown_flags
            &&& event.keyboard_stack_overflow + keyboard.stack_overflow <= u32::MAX
                ==> all.keyboard_stack_overflow == event.keyboard_stack_overflow
                + keyboard.stack_overflow
            &&& all.query_replies == event.query_replies
            &&& all.query_rejected == event.query_rejected
            &&& all.reply_bytes == event.reply_bytes
            &&& all.sync_timeouts == event.sync_timeouts
            &&& all.display_state_fallbacks == event.display_state_fallbacks
        }),
{
}

} // verus!
