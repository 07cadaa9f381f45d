//! What holds of clicks, of the scrollbar and of text that is being composed.
use vstd::prelude::*;
use vstd::utf8::encode_utf8;
use crate::config::{Number, ScrollbarConfig};
use crate::terminal::snapshot::SelectionPoint;
use crate::time::Instant;
use super::{
    paged, ClickTracker, ImeDone, ImeError, ImeState, PixelRect, PreeditCursor,
    ScrollbarController, ScrollbarHit,
};

verus! {

/// Clicks of one button on one cell, none more than 400 ms after the one before, select a
/// cell, a word, a line, and then a cell again. The clock may start again at zero between them.
pub proof fn clicks_on_one_cell_select_more(
    tracker: ClickTracker,
    button: u32,
    point: SelectionPoint,
    times: Seq<u32>,
)
    requires
        tracker.last is None || tracker.last->0.button != button || tracker.last->0.point != point,
        times.len() == 4,
        forall|i: int|
            #![trigger times[i]]
            0 < i < 4 ==> exists|d: int|
                0 <= d <= 400 && #[trigger] ((times[i - 1] + d) % 0x1_0000_0000) == times[i],
    ensures
        ({
            let one = tracker.after(button, point, times[0]);
            let two = one.after(button, point, times[1]);
            let three = two.after(button, point, times[2]);
            &&& tracker.selects(button, point, times[0]) is Simple
            &&& one.selects(button, point, times[1]) is Semantic
            &&& two.selects(button, point, times[2]) is Lines
            &&& three.selects(button, point, times[3]) is Simple
        }),
{
    let d1 = choose|d: int|
        0 <= d <= 400 && #[trigger] ((times[0] + d) % 0x1_0000_0000) == times[1];
    let d2 = choose|d: int|
        0 <= d <= 400 && #[trigger] ((times[1] + d) % 0x1_0000_0000) == times[2];
    let d3 = choose|d: int|
        0 <= d <= 400 && #[trigger] ((times[2] + d) % 0x1_0000_0000) == times[3];
    assert(times[1 - 1] == times[0] && times[1] == times[1]);
    assert(times[2 - 1] == times[1] && times[2] == times[2]);
    assert(times[3 - 1] == times[2] && times[3] == times[3]);
    wrapped(times[0], d1, times[1]);
    wrapped(times[1], d2, times[2]);
    wrapped(times[2], d3, times[3]);
}

/// A reading of the clock so much later is that sum, less one turn of the clock where it is past
/// its end.
proof fn wrapped(from: u32, d: int, to: u32)
    requires
        0 <= d < 0x1_0000_0000,
        (from + d) % 0x1_0000_0000 == to,
    ensures
        super::elapsed(from, to) == d,
{
}

/// A click on another cell, of another button, or more than 400 ms after the last one selects a
/// single cell, and the next one counts from it.
pub proof fn a_click_apart_begins_anew(
    tracker: ClickTracker,
    button: u32,
    point: SelectionPoint,
    time: u32,
    other_button: u32,
    other_point: SelectionPoint,
    d: int,
)
    requires
        0 <= d < 0x1_0000_0000,
        other_button != button || other_point != point || d > 400,
    ensures
        ({
            let then = ((time + d) % 0x1_0000_0000) as u32;
            let last = tracker.after(button, point, time);
            &&& last.selects(other_button, other_point, then) is Simple
            &&& last.after(other_button, other_point, then).selects(
                other_button,
                other_point,
                then,
            ) is Semantic
        }),
{
    let then = ((time + d) % 0x1_0000_0000) as u32;
    wrapped(time, d, then);
}

/// A press above the thumb scrolls up into the history, one below it scrolls down, each by one
/// line less than the display has and no further than there are lines. Where there is room, the
/// two undo each other.
pub proof fn presses_beside_the_thumb_turn_pages(history: usize, viewport: usize, offset: usize)
    requires
        offset <= history,
        viewport > 1,
    ensures
        ({
            let up = paged(ScrollbarHit::AboveThumb, history, viewport, offset);
            let down = paged(ScrollbarHit::BelowThumb, history, viewport, offset);
            &&& up is Some && offset <= up->0 <= history
            &&& up->0 - offset == viewport - 1 || (up->0 == history && history - offset < viewport
                - 1)
            &&& down is Some && 0 <= down->0 <= offset
            &&& offset - down->0 == viewport - 1 || (down->0 == 0 && offset < viewport - 1)
            &&& offset + (viewport - 1) <= history ==> paged(
                ScrollbarHit::BelowThumb,
                history,
                viewport,
                up->0,
            ) == Some(offset)
        }),
{
}

/// A thumb that can move is dragged from where it was grabbed until it is let go, wherever the
/// pointer goes meanwhile, and the display does not move by the grab alone. A press outside the
/// scrollbar does nothing.
pub proof fn a_thumb_is_dragged_by_where_it_was_grabbed(
    bar: ScrollbarController,
    offset_px: Number,
    history: usize,
    viewport: usize,
    offset: usize,
    inside: bool,
    now: Instant,
    then: Instant,
)
    ensures
        ({
            let hit = ScrollbarHit::Thumb { movable: true, grab_offset_px: offset_px };
            let grabbed = bar.pressed(hit, now);
            &&& paged(hit, history, viewport, offset) == Some(offset)
            &&& grabbed.grabbed() == Some(offset_px)
            &&& grabbed.moved(inside, then).grabbed() == Some(offset_px)
            &&& bar.pressed(ScrollbarHit::Outside, now) == bar
            &&& paged(ScrollbarHit::Outside, history, viewport, offset) is None
        }),
{
}

/// The pointer on the scrollbar shows it as in use, and away from it as at rest, unless it is
/// dragged. What was used stays in view for 800 ms.
pub proof fn the_pointer_wakes_the_scrollbar(bar: ScrollbarController, now: Instant)
    requires
        bar.grabbed() is None,
        now.nanos + 800_000_000 <= u64::MAX,
    ensures
        bar.moved(true, now).interaction is Hover,
        bar.moved(false, now).interaction is Idle,
        bar.moved(false, now).visible_until == bar.visible_until,
        bar.moved(true, now).visible_until is Some,
        bar.moved(true, now).visible_until->0.nanos == now.nanos + 800_000_000,
{
}

/// A display that is scrolled shows where it is, and one without history has nothing to show
/// unless the scrollbar is always there. The thumb has its other color while it is in use.
pub proof fn the_scrollbar_is_drawn_as_asked(
    bar: ScrollbarController,
    track: PixelRect,
    thumb: PixelRect,
    offset: usize,
    history: usize,
    config: ScrollbarConfig,
    now: Instant,
)
    ensures
        ({
            let drawn = bar.drawn(track, thumb, offset, history, config, now);
            &&& config.mode is Always ==> drawn is Some
            &&& config.mode is Auto && history == 0 ==> drawn is None
            &&& config.mode is Auto && history > 0 && offset > 0 ==> drawn is Some
            &&& config.mode is Auto && offset == 0 && bar.visible_until is None
                && bar.interaction is Idle ==> drawn is None
            &&& config.mode is Auto && history > 0 && bar.visible_until is Some && now.nanos
                < bar.visible_until->0.nanos ==> drawn is Some
            &&& drawn is Some ==> {
                &&& drawn->0.track == track
                &&& drawn->0.thumb == thumb
                &&& drawn->0.track_color == config.track
                &&& bar.interaction is Idle ==> drawn->0.thumb_color == config.thumb
                &&& bar.interaction is Hover ==> drawn->0.thumb_color == config.thumb_hover
                &&& bar.grabbed() is Some ==> drawn->0.thumb_color == config.thumb_hover
            }
        }),
{
    assert(bar.interaction is Idle || bar.interaction is Hover || bar.interaction is Dragging);
}

/// What the input method composed is shown once it is done, at the cursor of the terminal, and
/// what it committed is typed. Neither is left over for the next time.
pub proof fn what_was_composed_is_shown(
    state: ImeState,
    text: String,
    cursor: Option<(i32, i32)>,
    typed: String,
    now: ImeState,
    serial: u32,
    generation: u64,
    anchor: [u16; 2],
    result: Result<ImeDone, ImeError>,
)
    requires
        state.active,
        state.revision < u64::MAX,
        state.composing(text, cursor).committing(typed).is_done(
            now,
            serial,
            generation,
            anchor,
            result,
        ),
    ensures
        now.preedit is Some,
        now.preedit->0.text == text,
        now.preedit->0.anchor == anchor,
        now.preedit->0.snapshot_generation == generation,
        cursor is None ==> now.preedit->0.cursor is Hidden,
        cursor is Some ==> {
            let (from, to) = cursor->0;
            &&& 0 <= from <= 4_096 && from == to ==> now.preedit->0.cursor == PreeditCursor::Caret(
                from as u16,
            )
            &&& 0 <= from < to <= 4_096 ==> now.preedit->0.cursor == (PreeditCursor::Selection {
                start: from as u16,
                end: to as u16,
            })
        },
        result is Ok,
        result->Ok_0.commit is Some,
        result->Ok_0.commit->0@ == encode_utf8(typed@),
        now.pending.preedit is None,
        now.pending.commit is None,
        now.pending.delete_surrounding is None,
{
}

/// An input method that is done without a word about the text that was composed takes it away,
/// and types nothing. The application's state is sent again where the input method has not seen
/// its latest one.
pub proof fn silence_takes_the_composed_text_away(
    state: ImeState,
    now: ImeState,
    serial: u32,
    generation: u64,
    anchor: [u16; 2],
    result: Result<ImeDone, ImeError>,
)
    requires
        state.active,
        state.revision < u64::MAX,
        state.pending.is_none(),
        state.is_done(now, serial, generation, anchor, result),
    ensures
        now.preedit is None,
        now.active,
        result is Ok,
        result->Ok_0.commit is None,
        result->Ok_0.delete_surrounding is None,
        result->Ok_0.outbound_resend_required <==> serial != state.outbound.commit_serial,
        serial != state.outbound.commit_serial ==> now.outbound.dirty,
        serial == state.outbound.commit_serial ==> now.outbound == state.outbound,
{
}

} // verus!
