//! What holds of the cells that are marked in a frame.
use vstd::prelude::*;
use crate::frame_composer::RangeModel;
use crate::terminal::search::SearchMatch;
use crate::terminal::snapshot::FrameSnapshot;
use super::{add_matches, add_ranges, line_range, line_ranges, match_ranges, MAX_OVERLAY_RANGES};

verus! {

/// Whether a run of cells in one line takes in a cell.
pub open spec fn takes_in(range: RangeModel, column: int, row: int) -> bool {
    range.start_line == row && range.end_line == row && range.start_column <= column
        <= range.end_column
}

/// Whether a cell is marked.
pub open spec fn marks(ranges: Seq<RangeModel>, column: int, row: int) -> bool {
    exists|i: int| 0 <= i < ranges.len() && takes_in(#[trigger] ranges[i], column, row)
}

/// Whether a cell stands in a match, as it is read: not before its first cell and not after its
/// last.
pub open spec fn stands_in(value: SearchMatch, column: int, line: int) -> bool {
    &&& line > value.start.history_line || (line == value.start.history_line && column
        >= value.start.column)
    &&& line < value.end.history_line || (line == value.end.history_line && column
        <= value.end.column)
}

/// Whether a cell of the display is the second one of the character that a match ends with.
pub open spec fn ends_in(s: FrameSnapshot, value: SearchMatch, column: int, row: int) -> bool {
    &&& row - s.display_offset == value.end.history_line
    &&& column == value.end.column + 1
    &&& 0 <= row * s.grid.columns + column - 1 < s.cells@.len()
    &&& s.cells@[row * s.grid.columns + column - 1].width is Wide
}

/// A match that does not end before it starts and has its columns in the grid.
pub open spec fn fits(s: FrameSnapshot, value: SearchMatch) -> bool {
    &&& value.start.column < s.grid.columns
    &&& value.end.column < s.grid.columns
    &&& stands_in(value, value.start.column as int, value.start.history_line as int)
    &&& value.start.history_line == value.end.history_line && value.start.column
        == value.end.column ==> value.start.scalar_offset <= value.end.scalar_offset
}

/// The cells that are marked for a match are those on the display that stand in it, and the
/// second cell of a wide character at its end.
pub proof fn a_match_marks_its_cells(s: FrameSnapshot, value: SearchMatch, column: int, row: int)
    requires
        s.grid.wf(),
        s.display_offset <= i32::MAX,
        fits(s, value),
        0 <= column < s.grid.columns,
        0 <= row < s.grid.lines,
    ensures
        marks(match_ranges(&s, value), column, row) <==> stands_in(
            value,
            column,
            row - s.display_offset,
        ) || ends_in(s, value, column, row),
{
    let top = -(s.display_offset as int);
    let bottom = top + s.grid.lines - 1;
    let first = if value.start.history_line > top {
        value.start.history_line as int
    } else {
        top
    };
    let last = if value.end.history_line < bottom {
        value.end.history_line as int
    } else {
        bottom
    };
    assert(!value.start.is_after(value.end));
    rows_are_marked(s, value, first, last, column, row);
}

proof fn rows_are_marked(
    s: FrameSnapshot,
    value: SearchMatch,
    line: int,
    last: int,
    column: int,
    row: int,
)
    requires
        s.grid.wf(),
        fits(s, value),
        0 <= column < s.grid.columns,
        0 <= row < s.grid.lines,
        -(s.display_offset as int) <= line,
        value.start.history_line <= line,
        last <= value.end.history_line,
        last < s.grid.lines - s.display_offset,
    ensures
        marks(line_ranges(&s, value, line, last), column, row) <==> line <= row - s.display_offset
            <= last && (stands_in(value, column, row - s.display_offset) || ends_in(
            s,
            value,
            column,
            row,
        )),
    decreases last - line + 1,
{
    let ranges = line_ranges(&s, value, line, last);
    if line <= last {
        let rest = line_ranges(&s, value, line + 1, last);
        rows_are_marked(s, value, line + 1, last, column, row);
        let range = line_range(&s, value, line)->0;
        assert(line_range(&s, value, line) is Some);
        assert(ranges == seq![range] + rest);
        assert(ranges[0] == range);
        let here = row - s.display_offset == line;
        assert(takes_in(range, column, row) <==> here && (stands_in(value, column, line) || ends_in(
            s,
            value,
            column,
            row,
        )));
        assert forall|i: int| 0 <= i < rest.len() implies #[trigger] rest[i] == ranges[i + 1] by {}
        if marks(rest, column, row) {
            let i = choose|i: int| 0 <= i < rest.len() && takes_in(#[trigger] rest[i], column, row);
            assert(takes_in(ranges[i + 1], column, row));
        }
        if marks(ranges, column, row) && !takes_in(range, column, row) {
            let i = choose|i: int|
                0 <= i < ranges.len() && takes_in(#[trigger] ranges[i], column, row);
            assert(takes_in(rest[i - 1], column, row));
        }
    }
}

/// Whether runs of cells lie in one line each.
pub open spec fn in_lines(ranges: Seq<RangeModel>) -> bool {
    forall|i: int|
        0 <= i < ranges.len() ==> (#[trigger] ranges[i]).start_line == ranges[i].end_line
}

/// Runs of cells that are added keep the cells that were marked and mark no cell that is in
/// neither.
pub proof fn adding_marks_nothing_else(
    held: Seq<RangeModel>,
    ranges: Seq<RangeModel>,
    column: int,
    row: int,
)
    requires
        in_lines(held),
        in_lines(ranges),
    ensures
        in_lines(add_ranges(held, ranges)),
        marks(held, column, row) ==> marks(add_ranges(held, ranges), column, row),
        marks(add_ranges(held, ranges), column, row) ==> marks(held, column, row) || marks(
            ranges,
            column,
            row,
        ),
    decreases ranges.len(),
{
    if ranges.len() > 0 {
        let rest = ranges.skip(1);
        assert(in_lines(rest));
        let joined = held.len() > 0 && super::joins(held.last(), ranges[0]);
        let next = if joined {
            held.drop_last().push(super::merged(held.last(), ranges[0]))
        } else {
            held.push(ranges[0])
        };
        if joined || held.len() != MAX_OVERLAY_RANGES {
            assert(in_lines(next));
            adding_marks_nothing_else(next, rest, column, row);
            if marks(held, column, row) {
                let i = choose|i: int|
                    0 <= i < held.len() && takes_in(#[trigger] held[i], column, row);
                assert(takes_in(next[i], column, row));
            }
            if marks(next, column, row) {
                let i = choose|i: int|
                    0 <= i < next.len() && takes_in(#[trigger] next[i], column, row);
                if joined {
                    if i < held.len() - 1 {
                        assert(takes_in(held[i], column, row));
                    } else if column <= held.last().end_column {
                        assert(takes_in(held[i], column, row));
                    } else {
                        assert(takes_in(ranges[0], column, row));
                    }
                } else if i < held.len() {
                    assert(takes_in(held[i], column, row));
                } else {
                    assert(takes_in(ranges[0], column, row));
                }
            }
            if marks(rest, column, row) {
                let i = choose|i: int|
                    0 <= i < rest.len() && takes_in(#[trigger] rest[i], column, row);
                assert(takes_in(ranges[i + 1], column, row));
            }
        }
    }
}

/// Runs of cells that come one line after the other, the first of which starts no further left
/// than the last one that is held in the same line, are all marked while there is room.
pub proof fn what_is_added_is_marked(
    held: Seq<RangeModel>,
    ranges: Seq<RangeModel>,
    column: int,
    row: int,
)
    requires
        in_lines(held),
        in_lines(ranges),
        forall|i: int, j: int|
            0 <= i < j < ranges.len() ==> (#[trigger] ranges[i]).start_line < (
            #[trigger] ranges[j]).start_line,
        held.len() > 0 && ranges.len() > 0 && held.last().end_line == ranges[0].start_line
            ==> held.last().start_column <= ranges[0].start_column,
        add_ranges(held, ranges).len() < MAX_OVERLAY_RANGES,
        marks(ranges, column, row),
    ensures
        marks(add_ranges(held, ranges), column, row),
    decreases ranges.len(),
{
    if ranges.len() > 0 {
        let rest = ranges.skip(1);
        let joined = held.len() > 0 && super::joins(held.last(), ranges[0]);
        let next = if joined {
            held.drop_last().push(super::merged(held.last(), ranges[0]))
        } else {
            held.push(ranges[0])
        };
        assert(in_lines(next));
        assert(in_lines(rest));
        assert forall|i: int, j: int| 0 <= i < j < rest.len() implies (#[trigger] rest[i]).start_line
            < (#[trigger] rest[j]).start_line by {
            assert(ranges[i + 1].start_line < ranges[j + 1].start_line);
        }
        if rest.len() > 0 {
            assert(ranges[0].start_line < ranges[1].start_line);
        }
        let i = choose|i: int| 0 <= i < ranges.len() && takes_in(#[trigger] ranges[i], column, row);
        if i == 0 {
            assert(takes_in(next.last(), column, row));
            assert(takes_in(next[next.len() - 1], column, row));
            adding_marks_nothing_else(next, rest, column, row);
        } else {
            assert(takes_in(rest[i - 1], column, row));
            what_is_added_is_marked(next, rest, column, row);
        }
    }
}

/// Beside the current match only cells of other matches are marked.
pub proof fn other_matches_are_marked_apart(
    s: FrameSnapshot,
    held: Seq<RangeModel>,
    matches: Seq<SearchMatch>,
    current: Option<SearchMatch>,
    column: int,
    row: int,
)
    requires
        s.grid.wf(),
        s.display_offset <= i32::MAX,
        forall|i: int| 0 <= i < matches.len() ==> fits(s, #[trigger] matches[i]),
        0 <= column < s.grid.columns,
        0 <= row < s.grid.lines,
        in_lines(held),
        marks(add_matches(&s, held, matches, current), column, row),
    ensures
        marks(held, column, row) || exists|i: int|
            0 <= i < matches.len() && current != Some(matches[i]) && (stands_in(
                #[trigger] matches[i],
                column,
                row - s.display_offset,
            ) || ends_in(s, matches[i], column, row)),
    decreases matches.len(),
{
    if matches.len() > 0 {
        let rest = matches.skip(1);
        assert forall|i: int| 0 <= i < rest.len() implies fits(s, #[trigger] rest[i]) by {
            assert(fits(s, matches[i + 1]));
        }
        let next = if current == Some(matches[0]) {
            held
        } else {
            add_ranges(held, match_ranges(&s, matches[0]))
        };
        if current != Some(matches[0]) {
            assert(fits(s, matches[0]));
            a_match_lies_in_lines(s, matches[0]);
            adding_marks_nothing_else(held, match_ranges(&s, matches[0]), column, row);
            a_match_marks_its_cells(s, matches[0], column, row);
        }
        if current == Some(matches[0]) || next.len() != MAX_OVERLAY_RANGES {
            other_matches_are_marked_apart(s, next, rest, current, column, row);
        }
        if !marks(next, column, row) {
            let i = choose|i: int|
                0 <= i < rest.len() && current != Some(rest[i]) && (stands_in(
                    #[trigger] rest[i],
                    column,
                    row - s.display_offset,
                ) || ends_in(s, rest[i], column, row));
            assert(matches[i + 1] == rest[i]);
        } else if !marks(held, column, row) {
            assert(current != Some(matches[0]));
            assert(matches[0] == matches[0]);
        }
    }
}

proof fn a_match_lies_in_lines(s: FrameSnapshot, value: SearchMatch)
    requires
        s.grid.wf(),
    ensures
        in_lines(match_ranges(&s, value)),
{
    if !(value.start.is_after(value.end) || s.display_offset > i32::MAX) {
        let top = -(s.display_offset as int);
        let bottom = top + s.grid.lines - 1;
        let first = if value.start.history_line > top {
            value.start.history_line as int
        } else {
            top
        };
        let last = if value.end.history_line < bottom {
            value.end.history_line as int
        } else {
            bottom
        };
        lines_lie_in_lines(s, value, first, last);
    }
}

proof fn lines_lie_in_lines(s: FrameSnapshot, value: SearchMatch, line: int, last: int)
    ensures
        in_lines(line_ranges(&s, value, line, last)),
    decreases last - line + 1,
{
    if line <= last {
        lines_lie_in_lines(s, value, line + 1, last);
        let rest = line_ranges(&s, value, line + 1, last);
        if line_range(&s, value, line) is Some {
            let all = seq![line_range(&s, value, line)->0] + rest;
            assert forall|i: int| 0 <= i < all.len() implies (#[trigger] all[i]).start_line
                == all[i].end_line by {
                if i > 0 {
                    assert(all[i] == rest[i - 1]);
                }
            }
        }
    }
}

/// A match that ends in a wide character marks both halves of it, and any other ends where its last
/// character is.
pub proof fn a_wide_character_is_marked_as_a_whole(s: &FrameSnapshot, value: SearchMatch)
    requires
        s.wf(),
        value.start.history_line == value.end.history_line,
        value.start.column <= value.end.column,
        0 <= value.end.history_line + s.display_offset < s.grid.lines,
        value.end.column < s.grid.columns,
    ensures
        ({
            let line = value.end.history_line as int;
            let row = line + s.display_offset;
            let last = s.cells@[row * s.grid.columns + value.end.column];
            let range = line_range(s, value, line);
            &&& range is Some
            &&& range->0.start_column == value.start.column
            &&& range->0.start_line == row && range->0.end_line == row
            &&& last.width is Wide && value.end.column + 1 < s.grid.columns ==> range->0.end_column
                == value.end.column + 1
            &&& !(last.width is Wide) ==> range->0.end_column == value.end.column
        }),
{
    let row = value.end.history_line + s.display_offset;
    let columns = s.grid.columns as int;
    assert(0 <= row * columns && row * columns + columns <= s.grid.lines * columns)
        by (nonlinear_arith)
        requires
            0 <= row < s.grid.lines,
            columns >= 0,
    ;
}

} // verus!
