//! Where selections, matches and links lie in a frame.
use vstd::prelude::*;
use crate::frame_composer::{ranges_view, CellRange, RangeModel, SearchOverlay, SelectionOverlay};
use crate::search::SearchController;
use crate::terminal::search::SearchMatch;
use crate::terminal::snapshot::{
    CellWidth, FrameSnapshot, ProjectedSelection, SelectionPoint,
};

pub mod laws;

verus! {

/// How many runs of cells an overlay may hold beside the current match.
pub const MAX_OVERLAY_RANGES: usize = 4_096;

/// The run of cells of a match in one line, if its columns are in the grid. A wide character at
/// its end counts with both of its cells.
pub open spec fn line_range(s: &FrameSnapshot, value: SearchMatch, line: int) -> Option<RangeModel> {
    let columns = s.grid.columns as int;
    let row = line + s.display_offset;
    let start = if line == value.start.history_line {
        value.start.column as int
    } else {
        0
    };
    let end = if line == value.end.history_line {
        value.end.column as int
    } else {
        columns - 1
    };
    let index = row * columns + end;
    let wide = 0 <= index < s.cells@.len() && s.cells@[index].width is Wide;
    if start >= columns || end >= columns {
        None
    } else {
        Some(
            RangeModel {
                start_column: start as u16,
                start_line: row as u16,
                end_column: if wide && end + 1 < columns {
                    (end + 1) as u16
                } else {
                    end as u16
                },
                end_line: row as u16,
            },
        )
    }
}

/// The runs of cells of a match in the lines from `line` to `last`.
pub open spec fn line_ranges(s: &FrameSnapshot, value: SearchMatch, line: int, last: int) -> Seq<
    RangeModel,
>
    decreases last - line + 1,
{
    if line > last {
        Seq::empty()
    } else {
        let rest = line_ranges(s, value, line + 1, last);
        match line_range(s, value, line) {
            Some(range) => seq![range] + rest,
            None => rest,
        }
    }
}

/// The runs of cells of a match on the display, one a line.
pub open spec fn match_ranges(s: &FrameSnapshot, value: SearchMatch) -> Seq<RangeModel> {
    if value.start.is_after(value.end) || s.display_offset > i32::MAX {
        Seq::empty()
    } else {
        let top = -(s.display_offset as int);
        let bottom = top + s.grid.lines - 1;
        let first = if value.start.history_line > top {
            value.start.history_line as int
        } else {
            top
        };
        let last = if value.end.history_line < bottom {
            value.end.history_line as int
        } else {
            bottom
        };
        line_ranges(s, value, first, last)
    }
}

/// Where a match lies on the display.
pub fn project_search_ranges(snapshot: &FrameSnapshot, value: SearchMatch) -> (result: Vec<
    CellRange,
>)
    requires
        snapshot.grid.wf(),
    ensures
        ranges_view(result@) == match_ranges(snapshot, value),
{
    let mut ranges: Vec<CellRange> = Vec::new();
    assert(ranges_view(ranges@) =~= Seq::empty());
    if value.start.after(value.end) || snapshot.display_offset > 2_147_483_647 {
        return ranges;
    }
    let columns: usize = snapshot.grid.columns();
    let top: i64 = -(snapshot.display_offset as i64);
    let bottom: i64 = top + snapshot.grid.lines as i64 - 1;
    let first: i64 = if value.start.history_line as i64 > top {
        value.start.history_line as i64
    } else {
        top
    };
    let last: i64 = if (value.end.history_line as i64) < bottom {
        value.end.history_line as i64
    } else {
        bottom
    };
    let mut line: i64 = first;
    let ghost all = line_ranges(snapshot, value, first as int, last as int);
    assert(ranges_view(ranges@) + all =~= all);
    while line <= last
        invariant
            snapshot.grid.wf(),
            columns == snapshot.grid.columns,
            top == -(snapshot.display_offset as int),
            snapshot.display_offset <= i32::MAX,
            bottom == top + snapshot.grid.lines - 1,
            top <= first <= line,
            last <= bottom,
            line <= last + 1 || line == first,
            all == ranges_view(ranges@) + line_ranges(snapshot, value, line as int, last as int),
        decreases last - line + 1,
    {
        let row: i64 = line - top;
        let start: usize = if line == value.start.history_line as i64 {
            value.start.column as usize
        } else {
            0
        };
        let end: usize = if line == value.end.history_line as i64 {
            value.end.column as usize
        } else {
            columns - 1
        };
        let ghost rest = line_ranges(snapshot, value, line + 1, last as int);
        if start < columns && end < columns {
            assert(0 <= row * columns + end <= 256 * 512) by (nonlinear_arith)
                requires
                    0 <= row < 256,
                    0 <= end < columns,
                    columns <= 512,
            ;
            let index: usize = row as usize * columns + end;
            let wide = index < snapshot.cells.len() && snapshot.cells[index].width == CellWidth::Wide;
            let shown: usize = if wide && end + 1 < columns {
                end + 1
            } else {
                end
            };
            let range = CellRange {
                start: [start as u16, row as u16],
                end: [shown as u16, row as u16],
            };
            let ghost before = ranges@;
            ranges.push(range);
            proof {
                assert(range@ == line_range(snapshot, value, line as int)->0);
                assert(ranges_view(ranges@) =~= ranges_view(before).push(range@));
                assert(ranges_view(before) + (seq![range@] + rest) =~= ranges_view(ranges@) + rest);
            }
        } else {
            assert(line_range(snapshot, value, line as int) is None);
        }
        line = line + 1;
    }
    assert(ranges_view(ranges@) + Seq::<RangeModel>::empty() =~= ranges_view(ranges@));
    ranges
}

/// Whether a run of cells goes on where another one ends.
pub open spec fn joins(last: RangeModel, range: RangeModel) -> bool {
    last.end_line == range.start_line && range.start_column <= last.end_column + 1
}

/// Two runs of cells as one.
pub open spec fn merged(last: RangeModel, range: RangeModel) -> RangeModel {
    RangeModel {
        end_column: if range.end_column > last.end_column {
            range.end_column
        } else {
            last.end_column
        },
        ..last
    }
}

/// Runs of cells are added one after the other: one that goes on where the last one ends is
/// merged with it, another one is added as long as there is room.
pub open spec fn add_ranges(held: Seq<RangeModel>, ranges: Seq<RangeModel>) -> Seq<RangeModel>
    decreases ranges.len(),
{
    if ranges.len() == 0 {
        held
    } else if held.len() > 0 && joins(held.last(), ranges[0]) {
        add_ranges(held.drop_last().push(merged(held.last(), ranges[0])), ranges.skip(1))
    } else if held.len() == MAX_OVERLAY_RANGES {
        held
    } else {
        add_ranges(held.push(ranges[0]), ranges.skip(1))
    }
}

/// The runs of cells of all matches but the current one, until there is no room for more.
pub open spec fn add_matches(
    s: &FrameSnapshot,
    held: Seq<RangeModel>,
    matches: Seq<SearchMatch>,
    current: Option<SearchMatch>,
) -> Seq<RangeModel>
    decreases matches.len(),
{
    if matches.len() == 0 {
        held
    } else if current == Some(matches[0]) {
        add_matches(s, held, matches.skip(1), current)
    } else {
        let next = add_ranges(held, match_ranges(s, matches[0]));
        if next.len() == MAX_OVERLAY_RANGES {
            next
        } else {
            add_matches(s, next, matches.skip(1), current)
        }
    }
}

fn push_ranges(held: &mut Vec<CellRange>, ranges: &Vec<CellRange>)
    requires
        old(held)@.len() <= MAX_OVERLAY_RANGES,
    ensures
        ranges_view(final(held)@) == add_ranges(ranges_view(old(held)@), ranges_view(ranges@)),
        final(held)@.len() <= MAX_OVERLAY_RANGES,
{
    let ghost all = ranges_view(ranges@);
    let mut i: usize = 0;
    assert(all.skip(0) =~= all);
    while i < ranges.len()
        invariant
            i <= ranges@.len(),
            all == ranges_view(ranges@),
            held@.len() <= MAX_OVERLAY_RANGES,
            add_ranges(ranges_view(old(held)@), all) == add_ranges(
                ranges_view(held@),
                all.skip(i as int),
            ),
        decreases ranges@.len() - i,
    {
        let range = ranges[i];
        let ghost here = all.skip(i as int);
        let ghost before = held@;
        assert(here[0] == range@);
        assert(here.skip(1) =~= all.skip(i + 1));
        let count: usize = held.len();
        if count > 0 && held[count - 1].end[1] == range.start[1] && range.start[0] as u32
            <= held[count - 1].end[0] as u32 + 1 {
            let last = held[count - 1];
            let end: u16 = if range.end[0] > last.end[0] {
                range.end[0]
            } else {
                last.end[0]
            };
            let joined = CellRange { start: last.start, end: [end, last.end[1]] };
            held.set(count - 1, joined);
            proof {
                assert(ranges_view(before).last() == last@);
                assert(joined@ == merged(last@, range@));
                assert(ranges_view(held@) =~= ranges_view(before).drop_last().push(joined@));
            }
        } else {
            assert(count > 0 ==> ranges_view(before).last() == held@[count - 1]@);
            if count == MAX_OVERLAY_RANGES {
                return ;
            }
            held.push(range);
            assert(ranges_view(held@) =~= ranges_view(before).push(range@));
        }
        i += 1;
    }
}

/// Where the matches of a search lie in a frame, while its dialog is open.
pub fn search_overlay(search: &SearchController, snapshot: &FrameSnapshot) -> (result: Option<
    SearchOverlay,
>)
    requires
        snapshot.grid.wf(),
    ensures
        result is Some <==> search@.open,
        result is Some ==> {
            let overlay = result->0;
            &&& overlay.snapshot_generation == snapshot.generation
            &&& overlay.content_revision == snapshot.content_revision
            &&& overlay.revision == search@.revision
            &&& ranges_view(overlay.current@) == (match search@.current {
                Some(value) => match_ranges(snapshot, value),
                None => Seq::empty(),
            })
            &&& ranges_view(overlay.others@) == add_matches(
                snapshot,
                Seq::empty(),
                search@.matches,
                search@.current,
            )
            &&& overlay.others@.len() <= MAX_OVERLAY_RANGES
        },
{
    if !search.is_open() {
        return None;
    }
    let current_match = search.current();
    let current = match current_match {
        Some(value) => project_search_ranges(snapshot, value),
        None => {
            let none: Vec<CellRange> = Vec::new();
            assert(ranges_view(none@) =~= Seq::empty());
            none
        },
    };
    let matches = search.matches();
    let mut others: Vec<CellRange> = Vec::new();
    let ghost all = matches@;
    let mut i: usize = 0;
    let mut full = false;
    assert(ranges_view(others@) =~= Seq::empty());
    assert(all.skip(0) =~= all);
    while i < matches.len() && !full
        invariant
            i <= matches@.len(),
            all == matches@,
            snapshot.grid.wf(),
            current_match == search@.current,
            others@.len() <= MAX_OVERLAY_RANGES,
            add_matches(snapshot, Seq::empty(), all, search@.current) == if full {
                ranges_view(others@)
            } else {
                add_matches(snapshot, ranges_view(others@), all.skip(i as int), search@.current)
            },
        decreases matches@.len() - i,
    {
        let value = matches[i];
        assert(all.skip(i as int)[0] == value);
        assert(all.skip(i as int).skip(1) =~= all.skip(i + 1));
        let is_current = match current_match {
            Some(current) => current == value,
            None => false,
        };
        if !is_current {
            let ranges = project_search_ranges(snapshot, value);
            push_ranges(&mut others, &ranges);
            full = others.len() == MAX_OVERLAY_RANGES;
        }
        i += 1;
    }
    Some(
        SearchOverlay {
            snapshot_generation: snapshot.generation,
            content_revision: snapshot.content_revision,
            revision: search.revision(),
            current,
            others,
        },
    )
}

/// The selected cells of a frame.
pub fn selection_overlay(
    generation: u64,
    revision: u64,
    selection: Option<ProjectedSelection>,
) -> (result: SelectionOverlay)
    ensures
        result.snapshot_generation == generation,
        result.revision == revision,
        match selection {
            None => result.ranges@.len() == 0,
            Some(range) => result.ranges@.len() == 1 && result.ranges@[0].start == range.start
                && result.ranges@[0].end == range.end,
        },
{
    let mut ranges: Vec<CellRange> = Vec::new();
    if let Some(range) = selection {
        ranges.push(CellRange { start: range.start, end: range.end });
    }
    SelectionOverlay { snapshot_generation: generation, revision, ranges }
}

/// The number of the link under a visible cell.
pub open spec fn link_at(snapshot: FrameSnapshot, point: SelectionPoint) -> Option<u16> {
    let index = point.line * snapshot.grid.columns + point.column;
    if index < snapshot.cells@.len() && snapshot.cells@[index].hyperlink is Some
        && snapshot.cells@[index].hyperlink->0 < snapshot.hyperlinks@.len() {
        snapshot.cells@[index].hyperlink
    } else {
        None
    }
}

/// The link under a visible cell: its number in the frame and its address.
pub fn hyperlink_at(snapshot: &FrameSnapshot, point: SelectionPoint) -> (result: Option<
    (u64, u16, String),
>)
    ensures
        match link_at(*snapshot, point) {
            Some(link) => {
                &&& result is Some
                &&& (result->0).1 == link
                &&& (result->0).2@ == snapshot.hyperlinks@[link as int].uri@
            },
            None => result is None,
        },
        ({
            let index = point.line * snapshot.grid.columns + point.column;
            if index < snapshot.cells@.len() && snapshot.cells@[index].hyperlink is Some
                && snapshot.cells@[index].hyperlink->0 < snapshot.hyperlinks@.len() {
                let link = snapshot.cells@[index].hyperlink->0;
                &&& result is Some
                &&& (result->0).0 == snapshot.generation
                &&& (result->0).1 == link
                &&& (result->0).2@ == snapshot.hyperlinks@[link as int].uri@
            } else {
                result is None
            }
        }),
{
    assert(point.line * snapshot.grid.columns <= 0xffff * 0xffff) by (nonlinear_arith)
        requires
            0 <= point.line <= 0xffff,
            0 <= snapshot.grid.columns <= 0xffff,
    ;
    let index: u64 = point.line as u64 * snapshot.grid.columns as u64 + point.column as u64;
    if index >= snapshot.cells.len() as u64 {
        return None;
    }
    let link: u16 = match snapshot.cells[index as usize].hyperlink {
        Some(link) => link,
        None => {
            return None;
        },
    };
    if link as usize >= snapshot.hyperlinks.len() {
        return None;
    }
    Some((snapshot.generation, link, snapshot.hyperlinks[link as usize].uri.clone()))
}

proof fn line_ranges_bounds(s: &FrameSnapshot, value: SearchMatch, line: int, last: int)
    requires
        s.grid.wf(),
        s.display_offset <= i32::MAX,
        -(s.display_offset as int) <= line,
        last < s.grid.lines - s.display_offset,
    ensures
        forall|i: int|
            0 <= i < line_ranges(s, value, line, last).len() ==> {
                let r = #[trigger] line_ranges(s, value, line, last)[i];
                &&& r.start_line == r.end_line
                &&& r.end_line < s.grid.lines
                &&& r.start_column < s.grid.columns
                &&& r.end_column < s.grid.columns
            },
    decreases last - line + 1,
{
    if line <= last {
        line_ranges_bounds(s, value, line + 1, last);
        let rest = line_ranges(s, value, line + 1, last);
        let all = line_ranges(s, value, line, last);
        assert forall|i: int| 0 <= i < all.len() implies {
            let r = #[trigger] all[i];
            &&& r.start_line == r.end_line
            &&& r.end_line < s.grid.lines
            &&& r.start_column < s.grid.columns
            &&& r.end_column < s.grid.columns
        } by {
            if line_range(s, value, line) is None {
                assert(all[i] == rest[i]);
            } else if i > 0 {
                assert(all[i] == rest[i - 1]);
            }
        }
    }
}

/// Every run of cells of a match lies in one line of the grid.
pub proof fn match_ranges_stay_on_the_grid(s: &FrameSnapshot, value: SearchMatch, i: int)
    requires
        s.grid.wf(),
        0 <= i < match_ranges(s, value).len(),
    ensures
        ({
            let r = match_ranges(s, value)[i];
            &&& r.start_line == r.end_line
            &&& r.end_line < s.grid.lines
            &&& r.start_column < s.grid.columns
            &&& r.end_column < s.grid.columns
        }),
{
    let top = -(s.display_offset as int);
    let bottom = top + s.grid.lines - 1;
    let first = if value.start.history_line > top {
        value.start.history_line as int
    } else {
        top
    };
    let last = if value.end.history_line < bottom {
        value.end.history_line as int
    } else {
        bottom
    };
    line_ranges_bounds(s, value, first, last);
}

/// The link under a cell is the one of the cell at that column of that line.
pub proof fn a_link_is_that_of_its_cell(snapshot: FrameSnapshot, point: SelectionPoint)
    requires
        snapshot.wf(),
        point.column < snapshot.grid.columns,
        point.line < snapshot.grid.lines,
    ensures
        ({
            let row = snapshot.cells@.subrange(
                point.line * snapshot.grid.columns,
                (point.line + 1) * snapshot.grid.columns,
            );
            let cell = row[point.column as int];
            &&& cell.hyperlink is None ==> link_at(snapshot, point) is None
            &&& cell.hyperlink is Some && cell.hyperlink->0 < snapshot.hyperlinks@.len() ==> link_at(
                snapshot,
                point,
            ) == cell.hyperlink
        }),
{
    let columns = snapshot.grid.columns as int;
    let lines = snapshot.grid.lines as int;
    let line = point.line as int;
    assert(0 <= line * columns && (line + 1) * columns == line * columns + columns && (line + 1)
        * columns <= columns * lines) by (nonlinear_arith)
        requires
            0 <= line < lines,
            columns > 0,
    ;
}

} // verus!
