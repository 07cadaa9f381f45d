//! Which stretches of a line are shaped as a whole, and which cells their glyphs belong to.
use unicode_segmentation::UnicodeSegmentation;
use vstd::prelude::*;
use vstd::utf8::encode_utf8;
use crate::clipboard::PasteConfirmationOverlay;
use crate::frame_composer::assets::{FontStyle, GlyphKey, GlyphLimits, ShapedGlyph};
use crate::frame_composer::requests::{
    cell_cluster, cell_is_emoji, cell_style, cluster_of, count_prepared_placements, is_bidi,
    is_bidi_control, is_spacer, prepared_placements, push_key, shaped_keys, shows_emoji, style_of,
    unique_keys, with_glyphs, ShapedCluster,
};
use crate::frame_composer::{CapacityFault, ComposeError, SnapshotFault};
use crate::interaction::PreeditOverlay;
use crate::terminal::snapshot::{CellWidth, FrameSnapshot, GridSize, SnapshotCell};
use crate::unicode_layout::VisualGridMap;

verus! {

/// What the cells of a run have in common.
#[derive(Clone, Copy, Debug, PartialEq, Eq, Structural)]
pub struct RunClass {
    pub style: FontStyle,
    pub emoji: bool,
    pub right_to_left: bool,
}

/// Where a part of a run comes from: how many bytes stand before it, and the column of its cell.
#[derive(Clone, Copy, Debug, PartialEq, Eq, Structural)]
pub struct Provenance {
    pub offset: usize,
    pub column: usize,
}

/// A stretch of a line that is shaped as a whole.
#[derive(Clone, Debug, PartialEq, Eq)]
pub struct TerminalRun {
    pub line: usize,
    pub class: RunClass,
    pub text: String,
    pub provenance: Vec<Provenance>,
}

/// The view of a run.
pub struct RunModel {
    pub line: usize,
    pub class: RunClass,
    pub text: Seq<char>,
    pub provenance: Seq<Provenance>,
}

impl View for TerminalRun {
    type V = RunModel;

    open spec fn view(&self) -> RunModel {
        RunModel {
            line: self.line,
            class: self.class,
            text: self.text@,
            provenance: self.provenance@,
        }
    }
}

pub open spec fn runs_view(runs: Seq<TerminalRun>) -> Seq<RunModel> {
    runs.map_values(|r: TerminalRun| r@)
}

/// A cell by its place.
pub open spec fn cell_at(snapshot: FrameSnapshot, line: int, column: int) -> SnapshotCell {
    snapshot.cells@[line * snapshot.grid.columns + column]
}

/// What a cell has in common with others of its run.
pub open spec fn class_of(
    snapshot: FrameSnapshot,
    map: VisualGridMap,
    line: int,
    column: int,
) -> RunClass {
    let cell = cell_at(snapshot, line, column);
    let visual = map.lines@[line].logical_to_visual_cell@[column];
    RunClass {
        style: style_of(cell),
        emoji: shows_emoji(cell),
        right_to_left: map.lines@[line].atom_levels@[visual as int] % 2 == 1,
    }
}

/// Whether a cell goes on with a run.
pub open spec fn joins(
    snapshot: FrameSnapshot,
    map: VisualGridMap,
    line: int,
    column: int,
    class: RunClass,
) -> bool {
    let cell = cell_at(snapshot, line, column);
    !is_spacer(cell) && !cell.flags.hidden && !is_bidi(cell.ch) && class_of(
        snapshot,
        map,
        line,
        column,
    ) == class
}

/// How many columns a cell takes.
pub open spec fn columns_of(cell: SnapshotCell) -> int {
    if cell.width is Wide {
        2
    } else {
        1
    }
}

pub open spec fn left_of(columns: int, column: int) -> int {
    if column < columns {
        columns - column
    } else {
        0
    }
}

/// The columns of a run, from one on.
pub open spec fn run_columns(
    snapshot: FrameSnapshot,
    map: VisualGridMap,
    line: int,
    column: int,
    class: RunClass,
) -> Seq<int>
    decreases left_of(snapshot.grid.columns as int, column),
{
    if column >= snapshot.grid.columns || !joins(snapshot, map, line, column, class) {
        Seq::empty()
    } else {
        seq![column] + run_columns(
            snapshot,
            map,
            line,
            column + columns_of(cell_at(snapshot, line, column)),
            class,
        )
    }
}

/// The column behind a run.
pub open spec fn run_end(
    snapshot: FrameSnapshot,
    map: VisualGridMap,
    line: int,
    column: int,
    class: RunClass,
) -> int
    decreases left_of(snapshot.grid.columns as int, column),
{
    if column >= snapshot.grid.columns || !joins(snapshot, map, line, column, class) {
        column
    } else {
        run_end(
            snapshot,
            map,
            line,
            column + columns_of(cell_at(snapshot, line, column)),
            class,
        )
    }
}

/// The text of some cells of a line.
pub open spec fn columns_text(snapshot: FrameSnapshot, line: int, columns: Seq<int>) -> Seq<char>
    decreases columns.len(),
{
    if columns.len() == 0 {
        Seq::empty()
    } else {
        columns_text(snapshot, line, columns.drop_last()) + cluster_of(
            cell_at(snapshot, line, columns.last()),
        )
    }
}

/// Where the parts of a run come from.
pub open spec fn provenance_of(snapshot: FrameSnapshot, line: int, columns: Seq<int>) -> Seq<
    Provenance,
> {
    Seq::new(
        columns.len(),
        |i: int|
            Provenance {
                offset: encode_utf8(columns_text(snapshot, line, columns.take(i))).len() as usize,
                column: columns[i] as usize,
            },
    )
}

/// The run that begins at a column.
pub open spec fn run_at(
    snapshot: FrameSnapshot,
    map: VisualGridMap,
    line: int,
    column: int,
) -> RunModel {
    let class = class_of(snapshot, map, line, column);
    let columns = run_columns(snapshot, map, line, column, class);
    RunModel {
        line: line as usize,
        class,
        text: columns_text(snapshot, line, columns),
        provenance: provenance_of(snapshot, line, columns),
    }
}

/// The runs of a line, from a column on.
pub open spec fn line_runs(
    snapshot: FrameSnapshot,
    map: VisualGridMap,
    line: int,
    column: int,
) -> Seq<RunModel>
    decreases left_of(snapshot.grid.columns as int, column),
{
    let cell = cell_at(snapshot, line, column);
    if column >= snapshot.grid.columns {
        Seq::empty()
    } else if is_spacer(cell) || cell.flags.hidden {
        line_runs(snapshot, map, line, column + 1)
    } else {
        let end = run_end(snapshot, map, line, column, class_of(snapshot, map, line, column));
        let next = if end > column {
            end
        } else {
            column + 1
        };
        seq![run_at(snapshot, map, line, column)] + line_runs(snapshot, map, line, next)
    }
}

/// The runs of the first lines.
pub open spec fn frame_runs(snapshot: FrameSnapshot, map: VisualGridMap, n: int) -> Seq<RunModel>
    decreases n,
{
    if n <= 0 {
        Seq::empty()
    } else {
        frame_runs(snapshot, map, n - 1) + line_runs(snapshot, map, n - 1, 0)
    }
}

/// A snapshot and a map that belong together.
pub open spec fn belongs(snapshot: FrameSnapshot, map: VisualGridMap) -> bool {
    snapshot.wf() && map.covers_grid() && map.grid == snapshot.grid
}

proof fn place_is_on_grid(snapshot: FrameSnapshot, line: int, column: int)
    requires
        snapshot.wf(),
        0 <= line < snapshot.grid.lines,
        0 <= column < snapshot.grid.columns,
    ensures
        0 <= line * snapshot.grid.columns + column < snapshot.cells@.len(),
        line * snapshot.grid.columns <= 512 * 256,
{
    let columns = snapshot.grid.columns as int;
    let lines = snapshot.grid.lines as int;
    assert(0 <= line * columns && line * columns + columns <= columns * lines) by (nonlinear_arith)
        requires
            0 <= line < lines,
            columns > 0,
    ;
    assert(columns * lines <= 512 * 256) by (nonlinear_arith)
        requires
            0 < columns <= 512,
            0 < lines <= 256,
    ;
}

fn cell_index(snapshot: &FrameSnapshot, line: usize, column: usize) -> (result: usize)
    requires
        snapshot.wf(),
        line < snapshot.grid.lines,
        column < snapshot.grid.columns,
    ensures
        result == line * snapshot.grid.columns + column,
        result < snapshot.cells@.len(),
{
    proof {
        place_is_on_grid(*snapshot, line as int, column as int);
    }
    line * snapshot.grid.columns() + column
}

fn find_class(snapshot: &FrameSnapshot, map: &VisualGridMap, line: usize, column: usize) -> (result:
    RunClass)
    requires
        belongs(*snapshot, *map),
        line < snapshot.grid.lines,
        column < snapshot.grid.columns,
    ensures
        result == class_of(*snapshot, *map, line as int, column as int),
{
    let cell = &snapshot.cells[cell_index(snapshot, line, column)];
    let row = &map.lines[line];
    assert(row.covers(map.grid.columns as int));
    assert(row.logical_to_visual_cell@[column as int] < map.grid.columns);
    let visual: usize = row.logical_to_visual_cell[column] as usize;
    RunClass {
        style: cell_style(cell),
        emoji: cell_is_emoji(cell),
        right_to_left: row.atom_levels[visual] % 2 == 1,
    }
}

fn cell_joins(
    snapshot: &FrameSnapshot,
    map: &VisualGridMap,
    line: usize,
    column: usize,
    class: RunClass,
) -> (result: bool)
    requires
        belongs(*snapshot, *map),
        line < snapshot.grid.lines,
        column < snapshot.grid.columns,
    ensures
        result == joins(*snapshot, *map, line as int, column as int, class),
{
    let cell = &snapshot.cells[cell_index(snapshot, line, column)];
    cell.width != CellWidth::Spacer && cell.width != CellWidth::LeadingSpacer && !cell.flags.hidden
        && !is_bidi_control(cell.ch) && find_class(snapshot, map, line, column) == class
}

fn push_chars(out: &mut String, chars: &Vec<char>)
    ensures
        final(out)@ == old(out)@ + chars@,
{
    let ghost before = out@;
    let mut i: usize = 0;
    assert(out@ =~= before + chars@.take(0));
    while i < chars.len()
        invariant
            i <= chars@.len(),
            out@ == before + chars@.take(i as int),
        decreases chars@.len() - i,
    {
        out.push(chars[i]);
        i += 1;
        assert(out@ =~= before + chars@.take(i as int));
    }
    assert(chars@.take(i as int) =~= chars@);
}

/// The run that begins at a column, and the column behind it.
fn collect_run(
    snapshot: &FrameSnapshot,
    map: &VisualGridMap,
    line: usize,
    column: usize,
) -> (result: (TerminalRun, usize))
    requires
        belongs(*snapshot, *map),
        line < snapshot.grid.lines,
        column < snapshot.grid.columns,
    ensures
        result.0@ == run_at(*snapshot, *map, line as int, column as int),
        result.0.fits(snapshot.grid),
        result.1 == run_end(
            *snapshot,
            *map,
            line as int,
            column as int,
            class_of(*snapshot, *map, line as int, column as int),
        ),
        result.1 <= snapshot.grid.columns + 1,
{
    let class = find_class(snapshot, map, line, column);
    let ghost all = run_columns(*snapshot, *map, line as int, column as int, class);
    let ghost end = run_end(*snapshot, *map, line as int, column as int, class);
    let columns: usize = snapshot.grid.columns();
    let mut text = String::new();
    let mut provenance: Vec<Provenance> = Vec::new();
    let ghost mut done: Seq<int> = Seq::empty();
    let mut next: usize = column;
    assert(done + run_columns(*snapshot, *map, line as int, next as int, class) =~= all);
    assert(text@ =~= columns_text(*snapshot, line as int, done));
    assert(provenance@ =~= provenance_of(*snapshot, line as int, done));
    while next < columns && cell_joins(snapshot, map, line, next, class)
        invariant
            belongs(*snapshot, *map),
            line < snapshot.grid.lines,
            columns == snapshot.grid.columns,
            next <= columns + 1,
            class == class_of(*snapshot, *map, line as int, column as int),
            done + run_columns(*snapshot, *map, line as int, next as int, class) == all,
            end == run_end(*snapshot, *map, line as int, next as int, class),
            text@ == columns_text(*snapshot, line as int, done),
            provenance@ == provenance_of(*snapshot, line as int, done),
            forall|k: int| 0 <= k < done.len() ==> 0 <= #[trigger] done[k] < columns,
        decreases columns + 2 - next,
    {
        let index: usize = cell_index(snapshot, line, next);
        let cell = &snapshot.cells[index];
        let ghost before = done;
        let offset: usize = text.as_str().as_bytes().len();
        provenance.push(Provenance { offset, column: next });
        let cluster = cell_cluster(cell);
        push_chars(&mut text, &cluster);
        proof {
            done = before.push(next as int);
            assert(done.drop_last() =~= before);
            let now = provenance_of(*snapshot, line as int, done);
            assert(done.take(before.len() as int) =~= before);
            assert forall|k: int| 0 <= k < before.len() implies now[k] == provenance_of(
                *snapshot,
                line as int,
                before,
            )[k] by {
                assert(done.take(k) =~= before.take(k));
            }
            assert(provenance@ =~= now);
        }
        let ghost at = next as int;
        if cell.width == CellWidth::Wide {
            next += 2;
        } else {
            next += 1;
        }
        proof {
            assert(*cell == cell_at(*snapshot, line as int, at));
            assert(next == at + columns_of(*cell));
            let rest = run_columns(*snapshot, *map, line as int, next as int, class);
            assert(run_columns(*snapshot, *map, line as int, at, class) == seq![at] + rest);
            assert(done + rest =~= before + (seq![at] + rest));
        }
    }
    assert(done =~= all);
    (TerminalRun { line, class, text, provenance }, next)
}

/// The stretches of the lines of a frame that are shaped as a whole: the cells of each have the
/// same style and direction, and pictures are kept apart.
pub fn terminal_runs(snapshot: &FrameSnapshot, map: &VisualGridMap) -> (result: Vec<TerminalRun>)
    requires
        belongs(*snapshot, *map),
    ensures
        runs_view(result@) == frame_runs(*snapshot, *map, snapshot.grid.lines as int),
        forall|i: int|
            0 <= i < result@.len() ==> (#[trigger] result@[i]).fits(snapshot.grid),
{
    let lines: usize = snapshot.grid.lines();
    let columns: usize = snapshot.grid.columns();
    let mut runs: Vec<TerminalRun> = Vec::new();
    let mut line: usize = 0;
    assert(runs_view(runs@) =~= Seq::empty());
    while line < lines
        invariant
            line <= lines,
            lines == snapshot.grid.lines,
            columns == snapshot.grid.columns,
            belongs(*snapshot, *map),
            runs_view(runs@) == frame_runs(*snapshot, *map, line as int),
            forall|i: int|
                0 <= i < runs@.len() ==> (#[trigger] runs@[i]).fits(snapshot.grid),
        decreases lines - line,
    {
        let ghost start = runs_view(runs@);
        let ghost all = start + line_runs(*snapshot, *map, line as int, 0);
        let mut column: usize = 0;
        while column < columns
            invariant
                line < lines,
                lines == snapshot.grid.lines,
                columns == snapshot.grid.columns,
                belongs(*snapshot, *map),
                column <= columns + 1,
                all == runs_view(runs@) + line_runs(*snapshot, *map, line as int, column as int),
                forall|i: int|
                    0 <= i < runs@.len() ==> (#[trigger] runs@[i]).fits(snapshot.grid),
            decreases columns + 2 - column,
        {
            let index: usize = cell_index(snapshot, line, column);
            let cell = &snapshot.cells[index];
            assert(*cell == cell_at(*snapshot, line as int, column as int));
            if cell.width == CellWidth::Spacer || cell.width == CellWidth::LeadingSpacer
                || cell.flags.hidden {
                column += 1;
            } else {
                let (run, end) = collect_run(snapshot, map, line, column);
                let ghost before = runs_view(runs@);
                let ghost at = column as int;
                let ghost model = run@;
                runs.push(run);
                if end > column {
                    column = end;
                } else {
                    column += 1;
                }
                proof {
                    let rest = line_runs(*snapshot, *map, line as int, column as int);
                    assert(runs_view(runs@) =~= before.push(model));
                    assert(line_runs(*snapshot, *map, line as int, at) == seq![model] + rest);
                    assert(before.push(model) + rest =~= before + (seq![model] + rest));
                }
            }
        }
        line += 1;
        assert(runs_view(runs@) =~= frame_runs(*snapshot, *map, line as int));
    }
    runs
}

impl TerminalRun {
    /// The run lies on a grid.
    pub open spec fn fits(&self, grid: GridSize) -> bool {
        &&& self.line < grid.lines
        &&& forall|i: int|
            0 <= i < self.provenance@.len() ==> (#[trigger] self.provenance@[i]).column
                < grid.columns
    }
}

/// How many of the first parts begin before some byte.
pub open spec fn leading(provenance: Seq<Provenance>, bound: int, i: int) -> int
    decreases provenance.len() - i,
{
    if 0 <= i < provenance.len() && provenance[i].offset < bound {
        leading(provenance, bound, i + 1)
    } else {
        i
    }
}

/// The last part that begins before some byte, or the first of all.
pub open spec fn part_before(provenance: Seq<Provenance>, bound: int) -> int {
    let n = leading(provenance, bound, 0);
    if n > 0 {
        n - 1
    } else {
        0
    }
}

fn find_part(provenance: &Vec<Provenance>, bound: u128) -> (result: usize)
    ensures
        result == part_before(provenance@, bound as int),
        provenance@.len() > 0 ==> result < provenance@.len(),
{
    let mut i: usize = 0;
    while i < provenance.len() && (provenance[i].offset as u128) < bound
        invariant
            i <= provenance@.len(),
            leading(provenance@, bound as int, 0) == leading(provenance@, bound as int, i as int),
        decreases provenance@.len() - i,
    {
        i += 1;
    }
    if i > 0 {
        i - 1
    } else {
        0
    }
}

/// A character as it is seen: where it begins, and how many bytes it has.
#[derive(Clone, Copy, Debug, PartialEq, Eq, Structural)]
pub struct Grapheme {
    pub offset: usize,
    pub length: usize,
}

/// The characters of a text as they are seen.
pub uninterp spec fn graphemes_of(text: Seq<char>) -> Seq<Grapheme>;

/// `UnicodeSegmentation::grapheme_indices` of `unicode-segmentation`, with extended clusters: each
/// of them, in order, by its offset and its length in bytes.
#[verifier::external_body]
fn find_graphemes(text: &str) -> (result: Vec<Grapheme>)
    ensures
        result@ == graphemes_of(text@),
{
    text.grapheme_indices(true).map(
        |(offset, grapheme)| Grapheme { offset, length: grapheme.len() },
    ).collect()
}

/// The end of the character, as it is seen, that a byte belongs to.
pub open spec fn grapheme_end(graphemes: Seq<Grapheme>, byte: int, i: int) -> int
    decreases graphemes.len() - i,
{
    if i < 0 || i >= graphemes.len() {
        byte + 1
    } else if graphemes[i].offset <= byte < graphemes[i].offset + graphemes[i].length {
        graphemes[i].offset + graphemes[i].length
    } else {
        grapheme_end(graphemes, byte, i + 1)
    }
}

fn find_end(graphemes: &Vec<Grapheme>, byte: u32) -> (result: u128)
    ensures
        result == grapheme_end(graphemes@, byte as int, 0),
{
    let mut i: usize = 0;
    while i < graphemes.len()
        invariant
            i <= graphemes@.len(),
            grapheme_end(graphemes@, byte as int, 0) == grapheme_end(
                graphemes@,
                byte as int,
                i as int,
            ),
        decreases graphemes@.len() - i,
    {
        let start: u128 = graphemes[i].offset as u128;
        let end: u128 = start + graphemes[i].length as u128;
        if start <= byte as u128 && (byte as u128) < end {
            return end;
        }
        i += 1;
    }
    byte as u128 + 1
}

/// The glyphs of a cell, and how many columns they take. A cell without glyphs has none of either.
#[derive(Clone, Debug, PartialEq, Eq)]
pub struct TerminalShape {
    pub glyphs: Vec<ShapedGlyph>,
    pub span: u8,
}

/// The view of the glyphs of a cell.
pub struct ShapeModel {
    pub glyphs: Seq<ShapedGlyph>,
    pub span: u8,
}

impl View for TerminalShape {
    type V = ShapeModel;

    open spec fn view(&self) -> ShapeModel {
        ShapeModel { glyphs: self.glyphs@, span: self.span }
    }
}

pub open spec fn shapes_view(shapes: Seq<TerminalShape>) -> Seq<ShapeModel> {
    shapes.map_values(|s: TerminalShape| s@)
}

/// The column that a glyph belongs to: that of the last part which does not begin behind it.
pub open spec fn owner_of(run: RunModel, glyph: ShapedGlyph) -> int {
    run.provenance[part_before(run.provenance, glyph.cluster + 1)].column as int
}

/// The column behind the character, as it is seen, that a glyph belongs to.
pub open spec fn end_of(
    snapshot: FrameSnapshot,
    run: RunModel,
    graphemes: Seq<Grapheme>,
    glyph: ShapedGlyph,
) -> int {
    let end = grapheme_end(graphemes, glyph.cluster as int, 0);
    let column = run.provenance[part_before(run.provenance, end)].column as int;
    column + columns_of(cell_at(snapshot, run.line as int, column))
}

/// How many columns a glyph takes.
pub open spec fn span_of(
    snapshot: FrameSnapshot,
    run: RunModel,
    graphemes: Seq<Grapheme>,
    glyph: ShapedGlyph,
) -> int {
    let end = end_of(snapshot, run, graphemes, glyph);
    if end > owner_of(run, glyph) {
        end - owner_of(run, glyph)
    } else {
        0
    }
}

/// What is wrong with a glyph of a run.
pub open spec fn glyph_fault(
    snapshot: FrameSnapshot,
    run: RunModel,
    graphemes: Seq<Grapheme>,
    glyph: ShapedGlyph,
) -> Option<ComposeError> {
    if run.provenance.len() == 0 {
        Some(ComposeError::Snapshot(SnapshotFault::MissingProvenance))
    } else if span_of(snapshot, run, graphemes, glyph) > 255 {
        Some(ComposeError::Capacity(CapacityFault::ClusterSpan))
    } else {
        None
    }
}

/// The first thing that is wrong with the glyphs of a run, from one on.
pub open spec fn run_fault(
    snapshot: FrameSnapshot,
    run: RunModel,
    graphemes: Seq<Grapheme>,
    glyphs: Seq<ShapedGlyph>,
    i: int,
) -> Option<ComposeError>
    decreases glyphs.len() - i,
{
    if i < 0 || i >= glyphs.len() {
        None
    } else if glyph_fault(snapshot, run, graphemes, glyphs[i]) is Some {
        glyph_fault(snapshot, run, graphemes, glyphs[i])
    } else {
        run_fault(snapshot, run, graphemes, glyphs, i + 1)
    }
}

/// The cells with one more glyph. A cell takes as many columns as the widest of its glyphs.
pub open spec fn with_glyph(
    shapes: Seq<ShapeModel>,
    index: int,
    glyph: ShapedGlyph,
    span: int,
) -> Seq<ShapeModel> {
    let shape = shapes[index];
    shapes.update(
        index,
        ShapeModel {
            glyphs: shape.glyphs.push(glyph),
            span: if shape.span as int >= span {
                shape.span
            } else {
                span as u8
            },
        },
    )
}

/// The cells with the first glyphs of a run.
pub open spec fn run_shapes(
    shapes: Seq<ShapeModel>,
    snapshot: FrameSnapshot,
    run: RunModel,
    graphemes: Seq<Grapheme>,
    glyphs: Seq<ShapedGlyph>,
    n: int,
) -> Seq<ShapeModel>
    decreases n,
{
    if n <= 0 {
        shapes
    } else {
        let glyph = glyphs[n - 1];
        with_glyph(
            run_shapes(shapes, snapshot, run, graphemes, glyphs, n - 1),
            run.line * snapshot.grid.columns + owner_of(run, glyph),
            glyph,
            span_of(snapshot, run, graphemes, glyph),
        )
    }
}

/// Gives the glyphs of a run to the cells that they belong to. `graphemes` are the characters of
/// its text as they are seen.
pub fn assign_glyphs(
    shapes: &mut Vec<TerminalShape>,
    keys: &mut Vec<GlyphKey>,
    snapshot: &FrameSnapshot,
    run: &TerminalRun,
    graphemes: &Vec<Grapheme>,
    glyphs: &Vec<ShapedGlyph>,
) -> (result: Result<(), ComposeError>)
    requires
        snapshot.wf(),
        run.fits(snapshot.grid),
        old(shapes)@.len() == snapshot.cells@.len(),
    ensures
        final(shapes)@.len() == old(shapes)@.len(),
        match run_fault(*snapshot, run@, graphemes@, glyphs@, 0) {
            Some(fault) => result == Err::<(), ComposeError>(fault),
            None => {
                &&& result is Ok
                &&& shapes_view(final(shapes)@) == run_shapes(
                    shapes_view(old(shapes)@),
                    *snapshot,
                    run@,
                    graphemes@,
                    glyphs@,
                    glyphs@.len() as int,
                )
                &&& final(keys)@ == with_glyphs(old(keys)@, glyphs@, glyphs@.len() as int)
            },
        },
{
    let ghost shapes_before = shapes_view(shapes@);
    let ghost keys_before = keys@;
    let mut i: usize = 0;
    while i < glyphs.len()
        invariant
            i <= glyphs@.len(),
            snapshot.wf(),
            run.fits(snapshot.grid),
            shapes@.len() == snapshot.cells@.len(),
            shapes@.len() == old(shapes)@.len(),
            run_fault(*snapshot, run@, graphemes@, glyphs@, 0) == run_fault(
                *snapshot,
                run@,
                graphemes@,
                glyphs@,
                i as int,
            ),
            shapes_view(shapes@) == run_shapes(
                shapes_before,
                *snapshot,
                run@,
                graphemes@,
                glyphs@,
                i as int,
            ),
            keys@ == with_glyphs(keys_before, glyphs@, i as int),
        decreases glyphs@.len() - i,
    {
        let glyph = glyphs[i];
        if run.provenance.len() == 0 {
            return Err(ComposeError::Snapshot(SnapshotFault::MissingProvenance));
        }
        let first: usize = find_part(&run.provenance, glyph.cluster as u128 + 1);
        let owner: usize = run.provenance[first].column;
        let last: usize = find_part(&run.provenance, find_end(graphemes, glyph.cluster));
        let end: usize = run.provenance[last].column;
        let end_cell = &snapshot.cells[cell_index(snapshot, run.line, end)];
        let behind: usize = if end_cell.width == CellWidth::Wide {
            end + 2
        } else {
            end + 1
        };
        let span: usize = if behind > owner {
            behind - owner
        } else {
            0
        };
        assert(span == span_of(*snapshot, run@, graphemes@, glyph));
        if span > 255 {
            return Err(ComposeError::Capacity(CapacityFault::ClusterSpan));
        }
        push_key(keys, glyph.key);
        let index: usize = cell_index(snapshot, run.line, owner);
        let ghost before = shapes@;
        shapes[index].glyphs.push(glyph);
        if (shapes[index].span as usize) < span {
            shapes[index].span = span as u8;
        }
        i += 1;
        assert(shapes_view(shapes@) =~= with_glyph(
            shapes_view(before),
            index as int,
            glyph,
            span as int,
        ));
    }
    Ok(())
}

/// Shapes and keys.
pub struct ShapeState {
    pub shapes: Seq<ShapeModel>,
    pub keys: Seq<GlyphKey>,
}

/// The cells and keys after the first runs, or the first thing that is wrong.
pub open spec fn shaped_after(
    snapshot: FrameSnapshot,
    runs: Seq<RunModel>,
    shaped: Seq<Vec<ShapedGlyph>>,
    keys: Seq<GlyphKey>,
    limit: usize,
    n: int,
) -> Result<ShapeState, ComposeError>
    decreases n,
{
    if n <= 0 {
        Ok(
            ShapeState {
                shapes: Seq::new(
                    snapshot.cells@.len(),
                    |i: int| ShapeModel { glyphs: Seq::empty(), span: 0 },
                ),
                keys,
            },
        )
    } else {
        match shaped_after(snapshot, runs, shaped, keys, limit, n - 1) {
            Err(fault) => Err(fault),
            Ok(state) => {
                let run = runs[n - 1];
                let glyphs = shaped[n - 1]@;
                let graphemes = graphemes_of(run.text);
                match run_fault(snapshot, run, graphemes, glyphs, 0) {
                    Some(fault) => Err(fault),
                    None => {
                        let next = ShapeState {
                            shapes: run_shapes(
                                state.shapes,
                                snapshot,
                                run,
                                graphemes,
                                glyphs,
                                glyphs.len() as int,
                            ),
                            keys: with_glyphs(state.keys, glyphs, glyphs.len() as int),
                        };
                        if next.keys.len() > limit {
                            Err(ComposeError::Capacity(CapacityFault::UniqueGlyphs))
                        } else {
                            Ok(next)
                        }
                    },
                }
            },
        }
    }
}

proof fn shape_faults_stay(
    snapshot: FrameSnapshot,
    runs: Seq<RunModel>,
    shaped: Seq<Vec<ShapedGlyph>>,
    keys: Seq<GlyphKey>,
    limit: usize,
    n: int,
    m: int,
)
    requires
        0 <= n <= m,
        shaped_after(snapshot, runs, shaped, keys, limit, n) is Err,
    ensures
        shaped_after(snapshot, runs, shaped, keys, limit, m) == shaped_after(
            snapshot,
            runs,
            shaped,
            keys,
            limit,
            n,
        ),
    decreases m,
{
    if n < m {
        shape_faults_stay(snapshot, runs, shaped, keys, limit, n, m - 1);
    }
}

/// Gives the glyphs of all runs to the cells that they belong to, and adds their keys to those
/// that are needed already.
#[verifier::loop_isolation(false)]
pub fn prepare_terminal_runs(
    snapshot: &FrameSnapshot,
    runs: &Vec<TerminalRun>,
    shaped: &Vec<Vec<ShapedGlyph>>,
    keys: Vec<GlyphKey>,
    limit: usize,
) -> (result: Result<(Vec<TerminalShape>, Vec<GlyphKey>), ComposeError>)
    requires
        snapshot.wf(),
        runs@.len() == shaped@.len(),
        forall|i: int| 0 <= i < runs@.len() ==> (#[trigger] runs@[i]).fits(snapshot.grid),
    ensures
        match shaped_after(
            *snapshot,
            runs_view(runs@),
            shaped@,
            keys@,
            limit,
            runs@.len() as int,
        ) {
            Err(fault) => result is Err && result->Err_0 == fault,
            Ok(state) => {
                &&& result is Ok
                &&& shapes_view((result->Ok_0).0@) == state.shapes
                &&& (result->Ok_0).0@.len() == snapshot.cells@.len()
                &&& (result->Ok_0).1@ == state.keys
            },
        },
{
    let ghost models = runs_view(runs@);
    let ghost keys_before = keys@;
    let mut all_keys = keys;
    let mut shapes: Vec<TerminalShape> = Vec::new();
    let mut i: usize = 0;
    while i < snapshot.cells.len()
        invariant
            i <= snapshot.cells@.len(),
            shapes@.len() == i,
            forall|k: int|
                0 <= k < i ==> (#[trigger] shapes@[k])@ == (ShapeModel {
                    glyphs: Seq::<ShapedGlyph>::empty(),
                    span: 0,
                }),
        decreases snapshot.cells@.len() - i,
    {
        let shape = TerminalShape { glyphs: Vec::new(), span: 0 };
        assert(shape.glyphs@ =~= Seq::empty());
        shapes.push(shape);
        i += 1;
    }
    let mut n: usize = 0;
    assert(shapes_view(shapes@) =~= (shaped_after(
        *snapshot,
        models,
        shaped@,
        keys_before,
        limit,
        0,
    )->Ok_0).shapes);
    while n < runs.len()
        invariant
            n <= runs@.len(),
            snapshot.wf(),
            runs@.len() == shaped@.len(),
            models == runs_view(runs@),
            forall|i: int| 0 <= i < runs@.len() ==> (#[trigger] runs@[i]).fits(snapshot.grid),
            shapes@.len() == snapshot.cells@.len(),
            shaped_after(*snapshot, models, shaped@, keys_before, limit, n as int) is Ok,
            shapes_view(shapes@) == (shaped_after(
                *snapshot,
                models,
                shaped@,
                keys_before,
                limit,
                n as int,
            )->Ok_0).shapes,
            all_keys@ == (shaped_after(
                *snapshot,
                models,
                shaped@,
                keys_before,
                limit,
                n as int,
            )->Ok_0).keys,
        decreases runs@.len() - n,
    {
        let run = &runs[n];
        assert(models[n as int] == run@);
        let graphemes = find_graphemes(run.text.as_str());
        let ghost m = n + 1;
        let outcome = assign_glyphs(
            &mut shapes,
            &mut all_keys,
            snapshot,
            run,
            &graphemes,
            &shaped[n],
        );
        match outcome {
            Ok(_) => {},
            Err(fault) => {
                proof {
                    shape_faults_stay(
                        *snapshot,
                        models,
                        shaped@,
                        keys_before,
                        limit,
                        m as int,
                        runs@.len() as int,
                    );
                }
                return Err(fault);
            },
        }
        if all_keys.len() > limit {
            proof {
                shape_faults_stay(
                    *snapshot,
                    models,
                    shaped@,
                    keys_before,
                    limit,
                    m as int,
                    runs@.len() as int,
                );
            }
            return Err(ComposeError::Capacity(CapacityFault::UniqueGlyphs));
        }
        n += 1;
    }
    Ok((shapes, all_keys))
}

/// How many glyphs the first cells have.
pub open spec fn shape_placements(shapes: Seq<ShapeModel>, n: int) -> nat
    decreases n,
{
    if n <= 0 {
        0
    } else {
        shape_placements(shapes, n - 1) + shapes[n - 1].glyphs.len()
    }
}

proof fn shape_counts_grow(shapes: Seq<ShapeModel>, n: int, m: int)
    requires
        0 <= n <= m,
    ensures
        shape_placements(shapes, n) <= shape_placements(shapes, m),
    decreases m,
{
    if n < m {
        shape_counts_grow(shapes, n, m - 1);
    }
}

/// Counts the glyphs of the cells, as far as they can be counted.
pub fn count_shape_placements(shapes: &Vec<TerminalShape>) -> (result: Option<usize>)
    ensures
        ({
            let count = shape_placements(shapes_view(shapes@), shapes@.len() as int);
            if count <= usize::MAX {
                result == Some(count as usize)
            } else {
                result is None
            }
        }),
{
    let ghost models = shapes_view(shapes@);
    let mut total: usize = 0;
    let mut i: usize = 0;
    while i < shapes.len()
        invariant
            i <= shapes@.len(),
            models == shapes_view(shapes@),
            total == shape_placements(models, i as int),
        decreases shapes@.len() - i,
    {
        proof {
            assert(models[i as int] == shapes@[i as int]@);
            shape_counts_grow(models, i + 1, shapes@.len() as int);
        }
        let count: usize = shapes[i].glyphs.len();
        match total.checked_add(count) {
            Some(sum) => {
                total = sum;
            },
            None => {
                return None;
            },
        }
        i += 1;
    }
    Some(total)
}

/// Checks that a frame has not too many glyphs. `count` is missing where they could not be
/// counted.
pub fn validate_placements(count: Option<usize>, limit: usize) -> (result: Result<(), ComposeError>)
    ensures
        match count {
            Some(count) if count <= limit => result is Ok,
            _ => result == Err::<(), ComposeError>(
                ComposeError::Capacity(CapacityFault::Placements),
            ),
        },
{
    match count {
        Some(count) if count <= limit => Ok(()),
        _ => Err(ComposeError::Capacity(CapacityFault::Placements)),
    }
}

/// Whether the lines of a frame are shaped in runs: they are where their text may run either way,
/// unless a question hides them.
pub open spec fn shapes_runs(confirmation: Option<&PasteConfirmationOverlay>, map: VisualGridMap) -> bool {
    confirmation is None && map.bidi_enabled
}

/// The cells and keys of a frame, or the first thing that is wrong: too many glyphs, runs that do
/// not fit, or too many placements.
pub open spec fn working_set(
    snapshot: FrameSnapshot,
    confirmation: Option<&PasteConfirmationOverlay>,
    preedit: Option<&PreeditOverlay>,
    map: VisualGridMap,
    shaped: Seq<ShapedCluster>,
    run_glyphs: Seq<Vec<ShapedGlyph>>,
    limits: GlyphLimits,
) -> Result<ShapeState, ComposeError> {
    let keys = shaped_keys(shaped, shaped.len() as int);
    let runs = if shapes_runs(confirmation, map) {
        frame_runs(snapshot, map, snapshot.grid.lines as int)
    } else {
        Seq::empty()
    };
    if keys.len() > limits.bitmaps {
        Err(ComposeError::Capacity(CapacityFault::UniqueGlyphs))
    } else {
        match shaped_after(snapshot, runs, run_glyphs, keys, limits.bitmaps, runs.len() as int) {
            Err(fault) => Err(fault),
            Ok(state) => {
                let count = if confirmation is Some {
                    prepared_placements(snapshot, confirmation, preedit, shaped)
                } else {
                    shape_placements(state.shapes, state.shapes.len() as int)
                };
                if count > limits.placements {
                    Err(ComposeError::Capacity(CapacityFault::Placements))
                } else {
                    Ok(state)
                }
            },
        }
    }
}

/// Prepares the glyphs of a frame from its texts after they were shaped: `run_glyphs` are those of
/// its runs, in order. Gives the glyphs of each cell, and the keys of all that are drawn.
pub fn prepare_glyph_working_set(
    snapshot: &FrameSnapshot,
    paste_confirmation: Option<&PasteConfirmationOverlay>,
    preedit: Option<&PreeditOverlay>,
    map: &VisualGridMap,
    shaped: &Vec<ShapedCluster>,
    run_glyphs: &Vec<Vec<ShapedGlyph>>,
    limits: GlyphLimits,
) -> (result: Result<(Vec<TerminalShape>, Vec<GlyphKey>), ComposeError>)
    requires
        belongs(*snapshot, *map),
        shapes_runs(paste_confirmation, *map) ==> run_glyphs@.len() == frame_runs(
            *snapshot,
            *map,
            snapshot.grid.lines as int,
        ).len(),
    ensures
        match working_set(
            *snapshot,
            paste_confirmation,
            preedit,
            *map,
            shaped@,
            run_glyphs@,
            limits,
        ) {
            Err(fault) => result is Err && result->Err_0 == fault,
            Ok(state) => {
                &&& result is Ok
                &&& shapes_view((result->Ok_0).0@) == state.shapes
                &&& (result->Ok_0).0@.len() == snapshot.cells@.len()
                &&& (result->Ok_0).1@ == state.keys
            },
        },
{
    let keys = match unique_keys(shaped, limits.bitmaps, CapacityFault::UniqueGlyphs) {
        Ok(keys) => keys,
        Err(fault) => {
            return Err(fault);
        },
    };
    let runs_wanted = paste_confirmation.is_none() && map.bidi_enabled;
    let prepared = if runs_wanted {
        let runs = terminal_runs(snapshot, map);
        assert(runs@.len() == runs_view(runs@).len());
        prepare_terminal_runs(snapshot, &runs, run_glyphs, keys, limits.bitmaps)
    } else {
        let runs: Vec<TerminalRun> = Vec::new();
        let none: Vec<Vec<ShapedGlyph>> = Vec::new();
        assert(runs_view(runs@) =~= Seq::empty());
        let ghost wanted = keys@;
        let outcome = prepare_terminal_runs(snapshot, &runs, &none, keys, limits.bitmaps);
        assert(shaped_after(*snapshot, Seq::empty(), none@, wanted, limits.bitmaps, 0)
            == shaped_after(*snapshot, Seq::empty(), run_glyphs@, wanted, limits.bitmaps, 0));
        outcome
    };
    let (shapes, keys) = match prepared {
        Ok(prepared) => prepared,
        Err(fault) => {
            return Err(fault);
        },
    };
    let count: Option<usize> = match paste_confirmation {
        Some(_) => count_prepared_placements(snapshot, paste_confirmation, preedit, shaped),
        None => count_shape_placements(&shapes),
    };
    match validate_placements(count, limits.placements) {
        Ok(_) => Ok((shapes, keys)),
        Err(fault) => Err(fault),
    }
}

/// Every glyph of a run that is accepted belongs to a cell of the run, and the cell takes at
/// least one column.
pub proof fn glyphs_belong_to_their_run(
    snapshot: FrameSnapshot,
    run: RunModel,
    graphemes: Seq<Grapheme>,
    glyph: ShapedGlyph,
)
    requires
        glyph_fault(snapshot, run, graphemes, glyph) is None,
        forall|i: int, j: int|
            0 <= i <= j < run.provenance.len() ==> (#[trigger] run.provenance[i]).column <= (
            #[trigger] run.provenance[j]).column,
    ensures
        exists|i: int|
            0 <= i < run.provenance.len() && (#[trigger] run.provenance[i]).column == owner_of(
                run,
                glyph,
            ),
        1 <= span_of(snapshot, run, graphemes, glyph) <= 255,
{
    let prov = run.provenance;
    let end = grapheme_end(graphemes, glyph.cluster as int, 0);
    end_is_behind(graphemes, glyph.cluster as int, 0);
    leading_grows(prov, glyph.cluster + 1, end, 0);
    leading_is_bounded(prov, end, 0);
    let first = part_before(prov, glyph.cluster + 1);
    let last = part_before(prov, end);
    assert(0 <= first <= last < prov.len());
    assert(prov[first].column <= prov[last].column);
}

proof fn end_is_behind(graphemes: Seq<Grapheme>, byte: int, i: int)
    ensures
        grapheme_end(graphemes, byte, i) > byte,
    decreases graphemes.len() - i,
{
    if 0 <= i < graphemes.len() && !(graphemes[i].offset <= byte < graphemes[i].offset
        + graphemes[i].length) {
        end_is_behind(graphemes, byte, i + 1);
    }
}

proof fn leading_is_bounded(prov: Seq<Provenance>, bound: int, i: int)
    requires
        0 <= i <= prov.len(),
    ensures
        i <= leading(prov, bound, i) <= prov.len(),
    decreases prov.len() - i,
{
    if i < prov.len() && prov[i].offset < bound {
        leading_is_bounded(prov, bound, i + 1);
    }
}

proof fn leading_grows(prov: Seq<Provenance>, low: int, high: int, i: int)
    requires
        low <= high,
        0 <= i <= prov.len(),
    ensures
        0 <= leading(prov, low, i) <= leading(prov, high, i),
    decreases prov.len() - i,
{
    leading_is_bounded(prov, high, i);
    if i < prov.len() && prov[i].offset < low {
        leading_grows(prov, low, high, i + 1);
    }
}

/// The cells of a run are those from its first one on that have the same style and direction, one
/// beside the other; the cell behind it, if there is one, does not go on with it.
pub proof fn a_run_goes_as_far_as_its_cells_agree(
    snapshot: FrameSnapshot,
    map: VisualGridMap,
    line: int,
    column: int,
    class: RunClass,
)
    requires
        0 <= column,
    ensures
        ({
            let columns = run_columns(snapshot, map, line, column, class);
            let end = run_end(snapshot, map, line, column, class);
            &&& end >= column
            &&& columns.len() > 0 ==> columns[0] == column
            &&& columns.len() == 0 <==> end == column
            &&& forall|i: int|
                0 <= i < columns.len() ==> {
                    let cell = cell_at(snapshot, line, #[trigger] columns[i]);
                    &&& column <= columns[i] < snapshot.grid.columns
                    &&& class_of(snapshot, map, line, columns[i]) == class
                    &&& !cell.flags.hidden
                    &&& columns[i] + columns_of(cell) <= end
                }
            &&& end < snapshot.grid.columns ==> !joins(snapshot, map, line, end, class)
        }),
    decreases left_of(snapshot.grid.columns as int, column),
{
    if column < snapshot.grid.columns && joins(snapshot, map, line, column, class) {
        let next = column + columns_of(cell_at(snapshot, line, column));
        a_run_goes_as_far_as_its_cells_agree(snapshot, map, line, next, class);
        let rest = run_columns(snapshot, map, line, next, class);
        let columns = seq![column] + rest;
        assert forall|i: int| 0 < i < columns.len() implies #[trigger] columns[i] == rest[i - 1] by {}
        assert forall|i: int| 0 <= i < columns.len() implies ({
            let cell = cell_at(snapshot, line, #[trigger] columns[i]);
            &&& column <= columns[i] < snapshot.grid.columns
            &&& class_of(snapshot, map, line, columns[i]) == class
            &&& !cell.flags.hidden
            &&& columns[i] + columns_of(cell) <= run_end(snapshot, map, line, column, class)
        }) by {
            if i > 0 {
                assert(columns[i] == rest[i - 1]);
            }
        }
    }
}

/// The text of a run is that of its cells, one after the other, and each part of it is known by the
/// column of its cell and by the bytes before it.
pub proof fn a_run_has_the_text_of_its_cells(
    snapshot: FrameSnapshot,
    line: int,
    columns: Seq<int>,
    i: int,
)
    requires
        0 <= i < columns.len(),
        0 <= columns[i] <= 0xffff,
        encode_utf8(columns_text(snapshot, line, columns)).len() <= usize::MAX,
    ensures
        ({
            let text = columns_text(snapshot, line, columns);
            let before = columns_text(snapshot, line, columns.take(i));
            let cell = cell_at(snapshot, line, columns[i]);
            let part = provenance_of(snapshot, line, columns)[i];
            &&& part.column == columns[i]
            &&& part.offset == encode_utf8(before).len()
            &&& before.len() < text.len()
            &&& text.take(before.len() as int) == before
            &&& text[before.len() as int] == cell.ch
        }),
    decreases columns.len(),
{
    let init = columns.drop_last();
    let text = columns_text(snapshot, line, columns);
    let before = columns_text(snapshot, line, columns.take(i));
    let last = cluster_of(cell_at(snapshot, line, columns.last()));
    let head = columns_text(snapshot, line, init);
    crate::text::encode_concat(head, last);
    if i == columns.len() - 1 {
        assert(columns.take(i) =~= init);
        assert(text.take(before.len() as int) =~= before);
        assert(text[before.len() as int] == last[0]);
    } else {
        a_run_has_the_text_of_its_cells(snapshot, line, init, i);
        assert(init.take(i) =~= columns.take(i));
        assert(text.take(before.len() as int) =~= head.take(before.len() as int));
        assert(text[before.len() as int] == head[before.len() as int]);
        assert(provenance_of(snapshot, line, columns)[i] == provenance_of(snapshot, line, init)[i]);
    }
}

/// Text runs from right to left where it is nested an odd number of times.
pub proof fn odd_levels_run_from_right_to_left(
    snapshot: FrameSnapshot,
    map: VisualGridMap,
    line: int,
    column: int,
)
    ensures
        ({
            let level = map.lines@[line].atom_levels@[map.lines@[line].logical_to_visual_cell@[column] as int];
            let class = class_of(snapshot, map, line, column);
            &&& level == 0 ==> !class.right_to_left
            &&& level == 1 ==> class.right_to_left
            &&& level == 2 ==> !class.right_to_left
            &&& class.style == style_of(cell_at(snapshot, line, column))
        }),
{
}

/// A glyph is drawn behind those that its cell already has, and its cell takes as many columns as the
/// widest of them. Other cells stay as they are.
pub proof fn a_glyph_goes_to_its_cell(
    shapes: Seq<ShapeModel>,
    index: int,
    glyph: ShapedGlyph,
    span: int,
    other: int,
)
    requires
        0 <= index < shapes.len(),
        0 <= other < shapes.len(),
        0 <= span <= 255,
    ensures
        ({
            let now = with_glyph(shapes, index, glyph, span);
            &&& now[index].glyphs == shapes[index].glyphs.push(glyph)
            &&& now[index].span >= span && now[index].span >= shapes[index].span
            &&& now[index].span == span || now[index].span == shapes[index].span
            &&& other != index ==> now[other] == shapes[other]
            &&& now.len() == shapes.len()
        }),
{
}

/// Whether a cell, if it is that of a wide character, has its second cell beside it.
pub open spec fn is_paired(snapshot: FrameSnapshot, line: int, column: int) -> bool {
    cell_at(snapshot, line, column).width is Wide ==> is_spacer(
        cell_at(snapshot, line, column + 1),
    )
}

/// Whether a part of a run comes from a column.
pub open spec fn comes_from(run: RunModel, column: int) -> bool {
    exists|i: int| 0 <= i < run.provenance.len() && (#[trigger] run.provenance[i]).column == column
}

/// Whether a part of some run comes from a column.
pub open spec fn some_comes_from(runs: Seq<RunModel>, column: int) -> bool {
    exists|k: int| 0 <= k < runs.len() && comes_from(#[trigger] runs[k], column)
}

/// Every cell of a line that shows something is part of a run of that line, whatever stands before it:
/// no text is left out.
pub proof fn every_cell_is_in_a_run(
    snapshot: FrameSnapshot,
    map: VisualGridMap,
    line: int,
    from: int,
    column: int,
)
    requires
        0 <= from <= column < snapshot.grid.columns,
        !is_spacer(cell_at(snapshot, line, column)),
        !cell_at(snapshot, line, column).flags.hidden,
        !is_bidi(cell_at(snapshot, line, column).ch),
        forall|c: int|
            from <= c && c + 1 < snapshot.grid.columns ==> #[trigger] is_paired(snapshot, line, c),
    ensures
        some_comes_from(line_runs(snapshot, map, line, from), column),
    decreases left_of(snapshot.grid.columns as int, from),
{
    let cell = cell_at(snapshot, line, from);
    if is_spacer(cell) || cell.flags.hidden {
        every_cell_is_in_a_run(snapshot, map, line, from + 1, column);
    } else {
        let class = class_of(snapshot, map, line, from);
        let end = run_end(snapshot, map, line, from, class);
        let next = if end > from {
            end
        } else {
            from + 1
        };
        let run = run_at(snapshot, map, line, from);
        let rest = line_runs(snapshot, map, line, next);
        let all = seq![run] + rest;
        assert(line_runs(snapshot, map, line, from) == all);
        a_run_goes_on(snapshot, map, line, from, class);
        if column < next {
            if end == from {
                assert(joins(snapshot, map, line, column, class));
            }
            in_the_columns_of_a_run(snapshot, map, line, from, class, column);
            let i = run_columns(snapshot, map, line, from, class).index_of(column);
            assert(run.provenance[i].column == column);
            assert(comes_from(all[0], column));
        } else {
            every_cell_is_in_a_run(snapshot, map, line, next, column);
            let k = choose|k: int| 0 <= k < rest.len() && comes_from(#[trigger] rest[k], column);
            assert(comes_from(all[k + 1], column));
        }
    }
}

proof fn a_run_goes_on(
    snapshot: FrameSnapshot,
    map: VisualGridMap,
    line: int,
    column: int,
    class: RunClass,
)
    requires
        0 <= column < snapshot.grid.columns,
    ensures
        joins(snapshot, map, line, column, class) ==> run_end(snapshot, map, line, column, class)
            > column,
        !joins(snapshot, map, line, column, class) ==> run_end(snapshot, map, line, column, class)
            == column,
{
    if joins(snapshot, map, line, column, class) {
        let next = column + columns_of(cell_at(snapshot, line, column));
        a_run_goes_as_far_as_its_cells_agree(snapshot, map, line, next, class);
    }
}

proof fn in_the_columns_of_a_run(
    snapshot: FrameSnapshot,
    map: VisualGridMap,
    line: int,
    from: int,
    class: RunClass,
    column: int,
)
    requires
        0 <= from <= column < run_end(snapshot, map, line, from, class),
        column < snapshot.grid.columns,
        !is_spacer(cell_at(snapshot, line, column)),
        forall|c: int|
            from <= c && c + 1 < snapshot.grid.columns ==> #[trigger] is_paired(snapshot, line, c),
    ensures
        run_columns(snapshot, map, line, from, class).contains(column),
    decreases left_of(snapshot.grid.columns as int, from),
{
    let columns = run_columns(snapshot, map, line, from, class);
    let cell = cell_at(snapshot, line, from);
    let next = from + columns_of(cell);
    let rest = run_columns(snapshot, map, line, next, class);
    assert(columns == seq![from] + rest);
    if column == from {
        assert(columns[0] == column);
    } else if column < next {
        assert(cell.width is Wide);
        assert(is_paired(snapshot, line, from));
    } else {
        in_the_columns_of_a_run(snapshot, map, line, next, class, column);
        let k = rest.index_of(column);
        assert(columns[k + 1] == column);
    }
}

} // verus!
