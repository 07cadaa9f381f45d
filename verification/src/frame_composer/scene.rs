//! Composes the scene of a frame.
use vstd::prelude::*;
use crate::config::{ColorsConfig, CursorStyle};
use crate::frame_composer::assets::{
    all_drawn, budget_fault, counted_bytes, is_sorted, pen_after, place_glyphs, placed,
    sorted_assets, validate_glyph_working_set, Clip, FontStyle, GlyphAsset, GlyphLimits,
    GlyphPlacement, ShapedGlyph, TextPlace,
};
use crate::frame_composer::decoration::{
    effective_underline_style, push_underline_primitives, underline_of, underline_rectangles,
};
use crate::frame_composer::palette::{
    cursor_glyph_color, dim, dimmed, resolve_cell_colors, resolve_color, resolved, text_color,
};
use crate::frame_composer::question::{
    compose_paste_confirmation, question_fault, question_glyphs, question_rectangles,
};
use crate::frame_composer::requests::{
    cell_cluster, cell_shows_text, cell_style, cluster_of, find_shape, shape_of, shows_preedit,
    shows_text, style_of, ShapedCluster,
};
use crate::frame_composer::runs::{belongs, columns_of, TerminalShape};
use crate::frame_composer::tab_strip::{bar_rectangles, items_glyphs, push_tab_bar};
use crate::frame_composer::{
    cell_selected, is_selected, validate_widths, width_fault_from, ComposeError,
    CursorPresentationPolicy, FrameOverlays, RectangleInstance, SnapshotFault, CONFIRMATION_LINES,
    MAX_DECORATION_PRIMITIVES,
};
use crate::interaction::PixelRect;
use crate::layout::GridLayout;
use crate::presentation::FrameKey;
use crate::terminal::snapshot::{
    CellWidth, CursorBlink, CursorShape, FrameSnapshot, TerminalColor, UnderlineStyle,
};
use crate::text::chars_of;
use crate::unicode_layout::VisualGridMap;

verus! {

/// What a frame is made from.
#[derive(Clone, Copy, Debug)]
pub struct SceneInput<'a> {
    pub snapshot: &'a FrameSnapshot,
    pub overlays: FrameOverlays<'a>,
    pub layout: &'a GridLayout,
    pub colors: &'a ColorsConfig,
    pub cursor_policy: CursorPresentationPolicy,
    pub visual_map: &'a VisualGridMap,
    pub layout_generation: u64,
}

/// The texts of a frame after they were shaped, and the bitmaps of their glyphs. `terminal_shapes`
/// has one item for each cell.
#[derive(Debug)]
pub struct WorkingSet {
    pub shaped: Vec<ShapedCluster>,
    pub terminal_shapes: Vec<TerminalShape>,
    pub tab_shaped: Vec<ShapedCluster>,
    pub tab_baseline_px: i16,
    pub assets: Vec<GlyphAsset>,
    pub limits: GlyphLimits,
}

/// A part of the scrollbar.
#[derive(Clone, Copy, Debug, PartialEq, Eq, Structural)]
pub struct ScrollbarPart {
    pub rect: PixelRect,
    pub color: u32,
}

/// What is drawn. The parts of the scrollbar come after the other rectangles.
#[derive(Debug)]
pub struct SceneData {
    pub clear: u32,
    pub rectangles: Vec<RectangleInstance>,
    pub scrollbar: Vec<ScrollbarPart>,
    pub glyphs: Vec<GlyphPlacement>,
    pub glyph_assets: Vec<GlyphAsset>,
    pub source_generation: u64,
    pub font_generation: u64,
    pub frame_key: FrameKey,
}

/// The style of the cursor of a frame.
pub open spec fn cursor_style(input: SceneInput) -> CursorStyle {
    match input.snapshot.cursor.shape {
        CursorShape::Block => CursorStyle::Block,
        CursorShape::Beam => CursorStyle::Beam,
        CursorShape::Underline => CursorStyle::Underline,
    }
}

/// Whether the cursor is shown: one that blinks only half of the time.
pub open spec fn cursor_visible(input: SceneInput) -> bool {
    input.snapshot.cursor.visible && (input.snapshot.cursor.blink is Steady
        || input.cursor_policy.blink_phase_visible)
}

/// The line and the column of a cell.
pub open spec fn line_of(input: SceneInput, i: int) -> int {
    i / input.snapshot.grid.columns as int
}

pub open spec fn column_of(input: SceneInput, i: int) -> int {
    i % input.snapshot.grid.columns as int
}

/// The column in which a cell is seen.
pub open spec fn visual_column(input: SceneInput, line: int, column: int) -> int {
    input.visual_map.lines@[line].logical_to_visual_cell@[column] as int
}

/// Whether a cell is selected.
pub open spec fn selected(input: SceneInput, i: int) -> bool {
    is_selected(
        *input.overlays.selection,
        input.snapshot.generation,
        column_of(input, i) as u16,
        line_of(input, i) as u16,
    )
}

/// The colors of the text and of the ground of a cell: what it asks for, reversed and dimmed where
/// it says so, and those of the selection where it is selected.
pub open spec fn cell_colors(input: SceneInput, i: int) -> (u32, u32) {
    let cell = input.snapshot.cells@[i];
    let colors = input.colors@;
    let text = resolved(cell.foreground, colors.foreground.0, colors);
    let ground = resolved(cell.background, colors.background.0, colors);
    let (text, ground) = if cell.flags.inverse {
        (ground, text)
    } else {
        (text, ground)
    };
    let text = if cell.flags.dim {
        dimmed(text)
    } else {
        text
    };
    if selected(input, i) {
        (colors.selection_foreground.0, colors.selection_background.0)
    } else {
        (text, ground)
    }
}

/// The ground of a cell, where it is not that of the window.
pub open spec fn cell_ground(input: SceneInput, i: int) -> Seq<RectangleInstance> {
    let cell = input.snapshot.cells@[i];
    let line = line_of(input, i);
    if cell.background != TerminalColor::Named(257) || cell.flags.inverse || selected(input, i) {
        seq![
            RectangleInstance {
                x: input.layout.column_x(visual_column(input, line, column_of(input, i))) as u64,
                y: input.layout.line_y(line) as u64,
                width: input.layout.cell_px@[0] as u64,
                height: input.layout.cell_px@[1] as u64,
                color: cell_colors(input, i).1,
            },
        ]
    } else {
        Seq::empty()
    }
}

/// The color of the line under a cell.
pub open spec fn underline_color(input: SceneInput, i: int) -> u32 {
    let cell = input.snapshot.cells@[i];
    let text = cell_colors(input, i).0;
    if cell.underline_style is Off {
        text
    } else {
        match cell.underline_color {
            Some(color) => resolved(color, text, input.colors@),
            None => text,
        }
    }
}

/// What is drawn under a cell, where so many marks are drawn already.
pub open spec fn cell_underline(input: SceneInput, i: int, count: int) -> Seq<RectangleInstance> {
    let cell = input.snapshot.cells@[i];
    let line = line_of(input, i);
    underline_rectangles(
        underline_of(cell),
        input.layout.column_x(visual_column(input, line, column_of(input, i))) as u32,
        input.layout.line_y(line) as u32,
        *input.layout,
        columns_of(cell) as u32,
        underline_color(input, i),
        count,
    )
}

/// The line through a cell.
pub open spec fn cell_strike(input: SceneInput, i: int) -> Seq<RectangleInstance> {
    let cell = input.snapshot.cells@[i];
    let line = line_of(input, i);
    if cell.flags.strikeout {
        let y = input.layout.line_y(line) + input.layout.cell_metrics.strike_y_px;
        seq![
            RectangleInstance {
                x: input.layout.column_x(visual_column(input, line, column_of(input, i))) as u64,
                y: (if y > 0 {
                    y
                } else {
                    0
                }) as u64,
                width: (input.layout.cell_px@[0] * columns_of(cell)) as u64,
                height: input.layout.cell_metrics.strike_thickness_px as u64,
                color: cell_colors(input, i).0,
            },
        ]
    } else {
        Seq::empty()
    }
}

/// Rectangles, and how many of them are marks under text.
pub struct Drawn {
    pub rectangles: Seq<RectangleInstance>,
    pub marks: int,
}

/// What is drawn of the first cells, apart from their text.
pub open spec fn cells_drawn(input: SceneInput, n: int) -> Drawn
    decreases n,
{
    if n <= 0 {
        Drawn { rectangles: Seq::empty(), marks: 0 }
    } else {
        let before = cells_drawn(input, n - 1);
        let underline = cell_underline(input, n - 1, before.marks);
        Drawn {
            rectangles: before.rectangles + (cell_ground(input, n - 1) + underline + cell_strike(
                input,
                n - 1,
            )),
            marks: before.marks + underline.len(),
        }
    }
}

/// The leftmost of the columns in which some cells of a line are seen.
pub open spec fn leftmost(input: SceneInput, line: int, from: int, to: int, known: int) -> int
    decreases to - from,
{
    if from >= to {
        known
    } else {
        let here = visual_column(input, line, from);
        leftmost(
            input,
            line,
            from + 1,
            to,
            if here < known {
                here
            } else {
                known
            },
        )
    }
}

/// The text of a cell after it was shaped: its glyphs, how many columns they take, and the column
/// in which they are seen.
pub struct CellText {
    pub glyphs: Seq<ShapedGlyph>,
    pub span: int,
    pub column: int,
}

/// The text of a cell: as part of a run, or else on its own.
pub open spec fn cell_text(input: SceneInput, set: WorkingSet, i: int) -> Option<CellText> {
    let cell = input.snapshot.cells@[i];
    let line = line_of(input, i);
    let column = column_of(input, i);
    let shape = set.terminal_shapes@[i];
    let seen = visual_column(input, line, column);
    if shape.glyphs@.len() > 0 {
        let end = if column + shape.span < input.snapshot.grid.columns {
            column + shape.span
        } else {
            input.snapshot.grid.columns as int
        };
        Some(
            CellText {
                glyphs: shape.glyphs@,
                span: shape.span as int,
                column: if column < end {
                    leftmost(input, line, column + 1, end, seen)
                } else {
                    seen
                },
            },
        )
    } else {
        match shape_of(set.shaped@, cluster_of(cell), style_of(cell)) {
            Some(glyphs) => Some(CellText { glyphs, span: columns_of(cell), column: seen }),
            None => None,
        }
    }
}

/// Whether the cursor is on a cell.
pub open spec fn under_cursor(input: SceneInput, i: int) -> bool {
    cursor_visible(input) && input.snapshot.cursor.column == column_of(input, i)
        && input.snapshot.cursor.line == line_of(input, i)
}

/// Where the text of a cell stands.
pub open spec fn cell_place(input: SceneInput, text: CellText, i: int) -> TextPlace {
    let line = line_of(input, i);
    let x = input.layout.column_x(text.column);
    let y = input.layout.line_y(line);
    let (foreground, background) = cell_colors(input, i);
    TextPlace {
        x: x as i64,
        base: (y + input.layout.cell_metrics.baseline_px) as i64,
        clip: Clip {
            x: x as u32,
            y: y as u32,
            width: (input.layout.cell_px@[0] * text.span) as u32,
            height: input.layout.cell_px@[1] as u32,
        },
        color: text_color(foreground, background, cursor_style(input), under_cursor(input, i)),
        dimmed: input.snapshot.cells@[i].flags.dim,
    }
}

/// What is wrong with the text of a cell.
pub open spec fn cell_fault(input: SceneInput, set: WorkingSet, i: int) -> Option<ComposeError> {
    if !shows_text(input.snapshot.cells@[i]) {
        None
    } else {
        match cell_text(input, set, i) {
            None => Some(ComposeError::Snapshot(SnapshotFault::MissingCluster)),
            Some(text) => if all_drawn(text.glyphs, set.assets@) {
                None
            } else {
                Some(ComposeError::Snapshot(SnapshotFault::MissingAsset))
            },
        }
    }
}

/// The first thing that is wrong with the text of the cells, from one on.
pub open spec fn cells_fault(input: SceneInput, set: WorkingSet, i: int) -> Option<ComposeError>
    decreases input.snapshot.cells@.len() - i,
{
    if i < 0 || i >= input.snapshot.cells@.len() {
        None
    } else if cell_fault(input, set, i) is Some {
        cell_fault(input, set, i)
    } else {
        cells_fault(input, set, i + 1)
    }
}

/// The text of the first cells.
pub open spec fn cells_glyphs(input: SceneInput, set: WorkingSet, n: int) -> Seq<GlyphPlacement>
    decreases n,
{
    if n <= 0 {
        Seq::empty()
    } else {
        let before = cells_glyphs(input, set, n - 1);
        if shows_text(input.snapshot.cells@[n - 1]) {
            match cell_text(input, set, n - 1) {
                Some(text) => before + placed(
                    text.glyphs,
                    set.assets@,
                    cell_place(input, text, n - 1),
                    text.glyphs.len() as int,
                ),
                None => before,
            }
        } else {
            before
        }
    }
}

/// The cursor.
pub open spec fn cursor_rectangles(input: SceneInput) -> Seq<RectangleInstance> {
    let cursor = input.snapshot.cursor;
    if cursor_visible(input) && cursor.column < input.snapshot.grid.columns && cursor.line
        < input.snapshot.grid.lines {
        let x = input.layout.column_x(
            visual_column(input, cursor.line as int, cursor.column as int),
        );
        let y = input.layout.line_y(cursor.line as int);
        let width = input.layout.cell_px@[0] as int;
        let height = input.layout.cell_px@[1] as int;
        let (y, width, height) = match cursor_style(input) {
            CursorStyle::Block => (y, width, height),
            CursorStyle::Beam => (y, 1, height),
            CursorStyle::Underline => (y + height - 1, width, 1),
        };
        seq![
            RectangleInstance {
                x: x as u64,
                y: y as u64,
                width: width as u64,
                height: height as u64,
                color: input.colors.cursor.0,
            },
        ]
    } else {
        Seq::empty()
    }
}

/// Whether a text that is being composed is drawn.
pub open spec fn draws_preedit(input: SceneInput) -> bool {
    shows_preedit(*input.snapshot, input.overlays.preedit)
        && input.overlays.preedit->0.anchor@[0] < input.snapshot.grid.columns
        && input.overlays.preedit->0.anchor@[1] < input.snapshot.grid.lines
}

/// The glyphs of a text that is being composed.
pub open spec fn preedit_shape(input: SceneInput, set: WorkingSet) -> Option<Seq<ShapedGlyph>> {
    shape_of(set.shaped@, input.overlays.preedit->0.text@, FontStyle::Regular)
}

/// What is wrong with a text that is being composed.
pub open spec fn preedit_fault(input: SceneInput, set: WorkingSet) -> Option<ComposeError> {
    if !draws_preedit(input) {
        None
    } else {
        match preedit_shape(input, set) {
            None => Some(ComposeError::Snapshot(SnapshotFault::MissingPreedit)),
            Some(glyphs) => if all_drawn(glyphs, set.assets@) {
                None
            } else {
                Some(ComposeError::Snapshot(SnapshotFault::MissingPreeditAsset))
            },
        }
    }
}

/// The corner at which a text that is being composed begins.
pub open spec fn preedit_x(input: SceneInput) -> int {
    let anchor = input.overlays.preedit->0.anchor@;
    input.layout.column_x(visual_column(input, anchor[1] as int, anchor[0] as int))
}

pub open spec fn preedit_y(input: SceneInput) -> int {
    input.layout.line_y(input.overlays.preedit->0.anchor@[1] as int)
}

/// Where a text that is being composed stands.
pub open spec fn preedit_place(input: SceneInput) -> TextPlace {
    let x = preedit_x(input);
    let y = preedit_y(input);
    TextPlace {
        x: x as i64,
        base: (y + input.layout.cell_metrics.baseline_px) as i64,
        clip: Clip {
            x: x as u32,
            y: y as u32,
            width: (if input.layout.viewport_px.width > x {
                input.layout.viewport_px.width - x
            } else {
                0
            }) as u32,
            height: input.layout.cell_px@[1] as u32,
        },
        color: input.colors.foreground.0,
        dimmed: false,
    }
}

/// A text that is being composed.
pub open spec fn preedit_glyphs(input: SceneInput, set: WorkingSet) -> Seq<GlyphPlacement> {
    if draws_preedit(input) && preedit_shape(input, set) is Some {
        let glyphs = preedit_shape(input, set)->0;
        placed(glyphs, set.assets@, preedit_place(input), glyphs.len() as int)
    } else {
        Seq::empty()
    }
}

/// The line under a text that is being composed: as wide as it, and one pixel at least.
pub open spec fn preedit_rectangles(input: SceneInput, set: WorkingSet) -> Seq<RectangleInstance> {
    if draws_preedit(input) && preedit_shape(input, set) is Some {
        let glyphs = preedit_shape(input, set)->0;
        let pen = pen_after(glyphs, set.assets@, glyphs.len() as int) as int;
        seq![
            RectangleInstance {
                x: preedit_x(input) as u64,
                y: (preedit_y(input) + input.layout.cell_px@[1] - 1) as u64,
                width: (((if pen > 64 {
                    pen
                } else {
                    64
                }) + 63) / 64) as u64,
                height: 1,
                color: input.colors.foreground.0,
            },
        ]
    } else {
        Seq::empty()
    }
}

/// What is drawn of a frame, apart from its text.
pub open spec fn scene_rectangles(input: SceneInput, set: WorkingSet) -> Seq<RectangleInstance> {
    match input.overlays.paste_confirmation {
        Some(_) => question_rectangles(*input.layout),
        None => cells_drawn(input, input.snapshot.cells@.len() as int).rectangles
            + cursor_rectangles(input) + (match input.overlays.tab_bar {
            Some(bar) => bar_rectangles(*bar),
            None => Seq::empty(),
        }) + preedit_rectangles(input, set),
    }
}

/// A part of the scrollbar, where it takes room and is not wholly transparent.
pub open spec fn scrollbar_part(rect: PixelRect, color: u32) -> Seq<ScrollbarPart> {
    if rect.width.positive() && rect.height.positive() && color % 256 != 0 {
        seq![ScrollbarPart { rect, color }]
    } else {
        Seq::empty()
    }
}

/// The scrollbar: its track, then its thumb.
pub open spec fn scene_scrollbar(input: SceneInput) -> Seq<ScrollbarPart> {
    match (input.overlays.paste_confirmation, input.overlays.scrollbar) {
        (None, Some(bar)) => scrollbar_part(bar.track, bar.track_color.0) + scrollbar_part(
            bar.thumb,
            bar.thumb_color.0,
        ),
        _ => Seq::empty(),
    }
}

/// The text of a frame.
pub open spec fn scene_glyphs(input: SceneInput, set: WorkingSet) -> Seq<GlyphPlacement> {
    match input.overlays.paste_confirmation {
        Some(confirmation) => question_glyphs(
            *confirmation,
            *input.layout,
            set.shaped@,
            set.assets@,
            CONFIRMATION_LINES as int,
        ),
        None => cells_glyphs(input, set, input.snapshot.cells@.len() as int) + (
        match input.overlays.tab_bar {
            Some(bar) => items_glyphs(
                bar.items@,
                set.tab_shaped@,
                set.assets@,
                set.tab_baseline_px,
                bar.items@.len() as int,
            ),
            None => Seq::empty(),
        }) + preedit_glyphs(input, set),
    }
}

/// Whether the snapshot, the layout and the map are of one grid.
pub open spec fn grids_agree(input: SceneInput) -> bool {
    &&& input.snapshot.grid == input.layout.grid
    &&& input.snapshot.cells@.len() == input.snapshot.grid.cell_count()
    &&& input.visual_map.grid == input.snapshot.grid
    &&& input.visual_map.snapshot_generation == input.snapshot.generation
}

/// The first thing that is wrong with the parts of a frame.
pub open spec fn input_fault(input: SceneInput) -> Option<ComposeError> {
    if !grids_agree(input) {
        Some(ComposeError::Snapshot(SnapshotFault::GridsDiffer))
    } else {
        width_fault_from(input.snapshot.cells@, input.snapshot.grid.columns as int, 0)
    }
}

/// The first thing that is wrong with the texts of a frame.
pub open spec fn text_fault(input: SceneInput, set: WorkingSet) -> Option<ComposeError> {
    match input.overlays.paste_confirmation {
        Some(confirmation) => question_fault(*confirmation, set.shaped@, set.assets@, 0),
        None => if cells_fault(input, set, 0) is Some {
            cells_fault(input, set, 0)
        } else {
            preedit_fault(input, set)
        },
    }
}

/// The first thing that keeps a frame from being drawn.
pub open spec fn scene_fault(input: SceneInput, set: WorkingSet) -> Option<ComposeError> {
    if input_fault(input) is Some {
        input_fault(input)
    } else if text_fault(input, set) is Some {
        text_fault(input, set)
    } else {
        budget_fault(
            scene_glyphs(input, set).len() as int,
            set.assets@.len() as int,
            counted_bytes(set.assets@),
            set.limits,
        )
    }
}

/// What a frame was made from.
pub open spec fn key_of(input: SceneInput) -> FrameKey {
    FrameKey {
        snapshot_generation: input.snapshot.generation,
        layout_generation: input.layout_generation,
        font_generation: input.layout.font_generation,
        unicode_policy_generation: input.visual_map.policy_generation,
    }
}

/// The parts of a frame that fit together.
pub open spec fn is_whole(input: SceneInput) -> bool {
    input.layout.wf() && grids_agree(input) && belongs(*input.snapshot, *input.visual_map)
}

/// Checks that the parts of a frame fit together.
pub fn check_frame(input: &SceneInput) -> (result: Result<(), ComposeError>)
    requires
        input.layout.wf(),
        input.visual_map.covers_grid(),
    ensures
        match input_fault(*input) {
            Some(fault) => result == Err::<(), ComposeError>(fault),
            None => result is Ok && is_whole(*input),
        },
{
    let snapshot = input.snapshot;
    if snapshot.grid != input.layout.grid {
        return Err(ComposeError::Snapshot(SnapshotFault::GridsDiffer));
    }
    let columns: usize = snapshot.grid.columns();
    let lines: usize = snapshot.grid.lines();
    assert(columns * lines <= 512 * 256) by (nonlinear_arith)
        requires
            columns <= 512,
            lines <= 256,
    ;
    if snapshot.cells.len() != columns * lines || input.visual_map.grid != snapshot.grid
        || input.visual_map.snapshot_generation != snapshot.generation {
        return Err(ComposeError::Snapshot(SnapshotFault::GridsDiffer));
    }
    validate_widths(snapshot)
}

proof fn cell_is_on_grid(input: SceneInput, i: int)
    requires
        is_whole(input),
        0 <= i < input.snapshot.cells@.len(),
    ensures
        0 <= line_of(input, i) < input.snapshot.grid.lines,
        0 <= column_of(input, i) < input.snapshot.grid.columns,
{
    let columns = input.snapshot.grid.columns as int;
    let lines = input.snapshot.grid.lines as int;
    vstd::arithmetic::div_mod::lemma_fundamental_div_mod(i, columns);
    vstd::arithmetic::div_mod::lemma_mod_bound(i, columns);
    let q = i / columns;
    let r = i % columns;
    assert(0 <= q < lines) by (nonlinear_arith)
        requires
            i == columns * q + r,
            0 <= r < columns,
            0 <= i < columns * lines,
    ;
}

pub(crate) proof fn places_are_in_the_window(layout: GridLayout, column: int, line: int)
    requires
        layout.wf(),
        0 <= column < layout.grid.columns,
        0 <= line < layout.grid.lines,
    ensures
        0 <= layout.column_x(column) <= u32::MAX - layout.cell_px@[0],
        0 <= layout.line_y(line) <= u32::MAX - layout.cell_px@[1],
        0 <= column * layout.cell_px@[0] <= 0xffff * 512,
        0 <= line * layout.cell_px@[1] <= 0xffff * 512,
{
    let w = layout.cell_px@[0] as int;
    let h = layout.cell_px@[1] as int;
    let columns = layout.grid.columns as int;
    let lines = layout.grid.lines as int;
    assert(0 <= column * w && column * w + w <= w * columns) by (nonlinear_arith)
        requires
            0 <= column < columns,
            w > 0,
    ;
    assert(0 <= line * h && line * h + h <= h * lines) by (nonlinear_arith)
        requires
            0 <= line < lines,
            h > 0,
    ;
    assert(w * columns <= 0xffff * 512) by (nonlinear_arith)
        requires
            0 <= w <= 0xffff,
            0 <= columns <= 512,
    ;
    assert(h * lines <= 0xffff * 512) by (nonlinear_arith)
        requires
            0 <= h <= 0xffff,
            0 <= lines <= 256,
    ;
}

/// The top left corner of a place of the grid.
pub fn cell_origin(layout: &GridLayout, column: usize, line: usize) -> (result: [u32; 2])
    requires
        layout.wf(),
        column < layout.grid.columns,
        line < layout.grid.lines,
    ensures
        result@[0] == layout.column_x(column as int),
        result@[1] == layout.line_y(line as int),
        result@[0] + layout.cell_px@[0] <= u32::MAX,
        result@[1] + layout.cell_px@[1] <= u32::MAX,
{
    proof {
        places_are_in_the_window(*layout, column as int, line as int);
    }
    [
        layout.content_origin_px[0] + column as u32 * layout.cell_px[0] as u32,
        layout.content_origin_px[1] + line as u32 * layout.cell_px[1] as u32,
    ]
}

fn find_visual(input: &SceneInput, line: usize, column: usize) -> (result: usize)
    requires
        is_whole(*input),
        line < input.snapshot.grid.lines,
        column < input.snapshot.grid.columns,
    ensures
        result == visual_column(*input, line as int, column as int),
        result < input.snapshot.grid.columns,
{
    let row = &input.visual_map.lines[line];
    assert(row.covers(input.visual_map.grid.columns as int));
    assert(row.logical_to_visual_cell@[column as int] < input.visual_map.grid.columns);
    row.logical_to_visual_cell[column] as usize
}

fn find_cursor_style(input: &SceneInput) -> (result: CursorStyle)
    ensures
        result == cursor_style(*input),
{
    match input.snapshot.cursor.shape {
        CursorShape::Block => CursorStyle::Block,
        CursorShape::Beam => CursorStyle::Beam,
        CursorShape::Underline => CursorStyle::Underline,
    }
}

fn is_cursor_visible(input: &SceneInput) -> (result: bool)
    ensures
        result == cursor_visible(*input),
{
    input.snapshot.cursor.visible && (input.snapshot.cursor.blink == CursorBlink::Steady
        || input.cursor_policy.blink_phase_visible)
}

/// A cell, by its place, with its colors.
#[derive(Clone, Copy)]
struct CellFacts {
    index: usize,
    line: usize,
    column: usize,
    visual: usize,
    selected: bool,
    foreground: u32,
    background: u32,
}

impl CellFacts {
    spec fn of(self, input: SceneInput) -> bool {
        let i = self.index as int;
        &&& 0 <= i < input.snapshot.cells@.len()
        &&& self.line == line_of(input, i) < input.snapshot.grid.lines
        &&& self.column == column_of(input, i) < input.snapshot.grid.columns
        &&& self.visual == visual_column(input, self.line as int, self.column as int)
            < input.snapshot.grid.columns
        &&& self.selected == selected(input, i)
        &&& (self.foreground, self.background) == cell_colors(input, i)
    }
}

fn find_facts(input: &SceneInput, i: usize) -> (result: CellFacts)
    requires
        is_whole(*input),
        i < input.snapshot.cells@.len(),
    ensures
        result.of(*input),
        result.index == i,
{
    proof {
        cell_is_on_grid(*input, i as int);
    }
    let columns: usize = input.snapshot.grid.columns();
    let line: usize = i / columns;
    let column: usize = i % columns;
    let visual: usize = find_visual(input, line, column);
    let cell = &input.snapshot.cells[i];
    let selected = cell_selected(
        input.overlays.selection,
        input.snapshot.generation,
        column as u16,
        line as u16,
    );
    let (text, ground) = resolve_cell_colors(cell.foreground, cell.background, input.colors);
    let mut foreground: u32 = text;
    let mut background: u32 = ground;
    if cell.flags.inverse {
        foreground = ground;
        background = text;
    }
    if cell.flags.dim {
        foreground = dim(foreground);
    }
    if selected {
        foreground = input.colors.selection_foreground.0;
        background = input.colors.selection_background.0;
    }
    CellFacts { index: i, line, column, visual, selected, foreground, background }
}

fn push_cell_rectangles(
    rectangles: &mut Vec<RectangleInstance>,
    marks: &mut usize,
    input: &SceneInput,
    facts: CellFacts,
)
    requires
        is_whole(*input),
        facts.of(*input),
        *old(marks) <= MAX_DECORATION_PRIMITIVES,
    ensures
        ({
            let i = facts.index as int;
            let underline = cell_underline(*input, i, *old(marks) as int);
            &&& final(rectangles)@ == old(rectangles)@ + (cell_ground(*input, i) + underline
                + cell_strike(*input, i))
            &&& *final(marks) == *old(marks) + underline.len()
            &&& *final(marks) <= MAX_DECORATION_PRIMITIVES
        }),
{
    let ghost i = facts.index as int;
    let ghost before = rectangles@;
    let ghost count = *marks as int;
    let cell = &input.snapshot.cells[facts.index];
    let layout = input.layout;
    let origin = cell_origin(layout, facts.visual, facts.line);
    if cell.background != TerminalColor::Named(257) || cell.flags.inverse || facts.selected {
        rectangles.push(
            RectangleInstance {
                x: origin[0] as u64,
                y: origin[1] as u64,
                width: layout.cell_px[0] as u64,
                height: layout.cell_px[1] as u64,
                color: facts.background,
            },
        );
    }
    assert(rectangles@ =~= before + cell_ground(*input, i));
    let ghost grounded = rectangles@;
    let span: u32 = if cell.width == CellWidth::Wide {
        2
    } else {
        1
    };
    let style = effective_underline_style(cell);
    let color: u32 = if cell.underline_style == UnderlineStyle::Off {
        facts.foreground
    } else {
        match cell.underline_color {
            Some(color) => resolve_color(color, facts.foreground, input.colors),
            None => facts.foreground,
        }
    };
    push_underline_primitives(rectangles, marks, style, origin, layout, span, color);
    let ghost underline = cell_underline(*input, i, count);
    assert(rectangles@ == grounded + underline);
    let ghost underlined = rectangles@;
    if cell.flags.strikeout {
        let y: i64 = origin[1] as i64 + layout.cell_metrics.strike_y_px as i64;
        rectangles.push(
            RectangleInstance {
                x: origin[0] as u64,
                y: if y > 0 {
                    y as u64
                } else {
                    0
                },
                width: layout.cell_px[0] as u64 * span as u64,
                height: layout.cell_metrics.strike_thickness_px as u64,
                color: facts.foreground,
            },
        );
    }
    assert(rectangles@ =~= underlined + cell_strike(*input, i));
    assert(rectangles@ =~= before + (cell_ground(*input, i) + underline + cell_strike(*input, i)));
}

fn find_leftmost(input: &SceneInput, line: usize, from: usize, to: usize, known: usize) -> (result:
    usize)
    requires
        is_whole(*input),
        line < input.snapshot.grid.lines,
        to <= input.snapshot.grid.columns,
        from <= to,
        known < input.snapshot.grid.columns,
    ensures
        result == leftmost(*input, line as int, from as int, to as int, known as int),
        result < input.snapshot.grid.columns,
{
    let mut best: usize = known;
    let mut i: usize = from;
    while i < to
        invariant
            from <= i <= to,
            is_whole(*input),
            line < input.snapshot.grid.lines,
            to <= input.snapshot.grid.columns,
            best < input.snapshot.grid.columns,
            leftmost(*input, line as int, from as int, to as int, known as int) == leftmost(
                *input,
                line as int,
                i as int,
                to as int,
                best as int,
            ),
        decreases to - i,
    {
        let here: usize = find_visual(input, line, i);
        if here < best {
            best = here;
        }
        i += 1;
    }
    best
}

/// Draws the text of a cell. Gives what is wrong with it.
fn push_cell_text(
    out: &mut Vec<GlyphPlacement>,
    input: &SceneInput,
    set: &WorkingSet,
    facts: CellFacts,
) -> (result: Result<(), ComposeError>)
    requires
        is_whole(*input),
        facts.of(*input),
        set.terminal_shapes@.len() == input.snapshot.cells@.len(),
        shows_text(input.snapshot.cells@[facts.index as int]),
    ensures
        match cell_fault(*input, *set, facts.index as int) {
            Some(fault) => result == Err::<(), ComposeError>(fault),
            None => {
                let text = cell_text(*input, *set, facts.index as int)->0;
                &&& result is Ok
                &&& final(out)@ == old(out)@ + placed(
                    text.glyphs,
                    set.assets@,
                    cell_place(*input, text, facts.index as int),
                    text.glyphs.len() as int,
                )
            },
        },
{
    let ghost i = facts.index as int;
    let cell = &input.snapshot.cells[facts.index];
    let layout = input.layout;
    let columns: usize = input.snapshot.grid.columns();
    let shape = &set.terminal_shapes[facts.index];
    let mut glyphs: &Vec<ShapedGlyph> = &shape.glyphs;
    let mut span: u32 = shape.span as u32;
    let mut visual: usize = facts.visual;
    if shape.glyphs.len() > 0 {
        let mut end: usize = columns;
        if facts.column + (shape.span as usize) < columns {
            end = facts.column + shape.span as usize;
        }
        if facts.column < end {
            visual = find_leftmost(input, facts.line, facts.column + 1, end, facts.visual);
        }
    } else {
        match find_shape(&set.shaped, &cell_cluster(cell), cell_style(cell)) {
            Some(at) => {
                glyphs = &set.shaped[at].glyphs;
                span = if cell.width == CellWidth::Wide {
                    2
                } else {
                    1
                };
            },
            None => {
                return Err(ComposeError::Snapshot(SnapshotFault::MissingCluster));
            },
        }
    }
    let ghost text = cell_text(*input, *set, i)->0;
    assert(text.glyphs == glyphs@ && text.span == span && text.column == visual);
    let origin = cell_origin(layout, visual, facts.line);
    let under = is_cursor_visible(input) && input.snapshot.cursor.column as usize == facts.column
        && input.snapshot.cursor.line as usize == facts.line;
    let cell_width: u32 = layout.cell_px[0] as u32;
    assert(0 <= cell_width * span <= 0xffff * 255) by (nonlinear_arith)
        requires
            0 <= cell_width <= 0xffff,
            0 <= span <= 255,
    ;
    let place = TextPlace {
        x: origin[0] as i64,
        base: origin[1] as i64 + layout.cell_metrics.baseline_px as i64,
        clip: Clip {
            x: origin[0],
            y: origin[1],
            width: cell_width * span,
            height: layout.cell_px[1] as u32,
        },
        color: cursor_glyph_color(
            facts.foreground,
            facts.background,
            find_cursor_style(input),
            under,
        ),
        dimmed: cell.flags.dim,
    };
    assert(place == cell_place(*input, text, i));
    let (_, complete) = place_glyphs(out, glyphs, &set.assets, place);
    if complete {
        Ok(())
    } else {
        Err(ComposeError::Snapshot(SnapshotFault::MissingAsset))
    }
}

fn push_cells(
    rectangles: &mut Vec<RectangleInstance>,
    out: &mut Vec<GlyphPlacement>,
    input: &SceneInput,
    set: &WorkingSet,
) -> (result: Result<(), ComposeError>)
    requires
        is_whole(*input),
        set.terminal_shapes@.len() == input.snapshot.cells@.len(),
        old(rectangles)@.len() == 0,
        old(out)@.len() == 0,
    ensures
        match cells_fault(*input, *set, 0) {
            Some(fault) => result == Err::<(), ComposeError>(fault),
            None => {
                let n = input.snapshot.cells@.len() as int;
                &&& result is Ok
                &&& final(rectangles)@ == cells_drawn(*input, n).rectangles
                &&& final(out)@ == cells_glyphs(*input, *set, n)
            },
        },
{
    let mut marks: usize = 0;
    let mut i: usize = 0;
    assert(rectangles@ =~= Seq::empty());
    assert(out@ =~= Seq::empty());
    while i < input.snapshot.cells.len()
        invariant
            i <= input.snapshot.cells@.len(),
            is_whole(*input),
            set.terminal_shapes@.len() == input.snapshot.cells@.len(),
            marks == cells_drawn(*input, i as int).marks,
            marks <= MAX_DECORATION_PRIMITIVES,
            rectangles@ == cells_drawn(*input, i as int).rectangles,
            out@ == cells_glyphs(*input, *set, i as int),
            cells_fault(*input, *set, 0) == cells_fault(*input, *set, i as int),
        decreases input.snapshot.cells@.len() - i,
    {
        let facts = find_facts(input, i);
        push_cell_rectangles(rectangles, &mut marks, input, facts);
        if cell_shows_text(&input.snapshot.cells[i]) {
            match push_cell_text(out, input, set, facts) {
                Ok(_) => {},
                Err(fault) => {
                    return Err(fault);
                },
            }
        }
        i += 1;
    }
    Ok(())
}

fn push_cursor(rectangles: &mut Vec<RectangleInstance>, input: &SceneInput)
    requires
        is_whole(*input),
    ensures
        final(rectangles)@ == old(rectangles)@ + cursor_rectangles(*input),
{
    let ghost before = rectangles@;
    let cursor = input.snapshot.cursor;
    if is_cursor_visible(input) && cursor.column < input.snapshot.grid.columns && cursor.line
        < input.snapshot.grid.lines {
        let layout = input.layout;
        let visual: usize = find_visual(input, cursor.line as usize, cursor.column as usize);
        let origin = cell_origin(layout, visual, cursor.line as usize);
        let width: u64 = layout.cell_px[0] as u64;
        let height: u64 = layout.cell_px[1] as u64;
        let (y, width, height) = match find_cursor_style(input) {
            CursorStyle::Block => (origin[1] as u64, width, height),
            CursorStyle::Beam => (origin[1] as u64, 1, height),
            CursorStyle::Underline => (origin[1] as u64 + height - 1, width, 1),
        };
        rectangles.push(
            RectangleInstance {
                x: origin[0] as u64,
                y,
                width,
                height,
                color: input.colors.cursor.0,
            },
        );
    }
    assert(rectangles@ =~= before + cursor_rectangles(*input));
}

fn push_preedit(
    rectangles: &mut Vec<RectangleInstance>,
    out: &mut Vec<GlyphPlacement>,
    input: &SceneInput,
    set: &WorkingSet,
) -> (result: Result<(), ComposeError>)
    requires
        is_whole(*input),
    ensures
        match preedit_fault(*input, *set) {
            Some(fault) => result == Err::<(), ComposeError>(fault),
            None => {
                &&& result is Ok
                &&& final(rectangles)@ == old(rectangles)@ + preedit_rectangles(*input, *set)
                &&& final(out)@ == old(out)@ + preedit_glyphs(*input, *set)
            },
        },
{
    let ghost before = rectangles@;
    let ghost glyphs_before = out@;
    let preedit = match input.overlays.preedit {
        Some(preedit) => preedit,
        None => {
            assert(rectangles@ =~= before + preedit_rectangles(*input, *set));
            assert(out@ =~= glyphs_before + preedit_glyphs(*input, *set));
            return Ok(());
        },
    };
    let text = chars_of(preedit.text.as_str());
    if preedit.snapshot_generation != input.snapshot.generation || text.len() == 0
        || preedit.anchor[0] >= input.snapshot.grid.columns || preedit.anchor[1]
        >= input.snapshot.grid.lines {
        assert(rectangles@ =~= before + preedit_rectangles(*input, *set));
        assert(out@ =~= glyphs_before + preedit_glyphs(*input, *set));
        return Ok(());
    }
    let layout = input.layout;
    let line: usize = preedit.anchor[1] as usize;
    let visual: usize = find_visual(input, line, preedit.anchor[0] as usize);
    let origin = cell_origin(layout, visual, line);
    match find_shape(&set.shaped, &text, FontStyle::Regular) {
        None => Err(ComposeError::Snapshot(SnapshotFault::MissingPreedit)),
        Some(at) => {
            let place = TextPlace {
                x: origin[0] as i64,
                base: origin[1] as i64 + layout.cell_metrics.baseline_px as i64,
                clip: Clip {
                    x: origin[0],
                    y: origin[1],
                    width: layout.viewport_px.width.saturating_sub(origin[0]),
                    height: layout.cell_px[1] as u32,
                },
                color: input.colors.foreground.0,
                dimmed: false,
            };
            assert(place == preedit_place(*input));
            let (pen, complete) = place_glyphs(out, &set.shaped[at].glyphs, &set.assets, place);
            if !complete {
                return Err(ComposeError::Snapshot(SnapshotFault::MissingPreeditAsset));
            }
            let reach: u64 = if pen > 64 {
                pen as u64
            } else {
                64
            };
            rectangles.push(
                RectangleInstance {
                    x: origin[0] as u64,
                    y: origin[1] as u64 + layout.cell_px[1] as u64 - 1,
                    width: (reach + 63) / 64,
                    height: 1,
                    color: input.colors.foreground.0,
                },
            );
            assert(rectangles@ =~= before + preedit_rectangles(*input, *set));
            Ok(())
        },
    }
}

fn push_scrollbar_part(parts: &mut Vec<ScrollbarPart>, rect: PixelRect, color: u32)
    ensures
        final(parts)@ == old(parts)@ + scrollbar_part(rect, color),
{
    let ghost before = parts@;
    if rect.width.is_positive() && rect.height.is_positive() && color % 256 != 0 {
        parts.push(ScrollbarPart { rect, color });
    }
    assert(parts@ =~= before + scrollbar_part(rect, color));
}

/// Whether a scene is what is to be drawn of a frame.
pub open spec fn shows(scene: SceneData, input: SceneInput, set: WorkingSet) -> bool {
    &&& scene.clear == input.colors.background.0
    &&& scene.rectangles@ == scene_rectangles(input, set)
    &&& scene.scrollbar@ == scene_scrollbar(input)
    &&& scene.glyphs@ == scene_glyphs(input, set)
    &&& is_sorted(scene.glyph_assets@)
    &&& scene.glyph_assets@.to_multiset() == set.assets@.to_multiset()
    &&& scene.source_generation == input.snapshot.generation
    &&& scene.font_generation == input.layout.font_generation
    &&& scene.frame_key == key_of(input)
}

/// Composes the scene of a frame: the cells from left to right and from top to bottom, then the
/// cursor, the tab bar, the text that is being composed and the scrollbar; or, while a paste waits,
/// the question alone.
pub fn compose(input: &SceneInput, set: WorkingSet) -> (result: Result<SceneData, ComposeError>)
    requires
        input.layout.wf(),
        input.visual_map.covers_grid(),
        set.terminal_shapes@.len() == input.snapshot.cells@.len(),
    ensures
        match scene_fault(*input, set) {
            Some(fault) => result is Err && result->Err_0 == fault,
            None => result is Ok && shows(result->Ok_0, *input, set),
        },
{
    match check_frame(input) {
        Ok(_) => {},
        Err(fault) => {
            return Err(fault);
        },
    }
    let mut rectangles: Vec<RectangleInstance> = Vec::new();
    let mut glyphs: Vec<GlyphPlacement> = Vec::new();
    let mut scrollbar: Vec<ScrollbarPart> = Vec::new();
    match input.overlays.paste_confirmation {
        Some(confirmation) => {
            match compose_paste_confirmation(confirmation, input.layout, &set.shaped, &set.assets) {
                Ok((drawn, text)) => {
                    rectangles = drawn;
                    glyphs = text;
                },
                Err(fault) => {
                    return Err(fault);
                },
            }
        },
        None => {
            match push_cells(&mut rectangles, &mut glyphs, input, &set) {
                Ok(_) => {},
                Err(fault) => {
                    return Err(fault);
                },
            }
            push_cursor(&mut rectangles, input);
            let ghost drawn = rectangles@;
            let ghost text = glyphs@;
            match input.overlays.tab_bar {
                Some(bar) => {
                    push_tab_bar(
                        &mut rectangles,
                        &mut glyphs,
                        bar,
                        &set.tab_shaped,
                        &set.assets,
                        set.tab_baseline_px,
                    );
                },
                None => {
                    assert(drawn =~= drawn + Seq::<RectangleInstance>::empty());
                    assert(text =~= text + Seq::<GlyphPlacement>::empty());
                },
            }
            match push_preedit(&mut rectangles, &mut glyphs, input, &set) {
                Ok(_) => {},
                Err(fault) => {
                    return Err(fault);
                },
            }
            if let Some(bar) = input.overlays.scrollbar {
                push_scrollbar_part(&mut scrollbar, bar.track, bar.track_color.0);
                push_scrollbar_part(&mut scrollbar, bar.thumb, bar.thumb_color.0);
            }
        },
    }
    assert(rectangles@ == scene_rectangles(*input, set));
    assert(glyphs@ == scene_glyphs(*input, set));
    assert(scrollbar@ =~= scene_scrollbar(*input));
    match validate_glyph_working_set(glyphs.len(), &set.assets, set.limits) {
        Ok(_) => {},
        Err(fault) => {
            return Err(fault);
        },
    }
    Ok(
        SceneData {
            clear: input.colors.background.0,
            rectangles,
            scrollbar,
            glyphs,
            glyph_assets: sorted_assets(set.assets),
            source_generation: input.snapshot.generation,
            font_generation: input.layout.font_generation,
            frame_key: FrameKey {
                snapshot_generation: input.snapshot.generation,
                layout_generation: input.layout_generation,
                font_generation: input.layout.font_generation,
                unicode_policy_generation: input.visual_map.policy_generation,
            },
        },
    )
}

/// While a paste waits to be confirmed, nothing of the terminal is drawn: the scene is the same
/// for any two snapshots.
pub proof fn a_question_hides_the_terminal(a: SceneInput, b: SceneInput, set: WorkingSet)
    requires
        a.overlays.paste_confirmation is Some,
        a.overlays.paste_confirmation == b.overlays.paste_confirmation,
        a.layout == b.layout,
    ensures
        scene_rectangles(a, set) == scene_rectangles(b, set),
        scene_glyphs(a, set) == scene_glyphs(b, set),
        scene_scrollbar(a) == scene_scrollbar(b),
{
}

/// However the cells are underlined, a frame never holds more marks than its limit.
pub proof fn frames_keep_the_limit_of_marks(input: SceneInput, n: int)
    requires
        0 <= n <= input.snapshot.cells@.len(),
    ensures
        0 <= cells_drawn(input, n).marks <= MAX_DECORATION_PRIMITIVES,
    decreases n,
{
    if n > 0 {
        frames_keep_the_limit_of_marks(input, n - 1);
        let line = line_of(input, n - 1);
        let left = input.layout.column_x(
            visual_column(input, line, column_of(input, n - 1)),
        ) as u32;
        crate::frame_composer::decoration::marks_keep_their_limit(
            crate::frame_composer::decoration::stroke_of(
                *input.layout,
                left,
                columns_of(input.snapshot.cells@[n - 1]) as u32,
            ).marks(underline_of(input.snapshot.cells@[n - 1])),
            left,
            input.layout.line_y(line) as u32,
            underline_color(input, n - 1),
            cells_drawn(input, n - 1).marks,
        );
    }
}

} // verus!
