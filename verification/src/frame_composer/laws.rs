//! What someone who looks at a frame relies on.
use vstd::prelude::*;
use crate::config::ColorsModel;
use crate::frame_composer::assets::{placed, GlyphAsset, GlyphPlacement, ShapedGlyph, TextPlace};
use crate::frame_composer::palette::{dimmed, resolved};
use crate::frame_composer::requests::shows_text;
use crate::frame_composer::scene::{
    cell_colors, cell_ground, cell_place, cell_strike, cell_text, cells_drawn, cells_glyphs,
    column_of, cursor_rectangles, is_whole, line_of, preedit_glyphs, preedit_place,
    preedit_rectangles, selected, shows, underline_color, visual_column, SceneData, SceneInput,
    WorkingSet,
};
use crate::frame_composer::tab_strip::{
    bar_rectangles, item_rectangles, items_rectangles, title_color, title_place,
};
use crate::frame_composer::{CellRange, FrameOverlays, RectangleInstance};
use crate::tab::{TabBarItem, TabBarPresentation};
use crate::terminal::snapshot::TerminalColor;

verus! {

/// Where a cell stands in the order in which a screen is read, line after line.
pub open spec fn reading_place(column: int, line: int) -> int {
    line * 0x1_0000 + column
}

/// Whether a cell stands between the two ends of a range, in whichever order they are.
pub open spec fn lies_in(range: CellRange, column: int, line: int) -> bool {
    let a = reading_place(range.start@[0] as int, range.start@[1] as int);
    let b = reading_place(range.end@[0] as int, range.end@[1] as int);
    let p = reading_place(column, line);
    a <= p <= b || b <= p <= a
}

/// Whether a cell is one of those that are selected in the snapshot of a frame.
pub open spec fn is_picked(input: SceneInput, column: int, line: int) -> bool {
    &&& input.overlays.selection.snapshot_generation == input.snapshot.generation
    &&& exists|k: int|
        0 <= k < input.overlays.selection.ranges@.len() && lies_in(
            #[trigger] input.overlays.selection.ranges@[k],
            column,
            line,
        )
}

/// The number of a cell.
pub open spec fn cell_at(input: SceneInput, column: int, line: int) -> int {
    line * input.snapshot.grid.columns + column
}

/// Whether a place is on the grid.
pub open spec fn is_on_grid(input: SceneInput, column: int, line: int) -> bool {
    0 <= column < input.snapshot.grid.columns && 0 <= line < input.snapshot.grid.lines
}

proof fn places_have_their_cells(input: SceneInput, column: int, line: int)
    requires
        is_whole(input),
        is_on_grid(input, column, line),
    ensures
        0 <= cell_at(input, column, line) < input.snapshot.cells@.len(),
        column_of(input, cell_at(input, column, line)) == column,
        line_of(input, cell_at(input, column, line)) == line,
{
    let columns = input.snapshot.grid.columns as int;
    let lines = input.snapshot.grid.lines as int;
    let i = cell_at(input, column, line);
    assert(0 <= line * columns && line * columns + columns <= columns * lines) by (nonlinear_arith)
        requires
            0 <= line < lines,
            columns > 0,
    ;
    vstd::arithmetic::div_mod::lemma_fundamental_div_mod_converse(i, columns, line, column);
}

proof fn picked_cells_are_selected(input: SceneInput, column: int, line: int)
    requires
        is_whole(input),
        is_on_grid(input, column, line),
    ensures
        selected(input, cell_at(input, column, line)) <==> is_picked(input, column, line),
{
    places_have_their_cells(input, column, line);
    let i = cell_at(input, column, line);
    let ranges = input.overlays.selection.ranges@;
    assert forall|k: int| 0 <= k < ranges.len() implies (lies_in(
        #[trigger] ranges[k],
        column,
        line,
    ) <==> crate::frame_composer::holds(ranges[k]@, column as u16, line as u16)) by {}
    if is_picked(input, column, line) {
        let k = choose|k: int| 0 <= k < ranges.len() && lies_in(#[trigger] ranges[k], column, line);
        assert(crate::frame_composer::holds(ranges[k]@, column as u16, line as u16));
    }
    if selected(input, i) {
        let k = choose|k: int|
            0 <= k < ranges.len() && crate::frame_composer::holds(
                (#[trigger] ranges[k])@,
                column as u16,
                line as u16,
            );
        assert(lies_in(ranges[k], column, line));
    }
}

/// A cell has the colors of the selection exactly where it lies in a range that was selected in
/// this snapshot; any other looks as if nothing were selected.
pub proof fn selected_cells_have_the_colors_of_the_selection(
    input: SceneInput,
    plain: SceneInput,
    column: int,
    line: int,
)
    requires
        is_whole(input),
        is_on_grid(input, column, line),
        plain.overlays.selection.ranges@.len() == 0,
        plain == (SceneInput {
            overlays: FrameOverlays {
                selection: plain.overlays.selection,
                ..input.overlays
            },
            ..input
        }),
    ensures
        ({
            let i = cell_at(input, column, line);
            if is_picked(input, column, line) {
                &&& cell_colors(input, i) == (
                    input.colors.selection_foreground.0,
                    input.colors.selection_background.0,
                )
                &&& cell_ground(input, i).len() == 1
                &&& cell_ground(input, i)[0].color == input.colors.selection_background.0
            } else {
                &&& cell_colors(input, i) == cell_colors(plain, i)
                &&& cell_ground(input, i) == cell_ground(plain, i)
            }
        }),
{
    picked_cells_are_selected(input, column, line);
    picked_cells_are_selected(plain, column, line);
}

/// A selection from one column of a line to another of the same line takes in the cells from the
/// one to the other, and no others of the screen.
pub proof fn a_selection_in_one_line_takes_in_what_is_between(
    input: SceneInput,
    first: int,
    last: int,
    line: int,
    i: int,
)
    requires
        is_whole(input),
        input.overlays.selection.snapshot_generation == input.snapshot.generation,
        input.overlays.selection.ranges@.len() == 1,
        is_on_grid(input, first, line),
        is_on_grid(input, last, line),
        first <= last,
        input.overlays.selection.ranges@[0].start@ == seq![first as u16, line as u16],
        input.overlays.selection.ranges@[0].end@ == seq![last as u16, line as u16],
        0 <= i < input.snapshot.cells@.len(),
    ensures
        selected(input, i) <==> cell_at(input, first, line) <= i <= cell_at(input, last, line),
        cell_at(input, first, line) <= i <= cell_at(input, last, line) ==> cell_colors(input, i)
            == (input.colors.selection_foreground.0, input.colors.selection_background.0),
{
    let columns = input.snapshot.grid.columns as int;
    let lines = input.snapshot.grid.lines as int;
    let c = i % columns;
    let l = i / columns;
    vstd::arithmetic::div_mod::lemma_fundamental_div_mod(i, columns);
    vstd::arithmetic::div_mod::lemma_mod_bound(i, columns);
    assert(0 <= l < lines && i == l * columns + c) by (nonlinear_arith)
        requires
            i == columns * l + c,
            0 <= c < columns,
            0 <= i < columns * lines,
    ;
    picked_cells_are_selected(input, c, l);
    let range = input.overlays.selection.ranges@[0];
    assert(is_picked(input, c, l) <==> lies_in(range, c, l));
    assert(range.start@[0] == first as u16 && range.start@[1] == line as u16);
    assert(range.end@[0] == last as u16 && range.end@[1] == line as u16);
    if l < line {
        assert(l * columns + columns <= line * columns) by (nonlinear_arith)
            requires
                l < line,
                columns > 0,
        ;
    } else if l > line {
        assert(line * columns + columns <= l * columns) by (nonlinear_arith)
            requires
                line < l,
                columns > 0,
        ;
    }
}

/// The ground of a cell: none where it is that of the window and nothing says otherwise, else one
/// rectangle that covers the cell where it is seen, in the color of its ground.
pub proof fn grounds_cover_their_cells(input: SceneInput, column: int, line: int)
    requires
        is_whole(input),
        is_on_grid(input, column, line),
    ensures
        ({
            let i = cell_at(input, column, line);
            let cell = input.snapshot.cells@[i];
            let visual = input.visual_map.lines@[line].logical_to_visual_cell@[column] as int;
            let plain = cell.background == TerminalColor::Named(257) && !cell.flags.inverse
                && !is_picked(input, column, line);
            &&& plain ==> cell_ground(input, i).len() == 0
            &&& !plain ==> {
                let rect = cell_ground(input, i)[0];
                &&& cell_ground(input, i).len() == 1
                &&& rect.x == input.layout.content_origin_px@[0] + visual
                    * input.layout.cell_px@[0]
                &&& rect.y == input.layout.content_origin_px@[1] + line * input.layout.cell_px@[1]
                &&& rect.width == input.layout.cell_px@[0]
                &&& rect.height == input.layout.cell_px@[1]
                &&& rect.color == cell_colors(input, i).1
            }
        }),
{
    places_have_their_cells(input, column, line);
    picked_cells_are_selected(input, column, line);
    let row = input.visual_map.lines@[line];
    assert(row.covers(input.visual_map.grid.columns as int));
    assert(row.logical_to_visual_cell@[column] < input.visual_map.grid.columns);
    crate::frame_composer::scene::places_are_in_the_window(
        *input.layout,
        visual_column(input, line, column),
        line,
    );
}

/// Without a selection a cell has the colors that it asks for. Inverse exchanges the two, and dim
/// takes half the light from the color of the text alone.
pub proof fn cells_have_the_colors_they_ask_for(input: SceneInput, column: int, line: int)
    requires
        is_whole(input),
        is_on_grid(input, column, line),
        !is_picked(input, column, line),
    ensures
        ({
            let i = cell_at(input, column, line);
            let cell = input.snapshot.cells@[i];
            let colors = input.colors@;
            let text = resolved(cell.foreground, input.colors.foreground.0, colors);
            let ground = resolved(cell.background, input.colors.background.0, colors);
            &&& !cell.flags.inverse && !cell.flags.dim ==> cell_colors(input, i) == (text, ground)
            &&& cell.flags.inverse && !cell.flags.dim ==> cell_colors(input, i) == (ground, text)
            &&& !cell.flags.inverse && cell.flags.dim ==> cell_colors(input, i) == (
                dimmed(text),
                ground,
            )
            &&& cell.flags.inverse && cell.flags.dim ==> cell_colors(input, i) == (
                dimmed(ground),
                text,
            )
        }),
{
    places_have_their_cells(input, column, line);
    picked_cells_are_selected(input, column, line);
}

/// The colors that a program can ask for: the sixteen of the palette by name or number, the three of
/// the terminal by name, a cube with the steps 0, 95, 135, 175, 215 and 255 in red, then green, then
/// blue, and grays from 8 on in steps of ten.
pub proof fn colors_are_those_of_xterm(
    colors: ColorsModel,
    default: u32,
    n: u8,
    r: int,
    g: int,
    b: int,
)
    requires
        colors.ansi.len() == 16,
        0 <= r < 6,
        0 <= g < 6,
        0 <= b < 6,
    ensures
        ({
            let step = |k: int|
                if k == 0 {
                    0int
                } else if k == 1 {
                    95
                } else if k == 2 {
                    135
                } else if k == 3 {
                    175
                } else if k == 4 {
                    215
                } else {
                    255
                };
            &&& n < 16 ==> resolved(TerminalColor::Indexed(n), default, colors)
                == colors.ansi[n as int].0
            &&& n < 16 ==> resolved(TerminalColor::Named(n as u16), default, colors)
                == colors.ansi[n as int].0
            &&& resolved(TerminalColor::Named(256), default, colors) == colors.foreground.0
            &&& resolved(TerminalColor::Named(257), default, colors) == colors.background.0
            &&& resolved(TerminalColor::Named(258), default, colors) == colors.cursor.0
            &&& resolved(TerminalColor::Indexed((16 + 36 * r + 6 * g + b) as u8), default, colors)
                == step(r) * 0x100_0000 + step(g) * 0x1_0000 + step(b) * 0x100 + 0xff
            &&& n < 24 ==> resolved(TerminalColor::Indexed((232 + n) as u8), default, colors) == (8
                + 10 * n) * 0x101_0100 + 0xff
        }),
{
    let value = 36 * r + 6 * g + b;
    assert(value / 36 == r);
    assert(value / 6 == 6 * r + g);
    assert(value / 6 % 6 == g);
    assert(value % 6 == b);
}

proof fn what_is_drawn_stays(input: SceneInput, n: int, m: int, rect: RectangleInstance)
    requires
        0 <= n <= m,
        cells_drawn(input, n).rectangles.contains(rect),
    ensures
        cells_drawn(input, m).rectangles.contains(rect),
    decreases m,
{
    if n < m {
        what_is_drawn_stays(input, n, m - 1, rect);
        let before = cells_drawn(input, m - 1).rectangles;
        let k = choose|k: int| 0 <= k < before.len() && before[k] == rect;
        assert(cells_drawn(input, m).rectangles[k] == rect);
    }
}

proof fn what_is_written_stays(
    input: SceneInput,
    set: WorkingSet,
    n: int,
    m: int,
    glyph: GlyphPlacement,
)
    requires
        0 <= n <= m,
        cells_glyphs(input, set, n).contains(glyph),
    ensures
        cells_glyphs(input, set, m).contains(glyph),
    decreases m,
{
    if n < m {
        what_is_written_stays(input, set, n, m - 1, glyph);
        let before = cells_glyphs(input, set, m - 1);
        let k = choose|k: int| 0 <= k < before.len() && before[k] == glyph;
        assert(cells_glyphs(input, set, m)[k] == glyph);
    }
}

/// Glyphs are drawn in the color of their text and only within its clip.
pub proof fn glyphs_have_the_color_of_their_text(
    glyphs: Seq<ShapedGlyph>,
    assets: Seq<GlyphAsset>,
    place: TextPlace,
    n: int,
    k: int,
)
    requires
        0 <= k < placed(glyphs, assets, place, n).len(),
    ensures
        placed(glyphs, assets, place, n)[k].color == place.color,
        placed(glyphs, assets, place, n)[k].clip == place.clip,
        placed(glyphs, assets, place, n)[k].dimmed == place.dimmed,
    decreases n,
{
    if n > 0 && k < placed(glyphs, assets, place, n - 1).len() {
        glyphs_have_the_color_of_their_text(glyphs, assets, place, n - 1, k);
    }
}

/// In a frame without a question every cell is drawn: its ground, where it has one, and each glyph
/// of its text, in the color of its text and within its own line.
pub proof fn every_cell_is_drawn(
    input: SceneInput,
    set: WorkingSet,
    scene: SceneData,
    column: int,
    line: int,
)
    requires
        is_whole(input),
        input.overlays.paste_confirmation is None,
        shows(scene, input, set),
        is_on_grid(input, column, line),
    ensures
        ({
            let i = cell_at(input, column, line);
            let cell = input.snapshot.cells@[i];
            let (text_color, ground_color) = cell_colors(input, i);
            let under_block = input.snapshot.cursor.visible && input.snapshot.cursor.shape is Block
                && (input.snapshot.cursor.blink is Steady
                || input.cursor_policy.blink_phase_visible) && input.snapshot.cursor.column
                == column && input.snapshot.cursor.line == line;
            &&& forall|k: int|
                0 <= k < cell_ground(input, i).len() ==> scene.rectangles@.contains(
                    #[trigger] cell_ground(input, i)[k],
                )
            &&& forall|k: int|
                0 <= k < cell_strike(input, i).len() ==> scene.rectangles@.contains(
                    #[trigger] cell_strike(input, i)[k],
                )
            &&& shows_text(cell) && cell_text(input, set, i) is Some ==> {
                let text = cell_text(input, set, i)->0;
                let written = placed(
                    text.glyphs,
                    set.assets@,
                    cell_place(input, text, i),
                    text.glyphs.len() as int,
                );
                forall|k: int|
                    0 <= k < written.len() ==> {
                        &&& scene.glyphs@.contains(#[trigger] written[k])
                        &&& written[k].color == if under_block {
                            ground_color
                        } else {
                            text_color
                        }
                        &&& written[k].clip.y as int == input.layout.line_y(line) as u32
                        &&& written[k].clip.height == input.layout.cell_px@[1]
                    }
            }
        }),
{
    places_have_their_cells(input, column, line);
    let i = cell_at(input, column, line);
    let count = input.snapshot.cells@.len() as int;
    let drawn = cells_drawn(input, i + 1).rectangles;
    let before = cells_drawn(input, i);
    let ground = cell_ground(input, i);
    let underline = crate::frame_composer::scene::cell_underline(input, i, before.marks);
    let strike = cell_strike(input, i);
    let all = cells_drawn(input, count).rectangles;
    assert forall|rect: RectangleInstance| all.contains(rect) implies scene.rectangles@.contains(
        rect,
    ) by {
        let k = choose|k: int| 0 <= k < all.len() && all[k] == rect;
        assert(scene.rectangles@[k] == rect);
    }
    assert forall|k: int| 0 <= k < ground.len() implies scene.rectangles@.contains(
        #[trigger] ground[k],
    ) by {
        assert(drawn[before.rectangles.len() + k] == ground[k]);
        what_is_drawn_stays(input, i + 1, count, ground[k]);
    }
    assert forall|k: int| 0 <= k < strike.len() implies scene.rectangles@.contains(
        #[trigger] strike[k],
    ) by {
        assert(drawn[before.rectangles.len() + ground.len() + underline.len() + k] == strike[k]);
        what_is_drawn_stays(input, i + 1, count, strike[k]);
    }
    if shows_text(input.snapshot.cells@[i]) && cell_text(input, set, i) is Some {
        let text = cell_text(input, set, i)->0;
        let place = cell_place(input, text, i);
        let n = text.glyphs.len() as int;
        let written = placed(text.glyphs, set.assets@, place, n);
        let so_far = cells_glyphs(input, set, i);
        let glyphs = cells_glyphs(input, set, count);
        assert forall|k: int| 0 <= k < written.len() implies {
            &&& scene.glyphs@.contains(#[trigger] written[k])
            &&& written[k].color == place.color
            &&& written[k].clip == place.clip
        } by {
            glyphs_have_the_color_of_their_text(text.glyphs, set.assets@, place, n, k);
            assert(cells_glyphs(input, set, i + 1)[so_far.len() + k] == written[k]);
            what_is_written_stays(input, set, i + 1, count, written[k]);
            let at = choose|at: int| 0 <= at < glyphs.len() && glyphs[at] == written[k];
            assert(scene.glyphs@[at] == written[k]);
        }
    }
}

/// A cell that is selected is drawn as selected: its place is filled with the ground of the
/// selection, and its text has the color of selected text unless a block cursor is on it.
pub proof fn a_selection_is_drawn(
    input: SceneInput,
    set: WorkingSet,
    scene: SceneData,
    column: int,
    line: int,
    k: int,
)
    requires
        is_whole(input),
        input.overlays.paste_confirmation is None,
        shows(scene, input, set),
        is_on_grid(input, column, line),
        is_picked(input, column, line),
    ensures
        ({
            let i = cell_at(input, column, line);
            let visual = input.visual_map.lines@[line].logical_to_visual_cell@[column] as int;
            &&& scene.rectangles@.contains(
                RectangleInstance {
                    x: (input.layout.content_origin_px@[0] + visual
                        * input.layout.cell_px@[0]) as u64,
                    y: (input.layout.content_origin_px@[1] + line
                        * input.layout.cell_px@[1]) as u64,
                    width: input.layout.cell_px@[0] as u64,
                    height: input.layout.cell_px@[1] as u64,
                    color: input.colors.selection_background.0,
                },
            )
            &&& shows_text(input.snapshot.cells@[i]) && cell_text(input, set, i) is Some && !(
            input.snapshot.cursor.column == column && input.snapshot.cursor.line == line) ==> {
                let text = cell_text(input, set, i)->0;
                let written = placed(
                    text.glyphs,
                    set.assets@,
                    cell_place(input, text, i),
                    text.glyphs.len() as int,
                );
                0 <= k < written.len() ==> scene.glyphs@.contains(written[k]) && written[k].color
                    == input.colors.selection_foreground.0
            }
        }),
{
    places_have_their_cells(input, column, line);
    picked_cells_are_selected(input, column, line);
    grounds_cover_their_cells(input, column, line);
    every_cell_is_drawn(input, set, scene, column, line);
    let i = cell_at(input, column, line);
    assert(scene.rectangles@.contains(cell_ground(input, i)[0]));
}

/// A visible cursor on the grid is one rectangle in its color on the cell that it is on: all of the
/// cell for a block, one pixel at the left for a beam and one at the bottom for an underline. A
/// cursor that is hidden, in the dark half of its blinking or off the grid is not drawn.
pub proof fn the_cursor_is_where_it_is(
    input: SceneInput,
    set: WorkingSet,
    scene: SceneData,
)
    requires
        is_whole(input),
        input.overlays.paste_confirmation is None,
        shows(scene, input, set),
    ensures
        ({
            let cursor = input.snapshot.cursor;
            let drawn = cursor_rectangles(input);
            let lit = cursor.visible && (cursor.blink is Steady
                || input.cursor_policy.blink_phase_visible);
            if lit && is_on_grid(input, cursor.column as int, cursor.line as int) {
                let visual = input.visual_map.lines@[cursor.line as int].logical_to_visual_cell@[cursor.column as int] as int;
                let left = input.layout.content_origin_px@[0] + visual * input.layout.cell_px@[0];
                let top = input.layout.content_origin_px@[1] + cursor.line
                    * input.layout.cell_px@[1];
                let rect = drawn[0];
                &&& drawn.len() == 1
                &&& scene.rectangles@.contains(rect)
                &&& rect.color == input.colors.cursor.0
                &&& rect.x == left
                &&& rect.y + rect.height <= top + input.layout.cell_px@[1]
                &&& cursor.shape is Block ==> rect.y == top && rect.width
                    == input.layout.cell_px@[0] && rect.height == input.layout.cell_px@[1]
                &&& cursor.shape is Beam ==> rect.y == top && rect.width == 1 && rect.height
                    == input.layout.cell_px@[1]
                &&& cursor.shape is Underline ==> rect.y + 1 == top + input.layout.cell_px@[1]
                    && rect.width == input.layout.cell_px@[0] && rect.height == 1
            } else {
                drawn.len() == 0
            }
        }),
{
    let cursor = input.snapshot.cursor;
    let drawn = cursor_rectangles(input);
    if is_on_grid(input, cursor.column as int, cursor.line as int) {
        let row = input.visual_map.lines@[cursor.line as int];
        assert(row.covers(input.visual_map.grid.columns as int));
        assert(row.logical_to_visual_cell@[cursor.column as int] < input.visual_map.grid.columns);
        crate::frame_composer::scene::places_are_in_the_window(
            *input.layout,
            visual_column(input, cursor.line as int, cursor.column as int),
            cursor.line as int,
        );
    }
    if drawn.len() > 0 {
        let n = cells_drawn(input, input.snapshot.cells@.len() as int).rectangles.len();
        assert(scene.rectangles@[n as int] == drawn[0]);
    }
}

/// A text that is being composed is drawn where it is anchored, in the color of text, with a line of
/// one pixel under it; but not in the frame of another snapshot, nor off the grid.
pub proof fn a_composed_text_is_drawn_at_its_anchor(
    input: SceneInput,
    set: WorkingSet,
    scene: SceneData,
    k: int,
)
    requires
        is_whole(input),
        input.overlays.paste_confirmation is None,
        shows(scene, input, set),
    ensures
        ({
            let drawn = preedit_rectangles(input, set);
            let written = preedit_glyphs(input, set);
            let preedit = input.overlays.preedit->0;
            let there = input.overlays.preedit is Some && preedit.snapshot_generation
                == input.snapshot.generation && preedit.text@.len() > 0 && is_on_grid(
                input,
                preedit.anchor@[0] as int,
                preedit.anchor@[1] as int,
            );
            &&& !there ==> drawn.len() == 0 && written.len() == 0
            &&& drawn.len() > 0 ==> {
                let column = preedit.anchor@[0] as int;
                let line = preedit.anchor@[1] as int;
                let visual = input.visual_map.lines@[line].logical_to_visual_cell@[column] as int;
                let rect = drawn[0];
                &&& drawn.len() == 1
                &&& scene.rectangles@.contains(rect)
                &&& rect.x == input.layout.content_origin_px@[0] + visual
                    * input.layout.cell_px@[0]
                &&& rect.y + 1 == input.layout.content_origin_px@[1] + (line + 1)
                    * input.layout.cell_px@[1]
                &&& rect.height == 1
                &&& rect.width >= 1
                &&& rect.color == input.colors.foreground.0
            }
            &&& 0 <= k < written.len() ==> scene.glyphs@.contains(written[k]) && written[k].color
                == input.colors.foreground.0
        }),
{
    let drawn = preedit_rectangles(input, set);
    let written = preedit_glyphs(input, set);
    if drawn.len() > 0 {
        let preedit = input.overlays.preedit->0;
        let column = preedit.anchor@[0] as int;
        let line = preedit.anchor@[1] as int;
        let row = input.visual_map.lines@[line];
        assert(row.covers(input.visual_map.grid.columns as int));
        assert(row.logical_to_visual_cell@[column] < input.visual_map.grid.columns);
        crate::frame_composer::scene::places_are_in_the_window(
            *input.layout,
            visual_column(input, line, column),
            line,
        );
        let height = input.layout.cell_px@[1] as int;
        assert((line + 1) * height == line * height + height) by (nonlinear_arith);
        assert(scene.rectangles@[scene.rectangles@.len() - 1] == drawn[0]);
    }
    if 0 <= k < written.len() {
        let glyphs = crate::frame_composer::scene::preedit_shape(input, set)->0;
        glyphs_have_the_color_of_their_text(
            glyphs,
            set.assets@,
            preedit_place(input),
            glyphs.len() as int,
            k,
        );
        assert(scene.glyphs@[scene.glyphs@.len() - written.len() + k] == written[k]);
    }
}

/// A frame is cleared with the ground of the terminal, and says which snapshot, layout and font it
/// was made from.
pub proof fn a_frame_says_what_it_was_made_from(
    input: SceneInput,
    set: WorkingSet,
    scene: SceneData,
)
    requires
        shows(scene, input, set),
    ensures
        scene.clear == input.colors.background.0,
        scene.source_generation == input.snapshot.generation,
        scene.font_generation == input.layout.font_generation,
        scene.frame_key.snapshot_generation == input.snapshot.generation,
        scene.frame_key.layout_generation == input.layout_generation,
        scene.frame_key.font_generation == input.layout.font_generation,
        scene.frame_key.unicode_policy_generation == input.visual_map.policy_generation,
{
}

proof fn tabs_stay_drawn(items: Seq<TabBarItem>, n: int, m: int, rect: RectangleInstance)
    requires
        0 <= n <= m,
        items_rectangles(items, n).contains(rect),
    ensures
        items_rectangles(items, m).contains(rect),
    decreases m,
{
    if n < m {
        tabs_stay_drawn(items, n, m - 1, rect);
        let before = items_rectangles(items, m - 1);
        let k = choose|k: int| 0 <= k < before.len() && before[k] == rect;
        assert(items_rectangles(items, m)[k] == rect);
    }
}

/// The active tab is filled and has a line along its lower edge, in the colors for it; another tab is
/// not filled, and one with something new has a dot. The title of each tab stands between its edges,
/// brightest for the active tab and darkest for one without news.
pub proof fn the_active_tab_is_told_apart(
    bar: TabBarPresentation,
    i: int,
    glyphs: Seq<ShapedGlyph>,
    baseline: i16,
)
    requires
        0 <= i < bar.items@.len(),
        bar.items@[i].rect.x + bar.items@[i].rect.width <= u32::MAX,
        bar.items@[i].rect.y + bar.items@[i].rect.height <= u32::MAX,
    ensures
        ({
            let item = bar.items@[i];
            let drawn = bar_rectangles(bar);
            let own = item_rectangles(item);
            &&& forall|k: int| 0 <= k < own.len() ==> drawn.contains(#[trigger] own[k])
            &&& item.active ==> own.contains(
                RectangleInstance {
                    x: item.rect.x as u64,
                    y: item.rect.y as u64,
                    width: item.rect.width as u64,
                    height: item.rect.height as u64,
                    color: 0x3333_33ff,
                },
            )
            &&& item.active && item.rect.height >= 2 ==> own.contains(
                RectangleInstance {
                    x: item.rect.x as u64,
                    y: (item.rect.y + item.rect.height - 2) as u64,
                    width: item.rect.width as u64,
                    height: 2,
                    color: 0xff5a_36ff,
                },
            )
            &&& !item.active ==> forall|k: int|
                0 <= k < own.len() ==> (#[trigger] own[k]).color != 0x3333_33ff
            &&& !item.active && !item.unread ==> forall|k: int|
                0 <= k < own.len() ==> (#[trigger] own[k]).color != 0xff5a_36ff
            &&& !item.active && item.unread && item.rect.width >= 20 ==> own.last().color
                == 0xff5a_36ff && own.last().width == 3 && own.last().height == 3 && own.last().x
                == item.rect.x + 8 && own.last().y == item.rect.y + item.rect.height / 2
            &&& title_color(item) == if item.active {
                0xeded_edffu32
            } else if item.unread {
                0xd8d8_d8ff
            } else {
                0xa8a8_a8ff
            }
            &&& title_place(item, glyphs, baseline).color == title_color(item)
            &&& title_place(item, glyphs, baseline).clip.x >= item.rect.x
            &&& title_place(item, glyphs, baseline).clip.y == item.rect.y
            &&& title_place(item, glyphs, baseline).clip.height == item.rect.height
            &&& item.close_rect is None && item.rect.width >= 24 ==> title_place(
                item,
                glyphs,
                baseline,
            ).clip.x + title_place(item, glyphs, baseline).clip.width + 12 == item.rect.x
                + item.rect.width
        }),
{
    let item = bar.items@[i];
    let own = item_rectangles(item);
    let drawn = bar_rectangles(bar);
    let n = bar.items@.len() as int;
    let all = items_rectangles(bar.items@, n);
    let before = items_rectangles(bar.items@, i);
    assert forall|k: int| 0 <= k < own.len() implies drawn.contains(#[trigger] own[k]) by {
        assert(items_rectangles(bar.items@, i + 1)[before.len() + k] == own[k]);
        tabs_stay_drawn(bar.items@, i + 1, n, own[k]);
        let at = choose|at: int| 0 <= at < all.len() && all[at] == own[k];
        assert(drawn[drawn.len() - all.len() + at] == own[k]);
    }
    if item.active {
        assert(own[0].color == 0x3333_33ff);
        assert(own.contains(own[0]));
        assert(own.contains(own[own.len() - 1]));
    }
}

/// A cell that is struck out has one line through it, as wide as the cell and in the color of its
/// text; any other has none.
pub proof fn struck_out_cells_have_a_line_through_them(input: SceneInput, column: int, line: int)
    requires
        is_whole(input),
        is_on_grid(input, column, line),
    ensures
        ({
            let i = cell_at(input, column, line);
            let cell = input.snapshot.cells@[i];
            let visual = input.visual_map.lines@[line].logical_to_visual_cell@[column] as int;
            let top = input.layout.content_origin_px@[1] + line * input.layout.cell_px@[1];
            let below = input.layout.cell_metrics.strike_y_px;
            let strike = cell_strike(input, i);
            &&& !cell.flags.strikeout ==> strike.len() == 0
            &&& cell.flags.strikeout ==> {
                &&& strike.len() == 1
                &&& strike[0].x == input.layout.content_origin_px@[0] + visual
                    * input.layout.cell_px@[0]
                &&& top + below >= 0 ==> strike[0].y == top + below
                &&& strike[0].color == cell_colors(input, i).0
                &&& strike[0].height == input.layout.cell_metrics.strike_thickness_px as u64
                &&& cell.width is Wide ==> strike[0].width == input.layout.cell_px@[0] * 2
                &&& !(cell.width is Wide) ==> strike[0].width == input.layout.cell_px@[0]
            }
        }),
{
    places_have_their_cells(input, column, line);
    let row = input.visual_map.lines@[line];
    assert(row.covers(input.visual_map.grid.columns as int));
    assert(row.logical_to_visual_cell@[column] < input.visual_map.grid.columns);
    crate::frame_composer::scene::places_are_in_the_window(
        *input.layout,
        visual_column(input, line, column),
        line,
    );
}

/// The line under a cell has the color that was asked for it, and that of the text where none was.
/// A link that is not underlined otherwise has the color of its text.
pub proof fn lines_under_cells_have_their_color(input: SceneInput, i: int)
    requires
        0 <= i < input.snapshot.cells@.len(),
    ensures
        ({
            let cell = input.snapshot.cells@[i];
            let text = cell_colors(input, i).0;
            &&& cell.underline_style is Off ==> underline_color(input, i) == text
            &&& cell.underline_color is None ==> underline_color(input, i) == text
            &&& !(cell.underline_style is Off) && cell.underline_color is Some
                ==> underline_color(input, i) == resolved(
                cell.underline_color->0,
                text,
                input.colors@,
            )
        }),
{
}

/// The cells are drawn first; above them come the cursor, the tab bar and the text that is being
/// composed, one above the other. Nothing else is drawn but the scrollbar, whose thumb lies on its
/// track.
pub proof fn what_lies_above_is_drawn_later(
    input: SceneInput,
    set: WorkingSet,
    scene: SceneData,
    k: int,
)
    requires
        input.overlays.paste_confirmation is None,
        shows(scene, input, set),
    ensures
        ({
            let cells = cells_drawn(input, input.snapshot.cells@.len() as int).rectangles;
            let cursor = cursor_rectangles(input);
            let composed = preedit_rectangles(input, set);
            let all = scene.rectangles@;
            &&& 0 <= k < cells.len() ==> all[k] == cells[k]
            &&& 0 <= k < cursor.len() ==> all[cells.len() + k] == cursor[k]
            &&& 0 <= k < composed.len() ==> all[all.len() - composed.len() + k] == composed[k]
            &&& input.overlays.tab_bar matches Some(bar) ==> {
                let tabs = bar_rectangles(*bar);
                &&& all.len() == cells.len() + cursor.len() + tabs.len() + composed.len()
                &&& 0 <= k < tabs.len() ==> all[cells.len() + cursor.len() + k] == tabs[k]
            }
            &&& input.overlays.tab_bar is None ==> all.len() == cells.len() + cursor.len()
                + composed.len()
            &&& input.overlays.scrollbar is None ==> scene.scrollbar@.len() == 0
            &&& input.overlays.scrollbar matches Some(bar) ==> {
                &&& scene.scrollbar@.len() <= 2
                &&& scene.scrollbar@.len() == 2 ==> {
                    &&& scene.scrollbar@[0].rect == bar.track
                    &&& scene.scrollbar@[0].color == bar.track_color.0
                    &&& scene.scrollbar@[1].rect == bar.thumb
                    &&& scene.scrollbar@[1].color == bar.thumb_color.0
                }
                &&& bar.thumb.width.positive() && bar.thumb.height.positive()
                    && bar.thumb_color.0 % 256 != 0 ==> {
                    &&& scene.scrollbar@.len() > 0
                    &&& scene.scrollbar@.last().rect == bar.thumb
                    &&& scene.scrollbar@.last().color == bar.thumb_color.0
                }
                &&& bar.track_color.0 % 256 == 0 && bar.thumb_color.0 % 256 == 0
                    ==> scene.scrollbar@.len() == 0
            }
            &&& scene.clear == input.colors.background.0
        }),
{
}

} // verus!
