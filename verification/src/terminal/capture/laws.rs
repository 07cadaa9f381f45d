//! What holds of a frame and of the grid that it shows.
use vstd::prelude::*;
use crate::terminal::adapter::{EngineModes, TerminalCoreAdapter};
use crate::terminal::screen::{ScreenCell, ScreenFlags, TerminalScreen};
use crate::terminal::snapshot::FrameSnapshot;
use super::{
    captures, cell_width, cursor_shape, flat, flat_len, links_of, links_view, underline_style,
    visible, visible_rows, EngineCursor, EngineCursorShape,
};

verus! {

/// A cell of rows that are all of one length stands behind as many rows as are above it.
proof fn cells_are_behind_the_rows_above(
    rows: Seq<Vec<ScreenCell>>,
    columns: int,
    row: int,
    column: int,
)
    requires
        forall|r: int| 0 <= r < rows.len() ==> (#[trigger] rows[r])@.len() == columns,
        0 <= row < rows.len(),
        0 <= column < columns,
    ensures
        0 <= row * columns + column < flat(rows).len(),
        flat(rows)[row * columns + column] == rows[row]@[column],
    decreases rows.len(),
{
    let init = rows.drop_last();
    flat_len(rows, columns);
    flat_len(init, columns);
    let n = rows.len() as int;
    assert(row * columns + column < n * columns && 0 <= row * columns && (row < n - 1 ==> row
        * columns + column < (n - 1) * columns)) by (nonlinear_arith)
        requires
            0 <= row < n,
            0 <= column < columns,
    ;
    if row < n - 1 {
        cells_are_behind_the_rows_above(init, columns, row, column);
        assert(init[row] == rows[row]);
    } else {
        assert(rows.last() == rows[row]);
        assert((n - 1) * columns == row * columns);
    }
}

/// Every cell of a frame shows the cell of the grid at the same column, in the line that is as
/// far below the top of the display: its character, its colors and its marks.
pub proof fn every_cell_is_shown_in_its_place(
    frame: FrameSnapshot,
    core: TerminalCoreAdapter,
    screen: TerminalScreen,
    cursor: EngineCursor,
    mode: EngineModes,
    row: int,
    column: int,
)
    requires
        screen.wf(),
        captures(&frame, &core, &screen, cursor, mode),
        0 <= row < screen.size.lines,
        0 <= column < screen.size.columns,
    ensures
        ({
            let shown = frame.cells@[row * screen.size.columns + column];
            let cell = screen.rows@[screen.history_size - screen.display_offset + row]@[column];
            &&& 0 <= row * screen.size.columns + column < frame.cells@.len()
            &&& cell.ch != '\t' ==> shown.ch == cell.ch
            &&& cell.ch == '\t' ==> shown.ch == ' '
            &&& shown.foreground == cell.foreground
            &&& shown.background == cell.background
            &&& shown.underline_color == cell.underline_color
            &&& shown.flags.bold == cell.flags.bold
            &&& shown.flags.dim == cell.flags.dim
            &&& shown.flags.italic == cell.flags.italic
            &&& shown.flags.inverse == cell.flags.inverse
            &&& shown.flags.hidden == cell.flags.hidden
            &&& shown.flags.strikeout == cell.flags.strikeout
            &&& shown.flags.underline <==> cell.flags.underline || cell.flags.double_underline
                || cell.flags.undercurl || cell.flags.dotted_underline
                || cell.flags.dashed_underline
            &&& shown.zerowidth is Some ==> shown.zerowidth->0@ == cell.zerowidth@
            &&& shown.hyperlink is Some ==> {
                let link = frame.hyperlinks@[shown.hyperlink->0 as int];
                &&& shown.hyperlink->0 < frame.hyperlinks@.len()
                &&& cell.hyperlink is Some
                &&& link.uri@ == cell.hyperlink->0.uri@
                &&& link.id@ == cell.hyperlink->0.id@
            }
            &&& cell.hyperlink is None ==> shown.hyperlink is None
        }),
{
    let columns = screen.size.columns as int;
    let rows = visible_rows(&screen);
    let top = screen.history_size - screen.display_offset;
    assert forall|r: int| 0 <= r < rows.len() implies (#[trigger] rows[r])@.len() == columns by {
        assert(rows[r] == screen.rows@[top + r]);
    }
    cells_are_behind_the_rows_above(rows, columns, row, column);
    let k = row * columns + column;
    assert(visible(&screen)[k] == screen.rows@[top + row]@[column]);
    let shown = frame.cells@[k];
    assert(super::shows(
        shown,
        visible(&screen).take(k),
        visible(&screen)[k],
        links_of(visible(&screen)),
    ));
    if shown.hyperlink is Some {
        let i = shown.hyperlink->0 as int;
        assert(links_view(frame.hyperlinks@)[i] == links_of(visible(&screen))[i]);
    }
}

/// The cursor is where the engine has it. It is hidden while the display is scrolled and while
/// the program hides it, and blinks if it is to.
pub proof fn the_cursor_is_where_the_engine_has_it(
    frame: FrameSnapshot,
    core: TerminalCoreAdapter,
    screen: TerminalScreen,
    cursor: EngineCursor,
    mode: EngineModes,
)
    requires
        captures(&frame, &core, &screen, cursor, mode),
        0 <= cursor.line < screen.size.lines,
        cursor.column < screen.size.columns,
    ensures
        frame.cursor.column == cursor.column,
        frame.cursor.line == cursor.line,
        frame.cursor.visible <==> mode.show_cursor && screen.display_offset == 0,
        frame.cursor.blink is Blinking <==> cursor.blinking,
        cursor.shape is Beam <==> frame.cursor.shape is Beam,
        cursor.shape is Underline <==> frame.cursor.shape is Underline,
        cursor.shape is Block ==> frame.cursor.shape is Block,
        frame.grid == screen.size,
        frame.display_offset == screen.display_offset,
        frame.history_size == screen.history_size,
        frame.generation == core@.generation,
        frame.active_buffer is Alternate <==> mode.alt_screen,
{
}

/// An underline is drawn as it is asked for; one that is asked for in more than one way is drawn
/// in a way that is asked for. A plain one gives way to the others.
pub proof fn underlines_are_drawn_as_asked(flags: ScreenFlags)
    ensures
        ({
            let style = underline_style(flags);
            &&& style is Double <==> flags.double_underline
            &&& style is Curly ==> flags.undercurl
            &&& style is Dotted ==> flags.dotted_underline
            &&& style is Dashed ==> flags.dashed_underline
            &&& style is Single <==> flags.underline && !flags.double_underline && !flags.undercurl
                && !flags.dotted_underline && !flags.dashed_underline
            &&& flags.undercurl && !flags.double_underline ==> style is Curly
            &&& style is Off <==> !flags.underline && !flags.double_underline && !flags.undercurl
                && !flags.dotted_underline && !flags.dashed_underline
        }),
{
}

/// A wide character takes two cells, of which the second shows nothing of its own.
pub proof fn widths_are_those_of_the_grid(flags: ScreenFlags)
    ensures
        cell_width(flags) is Wide <==> flags.wide_char,
        flags.wide_char_spacer && !flags.wide_char && !flags.leading_wide_char_spacer ==> cell_width(
            flags,
        ) is Spacer,
        flags.leading_wide_char_spacer && !flags.wide_char ==> cell_width(flags) is LeadingSpacer,
        cell_width(flags) is Narrow <==> !flags.wide_char && !flags.wide_char_spacer
            && !flags.leading_wide_char_spacer,
{
}

/// A cursor of a shape that cannot be drawn is a block.
pub proof fn other_cursors_are_blocks(shape: EngineCursorShape)
    ensures
        cursor_shape(EngineCursorShape::Beam) is Beam,
        cursor_shape(EngineCursorShape::Underline) is Underline,
        shape is Block || shape is HollowBlock || shape is Hidden ==> cursor_shape(shape) is Block,
{
}

} // verus!
