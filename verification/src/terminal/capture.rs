//! Captures what the display shows as one frame.
use vstd::prelude::*;
use crate::security::{
    MAX_HYPERLINKS, MAX_HYPERLINK_BYTES, MAX_ZERO_WIDTH_PER_CELL, MAX_ZERO_WIDTH_TOTAL,
};
use crate::terminal::adapter::{
    opt_view, terminal_modes, EngineModes, TerminalCoreAdapter, TerminalError,
};
use crate::terminal::screen::{ScreenCell, ScreenFlags, TerminalScreen};
use crate::terminal::snapshot::{
    CellFlags, CellWidth, CursorBlink, CursorShape, CursorSnapshot, FrameSnapshot, SearchBuffer,
    SnapshotCell, SnapshotHyperlink, UnderlineStyle,
};
use vstd::utf8::encode_utf8;

pub mod laws;

verus! {

#[derive(Clone, Copy, Debug, PartialEq, Eq, Structural)]
pub enum EngineCursorShape {
    Block,
    Beam,
    Underline,
    HollowBlock,
    Hidden,
}

/// The cursor of the engine.
#[derive(Clone, Copy, Debug, PartialEq, Eq, Structural)]
pub struct EngineCursor {
    pub line: i32,
    pub column: usize,
    pub shape: EngineCursorShape,
    pub blinking: bool,
}

/// A cursor of an unknown shape is a block.
pub open spec fn cursor_shape(shape: EngineCursorShape) -> CursorShape {
    match shape {
        EngineCursorShape::Beam => CursorShape::Beam,
        EngineCursorShape::Underline => CursorShape::Underline,
        _ => CursorShape::Block,
    }
}

fn map_cursor_shape(shape: EngineCursorShape) -> (result: CursorShape)
    ensures
        result == cursor_shape(shape),
{
    match shape {
        EngineCursorShape::Beam => CursorShape::Beam,
        EngineCursorShape::Underline => CursorShape::Underline,
        _ => CursorShape::Block,
    }
}

/// Of several underlines the most particular counts.
pub open spec fn underline_style(flags: ScreenFlags) -> UnderlineStyle {
    if flags.double_underline {
        UnderlineStyle::Double
    } else if flags.undercurl {
        UnderlineStyle::Curly
    } else if flags.dotted_underline {
        UnderlineStyle::Dotted
    } else if flags.dashed_underline {
        UnderlineStyle::Dashed
    } else if flags.underline {
        UnderlineStyle::Single
    } else {
        UnderlineStyle::Off
    }
}

fn map_underline_style(flags: ScreenFlags) -> (result: UnderlineStyle)
    ensures
        result == underline_style(flags),
{
    if flags.double_underline {
        UnderlineStyle::Double
    } else if flags.undercurl {
        UnderlineStyle::Curly
    } else if flags.dotted_underline {
        UnderlineStyle::Dotted
    } else if flags.dashed_underline {
        UnderlineStyle::Dashed
    } else if flags.underline {
        UnderlineStyle::Single
    } else {
        UnderlineStyle::Off
    }
}

pub open spec fn cell_width(flags: ScreenFlags) -> CellWidth {
    if flags.wide_char {
        CellWidth::Wide
    } else if flags.leading_wide_char_spacer {
        CellWidth::LeadingSpacer
    } else if flags.wide_char_spacer {
        CellWidth::Spacer
    } else {
        CellWidth::Narrow
    }
}

/// The rows that the display shows.
pub open spec fn visible_rows(screen: &TerminalScreen) -> Seq<Vec<ScreenCell>> {
    let top = screen.history_size - screen.display_offset;
    screen.rows@.subrange(top, top + screen.size.lines)
}

/// Rows as one sequence of cells.
pub open spec fn flat(rows: Seq<Vec<ScreenCell>>) -> Seq<ScreenCell>
    decreases rows.len(),
{
    if rows.len() == 0 {
        Seq::empty()
    } else {
        flat(rows.drop_last()) + rows.last()@
    }
}

/// The cells that the display shows, row by row.
pub open spec fn visible(screen: &TerminalScreen) -> Seq<ScreenCell> {
    flat(visible_rows(screen))
}

/// A hyperlink over its text.
pub struct LinkModel {
    pub id: Seq<char>,
    pub uri: Seq<char>,
}

/// The hyperlink of a cell, unless it is too long.
pub open spec fn cell_link(cell: ScreenCell) -> Option<LinkModel> {
    match cell.hyperlink {
        Some(link) => if encode_utf8(link.id@).len() <= MAX_HYPERLINK_BYTES && encode_utf8(
            link.uri@,
        ).len() <= MAX_HYPERLINK_BYTES {
            Some(LinkModel { id: link.id@, uri: link.uri@ })
        } else {
            None
        },
        None => None,
    }
}

/// The different hyperlinks of cells in the order in which they first occur, as many as are
/// allowed.
pub open spec fn links_of(cells: Seq<ScreenCell>) -> Seq<LinkModel>
    decreases cells.len(),
{
    if cells.len() == 0 {
        Seq::empty()
    } else {
        let before = links_of(cells.drop_last());
        match cell_link(cells.last()) {
            Some(link) => if before.contains(link) || before.len() >= MAX_HYPERLINKS {
                before
            } else {
                before.push(link)
            },
            None => before,
        }
    }
}

/// Whether a cell's combining characters can be shown beside `total` others: there are not too
/// many, neither in the cell nor in all.
pub open spec fn fits_combining(total: nat, cell: ScreenCell) -> bool {
    0 < cell.zerowidth@.len() <= MAX_ZERO_WIDTH_PER_CELL && total + cell.zerowidth@.len()
        <= MAX_ZERO_WIDTH_TOTAL
}

/// Whether a cell that follows others shows its combining characters.
pub open spec fn shows_combining(before: Seq<ScreenCell>, cell: ScreenCell) -> bool {
    fits_combining(combining_total(before), cell)
}

/// How many combining characters cells show.
pub open spec fn combining_total(cells: Seq<ScreenCell>) -> nat
    decreases cells.len(),
{
    if cells.len() == 0 {
        0
    } else {
        let before = combining_total(cells.drop_last());
        before + if fits_combining(before, cells.last()) {
            cells.last().zerowidth@.len()
        } else {
            0
        }
    }
}

/// The number of a cell's hyperlink among those of a frame.
pub open spec fn is_link_number(links: Seq<LinkModel>, cell: ScreenCell, number: Option<u16>) -> bool {
    match number {
        Some(i) => i < links.len() && cell_link(cell) == Some(links[i as int]),
        None => match cell_link(cell) {
            Some(link) => !links.contains(link),
            None => true,
        },
    }
}

/// A cell of a frame shows a cell of the grid.
pub open spec fn shows(
    shown: SnapshotCell,
    before: Seq<ScreenCell>,
    cell: ScreenCell,
    links: Seq<LinkModel>,
) -> bool {
    &&& shown.ch == cell.shown()
    &&& match shown.zerowidth {
        Some(combining) => shows_combining(before, cell) && combining@ == cell.zerowidth@,
        None => !shows_combining(before, cell),
    }
    &&& shown.foreground == cell.foreground
    &&& shown.background == cell.background
    &&& shown.underline_color == cell.underline_color
    &&& shown.underline_style == underline_style(cell.flags)
    &&& shown.flags == (CellFlags {
        bold: cell.flags.bold,
        dim: cell.flags.dim,
        italic: cell.flags.italic,
        underline: underline_style(cell.flags) != UnderlineStyle::Off,
        inverse: cell.flags.inverse,
        hidden: cell.flags.hidden,
        strikeout: cell.flags.strikeout,
    })
    &&& shown.width == cell_width(cell.flags)
    &&& is_link_number(links, cell, shown.hyperlink)
}

/// The views of hyperlinks.
pub open spec fn links_view(links: Seq<SnapshotHyperlink>) -> Seq<LinkModel> {
    links.map_values(|l: SnapshotHyperlink| LinkModel { id: l.id@, uri: l.uri@ })
}

/// Links only ever grow, and stop growing at the limit.
proof fn links_grow(cells: Seq<ScreenCell>, n: int)
    requires
        0 <= n <= cells.len(),
    ensures
        links_of(cells.take(n)).len() <= links_of(cells).len() <= MAX_HYPERLINKS,
        forall|i: int|
            0 <= i < links_of(cells.take(n)).len() ==> links_of(cells)[i] == links_of(
                cells.take(n),
            )[i],
        links_of(cells.take(n)).len() == MAX_HYPERLINKS ==> links_of(cells) == links_of(
            cells.take(n),
        ),
    decreases cells.len(),
{
    if n == cells.len() {
        assert(cells.take(n) =~= cells);
        if cells.len() > 0 {
            links_grow(cells.drop_last(), n - 1);
        }
    } else {
        links_grow(cells.drop_last(), n);
        assert(cells.drop_last().take(n) =~= cells.take(n));
    }
}

/// The number of a cell's hyperlink stays its number as links are added.
proof fn link_number_stays(cells: Seq<ScreenCell>, n: int, number: Option<u16>)
    requires
        0 <= n < cells.len(),
        is_link_number(links_of(cells.take(n + 1)), cells[n], number),
    ensures
        is_link_number(links_of(cells), cells[n], number),
{
    let here = links_of(cells.take(n + 1));
    links_grow(cells, n + 1);
    if number is None && cell_link(cells[n]) is Some {
        let init = cells.take(n + 1).drop_last();
        assert(cells.take(n + 1).last() == cells[n]);
        let link = cell_link(cells[n])->0;
        if here == links_of(init).push(link) {
            assert(here[here.len() - 1] == link);
            assert(here.contains(link));
        }
        assert(here.len() == MAX_HYPERLINKS) by {
            links_grow(cells.take(n + 1), n + 1);
        }
    }
}

fn find_link(links: &Vec<SnapshotHyperlink>, link: &SnapshotHyperlink) -> (result: Option<usize>)
    ensures
        match result {
            Some(i) => i < links@.len() && links_view(links@)[i as int] == (LinkModel {
                id: link.id@,
                uri: link.uri@,
            }),
            None => !links_view(links@).contains(LinkModel { id: link.id@, uri: link.uri@ }),
        },
{
    let mut i: usize = links.len();
    while i > 0
        invariant
            i <= links@.len(),
            forall|k: int|
                i <= k < links@.len() ==> #[trigger] links_view(links@)[k] != (LinkModel {
                    id: link.id@,
                    uri: link.uri@,
                }),
        decreases i,
    {
        i -= 1;
        assert(links_view(links@)[i as int] == (LinkModel {
            id: links@[i as int].id@,
            uri: links@[i as int].uri@,
        }));
        if links[i].id == link.id && links[i].uri == link.uri {
            return Some(i);
        }
    }
    None
}

fn capture_cell(
    cell: &ScreenCell,
    links: &mut Vec<SnapshotHyperlink>,
    combining: &mut usize,
    before: Ghost<Seq<ScreenCell>>,
) -> (result: SnapshotCell)
    requires
        links_view(old(links)@) == links_of(before@),
        links_of(before@).len() <= MAX_HYPERLINKS,
        *old(combining) == combining_total(before@),
        combining_total(before@) <= MAX_ZERO_WIDTH_TOTAL,
    ensures
        ({
            let now = before@.push(*cell);
            &&& links_view(final(links)@) == links_of(now)
            &&& links_of(now).len() <= MAX_HYPERLINKS
            &&& *final(combining) == combining_total(now)
            &&& combining_total(now) <= MAX_ZERO_WIDTH_TOTAL
            &&& shows(result, before@, *cell, links_of(now))
        }),
{
    let ghost now = before@.push(*cell);
    assert(now.drop_last() =~= before@);
    let hyperlink: Option<u16> = match &cell.hyperlink {
        Some(link) => {
            if link.id.as_str().as_bytes().len() > MAX_HYPERLINK_BYTES
                || link.uri.as_str().as_bytes().len() > MAX_HYPERLINK_BYTES {
                None
            } else {
                match find_link(links, link) {
                    Some(i) => {
                        assert(links_view(links@).contains(links_view(links@)[i as int]));
                        Some(i as u16)
                    },
                    None => {
                        if links.len() >= MAX_HYPERLINKS {
                            None
                        } else {
                            let number: u16 = links.len() as u16;
                            let ghost old_links = links@;
                            links.push(
                                SnapshotHyperlink { id: link.id.clone(), uri: link.uri.clone() },
                            );
                            assert(links_view(links@) =~= links_view(old_links).push(
                                LinkModel { id: link.id@, uri: link.uri@ },
                            ));
                            Some(number)
                        }
                    },
                }
            }
        },
        None => None,
    };
    let count: usize = cell.zerowidth.len();
    let zerowidth: Option<Vec<char>> = if count > 0 && count <= MAX_ZERO_WIDTH_PER_CELL && count
        <= MAX_ZERO_WIDTH_TOTAL - *combining {
        *combining = *combining + count;
        Some(vstd::slice::slice_to_vec(cell.zerowidth.as_slice()))
    } else {
        None
    };
    let style = map_underline_style(cell.flags);
    SnapshotCell {
        ch: if cell.ch == '\t' {
            ' '
        } else {
            cell.ch
        },
        zerowidth,
        foreground: cell.foreground,
        background: cell.background,
        underline_color: cell.underline_color,
        underline_style: style,
        flags: CellFlags {
            bold: cell.flags.bold,
            dim: cell.flags.dim,
            italic: cell.flags.italic,
            underline: style != UnderlineStyle::Off,
            inverse: cell.flags.inverse,
            hidden: cell.flags.hidden,
            strikeout: cell.flags.strikeout,
        },
        width: if cell.flags.wide_char {
            CellWidth::Wide
        } else if cell.flags.leading_wide_char_spacer {
            CellWidth::LeadingSpacer
        } else if cell.flags.wide_char_spacer {
            CellWidth::Spacer
        } else {
            CellWidth::Narrow
        },
        hyperlink,
    }
}

pub(crate) proof fn flat_len(rows: Seq<Vec<ScreenCell>>, columns: int)
    requires
        forall|r: int| 0 <= r < rows.len() ==> (#[trigger] rows[r])@.len() == columns,
    ensures
        flat(rows).len() == rows.len() * columns,
    decreases rows.len(),
{
    if rows.len() > 0 {
        flat_len(rows.drop_last(), columns);
        assert((rows.len() - 1) * columns + columns == rows.len() * columns) by (nonlinear_arith);
    } else {
        assert(0 * columns == 0);
    }
}

/// The column of the cursor, or the largest number where that is too large.
pub open spec fn cursor_column(column: usize) -> u16 {
    if column <= u16::MAX {
        column as u16
    } else {
        u16::MAX
    }
}

/// The line of the cursor, cut to what can be shown.
pub open spec fn cursor_line(line: i32) -> u16 {
    if line < 0 {
        0
    } else if line <= u16::MAX {
        line as u16
    } else {
        u16::MAX
    }
}

/// A frame shows what the display shows.
pub open spec fn captures(
    frame: &FrameSnapshot,
    core: &TerminalCoreAdapter,
    screen: &TerminalScreen,
    cursor: EngineCursor,
    mode: EngineModes,
) -> bool {
    &&& frame.generation == core@.generation
    &&& frame.content_revision == core@.content_revision
    &&& frame.active_buffer == (if mode.alt_screen {
        SearchBuffer::Alternate
    } else {
        SearchBuffer::Normal
    })
    &&& frame.grid == screen.size
    &&& frame.cells@.len() == visible(screen).len()
    &&& forall|k: int|
        0 <= k < frame.cells@.len() ==> shows(
            #[trigger] frame.cells@[k],
            visible(screen).take(k),
            visible(screen)[k],
            links_of(visible(screen)),
        )
    &&& links_view(frame.hyperlinks@) == links_of(visible(screen))
    &&& frame.cursor == (CursorSnapshot {
        column: cursor_column(cursor.column),
        line: cursor_line(cursor.line),
        visible: mode.show_cursor && screen.display_offset == 0,
        shape: cursor_shape(cursor.shape),
        blink: if cursor.blinking {
            CursorBlink::Blinking
        } else {
            CursorBlink::Steady
        },
    })
    &&& frame.modes == terminal_modes(mode, core@.keyboard.state())
    &&& frame.display_offset == screen.display_offset
    &&& frame.history_size == screen.history_size
    &&& opt_view(frame.title) == core@.title
}

impl TerminalCoreAdapter {
    /// What the display shows, as one frame.
    pub fn snapshot(&self, screen: &TerminalScreen, cursor: EngineCursor, mode: EngineModes) -> (
    result: Result<FrameSnapshot, TerminalError>)
        requires
            screen.wf(),
        ensures
            result is Ok,
            result->Ok_0.wf(),
            captures(&result->Ok_0, self, screen, cursor, mode),
    {
        let mut cells: Vec<SnapshotCell> = Vec::new();
        let mut links: Vec<SnapshotHyperlink> = Vec::new();
        let mut combining: usize = 0;
        let top: usize = screen.history_size - screen.display_offset;
        let lines: usize = screen.size.lines();
        let columns: usize = screen.size.columns();
        let ghost rows = visible_rows(screen);
        let ghost all = visible(screen);
        let mut r: usize = 0;
        assert(rows.take(0) =~= Seq::empty());
        assert(links_view(links@) =~= Seq::empty());
        while r < lines
            invariant
                screen.wf(),
                r <= lines,
                lines == screen.size.lines,
                columns == screen.size.columns,
                top == screen.history_size - screen.display_offset,
                rows == visible_rows(screen),
                all == flat(rows),
                links_view(links@) == links_of(flat(rows.take(r as int))),
                links_of(flat(rows.take(r as int))).len() <= MAX_HYPERLINKS,
                combining == combining_total(flat(rows.take(r as int))),
                combining <= MAX_ZERO_WIDTH_TOTAL,
                cells@.len() == flat(rows.take(r as int)).len(),
                forall|k: int|
                    0 <= k < cells@.len() ==> shows(
                        #[trigger] cells@[k],
                        flat(rows.take(r as int)).take(k),
                        flat(rows.take(r as int))[k],
                        links_of(flat(rows.take(r as int)).take(k + 1)),
                    ),
            decreases lines - r,
        {
            let ghost done = flat(rows.take(r as int));
            let row = &screen.rows[top + r];
            let mut c: usize = 0;
            assert(done + row@.take(0) =~= done);
            while c < columns
                invariant
                    c <= columns,
                    row@.len() == columns,
                    links_view(links@) == links_of(done + row@.take(c as int)),
                    links_of(done + row@.take(c as int)).len() <= MAX_HYPERLINKS,
                    combining == combining_total(done + row@.take(c as int)),
                    combining <= MAX_ZERO_WIDTH_TOTAL,
                    cells@.len() == done.len() + c,
                    forall|k: int|
                        0 <= k < cells@.len() ==> shows(
                            #[trigger] cells@[k],
                            (done + row@.take(c as int)).take(k),
                            (done + row@.take(c as int))[k],
                            links_of((done + row@.take(c as int)).take(k + 1)),
                        ),
                decreases columns - c,
            {
                let ghost before = done + row@.take(c as int);
                let ghost now = done + row@.take(c + 1);
                assert(now =~= before.push(row@[c as int]));
                let ghost old_cells = cells@;
                let cell = capture_cell(&row[c], &mut links, &mut combining, Ghost(before));
                cells.push(cell);
                proof {
                    assert forall|k: int| 0 <= k < cells@.len() implies shows(
                        #[trigger] cells@[k],
                        now.take(k),
                        now[k],
                        links_of(now.take(k + 1)),
                    ) by {
                        if k < before.len() {
                            assert(now.take(k) =~= before.take(k));
                            assert(now.take(k + 1) =~= before.take(k + 1));
                            assert(cells@[k] == old_cells[k]);
                        } else {
                            assert(now.take(k) =~= before);
                            assert(now.take(k + 1) =~= now);
                        }
                    }
                }
                c += 1;
            }
            proof {
                assert(row@.take(c as int) =~= row@);
                assert(rows.take(r + 1).drop_last() =~= rows.take(r as int));
                assert(rows.take(r + 1).last() == *row);
            }
            r += 1;
        }
        proof {
            assert(rows.take(r as int) =~= rows);
            assert forall|k: int| 0 <= k < cells@.len() implies shows(
                #[trigger] cells@[k],
                all.take(k),
                all[k],
                links_of(all),
            ) by {
                link_number_stays(all, k, cells@[k].hyperlink);
            }
            assert forall|r: int| 0 <= r < rows.len() implies (#[trigger] rows[r])@.len()
                == columns by {
                assert(rows[r] == screen.rows@[top + r]);
            }
            flat_len(rows, columns as int);
            assert(rows.len() * columns == columns * rows.len()) by (nonlinear_arith);
        }
        let column: u16 = if cursor.column <= 65_535 {
            cursor.column as u16
        } else {
            65_535
        };
        let line: u16 = if cursor.line < 0 {
            0
        } else if cursor.line <= 65_535 {
            cursor.line as u16
        } else {
            65_535
        };
        Ok(
            FrameSnapshot {
                generation: self.generation(),
                content_revision: self.content_revision(),
                active_buffer: if mode.alt_screen {
                    SearchBuffer::Alternate
                } else {
                    SearchBuffer::Normal
                },
                grid: screen.size,
                cells,
                cursor: CursorSnapshot {
                    column,
                    line,
                    visible: mode.show_cursor && screen.display_offset == 0,
                    shape: map_cursor_shape(cursor.shape),
                    blink: if cursor.blinking {
                        CursorBlink::Blinking
                    } else {
                        CursorBlink::Steady
                    },
                },
                modes: self.input_modes(mode),
                display_offset: screen.display_offset,
                history_size: screen.history_size,
                title: self.title(),
                hyperlinks: links,
            },
        )
    }
}

/// No hyperlink is listed twice, and no more are listed than are allowed.
pub proof fn links_are_distinct(cells: Seq<ScreenCell>)
    ensures
        links_of(cells).no_duplicates(),
        links_of(cells).len() <= MAX_HYPERLINKS,
    decreases cells.len(),
{
    if cells.len() > 0 {
        links_are_distinct(cells.drop_last());
    }
}

/// Combining characters never outgrow their limit.
pub proof fn combining_is_bounded(cells: Seq<ScreenCell>)
    ensures
        combining_total(cells) <= MAX_ZERO_WIDTH_TOTAL,
    decreases cells.len(),
{
    if cells.len() > 0 {
        combining_is_bounded(cells.drop_last());
    }
}

} // verus!
