//! A bounded, escaped diagnostic view of the visible grid.
use vstd::prelude::*;
use vstd::string::StringExecFns;
use crate::terminal::snapshot::{
    CellFlags, CellWidth, FrameSnapshot, MouseEncoding, MouseProtocol, SnapshotCell, TerminalColor,
};
use crate::text::{dec, hex_padded, is_control, is_control_char, push_dec, push_hex};

verus! {

/// How many cells are described one by one.
pub const MAX_DIAGNOSTIC_CELLS: usize = 4_096;

pub open spec fn bool_name(value: bool) -> Seq<char> {
    if value {
        "true"@
    } else {
        "false"@
    }
}

fn bool_str(value: bool) -> (result: &'static str)
    ensures
        result@ == bool_name(value),
{
    if value {
        "true"
    } else {
        "false"
    }
}

pub open spec fn protocol_name(protocol: MouseProtocol) -> Seq<char> {
    match protocol {
        MouseProtocol::Off => "None"@,
        MouseProtocol::X10 => "X10"@,
        MouseProtocol::Normal => "Normal"@,
        MouseProtocol::ButtonEvent => "ButtonEvent"@,
        MouseProtocol::AnyEvent => "AnyEvent"@,
    }
}

fn protocol_str(protocol: MouseProtocol) -> (result: &'static str)
    ensures
        result@ == protocol_name(protocol),
{
    match protocol {
        MouseProtocol::Off => "None",
        MouseProtocol::X10 => "X10",
        MouseProtocol::Normal => "Normal",
        MouseProtocol::ButtonEvent => "ButtonEvent",
        MouseProtocol::AnyEvent => "AnyEvent",
    }
}

pub open spec fn encoding_name(encoding: MouseEncoding) -> Seq<char> {
    match encoding {
        MouseEncoding::Legacy => "Legacy"@,
        MouseEncoding::Utf8 => "Utf8"@,
        MouseEncoding::Sgr => "Sgr"@,
    }
}

fn encoding_str(encoding: MouseEncoding) -> (result: &'static str)
    ensures
        result@ == encoding_name(encoding),
{
    match encoding {
        MouseEncoding::Legacy => "Legacy",
        MouseEncoding::Utf8 => "Utf8",
        MouseEncoding::Sgr => "Sgr",
    }
}

pub open spec fn width_name(width: CellWidth) -> Seq<char> {
    match width {
        CellWidth::Narrow => "Narrow"@,
        CellWidth::Wide => "Wide"@,
        CellWidth::Spacer => "Spacer"@,
        CellWidth::LeadingSpacer => "LeadingSpacer"@,
    }
}

fn width_str(width: CellWidth) -> (result: &'static str)
    ensures
        result@ == width_name(width),
{
    match width {
        CellWidth::Narrow => "Narrow",
        CellWidth::Wide => "Wide",
        CellWidth::Spacer => "Spacer",
        CellWidth::LeadingSpacer => "LeadingSpacer",
    }
}

/// The first line: the state of the frame.
pub open spec fn header_text(s: &FrameSnapshot) -> Seq<char> {
    "generation="@ + dec(s.generation as nat) + " grid="@ + dec(s.grid.columns as nat) + "x"@ + dec(
        s.grid.lines as nat,
    ) + " cursor="@ + dec(s.cursor.column as nat) + ","@ + dec(s.cursor.line as nat) + " visible="@
        + bool_name(s.cursor.visible) + " offset="@ + dec(s.display_offset as nat) + "/"@ + dec(
        s.history_size as nat,
    ) + " alt="@ + bool_name(s.modes.alternate_screen) + " paste="@ + bool_name(
        s.modes.bracketed_paste,
    ) + " focus="@ + bool_name(s.modes.focus_reporting) + " mouse="@ + protocol_name(
        s.modes.mouse_protocol,
    ) + "/"@ + encoding_name(s.modes.mouse_encoding) + "\n"@
}

fn header(s: &FrameSnapshot) -> (result: String)
    ensures
        result@ == header_text(s),
{
    let mut out: String = "generation=".to_owned();
    push_dec(&mut out, s.generation);
    out.append(" grid=");
    push_dec(&mut out, s.grid.columns as u64);
    out.append("x");
    push_dec(&mut out, s.grid.lines as u64);
    out.append(" cursor=");
    push_dec(&mut out, s.cursor.column as u64);
    out.append(",");
    push_dec(&mut out, s.cursor.line as u64);
    out.append(" visible=");
    out.append(bool_str(s.cursor.visible));
    out.append(" offset=");
    push_dec(&mut out, s.display_offset as u64);
    out.append("/");
    push_dec(&mut out, s.history_size as u64);
    out.append(" alt=");
    out.append(bool_str(s.modes.alternate_screen));
    out.append(" paste=");
    out.append(bool_str(s.modes.bracketed_paste));
    out.append(" focus=");
    out.append(bool_str(s.modes.focus_reporting));
    out.append(" mouse=");
    out.append(protocol_str(s.modes.mouse_protocol));
    out.append("/");
    out.append(encoding_str(s.modes.mouse_encoding));
    out.append("\n");
    out
}

/// What stands for a cell's character: a blank for one that is not shown, the replacement
/// character for a control.
pub open spec fn visible_char(cell: SnapshotCell) -> char {
    if cell.flags.hidden || cell.width is Spacer || cell.width is LeadingSpacer {
        ' '
    } else if is_control(cell.ch) {
        '\u{fffd}'
    } else {
        cell.ch
    }
}

/// Characters that are no controls.
pub open spec fn without_controls(chars: Seq<char>) -> Seq<char>
    decreases chars.len(),
{
    if chars.len() == 0 {
        Seq::empty()
    } else if is_control(chars.last()) {
        without_controls(chars.drop_last())
    } else {
        without_controls(chars.drop_last()).push(chars.last())
    }
}

/// The text of a cell with its combining characters.
pub open spec fn cell_text(cell: SnapshotCell) -> Seq<char> {
    seq![visible_char(cell)] + match cell.zerowidth {
        Some(combining) => without_controls(combining@),
        None => Seq::empty(),
    }
}

/// The text of the first `n` cells, each row on a line of its own.
pub open spec fn rows_text(cells: Seq<SnapshotCell>, columns: int, n: int) -> Seq<char>
    decreases n,
{
    if n <= 0 {
        Seq::empty()
    } else {
        let before = rows_text(cells, columns, n - 1) + cell_text(cells[n - 1]);
        if n % columns == 0 || n == cells.len() {
            before.push('\n')
        } else {
            before
        }
    }
}

fn push_cell(out: &mut String, cell: &SnapshotCell)
    ensures
        final(out)@ == old(out)@ + cell_text(*cell),
{
    let ch = if cell.flags.hidden || matches!(cell.width, CellWidth::Spacer | CellWidth::LeadingSpacer) {
        ' '
    } else if is_control_char(cell.ch) {
        '\u{fffd}'
    } else {
        cell.ch
    };
    out.push(ch);
    let ghost start = out@;
    if let Some(combining) = &cell.zerowidth {
        let mut i: usize = 0;
        assert(combining@.take(0) =~= Seq::empty());
        assert(start + Seq::<char>::empty() =~= start);
        while i < combining.len()
            invariant
                i <= combining@.len(),
                out@ == start + without_controls(combining@.take(i as int)),
            decreases combining@.len() - i,
        {
            assert(combining@.take(i + 1).drop_last() =~= combining@.take(i as int));
            if !is_control_char(combining[i]) {
                out.push(combining[i]);
                assert(out@ =~= start + without_controls(combining@.take(i + 1)));
            }
            i += 1;
        }
        assert(combining@.take(i as int) =~= combining@);
    }
    assert(out@ =~= old(out)@ + cell_text(*cell));
}

pub open spec fn color_text(color: TerminalColor) -> Seq<char> {
    match color {
        TerminalColor::Named(index) => "named:"@ + dec(index as nat),
        TerminalColor::Indexed(index) => "indexed:"@ + dec(index as nat),
        TerminalColor::Rgb(red, green, blue) => "rgb:"@ + hex_padded(red as nat, 2, false)
            + hex_padded(green as nat, 2, false) + hex_padded(blue as nat, 2, false),
    }
}

fn color_string(color: TerminalColor) -> (result: String)
    ensures
        result@ == color_text(color),
{
    match color {
        TerminalColor::Named(index) => {
            let mut out: String = "named:".to_owned();
            push_dec(&mut out, index as u64);
            out
        },
        TerminalColor::Indexed(index) => {
            let mut out: String = "indexed:".to_owned();
            push_dec(&mut out, index as u64);
            out
        },
        TerminalColor::Rgb(red, green, blue) => {
            let mut out: String = "rgb:".to_owned();
            push_hex(&mut out, red as u64, 2, false);
            push_hex(&mut out, green as u64, 2, false);
            push_hex(&mut out, blue as u64, 2, false);
            out
        },
    }
}

/// A cell that shows nothing.
pub open spec fn is_default(cell: SnapshotCell) -> bool {
    &&& cell.ch == ' '
    &&& cell.zerowidth is None
    &&& cell.foreground == TerminalColor::Named(256)
    &&& cell.background == TerminalColor::Named(257)
    &&& cell.underline_color is None
    &&& cell.flags == CellFlags::none()
    &&& cell.width is Narrow
    &&& cell.hyperlink is None
}

fn is_default_cell(cell: &SnapshotCell) -> (result: bool)
    ensures
        result == is_default(*cell),
{
    cell.ch == ' ' && cell.zerowidth.is_none() && cell.foreground == TerminalColor::Named(256)
        && cell.background == TerminalColor::Named(257) && cell.underline_color.is_none()
        && cell.flags == CellFlags::default() && cell.width == CellWidth::Narrow
        && cell.hyperlink.is_none()
}

pub open spec fn flag(enabled: bool, name: char) -> char {
    if enabled {
        name
    } else {
        '-'
    }
}

fn flag_char(enabled: bool, name: char) -> (result: char)
    ensures
        result == flag(enabled, name),
{
    if enabled {
        name
    } else {
        '-'
    }
}

/// The line that describes a cell.
pub open spec fn detail_text(cell: SnapshotCell, column: nat, line: nat) -> Seq<char> {
    let f = cell.flags;
    let start = "cell="@ + dec(column) + ","@ + dec(line) + " ch=U+"@ + hex_padded(
        cell.ch as u32 as nat,
        4,
        true,
    ) + " width="@ + width_name(cell.width) + " fg="@ + color_text(cell.foreground) + " bg="@
        + color_text(cell.background) + " ul="@ + (match cell.underline_color {
        Some(color) => color_text(color),
        None => "none"@,
    }) + " flags="@;
    start.push(flag(f.bold, 'b')).push(flag(f.dim, 'd')).push(flag(f.italic, 'i')).push(
        flag(f.underline, 'u'),
    ).push(flag(f.inverse, 'v')).push(flag(f.hidden, 'h')).push(flag(f.strikeout, 's'))
        + " combining="@ + dec(
        match cell.zerowidth {
            Some(combining) => combining@.len(),
            None => 0,
        },
    ) + " hyperlink="@ + (match cell.hyperlink {
        Some(id) => dec(id as nat),
        None => "none"@,
    }) + "\n"@
}

fn detail(cell: &SnapshotCell, column: usize, line: usize) -> (result: String)
    ensures
        result@ == detail_text(*cell, column as nat, line as nat),
{
    let mut out: String = "cell=".to_owned();
    push_dec(&mut out, column as u64);
    out.append(",");
    push_dec(&mut out, line as u64);
    out.append(" ch=U+");
    push_hex(&mut out, cell.ch as u32 as u64, 4, true);
    out.append(" width=");
    out.append(width_str(cell.width));
    out.append(" fg=");
    out.append(color_string(cell.foreground).as_str());
    out.append(" bg=");
    out.append(color_string(cell.background).as_str());
    out.append(" ul=");
    match cell.underline_color {
        Some(color) => {
            out.append(color_string(color).as_str());
        },
        None => {
            out.append("none");
        },
    }
    out.append(" flags=");
    out.push(flag_char(cell.flags.bold, 'b'));
    out.push(flag_char(cell.flags.dim, 'd'));
    out.push(flag_char(cell.flags.italic, 'i'));
    out.push(flag_char(cell.flags.underline, 'u'));
    out.push(flag_char(cell.flags.inverse, 'v'));
    out.push(flag_char(cell.flags.hidden, 'h'));
    out.push(flag_char(cell.flags.strikeout, 's'));
    out.append(" combining=");
    let combining: usize = match &cell.zerowidth {
        Some(combining) => combining.len(),
        None => 0,
    };
    push_dec(&mut out, combining as u64);
    out.append(" hyperlink=");
    match cell.hyperlink {
        Some(id) => {
            push_dec(&mut out, id as u64);
        },
        None => {
            out.append("none");
        },
    }
    out.append("\n");
    out
}

/// The lines that describe the first `n` cells; a cell that shows nothing gets none.
pub open spec fn details_text(cells: Seq<SnapshotCell>, columns: int, n: int) -> Seq<char>
    decreases n,
{
    if n <= 0 {
        Seq::empty()
    } else {
        let before = details_text(cells, columns, n - 1);
        let cell = cells[n - 1];
        if is_default(cell) {
            before
        } else {
            before + detail_text(cell, ((n - 1) % columns) as nat, ((n - 1) / columns) as nat)
        }
    }
}

/// The whole view.
pub open spec fn debug_text(s: &FrameSnapshot) -> Seq<char> {
    let cells = s.cells@;
    let described = if cells.len() <= MAX_DIAGNOSTIC_CELLS {
        cells.len() as int
    } else {
        MAX_DIAGNOSTIC_CELLS as int
    };
    let columns = s.grid.columns as int;
    let text = header_text(s) + rows_text(cells, columns, cells.len() as int) + details_text(
        cells,
        columns,
        described,
    );
    if cells.len() > MAX_DIAGNOSTIC_CELLS {
        text + ("cells_truncated="@ + dec((cells.len() - MAX_DIAGNOSTIC_CELLS) as nat) + "\n"@)
    } else {
        text
    }
}

/// Produces a bounded, escaped diagnostic view of the visible terminal grid.
#[verifier::rlimit(60)]
pub fn format_debug_grid(snapshot: &FrameSnapshot) -> (result: String)
    requires
        snapshot.grid.columns > 0,
    ensures
        result@ == debug_text(snapshot),
{
    let mut output = header(snapshot);
    let columns: usize = snapshot.grid.columns();
    let count: usize = snapshot.cells.len();
    let ghost cells = snapshot.cells@;
    let ghost start = output@;
    let mut i: usize = 0;
    assert(start + Seq::<char>::empty() =~= start);
    while i < count
        invariant
            i <= count,
            count == cells.len(),
            cells == snapshot.cells@,
            columns == snapshot.grid.columns,
            columns > 0,
            output@ == start + rows_text(cells, columns as int, i as int),
        decreases count - i,
    {
        let ghost before = output@;
        push_cell(&mut output, &snapshot.cells[i]);
        i += 1;
        if i % columns == 0 || i == count {
            output.push('\n');
        }
        assert(output@ =~= start + rows_text(cells, columns as int, i as int));
    }
    let described: usize = if count <= MAX_DIAGNOSTIC_CELLS {
        count
    } else {
        MAX_DIAGNOSTIC_CELLS
    };
    let ghost middle = output@;
    let mut k: usize = 0;
    assert(middle + Seq::<char>::empty() =~= middle);
    while k < described
        invariant
            k <= described <= count,
            count == cells.len(),
            cells == snapshot.cells@,
            columns == snapshot.grid.columns,
            columns > 0,
            output@ == middle + details_text(cells, columns as int, k as int),
        decreases described - k,
    {
        if !is_default_cell(&snapshot.cells[k]) {
            let text = detail(&snapshot.cells[k], k % columns, k / columns);
            output.append(text.as_str());
        }
        k += 1;
        assert(output@ =~= middle + details_text(cells, columns as int, k as int));
    }
    if count > MAX_DIAGNOSTIC_CELLS {
        let mut last: String = "cells_truncated=".to_owned();
        push_dec(&mut last, (count - MAX_DIAGNOSTIC_CELLS) as u64);
        last.append("\n");
        output.append(last.as_str());
    }
    output
}

/// However wild the content is, the grid in the view holds no control but the ends of its lines.
pub proof fn grid_holds_no_controls(cells: Seq<SnapshotCell>, columns: int, n: int)
    requires
        columns > 0,
        0 <= n <= cells.len(),
    ensures
        forall|i: int|
            0 <= i < rows_text(cells, columns, n).len() ==> is_control(
                #[trigger] rows_text(cells, columns, n)[i],
            ) ==> rows_text(cells, columns, n)[i] == '\n',
    decreases n,
{
    if n > 0 {
        grid_holds_no_controls(cells, columns, n - 1);
        let before = rows_text(cells, columns, n - 1);
        let cell = cells[n - 1];
        if cell.zerowidth is Some {
            without_controls_has_none(cell.zerowidth->0@);
        }
        let text = cell_text(cell);
        assert forall|i: int| 0 <= i < rows_text(cells, columns, n).len() && is_control(
            #[trigger] rows_text(cells, columns, n)[i],
        ) implies rows_text(cells, columns, n)[i] == '\n' by {
            if i < before.len() {
                assert(rows_text(cells, columns, n)[i] == before[i]);
            } else if i < before.len() + text.len() {
                assert(rows_text(cells, columns, n)[i] == text[i - before.len()]);
                if i > before.len() {
                    let k = i - before.len() - 1;
                    assert(text[i - before.len()] == without_controls(cell.zerowidth->0@)[k]);
                }
            }
        }
    }
}

proof fn without_controls_has_none(chars: Seq<char>)
    ensures
        forall|i: int|
            0 <= i < without_controls(chars).len() ==> !is_control(
                #[trigger] without_controls(chars)[i],
            ),
    decreases chars.len(),
{
    if chars.len() > 0 {
        without_controls_has_none(chars.drop_last());
        let before = without_controls(chars.drop_last());
        assert forall|i: int| 0 <= i < without_controls(chars).len() implies !is_control(
            #[trigger] without_controls(chars)[i],
        ) by {
            if i < before.len() {
                assert(without_controls(chars)[i] == before[i]);
            }
        }
    }
}

/// The line of a cell begins with its column and its line, in this order, and then its character.
pub proof fn a_cell_is_told_by_its_place(cell: SnapshotCell, column: nat, line: nat)
    ensures
        ({
            let head = "cell="@ + dec(column) + ","@ + dec(line) + " ch=U+"@ + hex_padded(
                cell.ch as u32 as nat,
                4,
                true,
            );
            &&& detail_text(cell, column, line).len() >= head.len()
            &&& detail_text(cell, column, line).take(head.len() as int) == head
        }),
{
    let head = "cell="@ + dec(column) + ","@ + dec(line) + " ch=U+"@ + hex_padded(
        cell.ch as u32 as nat,
        4,
        true,
    );
    assert(detail_text(cell, column, line).take(head.len() as int) =~= head);
}

/// The first line begins with the generation and the size of the grid, columns before lines, and then
/// the place of the cursor.
pub proof fn a_frame_is_told_by_its_size(s: FrameSnapshot)
    ensures
        ({
            let head = "generation="@ + dec(s.generation as nat) + " grid="@ + dec(
                s.grid.columns as nat,
            ) + "x"@ + dec(s.grid.lines as nat) + " cursor="@ + dec(s.cursor.column as nat) + ","@
                + dec(s.cursor.line as nat) + " visible="@ + (if s.cursor.visible {
                "true"@
            } else {
                "false"@
            });
            &&& header_text(&s).len() >= head.len()
            &&& header_text(&s).take(head.len() as int) == head
        }),
{
    let head = "generation="@ + dec(s.generation as nat) + " grid="@ + dec(s.grid.columns as nat)
        + "x"@ + dec(s.grid.lines as nat) + " cursor="@ + dec(s.cursor.column as nat) + ","@ + dec(
        s.cursor.line as nat,
    ) + " visible="@ + (if s.cursor.visible {
        "true"@
    } else {
        "false"@
    });
    assert(header_text(&s).take(head.len() as int) =~= head);
}

/// A color is told by its kind and its number, a direct one by its red, green and blue, in this order.
pub proof fn colors_are_told_by_their_parts(n: u8, red: u8, green: u8, blue: u8)
    ensures
        color_text(TerminalColor::Indexed(n)) == "indexed:"@ + dec(n as nat),
        ({
            let r = hex_padded(red as nat, 2, false);
            let g = hex_padded(green as nat, 2, false);
            let text = color_text(TerminalColor::Rgb(red, green, blue));
            &&& text.take((4 + r.len()) as int) == "rgb:"@ + r
            &&& text.skip((4 + r.len() + g.len()) as int) == hex_padded(blue as nat, 2, false)
        }),
{
    reveal_strlit("rgb:");
    let r = hex_padded(red as nat, 2, false);
    let g = hex_padded(green as nat, 2, false);
    let b = hex_padded(blue as nat, 2, false);
    let text = color_text(TerminalColor::Rgb(red, green, blue));
    assert(text.take((4 + r.len()) as int) =~= "rgb:"@ + r);
    assert(text.skip((4 + r.len() + g.len()) as int) =~= b);
}

} // verus!
