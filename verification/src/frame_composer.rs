//! Composes a frame from what the terminal shows.
pub mod assets;
pub mod decoration;
pub mod laws;
pub mod palette;
pub mod question;
pub mod requests;
pub mod runs;
pub mod scene;
pub mod tab_strip;

use vstd::prelude::*;
use vstd::string::StringExecFns;
use crate::clipboard::{PasteConfirmationOverlay, PasteRisk, TransferTarget};
use crate::config::CursorStyle;
use crate::interaction::{PreeditOverlay, ScrollbarPresentation};
use crate::tab::TabBarPresentation;
use crate::terminal::snapshot::{CellWidth, FrameSnapshot, SnapshotCell};
use crate::text::{dec, push_dec};

verus! {

/// The most marks that are drawn under text in one frame.
pub const MAX_DECORATION_PRIMITIVES: usize = 262_144;

/// How the cursor is shown at the moment.
#[derive(Clone, Copy, Debug, PartialEq, Eq, Structural)]
pub struct CursorPresentationPolicy {
    pub blink_phase_visible: bool,
}

impl From<CursorStyle> for CursorPresentationPolicy {
    fn from(style: CursorStyle) -> (result: CursorPresentationPolicy) {
        CursorPresentationPolicy { blink_phase_visible: true }
    }
}

impl vstd::std_specs::convert::FromSpecImpl<CursorStyle> for CursorPresentationPolicy {
    open spec fn obeys_from_spec() -> bool {
        true
    }

    open spec fn from_spec(style: CursorStyle) -> CursorPresentationPolicy {
        CursorPresentationPolicy { blink_phase_visible: true }
    }
}

/// What does not fit together.
#[derive(Clone, Copy, Debug, PartialEq, Eq, Structural)]
pub enum SnapshotFault {
    GridsDiffer,
    WideWithoutSpacer,
    OrphanSpacer,
    MissingCluster,
    MissingAsset,
    MissingPreedit,
    MissingPreeditAsset,
    MissingOverlay,
    MissingOverlayAsset,
    MissingProvenance,
}

/// What there is too much of.
#[derive(Clone, Copy, Debug, PartialEq, Eq, Structural)]
pub enum CapacityFault {
    Placements,
    UniqueGlyphs,
    TabGlyphs,
    BitmapBytes,
    ClusterSpan,
}

#[derive(Clone, Copy, Debug, PartialEq, Eq, Structural)]
pub enum ComposeError {
    Snapshot(SnapshotFault),
    Capacity(CapacityFault),
}

impl ComposeError {
    pub open spec fn text(self) -> Seq<char> {
        match self {
            ComposeError::Snapshot(fault) => "snapshot contract error: "@ + match fault {
                SnapshotFault::GridsDiffer => "snapshot and layout grids differ"@,
                SnapshotFault::WideWithoutSpacer => "wide cell is not followed by spacer"@,
                SnapshotFault::OrphanSpacer => "orphan spacer cell"@,
                SnapshotFault::MissingCluster => "missing shaped cell cluster"@,
                SnapshotFault::MissingAsset => "rasterizer omitted glyph asset"@,
                SnapshotFault::MissingPreedit => "missing shaped preedit cluster"@,
                SnapshotFault::MissingPreeditAsset => "rasterizer omitted preedit glyph asset"@,
                SnapshotFault::MissingOverlay => "missing shaped overlay cluster"@,
                SnapshotFault::MissingOverlayAsset => "rasterizer omitted overlay glyph asset"@,
                SnapshotFault::MissingProvenance => "missing shaping provenance"@,
            },
            ComposeError::Capacity(fault) => "frame exceeds hard capacity: "@ + match fault {
                CapacityFault::Placements => "glyph placements"@,
                CapacityFault::UniqueGlyphs => "unique glyphs"@,
                CapacityFault::TabGlyphs => "tab glyphs"@,
                CapacityFault::BitmapBytes => "glyph bitmap bytes"@,
                CapacityFault::ClusterSpan => "shape cluster span"@,
            },
        }
    }

    /// What the error says.
    pub fn message(self) -> (result: String)
        ensures
            result@ == self.text(),
    {
        match self {
            ComposeError::Snapshot(fault) => {
                let mut out = String::from_str("snapshot contract error: ");
                match fault {
                    SnapshotFault::GridsDiffer => out.append("snapshot and layout grids differ"),
                    SnapshotFault::WideWithoutSpacer => out.append(
                        "wide cell is not followed by spacer",
                    ),
                    SnapshotFault::OrphanSpacer => out.append("orphan spacer cell"),
                    SnapshotFault::MissingCluster => out.append("missing shaped cell cluster"),
                    SnapshotFault::MissingAsset => out.append("rasterizer omitted glyph asset"),
                    SnapshotFault::MissingPreedit => out.append("missing shaped preedit cluster"),
                    SnapshotFault::MissingPreeditAsset => out.append(
                        "rasterizer omitted preedit glyph asset",
                    ),
                    SnapshotFault::MissingOverlay => out.append("missing shaped overlay cluster"),
                    SnapshotFault::MissingOverlayAsset => out.append(
                        "rasterizer omitted overlay glyph asset",
                    ),
                    SnapshotFault::MissingProvenance => out.append("missing shaping provenance"),
                }
                out
            },
            ComposeError::Capacity(fault) => {
                let mut out = String::from_str("frame exceeds hard capacity: ");
                match fault {
                    CapacityFault::Placements => out.append("glyph placements"),
                    CapacityFault::UniqueGlyphs => out.append("unique glyphs"),
                    CapacityFault::TabGlyphs => out.append("tab glyphs"),
                    CapacityFault::BitmapBytes => out.append("glyph bitmap bytes"),
                    CapacityFault::ClusterSpan => out.append("shape cluster span"),
                }
                out
            },
        }
    }
}

/// A filled rectangle, in pixels.
#[derive(Clone, Copy, Debug, PartialEq, Eq, Structural)]
pub struct RectangleInstance {
    pub x: u64,
    pub y: u64,
    pub width: u64,
    pub height: u64,
    pub color: u32,
}

/// A run of cells, each end as column and line. It holds both of its ends.
#[derive(Clone, Copy, Debug, PartialEq, Eq)]
pub struct CellRange {
    pub start: [u16; 2],
    pub end: [u16; 2],
}

/// A run of cells over its numbers.
pub struct RangeModel {
    pub start_column: u16,
    pub start_line: u16,
    pub end_column: u16,
    pub end_line: u16,
}

impl View for CellRange {
    type V = RangeModel;

    open spec fn view(&self) -> RangeModel {
        RangeModel {
            start_column: self.start@[0],
            start_line: self.start@[1],
            end_column: self.end@[0],
            end_line: self.end@[1],
        }
    }
}

/// The views of runs of cells.
pub open spec fn ranges_view(ranges: Seq<CellRange>) -> Seq<RangeModel> {
    ranges.map_values(|r: CellRange| r@)
}

/// The cells that are selected in a frame.
#[derive(Clone, Debug)]
pub struct SelectionOverlay {
    pub snapshot_generation: u64,
    pub revision: u64,
    pub ranges: Vec<CellRange>,
}

/// The matches of a search in a frame.
#[derive(Clone, Debug)]
pub struct SearchOverlay {
    pub snapshot_generation: u64,
    pub content_revision: u64,
    pub revision: u64,
    pub current: Vec<CellRange>,
    pub others: Vec<CellRange>,
}

/// What lies over the cells.
#[derive(Clone, Copy, Debug)]
pub struct FrameOverlays<'a> {
    pub selection: &'a SelectionOverlay,
    pub preedit: Option<&'a PreeditOverlay>,
    pub paste_confirmation: Option<&'a PasteConfirmationOverlay>,
    pub scrollbar: Option<&'a ScrollbarPresentation>,
    pub tab_bar: Option<&'a TabBarPresentation>,
}

/// Whether one point comes before another or is the same, by line and then by column.
pub open spec fn point_le(a_column: u16, a_line: u16, b_column: u16, b_line: u16) -> bool {
    a_line < b_line || (a_line == b_line && a_column <= b_column)
}

/// Whether a range holds a cell. Its ends may be in either order.
pub open spec fn holds(range: RangeModel, column: u16, line: u16) -> bool {
    ||| (point_le(range.start_column, range.start_line, column, line) && point_le(
        column,
        line,
        range.end_column,
        range.end_line,
    ))
    ||| (point_le(range.end_column, range.end_line, column, line) && point_le(
        column,
        line,
        range.start_column,
        range.start_line,
    ))
}

fn is_before(a_column: u16, a_line: u16, b_column: u16, b_line: u16) -> (result: bool)
    ensures
        result == point_le(a_column, a_line, b_column, b_line),
{
    a_line < b_line || (a_line == b_line && a_column <= b_column)
}

/// Whether a range holds a point, given as column and line.
pub fn point_in_range(point: [u16; 2], range: CellRange) -> (result: bool)
    ensures
        result == holds(range@, point@[0], point@[1]),
{
    let column: u16 = point[0];
    let line: u16 = point[1];
    (is_before(range.start[0], range.start[1], column, line) && is_before(
        column,
        line,
        range.end[0],
        range.end[1],
    )) || (is_before(range.end[0], range.end[1], column, line) && is_before(
        column,
        line,
        range.start[0],
        range.start[1],
    ))
}

/// Whether a cell of a snapshot is selected.
pub open spec fn is_selected(
    selection: SelectionOverlay,
    generation: u64,
    column: u16,
    line: u16,
) -> bool {
    selection.snapshot_generation == generation && exists|i: int|
        0 <= i < selection.ranges@.len() && holds(
            (#[trigger] selection.ranges@[i])@,
            column,
            line,
        )
}

/// Decides [`is_selected`].
pub fn cell_selected(
    selection: &SelectionOverlay,
    generation: u64,
    column: u16,
    line: u16,
) -> (result: bool)
    ensures
        result == is_selected(*selection, generation, column, line),
{
    if selection.snapshot_generation != generation {
        return false;
    }
    let mut i: usize = 0;
    while i < selection.ranges.len()
        invariant
            i <= selection.ranges@.len(),
            selection.snapshot_generation == generation,
            forall|k: int|
                0 <= k < i ==> !holds((#[trigger] selection.ranges@[k])@, column, line),
        decreases selection.ranges@.len() - i,
    {
        if point_in_range([column, line], selection.ranges[i]) {
            assert(holds(selection.ranges@[i as int]@, column, line));
            return true;
        }
        i += 1;
    }
    false
}

/// What is wrong with the width of a cell: a wide one is followed by its spacer, and a spacer
/// follows a wide one, on the same line.
pub open spec fn width_fault(cells: Seq<SnapshotCell>, columns: int, i: int) -> Option<
    ComposeError,
> {
    if cells[i].width is Wide && (i % columns == columns - 1 || !(cells[i + 1].width is Spacer)) {
        Some(ComposeError::Snapshot(SnapshotFault::WideWithoutSpacer))
    } else if cells[i].width is Spacer && (i % columns == 0 || !(cells[i - 1].width is Wide)) {
        Some(ComposeError::Snapshot(SnapshotFault::OrphanSpacer))
    } else {
        None
    }
}

/// The first thing that is wrong with the widths of cells, from one on.
pub open spec fn width_fault_from(cells: Seq<SnapshotCell>, columns: int, i: int) -> Option<
    ComposeError,
>
    decreases cells.len() - i,
{
    if i < 0 || i >= cells.len() {
        None
    } else if width_fault(cells, columns, i) is Some {
        width_fault(cells, columns, i)
    } else {
        width_fault_from(cells, columns, i + 1)
    }
}

/// Checks the widths of the cells of a snapshot.
pub fn validate_widths(snapshot: &FrameSnapshot) -> (result: Result<(), ComposeError>)
    requires
        snapshot.wf(),
    ensures
        match width_fault_from(snapshot.cells@, snapshot.grid.columns as int, 0) {
            Some(fault) => result == Err::<(), ComposeError>(fault),
            None => result is Ok,
        },
{
    let columns: usize = snapshot.grid.columns();
    let ghost cells = snapshot.cells@;
    let mut i: usize = 0;
    while i < snapshot.cells.len()
        invariant
            i <= snapshot.cells@.len(),
            cells == snapshot.cells@,
            columns == snapshot.grid.columns,
            columns > 0,
            cells.len() == snapshot.grid.cell_count(),
            width_fault_from(cells, columns as int, 0) == width_fault_from(
                cells,
                columns as int,
                i as int,
            ),
        decreases snapshot.cells@.len() - i,
    {
        let column: usize = i % columns;
        match snapshot.cells[i].width {
            CellWidth::Wide => {
                if column == columns - 1 {
                    return Err(ComposeError::Snapshot(SnapshotFault::WideWithoutSpacer));
                }
                proof {
                    next_is_there(i as int, columns as int, snapshot.grid.lines as int);
                }
                if snapshot.cells[i + 1].width != CellWidth::Spacer {
                    return Err(ComposeError::Snapshot(SnapshotFault::WideWithoutSpacer));
                }
            },
            CellWidth::Spacer => {
                if column == 0 {
                    return Err(ComposeError::Snapshot(SnapshotFault::OrphanSpacer));
                }
                assert(i > 0) by {
                    if i == 0 {
                        assert(0int % (columns as int) == 0) by (nonlinear_arith)
                            requires
                                columns > 0,
                        ;
                    }
                }
                if snapshot.cells[i - 1].width != CellWidth::Wide {
                    return Err(ComposeError::Snapshot(SnapshotFault::OrphanSpacer));
                }
            },
            _ => {},
        }
        i += 1;
    }
    Ok(())
}

proof fn next_is_there(i: int, columns: int, lines: int)
    requires
        columns > 0,
        0 <= i < columns * lines,
        i % columns != columns - 1,
    ensures
        i + 1 < columns * lines,
{
    if i + 1 == columns * lines {
        vstd::arithmetic::div_mod::lemma_fundamental_div_mod(i, columns);
        let q = i / columns;
        let r = i % columns;
        assert(r + 1 == columns * (lines - q)) by (nonlinear_arith)
            requires
                i == columns * q + r,
                i + 1 == columns * lines,
        ;
        assert(lines - q <= 0 || r + 1 >= columns) by (nonlinear_arith)
            requires
                r + 1 == columns * (lines - q),
                columns > 0,
        ;
        assert(r + 1 > 0);
        assert(lines - q > 0) by (nonlinear_arith)
            requires
                r + 1 == columns * (lines - q),
                r + 1 > 0,
                columns > 0,
        ;
    }
}

/// The lines that are shown while a paste waits to be confirmed. They never hold any of its text.
pub open spec fn confirmation_line(confirmation: PasteConfirmationOverlay, i: int) -> Seq<char> {
    if i == 0 {
        "PASTE REQUIRES CONFIRMATION"@
    } else if i == 1 {
        "Source: "@ + (match confirmation.source {
            TransferTarget::Clipboard => "Clipboard"@,
            TransferTarget::Primary => "Primary selection"@,
        }) + "   "@ + dec(confirmation.bytes as nat) + " bytes   "@ + dec(
            confirmation.lines as nat,
        ) + " lines"@
    } else if i == 2 {
        "Risk: "@ + match confirmation.risk {
            PasteRisk::Multiline => "Multiple lines may execute commands"@,
            PasteRisk::ControlCharacters => "Control characters may alter terminal state"@,
        }
    } else {
        "Enter / Y  Paste     Esc / N  Cancel"@
    }
}

/// How many such lines there are.
pub const CONFIRMATION_LINES: usize = 4;

/// The lines that are shown while a paste waits to be confirmed.
pub fn paste_confirmation_lines(confirmation: &PasteConfirmationOverlay) -> (result: Vec<String>)
    ensures
        result@.len() == CONFIRMATION_LINES,
        forall|i: int|
            0 <= i < CONFIRMATION_LINES ==> (#[trigger] result@[i])@ == confirmation_line(
                *confirmation,
                i,
            ),
{
    let mut source = String::from_str("Source: ");
    match confirmation.source {
        TransferTarget::Clipboard => source.append("Clipboard"),
        TransferTarget::Primary => source.append("Primary selection"),
    }
    source.append("   ");
    push_dec(&mut source, confirmation.bytes as u64);
    source.append(" bytes   ");
    push_dec(&mut source, confirmation.lines as u64);
    source.append(" lines");
    let mut risk = String::from_str("Risk: ");
    match confirmation.risk {
        PasteRisk::Multiline => risk.append("Multiple lines may execute commands"),
        PasteRisk::ControlCharacters => risk.append("Control characters may alter terminal state"),
    }
    let mut lines: Vec<String> = Vec::new();
    lines.push(String::from_str("PASTE REQUIRES CONFIRMATION"));
    lines.push(source);
    lines.push(risk);
    lines.push(String::from_str("Enter / Y  Paste     Esc / N  Cancel"));
    lines
}

} // verus!
