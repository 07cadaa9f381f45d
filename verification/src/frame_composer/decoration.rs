//! The marks under and through the text of a cell.
use vstd::prelude::*;
use crate::frame_composer::{RectangleInstance, MAX_DECORATION_PRIMITIVES};
use crate::layout::GridLayout;
use crate::terminal::snapshot::{CellWidth, SnapshotCell, UnderlineStyle};

verus! {

/// How a cell is underlined. A link that is not underlined otherwise has a single line.
pub open spec fn underline_of(cell: SnapshotCell) -> UnderlineStyle {
    if cell.width is Spacer {
        UnderlineStyle::Off
    } else if !(cell.underline_style is Off) {
        cell.underline_style
    } else if cell.hyperlink is Some {
        UnderlineStyle::Single
    } else {
        UnderlineStyle::Off
    }
}

/// How a cell is underlined.
pub fn effective_underline_style(cell: &SnapshotCell) -> (result: UnderlineStyle)
    ensures
        result == underline_of(*cell),
{
    if cell.width == CellWidth::Spacer {
        UnderlineStyle::Off
    } else if cell.underline_style != UnderlineStyle::Off {
        cell.underline_style
    } else if cell.hyperlink.is_some() {
        UnderlineStyle::Single
    } else {
        UnderlineStyle::Off
    }
}

/// A mark, measured from the top left corner of its cells.
#[derive(Clone, Copy, Debug, PartialEq, Eq, Structural)]
pub struct Mark {
    pub x: u32,
    pub y: u32,
    pub width: u32,
    pub height: u32,
}

/// How a line is drawn under some cells: where they begin in the window, how large they are, and
/// where and how thick the line is in them.
#[derive(Clone, Copy, Debug, PartialEq, Eq, Structural)]
pub struct Stroke {
    pub left: u32,
    pub width: u32,
    pub height: u32,
    pub thickness: u32,
    pub y: u32,
}

pub open spec fn min(a: int, b: int) -> int {
    if a <= b {
        a
    } else {
        b
    }
}

pub open spec fn max(a: int, b: int) -> int {
    if a >= b {
        a
    } else {
        b
    }
}

/// How a line is drawn under so many cells of a layout.
pub open spec fn stroke_of(layout: GridLayout, left: u32, span: u32) -> Stroke {
    let height = layout.cell_px@[1] as int;
    Stroke {
        left,
        width: min(layout.cell_px@[0] * span, u32::MAX as int) as u32,
        height: height as u32,
        thickness: max(layout.cell_metrics.underline_thickness_px as int, 1) as u32,
        y: min(max(layout.cell_metrics.underline_y_px as int, 0), height - 1) as u32,
    }
}

impl Stroke {
    /// The line lies in its cells.
    pub open spec fn valid(self) -> bool {
        &&& 1 <= self.height <= 0xffff
        &&& 1 <= self.thickness <= 0xffff
        &&& self.y < self.height
    }

    /// The line as a whole.
    pub open spec fn line(self) -> Mark {
        Mark {
            x: 0,
            y: self.y,
            width: self.width,
            height: min(self.thickness as int, self.height - self.y) as u32,
        }
    }

    /// How far a curly line swings to either side.
    pub open spec fn amplitude(self) -> int {
        max(1, min(self.thickness as int, (self.height - 1) / 2))
    }

    /// How far a curly line is from its middle: it swings evenly over the window, whatever cells
    /// it is drawn under.
    pub open spec fn swing(self, x: int) -> int {
        let a = self.amplitude();
        let phase = (self.left + x) % (a * 4);
        if phase < a {
            phase
        } else if phase < a * 3 {
            a * 2 - phase
        } else {
            phase - a * 4
        }
    }

    /// One pixel of a curly line. It never leaves its cells.
    pub open spec fn curl(self, x: int) -> Mark {
        let y = max(0, min(self.y + self.swing(x), self.height - 1));
        Mark {
            x: x as u32,
            y: y as u32,
            width: 1,
            height: min(self.thickness as int, self.height - y) as u32,
        }
    }

    /// The dots from some place on.
    pub open spec fn dots(self, x: int) -> Seq<Mark>
        decreases max(self.width - x, 0),
    {
        let dot = max(self.thickness as int, 1);
        if x >= self.width {
            Seq::empty()
        } else {
            seq![
                Mark {
                    x: x as u32,
                    y: self.y,
                    width: min(dot, self.width - x) as u32,
                    height: min(dot, self.height - self.y) as u32,
                },
            ] + self.dots(x + dot * 2)
        }
    }

    /// The dashes from some place on, each five times as far from the next as the line is thick.
    pub open spec fn dashes(self, x: int) -> Seq<Mark>
        decreases max(self.width - x, 0),
    {
        let thickness = max(self.thickness as int, 1);
        if x >= self.width {
            Seq::empty()
        } else {
            seq![
                Mark {
                    x: x as u32,
                    y: self.y,
                    width: min(thickness * 3, self.width - x) as u32,
                    height: min(self.thickness as int, self.height - self.y) as u32,
                },
            ] + self.dashes(x + thickness * 5)
        }
    }

    /// What is left of a dash that begins before the cells.
    pub open spec fn first_dash(self) -> Seq<Mark> {
        let dash = self.thickness * 3;
        let phase = self.left as int % (self.thickness * 5);
        if phase < dash {
            seq![
                Mark {
                    x: 0,
                    y: self.y,
                    width: min(dash - phase, self.width as int) as u32,
                    height: min(self.thickness as int, self.height - self.y) as u32,
                },
            ]
        } else {
            Seq::empty()
        }
    }

    /// The marks of a style. What does not fit the cells is drawn as a single line.
    pub open spec fn marks(self, style: UnderlineStyle) -> Seq<Mark> {
        match style {
            UnderlineStyle::Off => Seq::empty(),
            UnderlineStyle::Single => seq![self.line()],
            UnderlineStyle::Double => if self.y >= self.thickness * 2 {
                seq![
                    Mark {
                        x: 0,
                        y: (self.y - self.thickness * 2) as u32,
                        width: self.width,
                        height: self.thickness,
                    },
                    self.line(),
                ]
            } else {
                seq![self.line()]
            },
            UnderlineStyle::Curly => if self.width >= 4 && self.height >= 3 {
                Seq::new(self.width as nat, |x: int| self.curl(x))
            } else {
                seq![self.line()]
            },
            UnderlineStyle::Dotted => self.dots(0),
            UnderlineStyle::Dashed => self.first_dash() + self.dashes(
                self.thickness * 5 - self.left as int % (self.thickness * 5),
            ),
        }
    }
}

fn min32(a: u32, b: u32) -> (result: u32)
    ensures
        result == min(a as int, b as int),
{
    if a <= b {
        a
    } else {
        b
    }
}

/// How a line is drawn under so many cells of a layout.
fn measure(layout: &GridLayout, left: u32, span: u32) -> (result: Stroke)
    requires
        layout.cell_px@[1] > 0,
    ensures
        result == stroke_of(*layout, left, span),
        result.valid(),
{
    let metrics = layout.cell_metrics;
    let cell: u64 = layout.cell_px[0] as u64;
    let cells: u64 = span as u64;
    assert(cell * cells <= 0xffff * 0xffff_ffff) by (nonlinear_arith)
        requires
            cell <= 0xffff,
            cells <= 0xffff_ffff,
    ;
    let width: u64 = cell * cells;
    let height: u32 = layout.cell_px[1] as u32;
    let mut thickness: u32 = metrics.underline_thickness_px as u32;
    if thickness < 1 {
        thickness = 1;
    }
    let y: u32 = if metrics.underline_y_px < 0 {
        0
    } else {
        metrics.underline_y_px as u32
    };
    Stroke {
        left,
        width: if width > 0xffff_ffff {
            0xffff_ffff
        } else {
            width as u32
        },
        height,
        thickness,
        y: min32(y, height - 1),
    }
}

fn curly(stroke: Stroke) -> (result: Vec<Mark>)
    requires
        stroke.valid(),
    ensures
        result@ == Seq::new(stroke.width as nat, |x: int| stroke.curl(x)),
{
    let mut amplitude: u32 = min32(stroke.thickness, (stroke.height - 1) / 2);
    if amplitude < 1 {
        amplitude = 1;
    }
    let mut out: Vec<Mark> = Vec::new();
    let mut x: u32 = 0;
    while x < stroke.width
        invariant
            x <= stroke.width,
            stroke.valid(),
            amplitude == stroke.amplitude(),
            1 <= amplitude <= 0xffff,
            out@ == Seq::new(x as nat, |x: int| stroke.curl(x)),
        decreases stroke.width - x,
    {
        let phase: i64 = ((stroke.left as u64 + x as u64) % (amplitude as u64 * 4)) as i64;
        let a: i64 = amplitude as i64;
        let offset: i64 = if phase < a {
            phase
        } else if phase < a * 3 {
            a * 2 - phase
        } else {
            phase - a * 4
        };
        let wave: i64 = stroke.y as i64 + offset;
        let y: u32 = if wave < 0 {
            0
        } else if wave > stroke.height as i64 - 1 {
            stroke.height - 1
        } else {
            wave as u32
        };
        out.push(
            Mark { x, y, width: 1, height: min32(stroke.thickness, stroke.height - y) },
        );
        assert(out@[x as int] == stroke.curl(x as int));
        x += 1;
        assert(out@ =~= Seq::new(x as nat, |x: int| stroke.curl(x)));
    }
    out
}

fn dotted(stroke: Stroke) -> (result: Vec<Mark>)
    requires
        stroke.valid(),
    ensures
        result@ == stroke.dots(0),
{
    let mut out: Vec<Mark> = Vec::new();
    let mut x: u64 = 0;
    assert(out@ + stroke.dots(0) =~= stroke.dots(0));
    while x < stroke.width as u64
        invariant
            stroke.valid(),
            x <= 0x2_0000_0000,
            out@ + stroke.dots(x as int) == stroke.dots(0),
        decreases max(stroke.width - x, 0),
    {
        let ghost before = out@;
        out.push(
            Mark {
                x: x as u32,
                y: stroke.y,
                width: min32(stroke.thickness, stroke.width - x as u32),
                height: min32(stroke.thickness, stroke.height - stroke.y),
            },
        );
        let ghost at = x as int;
        x += stroke.thickness as u64 * 2;
        assert(out@ + stroke.dots(x as int) =~= before + stroke.dots(at));
    }
    assert(out@ =~= stroke.dots(0));
    out
}

fn dashed(stroke: Stroke) -> (result: Vec<Mark>)
    requires
        stroke.valid(),
    ensures
        result@ == stroke.marks(UnderlineStyle::Dashed),
{
    let period: u32 = stroke.thickness * 5;
    let dash: u32 = stroke.thickness * 3;
    let phase: u32 = stroke.left % period;
    let mut out: Vec<Mark> = Vec::new();
    if phase < dash {
        out.push(
            Mark {
                x: 0,
                y: stroke.y,
                width: min32(dash - phase, stroke.width),
                height: min32(stroke.thickness, stroke.height - stroke.y),
            },
        );
    }
    assert(out@ =~= stroke.first_dash());
    let ghost all = stroke.marks(UnderlineStyle::Dashed);
    let mut x: u64 = (period - phase) as u64;
    while x < stroke.width as u64
        invariant
            stroke.valid(),
            period == stroke.thickness * 5,
            dash == stroke.thickness * 3,
            x <= 0x2_0000_0000,
            out@ + stroke.dashes(x as int) == all,
        decreases max(stroke.width - x, 0),
    {
        let ghost before = out@;
        out.push(
            Mark {
                x: x as u32,
                y: stroke.y,
                width: min32(dash, stroke.width - x as u32),
                height: min32(stroke.thickness, stroke.height - stroke.y),
            },
        );
        let ghost at = x as int;
        x += period as u64;
        assert(out@ + stroke.dashes(x as int) =~= before + stroke.dashes(at));
    }
    assert(out@ =~= all);
    out
}

fn underline_marks(stroke: Stroke, style: UnderlineStyle) -> (result: Vec<Mark>)
    requires
        stroke.valid(),
    ensures
        result@ == stroke.marks(style),
{
    let line = Mark {
        x: 0,
        y: stroke.y,
        width: stroke.width,
        height: min32(stroke.thickness, stroke.height - stroke.y),
    };
    let mut out: Vec<Mark> = Vec::new();
    match style {
        UnderlineStyle::Off => {
            assert(out@ =~= stroke.marks(style));
            out
        },
        UnderlineStyle::Double => {
            if stroke.y >= stroke.thickness * 2 {
                out.push(
                    Mark {
                        x: 0,
                        y: stroke.y - stroke.thickness * 2,
                        width: stroke.width,
                        height: stroke.thickness,
                    },
                );
            }
            out.push(line);
            assert(out@ =~= stroke.marks(style));
            out
        },
        UnderlineStyle::Curly => {
            if stroke.width >= 4 && stroke.height >= 3 {
                return curly(stroke);
            }
            out.push(line);
            assert(out@ =~= stroke.marks(style));
            out
        },
        UnderlineStyle::Single => {
            out.push(line);
            assert(out@ =~= stroke.marks(style));
            out
        },
        UnderlineStyle::Dotted => dotted(stroke),
        UnderlineStyle::Dashed => dashed(stroke),
    }
}

/// A mark in the window.
pub open spec fn mark_rectangle(mark: Mark, left: u32, top: u32, color: u32) -> RectangleInstance {
    RectangleInstance {
        x: (left + mark.x) as u64,
        y: (top + mark.y) as u64,
        width: mark.width as u64,
        height: mark.height as u64,
        color,
    }
}

/// The first marks that are not empty, as far as there is still room for them.
pub open spec fn drawn(marks: Seq<Mark>, left: u32, top: u32, color: u32, count: int) -> Seq<
    RectangleInstance,
>
    decreases marks.len(),
{
    if marks.len() == 0 {
        Seq::empty()
    } else {
        let before = drawn(marks.drop_last(), left, top, color, count);
        let mark = marks.last();
        if count + before.len() < MAX_DECORATION_PRIMITIVES && mark.width != 0 && mark.height
            != 0 {
            before.push(mark_rectangle(mark, left, top, color))
        } else {
            before
        }
    }
}

/// What is drawn under so many cells, where so many marks are drawn already.
pub open spec fn underline_rectangles(
    style: UnderlineStyle,
    left: u32,
    top: u32,
    layout: GridLayout,
    span: u32,
    color: u32,
    count: int,
) -> Seq<RectangleInstance> {
    drawn(stroke_of(layout, left, span).marks(style), left, top, color, count)
}

/// Draws a line under so many cells, as far as there is still room for it.
pub fn push_underline_primitives(
    rectangles: &mut Vec<RectangleInstance>,
    count: &mut usize,
    style: UnderlineStyle,
    origin: [u32; 2],
    layout: &GridLayout,
    span: u32,
    color: u32,
)
    requires
        layout.cell_px@[1] > 0,
    ensures
        ({
            let added = underline_rectangles(
                style,
                origin@[0],
                origin@[1],
                *layout,
                span,
                color,
                *old(count) as int,
            );
            &&& final(rectangles)@ == old(rectangles)@ + added
            &&& *final(count) == *old(count) + added.len()
            &&& *old(count) <= MAX_DECORATION_PRIMITIVES ==> *final(count)
                <= MAX_DECORATION_PRIMITIVES
        }),
{
    let stroke = measure(layout, origin[0], span);
    let marks = underline_marks(stroke, style);
    let ghost start = *count as int;
    let ghost before = rectangles@;
    let mut i: usize = 0;
    assert(marks@.take(0) =~= Seq::empty());
    assert(rectangles@ =~= before + drawn(marks@.take(0), origin@[0], origin@[1], color, start));
    while i < marks.len()
        invariant
            i <= marks@.len(),
            rectangles@ == before + drawn(
                marks@.take(i as int),
                origin@[0],
                origin@[1],
                color,
                start,
            ),
            *count == start + drawn(
                marks@.take(i as int),
                origin@[0],
                origin@[1],
                color,
                start,
            ).len(),
            start <= MAX_DECORATION_PRIMITIVES ==> *count <= MAX_DECORATION_PRIMITIVES,
        decreases marks@.len() - i,
    {
        let mark = marks[i];
        assert(marks@.take(i + 1).drop_last() =~= marks@.take(i as int));
        if *count < MAX_DECORATION_PRIMITIVES && mark.width != 0 && mark.height != 0 {
            rectangles.push(
                RectangleInstance {
                    x: origin[0] as u64 + mark.x as u64,
                    y: origin[1] as u64 + mark.y as u64,
                    width: mark.width as u64,
                    height: mark.height as u64,
                    color,
                },
            );
            *count += 1;
        }
        i += 1;
        assert(rectangles@ =~= before + drawn(
            marks@.take(i as int),
            origin@[0],
            origin@[1],
            color,
            start,
        ));
    }
    assert(marks@.take(i as int) =~= marks@);
}

/// Whether a mark lies in its cells.
pub open spec fn lies_within(mark: Mark, stroke: Stroke) -> bool {
    mark.x + mark.width <= stroke.width && mark.y + mark.height <= stroke.height
}

/// Whatever the style, no mark leaves the cells that it is drawn under.
pub proof fn marks_stay_in_their_cells(stroke: Stroke, style: UnderlineStyle, i: int)
    requires
        stroke.valid(),
        0 <= i < stroke.marks(style).len(),
    ensures
        lies_within(stroke.marks(style)[i], stroke),
{
    match style {
        UnderlineStyle::Dotted => {
            dots_stay(stroke, 0, i);
        },
        UnderlineStyle::Dashed => {
            let phase = stroke.left as int % (stroke.thickness * 5);
            let first = stroke.first_dash();
            if i >= first.len() {
                dashes_stay(stroke, stroke.thickness * 5 - phase, i - first.len());
            }
        },
        _ => {},
    }
}

proof fn dots_stay(stroke: Stroke, x: int, i: int)
    requires
        stroke.valid(),
        x >= 0,
        0 <= i < stroke.dots(x).len(),
    ensures
        lies_within(stroke.dots(x)[i], stroke),
    decreases max(stroke.width - x, 0),
{
    if i > 0 {
        let step = max(stroke.thickness as int, 1) * 2;
        dots_stay(stroke, x + step, i - 1);
        assert(stroke.dots(x)[i] == stroke.dots(x + step)[i - 1]);
    }
}

proof fn dashes_stay(stroke: Stroke, x: int, i: int)
    requires
        stroke.valid(),
        x >= 0,
        0 <= i < stroke.dashes(x).len(),
    ensures
        lies_within(stroke.dashes(x)[i], stroke),
    decreases max(stroke.width - x, 0),
{
    if i > 0 {
        let step = max(stroke.thickness as int, 1) * 5;
        dashes_stay(stroke, x + step, i - 1);
        assert(stroke.dashes(x)[i] == stroke.dashes(x + step)[i - 1]);
    }
}

/// However much is underlined, the marks of a frame keep their limit.
pub proof fn marks_keep_their_limit(
    marks: Seq<Mark>,
    left: u32,
    top: u32,
    color: u32,
    count: int,
)
    requires
        0 <= count <= MAX_DECORATION_PRIMITIVES,
    ensures
        count + drawn(marks, left, top, color, count).len() <= MAX_DECORATION_PRIMITIVES,
    decreases marks.len(),
{
    if marks.len() > 0 {
        marks_keep_their_limit(marks.drop_last(), left, top, color, count);
    }
}

/// A cell is underlined as it asks for, a link at least by a single line. The second cell of a wide
/// character has no line of its own.
pub proof fn cells_are_underlined_as_asked(cell: SnapshotCell)
    ensures
        cell.width is Spacer ==> underline_of(cell) is Off,
        !(cell.width is Spacer) && !(cell.underline_style is Off) ==> underline_of(cell)
            == cell.underline_style,
        !(cell.width is Spacer) && cell.underline_style is Off && cell.hyperlink is Some
            ==> underline_of(cell) is Single,
        cell.underline_style is Off && cell.hyperlink is None ==> underline_of(cell) is Off,
{
}

/// A single line runs under all of its cells, where the font has it and as thick as the font has it,
/// as far as the cells reach. A second line runs above it, as thick and that far from it.
pub proof fn lines_run_under_all_of_their_cells(stroke: Stroke)
    requires
        stroke.valid(),
    ensures
        ({
            let one = stroke.marks(UnderlineStyle::Single);
            let two = stroke.marks(UnderlineStyle::Double);
            &&& stroke.marks(UnderlineStyle::Off).len() == 0
            &&& one.len() == 1
            &&& one[0].x == 0 && one[0].width == stroke.width && one[0].y == stroke.y
            &&& stroke.y + stroke.thickness <= stroke.height ==> one[0].height == stroke.thickness
            &&& stroke.y + stroke.thickness > stroke.height ==> one[0].y + one[0].height
                == stroke.height
            &&& stroke.y >= 2 * stroke.thickness ==> {
                &&& two.len() == 2
                &&& two[1] == one[0]
                &&& two[0].x == 0 && two[0].width == stroke.width
                &&& two[0].height == stroke.thickness
                &&& two[0].y + two[0].height + stroke.thickness == two[1].y
            }
        }),
{
}

/// Dots are as wide as the line is thick, and as far apart.
pub proof fn dots_are_evenly_apart(stroke: Stroke, x: int, i: int)
    requires
        stroke.valid(),
        0 <= x,
        0 <= i < stroke.dots(x).len(),
    ensures
        stroke.dots(x)[i].x == x + 2 * stroke.thickness * i,
        stroke.dots(x)[i].y == stroke.y,
        stroke.dots(x)[i].width == stroke.thickness || stroke.dots(x)[i].x + stroke.dots(x)[i].width
            == stroke.width,
        i + 1 == stroke.dots(x).len() ==> stroke.dots(x)[i].x + 2 * stroke.thickness
            >= stroke.width,
    decreases max(stroke.width - x, 0),
{
    let step = stroke.thickness * 2;
    let t = stroke.thickness as int;
    assert(stroke.dots(x).skip(1) =~= stroke.dots(x + step));
    if i > 0 {
        dots_are_evenly_apart(stroke, x + step, i - 1);
        assert(stroke.dots(x)[i] == stroke.dots(x + step)[i - 1]);
        assert(step + 2 * t * (i - 1) == 2 * t * i) by (nonlinear_arith)
            requires
                step == t * 2,
        ;
    } else {
        assert(2 * t * 0 == 0);
        if stroke.dots(x).len() == 1 {
            assert(stroke.dots(x + step).len() == 0);
        }
    }
}

/// Dashes are three times as long as the line is thick, with gaps of twice that thickness between
/// them.
pub proof fn dashes_are_evenly_apart(stroke: Stroke, x: int, i: int)
    requires
        stroke.valid(),
        0 <= x,
        0 <= i < stroke.dashes(x).len(),
    ensures
        stroke.dashes(x)[i].x == x + 5 * stroke.thickness * i,
        stroke.dashes(x)[i].y == stroke.y,
        stroke.dashes(x)[i].width == 3 * stroke.thickness || stroke.dashes(x)[i].x + stroke.dashes(
            x,
        )[i].width == stroke.width,
    decreases max(stroke.width - x, 0),
{
    let step = stroke.thickness * 5;
    let t = stroke.thickness as int;
    if i > 0 {
        dashes_are_evenly_apart(stroke, x + step, i - 1);
        assert(stroke.dashes(x)[i] == stroke.dashes(x + step)[i - 1]);
        assert(step + 5 * t * (i - 1) == 5 * t * i) by (nonlinear_arith)
            requires
                step == t * 5,
        ;
    } else {
        assert(5 * t * 0 == 0);
    }
}

/// A curly line swings evenly around its middle: it passes it, goes down, comes back, goes up as far,
/// and comes back again.
pub proof fn a_curly_line_swings_evenly(stroke: Stroke, x: int)
    requires
        stroke.valid(),
        0 <= x < stroke.width,
    ensures
        ({
            let a = stroke.amplitude();
            &&& 1 <= a
            &&& -a <= stroke.swing(x) <= a
            &&& (stroke.left + x) % (4 * a) == 0 ==> stroke.swing(x) == 0
            &&& (stroke.left + x) % (4 * a) == a ==> stroke.swing(x) == a
            &&& (stroke.left + x) % (4 * a) == 2 * a ==> stroke.swing(x) == 0
            &&& (stroke.left + x) % (4 * a) == 3 * a ==> stroke.swing(x) == -a
            &&& -1 <= stroke.swing(x + 1) - stroke.swing(x) <= 1
        }),
{
    let a = stroke.amplitude();
    let p = 4 * a;
    let n = stroke.left + x;
    vstd::arithmetic::div_mod::lemma_mod_bound(n, p);
    vstd::arithmetic::div_mod::lemma_mod_bound(n + 1, p);
    vstd::arithmetic::div_mod::lemma_fundamental_div_mod(n, p);
    if n % p + 1 < p {
        vstd::arithmetic::div_mod::lemma_fundamental_div_mod_converse(n + 1, p, n / p, n % p + 1);
    } else {
        assert(p * (n / p + 1) == p * (n / p) + p) by (nonlinear_arith);
        vstd::arithmetic::div_mod::lemma_fundamental_div_mod_converse(n + 1, p, n / p + 1, 0);
    }
}

/// A mark is drawn where its cells are: so far right of their left edge and below their upper edge.
pub proof fn marks_are_drawn_in_their_cells(mark: Mark, left: u32, top: u32, color: u32)
    ensures
        ({
            let drawn = mark_rectangle(mark, left, top, color);
            &&& drawn.x == left + mark.x
            &&& drawn.y == top + mark.y
            &&& drawn.width == mark.width
            &&& drawn.height == mark.height
            &&& drawn.color == color
        }),
{
}

} // verus!
