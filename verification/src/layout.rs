//! Where the grid lies in the window.
use vstd::prelude::*;
use crate::config::{in_range, Number, EIGHT, ZERO};
use crate::terminal::snapshot::GridSize;

verus! {

#[derive(Clone, Copy, Debug, PartialEq, Eq, Structural)]
pub struct PixelSize {
    pub width: u32,
    pub height: u32,
}

/// The dimensions of a cell and of the lines drawn in it, in pixels.
#[derive(Clone, Copy, Debug, PartialEq, Eq, Structural)]
pub struct CellMetrics {
    pub width_px: u16,
    pub height_px: u16,
    pub baseline_px: i16,
    pub underline_y_px: i16,
    pub underline_thickness_px: u16,
    pub strike_y_px: i16,
    pub strike_thickness_px: u16,
}

impl CellMetrics {
    /// A cell is not empty.
    pub open spec fn wf(self) -> bool {
        self.width_px > 0 && self.height_px > 0
    }
}

/// The distance between the grid and the edges of the window, in pixels.
#[derive(Clone, Copy, Debug, PartialEq, Eq, Structural)]
pub struct ContentInsets {
    pub left: u32,
    pub right: u32,
    pub top: u32,
    pub bottom: u32,
}

#[derive(Clone, Copy, Debug, PartialEq, Eq, Structural)]
pub enum LayoutError {
    Overflow,
}

impl LayoutError {
    /// What the error says.
    pub fn message(&self) -> (result: &'static str)
        ensures
            result@ == match *self {
                LayoutError::Overflow => "layout size or scale exceeds the supported range"@,
            },
    {
        match self {
            LayoutError::Overflow => "layout size or scale exceeds the supported range",
        }
    }
}

/// The place of the grid in the window.
#[derive(Clone, Copy, Debug, PartialEq, Eq)]
pub struct GridLayout {
    pub viewport_px: PixelSize,
    pub content_origin_px: [u32; 2],
    pub cell_px: [u16; 2],
    pub cell_metrics: CellMetrics,
    pub grid: GridSize,
    pub font_generation: u64,
}

/// `value`, or the nearest limit.
pub open spec fn clamp(value: int, low: int, high: int) -> int {
    if value < low {
        low
    } else if value > high {
        high
    } else {
        value
    }
}

/// A sum that stops at the limits of an `i16`.
pub open spec fn shifted(value: i16, shift: int) -> int {
    clamp(value + shift, i16::MIN as int, i16::MAX as int)
}

/// The metrics of cells with so many pixels more between their lines, half of them above the
/// text. There are none where a cell would become too high.
pub open spec fn spaced_metrics(m: CellMetrics, spacing: u16) -> Option<CellMetrics> {
    let shift = (spacing / 2) as int;
    let height = m.height_px + spacing;
    if height > 32_768 || shift > i16::MAX || m.baseline_px + shift > i16::MAX {
        None
    } else {
        Some(
            CellMetrics {
                height_px: height as u16,
                baseline_px: (m.baseline_px + shift) as i16,
                underline_y_px: clamp(shifted(m.underline_y_px, shift), 0, height - 1) as i16,
                strike_y_px: clamp(shifted(m.strike_y_px, shift), 0, height - 1) as i16,
                ..m
            },
        )
    }
}

fn clamp_line(value: i16, shift: i16, last: i16) -> (result: i16)
    requires
        shift >= 0,
        last >= 0,
    ensures
        result == clamp(shifted(value, shift as int), 0, last as int),
{
    let moved: i32 = value as i32 + shift as i32;
    if moved < 0 {
        0
    } else if moved > last as i32 {
        last
    } else {
        moved as i16
    }
}

fn metrics_with_line_spacing(metrics: CellMetrics, spacing: u16) -> (result: Result<
    CellMetrics,
    LayoutError,
>)
    requires
        metrics.wf(),
    ensures
        match spaced_metrics(metrics, spacing) {
            Some(m) => result is Ok && result->Ok_0 == m && m.wf(),
            None => result is Err && result->Err_0 is Overflow,
        },
{
    let top: u16 = spacing / 2;
    let height: u32 = metrics.height_px as u32 + spacing as u32;
    let baseline: i32 = metrics.baseline_px as i32 + top as i32;
    if height > 32_768 || top > 32_767 || baseline > 32_767 {
        return Err(LayoutError::Overflow);
    }
    let last: i16 = (height - 1) as i16;
    let shift: i16 = top as i16;
    Ok(
        CellMetrics {
            width_px: metrics.width_px,
            height_px: height as u16,
            baseline_px: baseline as i16,
            underline_y_px: clamp_line(metrics.underline_y_px, shift, last),
            underline_thickness_px: metrics.underline_thickness_px,
            strike_y_px: clamp_line(metrics.strike_y_px, shift, last),
            strike_thickness_px: metrics.strike_thickness_px,
        },
    )
}

/// What a viewport leaves between two insets.
pub open spec fn between(size: u32, first: u32, second: u32) -> int {
    if first + second >= size {
        0
    } else {
        size - first - second
    }
}

/// How many cells of a size fit, at least one and at most so many.
pub open spec fn fitting(available: int, cell: int, most: int) -> int {
    clamp(available / cell, 1, most)
}

impl GridLayout {
    /// The cells are not empty.
    pub open spec fn has_cells(&self) -> bool {
        self.cell_px@[0] > 0 && self.cell_px@[1] > 0
    }

    /// The grid has cells, and all of their pixels can be counted.
    pub open spec fn wf(&self) -> bool {
        &&& self.grid.wf()
        &&& self.has_cells()
        &&& self.content_origin_px@[0] + self.cell_px@[0] * self.grid.columns <= u32::MAX
        &&& self.content_origin_px@[1] + self.cell_px@[1] * self.grid.lines <= u32::MAX
    }

    /// The left edge of a column.
    pub open spec fn column_x(&self, column: int) -> int {
        self.content_origin_px@[0] + column * self.cell_px@[0]
    }

    /// The top edge of a line.
    pub open spec fn line_y(&self, line: int) -> int {
        self.content_origin_px@[1] + line * self.cell_px@[1]
    }

    /// Whether a pixel lies in a cell. A cell holds its left and top edges, not its right and
    /// bottom ones.
    pub open spec fn in_cell(&self, x: int, y: int, column: int, line: int) -> bool {
        self.column_x(column) <= x < self.column_x(column + 1) && self.line_y(line) <= y
            < self.line_y(line + 1)
    }

    /// The cell under a pixel.
    pub fn cell_at_pixel(&self, pixel: [u32; 2]) -> (result: Option<[u16; 2]>)
        requires
            self.has_cells(),
        ensures
            match result {
                Some(cell) => cell@[0] < self.grid.columns && cell@[1] < self.grid.lines
                    && self.in_cell(
                    pixel@[0] as int,
                    pixel@[1] as int,
                    cell@[0] as int,
                    cell@[1] as int,
                ),
                None => forall|column: int, line: int|
                    0 <= column < self.grid.columns && 0 <= line < self.grid.lines
                        ==> !#[trigger] self.in_cell(
                        pixel@[0] as int,
                        pixel@[1] as int,
                        column,
                        line,
                    ),
            },
    {
        let width: u32 = self.cell_px[0] as u32;
        let height: u32 = self.cell_px[1] as u32;
        let columns: u32 = self.grid.columns as u32;
        let lines: u32 = self.grid.lines as u32;
        let ghost x0 = self.content_origin_px@[0] as int;
        let ghost y0 = self.content_origin_px@[1] as int;
        if pixel[0] < self.content_origin_px[0] || pixel[1] < self.content_origin_px[1] {
            proof {
                assert forall|column: int, line: int|
                    0 <= column < columns && 0 <= line < lines implies !#[trigger] self.in_cell(
                    pixel@[0] as int,
                    pixel@[1] as int,
                    column,
                    line,
                ) by {
                    assert(column * width >= 0) by (nonlinear_arith)
                        requires
                            column >= 0,
                            width >= 0,
                    ;
                    assert(line * height >= 0) by (nonlinear_arith)
                        requires
                            line >= 0,
                            height >= 0,
                    ;
                }
            }
            return None;
        }
        let x: u32 = pixel[0] - self.content_origin_px[0];
        let y: u32 = pixel[1] - self.content_origin_px[1];
        let column: u32 = x / width;
        let line: u32 = y / height;
        proof {
            vstd::arithmetic::div_mod::lemma_fundamental_div_mod(x as int, width as int);
            vstd::arithmetic::div_mod::lemma_fundamental_div_mod(y as int, height as int);
            vstd::arithmetic::div_mod::lemma_mod_bound(x as int, width as int);
            vstd::arithmetic::div_mod::lemma_mod_bound(y as int, height as int);
            assert((column + 1) * width == column * width + width) by (nonlinear_arith);
            assert((line + 1) * height == line * height + height) by (nonlinear_arith);
            vstd::arithmetic::mul::lemma_mul_is_commutative(column as int, width as int);
            vstd::arithmetic::mul::lemma_mul_is_commutative(line as int, height as int);
        }
        if column >= columns || line >= lines {
            proof {
                assert forall|c: int, l: int|
                    0 <= c < columns && 0 <= l < lines implies !#[trigger] self.in_cell(
                    pixel@[0] as int,
                    pixel@[1] as int,
                    c,
                    l,
                ) by {
                    if column >= columns {
                        assert((c + 1) * width <= column * width) by (nonlinear_arith)
                            requires
                                c + 1 <= column,
                                width >= 0,
                        ;
                    } else {
                        assert((l + 1) * height <= line * height) by (nonlinear_arith)
                            requires
                                l + 1 <= line,
                                height >= 0,
                        ;
                    }
                }
            }
            return None;
        }
        Some([column as u16, line as u16])
    }

    /// Lays the grid out with the same padding on opposite sides and no space between its lines.
    pub fn calculate(
        viewport_px: PixelSize,
        padding_px: [u32; 2],
        metrics: CellMetrics,
        font_generation: u64,
    ) -> (result: Result<GridLayout, LayoutError>)
        requires
            metrics.wf(),
        ensures
            laid_out(
                result,
                viewport_px,
                ContentInsets {
                    left: padding_px@[0],
                    right: padding_px@[0],
                    top: padding_px@[1],
                    bottom: padding_px@[1],
                },
                metrics,
                0,
                font_generation,
            ),
            ({
                let insets = ContentInsets {
                    left: padding_px@[0],
                    right: padding_px@[0],
                    top: padding_px@[1],
                    bottom: padding_px@[1],
                };
                result is Ok && has_room(result->Ok_0, viewport_px, insets) ==> result->Ok_0.wf()
            }),
    {
        GridLayout::calculate_with_style(
            viewport_px,
            ContentInsets {
                left: padding_px[0],
                right: padding_px[0],
                top: padding_px[1],
                bottom: padding_px[1],
            },
            metrics,
            0,
            font_generation,
        )
    }

    /// Lays the grid out in a window: as many cells as fit, but at least one, from the left edge,
    /// with what is left of the height split above and below.
    pub fn calculate_with_style(
        viewport_px: PixelSize,
        insets_px: ContentInsets,
        metrics: CellMetrics,
        line_spacing_px: u16,
        font_generation: u64,
    ) -> (result: Result<GridLayout, LayoutError>)
        requires
            metrics.wf(),
        ensures
            laid_out(result, viewport_px, insets_px, metrics, line_spacing_px, font_generation),
            result is Ok && has_room(result->Ok_0, viewport_px, insets_px) ==> result->Ok_0.wf(),
    {
        let ghost given = metrics;
        let metrics = match metrics_with_line_spacing(metrics, line_spacing_px) {
            Ok(metrics) => metrics,
            Err(error) => {
                return Err(error);
            },
        };
        let width: u32 = viewport_px.width.saturating_sub(
            insets_px.left.saturating_add(insets_px.right),
        );
        let height: u32 = viewport_px.height.saturating_sub(
            insets_px.top.saturating_add(insets_px.bottom),
        );
        let columns: u32 = clamp_count(
            width / metrics.width_px as u32,
            GridSize::MAX_COLUMNS as u32,
        );
        let lines: u32 = clamp_count(height / metrics.height_px as u32, GridSize::MAX_LINES as u32);
        assert(lines * metrics.height_px <= 256 * 65_535) by (nonlinear_arith)
            requires
                0 <= lines <= 256,
                0 <= metrics.height_px <= 65_535,
        ;
        let used: u32 = lines * metrics.height_px as u32;
        let slack: u32 = height.saturating_sub(used) / 2;
        let top: u32 = insets_px.top + slack;
        let grid = match GridSize::new(columns as u16, lines as u16) {
            Ok(grid) => grid,
            Err(_) => {
                return Err(LayoutError::Overflow);
            },
        };
        let layout = GridLayout {
            viewport_px,
            content_origin_px: [insets_px.left, top],
            cell_px: [metrics.width_px, metrics.height_px],
            cell_metrics: metrics,
            grid,
            font_generation,
        };
        proof {
            if has_room(layout, viewport_px, insets_px) {
                the_grid_fits_the_window(
                    layout,
                    viewport_px,
                    insets_px,
                    given,
                    line_spacing_px,
                    font_generation,
                );
            }
        }
        Ok(layout)
    }
}

/// An inset in logical pixels, and in physical ones where the scale can tell them.
#[derive(Clone, Copy, Debug, PartialEq, Eq, Structural)]
pub struct ScaledInset {
    pub logical: u16,
    pub pixels: Option<u32>,
}

/// The insets of a window, before it is known whether they can be scaled.
#[derive(Clone, Copy, Debug, PartialEq, Eq, Structural)]
pub struct ScaledInsets {
    pub left: ScaledInset,
    pub right: ScaledInset,
    pub top: ScaledInset,
    pub bottom: ScaledInset,
}

impl ScaledInset {
    /// The physical pixels of an inset. None stays none, whatever the scale tells.
    pub open spec fn scaled(self) -> Option<u32> {
        if self.logical == 0 {
            Some(0)
        } else {
            self.pixels
        }
    }
}

impl ScaledInsets {
    /// The insets in physical pixels, where all of them can be told.
    pub open spec fn scaled(self) -> Option<ContentInsets> {
        match (self.left.scaled(), self.right.scaled(), self.top.scaled(), self.bottom.scaled()) {
            (Some(left), Some(right), Some(top), Some(bottom)) => Some(
                ContentInsets { left, right, top, bottom },
            ),
            _ => None,
        }
    }
}

/// Scales an inset. None takes no pixels; any other takes what the scale tells, if it can.
pub fn scale_inset(inset: ScaledInset) -> (result: Result<u32, LayoutError>)
    ensures
        match inset.scaled() {
            Some(pixels) => result is Ok && result->Ok_0 == pixels,
            None => result is Err && result->Err_0 is Overflow,
        },
{
    if inset.logical == 0 {
        return Ok(0);
    }
    match inset.pixels {
        Some(pixels) => Ok(pixels),
        None => Err(LayoutError::Overflow),
    }
}

/// Decides whether lines may be so far apart, in logical pixels: by a number from zero to eight.
pub fn check_line_spacing(spacing: Number) -> (result: Result<(), LayoutError>)
    ensures
        result is Ok <==> in_range(spacing, ZERO, EIGHT),
        result is Err ==> result->Err_0 is Overflow,
{
    if spacing.within(ZERO, EIGHT) {
        Ok(())
    } else {
        Err(LayoutError::Overflow)
    }
}

impl GridLayout {
    /// Lays the grid out in a window whose sizes may not have been told in physical pixels: then,
    /// or where the lines may not be so far apart, there is no layout.
    pub fn calculate_scaled(
        viewport_px: Option<PixelSize>,
        insets: ScaledInsets,
        metrics: CellMetrics,
        line_spacing: Number,
        line_spacing_px: u16,
        font_generation: u64,
    ) -> (result: Result<GridLayout, LayoutError>)
        requires
            metrics.wf(),
        ensures
            if !in_range(line_spacing, ZERO, EIGHT) || viewport_px is None || insets.scaled()
                is None {
                result is Err && result->Err_0 is Overflow
            } else {
                let viewport = viewport_px->0;
                let insets_px = insets.scaled()->0;
                &&& laid_out(result, viewport, insets_px, metrics, line_spacing_px, font_generation)
                &&& result is Ok && has_room(result->Ok_0, viewport, insets_px)
                    ==> result->Ok_0.wf()
            },
    {
        match check_line_spacing(line_spacing) {
            Ok(_) => {},
            Err(error) => {
                return Err(error);
            },
        }
        let viewport = match viewport_px {
            Some(viewport) => viewport,
            None => {
                return Err(LayoutError::Overflow);
            },
        };
        match (
            scale_inset(insets.left),
            scale_inset(insets.right),
            scale_inset(insets.top),
            scale_inset(insets.bottom),
        ) {
            (Ok(left), Ok(right), Ok(top), Ok(bottom)) => GridLayout::calculate_with_style(
                viewport,
                ContentInsets { left, right, top, bottom },
                metrics,
                line_spacing_px,
                font_generation,
            ),
            _ => Err(LayoutError::Overflow),
        }
    }
}

fn clamp_count(value: u32, most: u32) -> (result: u32)
    requires
        most >= 1,
    ensures
        result == clamp(value as int, 1, most as int),
{
    if value < 1 {
        1
    } else if value > most {
        most
    } else {
        value
    }
}

/// What a layout is: the cells that fit, and where the first one lies.
pub open spec fn laid_out(
    result: Result<GridLayout, LayoutError>,
    viewport: PixelSize,
    insets: ContentInsets,
    metrics: CellMetrics,
    spacing: u16,
    font_generation: u64,
) -> bool {
    match spaced_metrics(metrics, spacing) {
        None => result is Err && result->Err_0 is Overflow,
        Some(m) => {
            let width = between(viewport.width, insets.left, insets.right);
            let height = between(viewport.height, insets.top, insets.bottom);
            let columns = fitting(width, m.width_px as int, 512);
            let lines = fitting(height, m.height_px as int, 256);
            let slack = if lines * m.height_px < height {
                (height - lines * m.height_px) / 2
            } else {
                0
            };
            &&& result is Ok
            &&& result->Ok_0.viewport_px == viewport
            &&& result->Ok_0.content_origin_px@ == seq![insets.left, (insets.top + slack) as u32]
            &&& result->Ok_0.cell_px@ == seq![m.width_px, m.height_px]
            &&& result->Ok_0.cell_metrics == m
            &&& result->Ok_0.grid == (GridSize { columns: columns as u16, lines: lines as u16 })
            &&& result->Ok_0.grid.wf()
            &&& result->Ok_0.has_cells()
            &&& result->Ok_0.font_generation == font_generation
        },
    }
}

/// Whether a window has room for one cell between its insets.
pub open spec fn has_room(layout: GridLayout, viewport: PixelSize, insets: ContentInsets) -> bool {
    &&& between(viewport.width, insets.left, insets.right) >= layout.cell_px@[0]
    &&& between(viewport.height, insets.top, insets.bottom) >= layout.cell_px@[1]
}

/// Each pixel lies in at most one cell.
pub proof fn a_pixel_lies_in_one_cell(
    layout: GridLayout,
    x: int,
    y: int,
    a: (int, int),
    b: (int, int),
)
    requires
        layout.has_cells(),
        layout.in_cell(x, y, a.0, a.1),
        layout.in_cell(x, y, b.0, b.1),
    ensures
        a == b,
{
    let w = layout.cell_px@[0] as int;
    let h = layout.cell_px@[1] as int;
    assert(a.0 == b.0) by (nonlinear_arith)
        requires
            w > 0,
            a.0 * w < (b.0 + 1) * w,
            b.0 * w < (a.0 + 1) * w,
    ;
    assert(a.1 == b.1) by (nonlinear_arith)
        requires
            h > 0,
            a.1 * h < (b.1 + 1) * h,
            b.1 * h < (a.1 + 1) * h,
    ;
}

/// Where the window has room for one cell, the grid lies inside it, between the insets.
pub proof fn the_grid_fits_the_window(
    layout: GridLayout,
    viewport: PixelSize,
    insets: ContentInsets,
    metrics: CellMetrics,
    spacing: u16,
    font_generation: u64,
)
    requires
        metrics.wf(),
        laid_out(Ok(layout), viewport, insets, metrics, spacing, font_generation),
        has_room(layout, viewport, insets),
    ensures
        layout.wf(),
        insets.left == layout.column_x(0),
        layout.column_x(layout.grid.columns as int) + insets.right <= viewport.width,
        insets.top <= layout.line_y(0),
        layout.line_y(layout.grid.lines as int) + insets.bottom <= viewport.height,
{
    let m = spaced_metrics(metrics, spacing)->0;
    let w = m.width_px as int;
    let h = m.height_px as int;
    let width = between(viewport.width, insets.left, insets.right);
    let height = between(viewport.height, insets.top, insets.bottom);
    let columns = layout.grid.columns as int;
    let lines = layout.grid.lines as int;
    vstd::arithmetic::div_mod::lemma_fundamental_div_mod(width, w);
    vstd::arithmetic::div_mod::lemma_fundamental_div_mod(height, h);
    vstd::arithmetic::div_mod::lemma_mod_bound(width, w);
    vstd::arithmetic::div_mod::lemma_mod_bound(height, h);
    assert(width / w >= 1) by (nonlinear_arith)
        requires
            width >= w,
            w > 0,
    ;
    assert(height / h >= 1) by (nonlinear_arith)
        requires
            height >= h,
            h > 0,
    ;
    assert(columns * w <= width) by (nonlinear_arith)
        requires
            columns <= width / w,
            w > 0,
            w * (width / w) <= width,
    ;
    assert(lines * h <= height) by (nonlinear_arith)
        requires
            lines <= height / h,
            h > 0,
            h * (height / h) <= height,
    ;
    vstd::arithmetic::mul::lemma_mul_is_commutative(columns, w);
    vstd::arithmetic::mul::lemma_mul_is_commutative(lines, h);
}

/// As many cells are laid out as fit: another column or another line would not fit, short of the
/// largest grid. What is left of the height is split above and below.
pub proof fn as_many_cells_as_fit(
    layout: GridLayout,
    viewport: PixelSize,
    insets: ContentInsets,
    metrics: CellMetrics,
    spacing: u16,
    font_generation: u64,
)
    requires
        metrics.wf(),
        laid_out(Ok(layout), viewport, insets, metrics, spacing, font_generation),
        has_room(layout, viewport, insets),
    ensures
        layout.grid.columns < 512 ==> layout.column_x(layout.grid.columns + 1) + insets.right
            > viewport.width,
        layout.grid.lines < 256 ==> (layout.grid.lines + 1) * layout.cell_px@[1] + insets.top
            + insets.bottom > viewport.height,
        ({
            let above = layout.line_y(0) - insets.top;
            let below = viewport.height - insets.bottom - layout.line_y(layout.grid.lines as int);
            above == below || above + 1 == below
        }),
        layout.cell_px@[0] == metrics.width_px,
        layout.cell_px@[1] == metrics.height_px + spacing,
{
    the_grid_fits_the_window(layout, viewport, insets, metrics, spacing, font_generation);
    let m = spaced_metrics(metrics, spacing)->0;
    let w = m.width_px as int;
    let h = m.height_px as int;
    let width = between(viewport.width, insets.left, insets.right);
    let height = between(viewport.height, insets.top, insets.bottom);
    let columns = layout.grid.columns as int;
    let lines = layout.grid.lines as int;
    vstd::arithmetic::div_mod::lemma_fundamental_div_mod(width, w);
    vstd::arithmetic::div_mod::lemma_fundamental_div_mod(height, h);
    vstd::arithmetic::div_mod::lemma_mod_bound(width, w);
    vstd::arithmetic::div_mod::lemma_mod_bound(height, h);
    if columns < 512 {
        assert((columns + 1) * w > width) by (nonlinear_arith)
            requires
                columns >= width / w,
                w > 0,
                width == w * (width / w) + width % w,
                width % w < w,
        ;
    }
    if lines < 256 {
        assert((lines + 1) * h > height) by (nonlinear_arith)
            requires
                lines >= height / h,
                h > 0,
                height == h * (height / h) + height % h,
                height % h < h,
        ;
    }
    assert(0 * h == 0);
}

/// A cell lies as many widths to the right of the first cell, and as many heights below it, as it
/// has columns before it and lines above it.
pub proof fn cells_lie_side_by_side(layout: GridLayout, x: int, y: int, column: int, line: int)
    requires
        layout.has_cells(),
        layout.in_cell(x, y, column, line),
    ensures
        layout.in_cell(x + layout.cell_px@[0], y, column + 1, line),
        layout.in_cell(x, y + layout.cell_px@[1], column, line + 1),
        column == 0 ==> layout.content_origin_px@[0] <= x < layout.content_origin_px@[0]
            + layout.cell_px@[0],
        line == 0 ==> layout.content_origin_px@[1] <= y < layout.content_origin_px@[1]
            + layout.cell_px@[1],
{
    let w = layout.cell_px@[0] as int;
    let h = layout.cell_px@[1] as int;
    assert((column + 1) * w == column * w + w && (column + 2) * w == column * w + 2 * w && (line + 1)
        * h == line * h + h && (line + 2) * h == line * h + 2 * h) by (nonlinear_arith);
    assert(column + 1 + 1 == column + 2 && line + 1 + 1 == line + 2);
}

/// Lines that are set apart keep the widths of their cells and the lines drawn in them; the text
/// stands half of the added space lower.
pub proof fn spaced_lines_keep_their_text_in_the_middle(m: CellMetrics, spacing: u16)
    requires
        m.wf(),
        spaced_metrics(m, spacing) is Some,
    ensures
        ({
            let n = spaced_metrics(m, spacing)->0;
            &&& n.width_px == m.width_px
            &&& n.height_px == m.height_px + spacing
            &&& 0 <= spacing - 2 * (n.baseline_px - m.baseline_px) <= 1
            &&& n.underline_thickness_px == m.underline_thickness_px
            &&& n.strike_thickness_px == m.strike_thickness_px
            &&& 0 <= n.underline_y_px < n.height_px
            &&& 0 <= n.strike_y_px < n.height_px
            &&& 0 <= m.underline_y_px < m.height_px ==> n.underline_y_px - m.underline_y_px
                == n.baseline_px - m.baseline_px
            &&& 0 <= m.strike_y_px < m.height_px ==> n.strike_y_px - m.strike_y_px == n.baseline_px
                - m.baseline_px
        }),
        spaced_metrics(m, 0) is Some && 0 <= m.underline_y_px < m.height_px && 0 <= m.strike_y_px
            < m.height_px ==> spaced_metrics(m, 0)->0 == m,
{
}

/// Every inset keeps its side. One of nothing takes no pixels, whatever the scale; any other takes
/// those that the scale tells, and where it tells none there is no layout.
pub proof fn insets_keep_their_sides(insets: ScaledInsets)
    ensures
        insets.scaled() matches Some(scaled) ==> {
            &&& insets.left.logical != 0 ==> Some(scaled.left) == insets.left.pixels
            &&& insets.right.logical != 0 ==> Some(scaled.right) == insets.right.pixels
            &&& insets.top.logical != 0 ==> Some(scaled.top) == insets.top.pixels
            &&& insets.bottom.logical != 0 ==> Some(scaled.bottom) == insets.bottom.pixels
            &&& insets.left.logical == 0 ==> scaled.left == 0
            &&& insets.right.logical == 0 ==> scaled.right == 0
            &&& insets.top.logical == 0 ==> scaled.top == 0
            &&& insets.bottom.logical == 0 ==> scaled.bottom == 0
        },
        insets.scaled() is None <==> {
            ||| insets.left.logical != 0 && insets.left.pixels is None
            ||| insets.right.logical != 0 && insets.right.pixels is None
            ||| insets.top.logical != 0 && insets.top.pixels is None
            ||| insets.bottom.logical != 0 && insets.bottom.pixels is None
        },
{
}

} // verus!
