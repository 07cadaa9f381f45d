use leyline::config::Number;
use leyline::layout::{
    check_line_spacing, scale_inset, CellMetrics, ContentInsets, GridLayout, LayoutError, PixelSize,
    ScaledInset, ScaledInsets,
};

fn metrics() -> CellMetrics {
    CellMetrics {
        width_px: 9,
        height_px: 18,
        baseline_px: 14,
        underline_y_px: 15,
        underline_thickness_px: 1,
        strike_y_px: 9,
        strike_thickness_px: 1,
    }
}

fn size(width: u32, height: u32) -> PixelSize {
    PixelSize { width, height }
}

#[test]
fn grid_is_centered_and_never_empty() {
    let tiny = GridLayout::calculate(size(1, 1), [8, 8], metrics(), 1).unwrap();
    assert_eq!((tiny.grid.columns(), tiny.grid.lines()), (1, 1));
    let normal = GridLayout::calculate(size(805, 500), [8, 8], metrics(), 1).unwrap();
    assert_eq!((normal.grid.columns(), normal.grid.lines()), (87, 26));
    assert_eq!(normal.content_origin_px, [8, 16]);
}

#[test]
fn fractional_scale_changes_physical_grid() {
    let scaled = |value: u32, scale: u32| value * scale / 120;
    let one = GridLayout::calculate(size(800, 500), [8, 8], metrics(), 1).unwrap();
    let larger = GridLayout::calculate(
        size(scaled(800, 150), scaled(500, 150)),
        [scaled(8, 150), scaled(8, 150)],
        metrics(),
        2,
    )
    .unwrap();
    assert!(larger.grid.columns() > one.grid.columns());
    assert_eq!(larger.font_generation, 2);
}

#[test]
fn cell_mapping_uses_half_open_content_bounds() {
    let layout = GridLayout::calculate(size(100, 60), [5, 5], metrics(), 1).unwrap();
    let origin = layout.content_origin_px;
    assert_eq!(layout.cell_at_pixel(origin), Some([0, 0]));
    assert_eq!(layout.cell_at_pixel([origin[0] - 1, origin[1]]), None);
    let right = origin[0] + u32::from(layout.grid.columns) * u32::from(layout.cell_px[0]);
    assert_eq!(layout.cell_at_pixel([right, origin[1]]), None);
    assert_eq!(layout.cell_at_pixel([right - 1, origin[1] + 18]), Some([9, 1]));
}

#[test]
fn line_spacing_is_scaled_once_and_moves_the_baseline_by_the_top_half() {
    let layout = GridLayout::calculate_with_style(
        size(1200, 750),
        ContentInsets { left: 12, right: 30, top: 12, bottom: 12 },
        metrics(),
        2,
        1,
    )
    .unwrap();
    assert_eq!(layout.cell_px[1], 20);
    assert_eq!(layout.cell_metrics.baseline_px, 15);
    assert_eq!(layout.content_origin_px[0], 12);
}

#[test]
fn cells_that_would_be_too_high_are_refused() {
    let tall = CellMetrics { height_px: 32_768, ..metrics() };
    let insets = ContentInsets { left: 0, right: 0, top: 0, bottom: 0 };
    assert_eq!(
        GridLayout::calculate_with_style(size(800, 500), insets, tall, 1, 1),
        Err(LayoutError::Overflow)
    );
}

#[test]
fn a_grid_past_the_last_pixel_still_has_cells() {
    let layout = GridLayout::calculate(PixelSize { width: 90, height: 36 }, [0, 0], metrics(), 1)
        .expect("layout");
    let far = GridLayout { content_origin_px: [u32::MAX - 10, 0], ..layout };
    assert_eq!(far.cell_at_pixel([u32::MAX, 0]), Some([1, 0]));
    assert_eq!(far.cell_at_pixel([u32::MAX - 11, 0]), None);
}

fn number(value: f64) -> Number {
    Number { bits: value.to_bits() }
}

fn inset(logical: u16, pixels: Option<u32>) -> ScaledInset {
    ScaledInset { logical, pixels }
}

#[test]
fn line_spacing_is_a_number_from_zero_to_eight() {
    for value in [0.0, -0.0, 1.5, 8.0] {
        assert!(check_line_spacing(number(value)).is_ok(), "{value}");
    }
    for value in [-0.5, 8.000_001, 9.0, f64::NAN, f64::INFINITY, f64::NEG_INFINITY] {
        assert!(
            matches!(check_line_spacing(number(value)), Err(LayoutError::Overflow)),
            "{value}"
        );
    }
}

#[test]
fn an_empty_inset_takes_no_pixels() {
    assert_eq!(scale_inset(inset(0, Some(1))).unwrap(), 0);
    assert_eq!(scale_inset(inset(0, None)).unwrap(), 0);
    assert_eq!(scale_inset(inset(8, Some(10))).unwrap(), 10);
    assert!(matches!(scale_inset(inset(8, None)), Err(LayoutError::Overflow)));
}

#[test]
fn a_window_that_cannot_be_scaled_has_no_layout() {
    let insets = |bottom: ScaledInset| ScaledInsets {
        left: inset(8, Some(8)),
        right: inset(8, Some(8)),
        top: inset(8, Some(8)),
        bottom,
    };
    let lay_out = |viewport: Option<PixelSize>, bottom: ScaledInset, spacing: f64| {
        GridLayout::calculate_scaled(viewport, insets(bottom), metrics(), number(spacing), 0, 1)
    };
    let whole = lay_out(Some(size(805, 500)), inset(8, Some(8)), 0.0).unwrap();
    assert_eq!(whole, GridLayout::calculate(size(805, 500), [8, 8], metrics(), 1).unwrap());
    assert!(lay_out(Some(size(805, 500)), inset(0, None), 0.0).is_ok());
    assert!(lay_out(None, inset(8, Some(8)), 0.0).is_err());
    assert!(lay_out(Some(size(805, 500)), inset(8, None), 0.0).is_err());
    assert!(lay_out(Some(size(805, 500)), inset(8, Some(8)), 8.5).is_err());
}
