use leyline::clipboard::{PasteConfirmationOverlay, PasteRisk, TransferTarget};
use leyline::config::{Color, CursorStyle, EffectiveConfig, Number};
use leyline::frame_composer::assets::{
    downgrade_color_working_set, sorted_assets, validate_glyph_budget, Clip, FontStyle, GlyphAsset,
    GlyphBitmap, GlyphFormat, GlyphKey, GlyphLimits, GlyphPresentation, ShapedGlyph,
};
use leyline::frame_composer::decoration::{effective_underline_style, push_underline_primitives};
use leyline::frame_composer::palette::{cursor_glyph_color, dim, indexed, resolve_color};
use leyline::frame_composer::requests::{
    cluster_requests, join_assets, prepare_tab_glyph_working_set, tab_glyph_key, tab_requests,
    ShapedCluster, TAB_FONT_KEY_NAMESPACE,
};
use leyline::frame_composer::runs::{
    assign_glyphs, prepare_glyph_working_set, terminal_runs, Grapheme, TerminalShape,
};
use leyline::frame_composer::scene::{check_frame, compose, SceneInput, ScrollbarPart, WorkingSet};
use leyline::frame_composer::{
    paste_confirmation_lines, point_in_range, CapacityFault, CellRange, ComposeError,
    CursorPresentationPolicy, FrameOverlays, RectangleInstance, SelectionOverlay, SnapshotFault,
};
use leyline::interaction::{self, PreeditCursor, PreeditOverlay, ScrollbarPresentation};
use leyline::layout::{CellMetrics, GridLayout, PixelSize};
use leyline::tab::{PixelRect, SessionId, TabBarItem, TabBarPresentation};
use leyline::terminal::snapshot::{
    CellFlags, CellWidth, CursorBlink, CursorShape, CursorSnapshot, FrameSnapshot, GridSize,
    SearchBuffer, SnapshotCell, TerminalColor, TerminalModes, UnderlineStyle,
};
use leyline::unicode_layout::{VisualGridMap, VisualLine};

const LIMITS: GlyphLimits = GlyphLimits { placements: 100, bitmaps: 50, bitmap_bytes: 4096 };

fn cell(ch: char) -> SnapshotCell {
    SnapshotCell {
        ch,
        zerowidth: None,
        foreground: TerminalColor::Named(256),
        background: TerminalColor::Named(257),
        underline_color: None,
        underline_style: UnderlineStyle::Off,
        flags: CellFlags::default(),
        width: CellWidth::Narrow,
        hyperlink: None,
    }
}

fn snapshot(columns: u16, lines: u16, cells: Vec<SnapshotCell>) -> FrameSnapshot {
    FrameSnapshot {
        generation: 7,
        content_revision: 1,
        active_buffer: SearchBuffer::Normal,
        grid: GridSize::new(columns, lines).unwrap(),
        cells,
        cursor: CursorSnapshot {
            column: 0,
            line: 0,
            visible: false,
            shape: CursorShape::Block,
            blink: CursorBlink::Steady,
        },
        modes: TerminalModes::default(),
        display_offset: 0,
        history_size: 0,
        title: None,
        hyperlinks: Vec::new(),
    }
}

fn map(columns: u16, lines: u16) -> VisualGridMap {
    VisualGridMap {
        snapshot_generation: 7,
        policy_generation: 3,
        grid: GridSize::new(columns, lines).unwrap(),
        bidi_enabled: false,
        lines: (0..lines)
            .map(|_| VisualLine {
                logical_to_visual_cell: (0..columns).collect(),
                atom_levels: vec![0; usize::from(columns)],
            })
            .collect(),
    }
}

fn metrics() -> CellMetrics {
    CellMetrics {
        width_px: 9,
        height_px: 18,
        baseline_px: 14,
        underline_y_px: 15,
        underline_thickness_px: 1,
        strike_y_px: 9,
        strike_thickness_px: 1,
    }
}

fn layout(width: u32, height: u32) -> GridLayout {
    GridLayout::calculate(PixelSize { width, height }, [0, 0], metrics(), 1).unwrap()
}

fn key(glyph_id: u32) -> GlyphKey {
    GlyphKey {
        font_generation: 3,
        face: 2,
        glyph_id,
        synthetic_bold: false,
        synthetic_italic: false,
        presentation: GlyphPresentation::Text,
    }
}

fn asset(glyph_id: u32) -> GlyphAsset {
    GlyphAsset {
        key: key(glyph_id),
        bitmap: GlyphBitmap {
            format: GlyphFormat::Gray8,
            size_px: [4, 5],
            bearing_px: [1, 10],
            advance_26_6: 576,
            pixels: vec![0; 20],
        },
    }
}

fn glyph(glyph_id: u32, cluster: u32) -> ShapedGlyph {
    ShapedGlyph { key: key(glyph_id), cluster, offset_26_6: [0, 0], advance_26_6: [576, 0] }
}

fn shaped(text: &str, glyphs: Vec<ShapedGlyph>) -> ShapedCluster {
    ShapedCluster { text: text.chars().collect(), style: FontStyle::Regular, glyphs }
}

fn no_selection() -> SelectionOverlay {
    SelectionOverlay { snapshot_generation: 7, revision: 1, ranges: Vec::new() }
}

fn shapes(count: usize) -> Vec<TerminalShape> {
    vec![TerminalShape { glyphs: Vec::new(), span: 0 }; count]
}

fn set(shaped: Vec<ShapedCluster>, assets: Vec<GlyphAsset>, cells: usize) -> WorkingSet {
    WorkingSet {
        shaped,
        terminal_shapes: shapes(cells),
        tab_shaped: Vec::new(),
        tab_baseline_px: 12,
        assets,
        limits: LIMITS,
    }
}

fn rectangle(x: u64, y: u64, width: u64, height: u64, color: u32) -> RectangleInstance {
    RectangleInstance { x, y, width, height, color }
}

#[test]
fn block_cursor_preserves_the_character_with_contrasting_color() {
    let foreground = 0xffff_ffff;
    let background = 0x1010_10ff;
    assert_eq!(
        cursor_glyph_color(foreground, background, CursorStyle::Block, true),
        background
    );
    assert_eq!(
        cursor_glyph_color(foreground, background, CursorStyle::Beam, true),
        foreground
    );
    assert_eq!(
        cursor_glyph_color(foreground, background, CursorStyle::Block, false),
        foreground
    );
}

#[test]
fn glyph_working_set_limits_are_independent_and_inclusive() {
    let limits = LIMITS;
    assert!(validate_glyph_budget(
        limits.placements,
        limits.bitmaps,
        Some(limits.bitmap_bytes),
        limits
    )
    .is_ok());
    assert!(validate_glyph_budget(limits.placements + 1, 0, Some(0), limits).is_err());
    assert!(validate_glyph_budget(0, limits.bitmaps + 1, Some(0), limits).is_err());
    assert!(validate_glyph_budget(0, 0, Some(limits.bitmap_bytes + 1), limits).is_err());
    assert!(validate_glyph_budget(0, 0, None, limits).is_err());
}

#[test]
fn color_capacity_fallback_preserves_keys_and_uses_alpha_coverage() {
    let key = GlyphKey {
        font_generation: 3,
        face: 2,
        glyph_id: 1,
        synthetic_bold: false,
        synthetic_italic: false,
        presentation: GlyphPresentation::Emoji,
    };
    let mut assets = vec![GlyphAsset {
        key,
        bitmap: GlyphBitmap {
            format: GlyphFormat::ColorSrgba8,
            size_px: [2, 1],
            bearing_px: [0, 0],
            advance_26_6: 64,
            pixels: vec![10, 20, 30, 40, 50, 60, 70, 80],
        },
    }];
    assert!(downgrade_color_working_set(&mut assets));
    assert_eq!(assets[0].key, key);
    assert_eq!(assets[0].bitmap.format, GlyphFormat::Gray8);
    assert_eq!(assets[0].bitmap.pixels, vec![40, 80]);
    assert!(!downgrade_color_working_set(&mut assets));
}

#[test]
fn named_and_low_index_colors_use_the_configured_palette() {
    let mut colors = EffectiveConfig::default().colors;
    colors.ansi[3] = Color(0x1234_56ff);
    assert_eq!(resolve_color(TerminalColor::Named(3), 0, &colors), 0x1234_56ff);
    assert_eq!(resolve_color(TerminalColor::Indexed(3), 0, &colors), 0x1234_56ff);
    assert_eq!(resolve_color(TerminalColor::Rgb(1, 2, 3), 0, &colors), 0x0102_03ff);
}

#[test]
fn high_indices_are_a_cube_and_a_ramp() {
    let colors = EffectiveConfig::default().colors;
    assert_eq!(indexed(16, &colors), 0x0000_00ff);
    assert_eq!(indexed(196, &colors), 0xff00_00ff);
    assert_eq!(indexed(67, &colors), 0x5f87_afff);
    assert_eq!(indexed(232, &colors), 0x0808_08ff);
    assert_eq!(indexed(255, &colors), 0xeeee_eeff);
    assert_eq!(resolve_color(TerminalColor::Named(300), 0xabcd_ef01, &colors), 0xabcd_ef01);
    assert_eq!(resolve_color(TerminalColor::Named(258), 0, &colors), colors.cursor.0);
}

#[test]
fn dim_halves_linear_light_instead_of_srgb_bytes() {
    let [value, _, _, alpha] = dim(0x8080_80ff).to_be_bytes();
    assert_eq!(alpha, 255);
    assert!(
        value > 64,
        "linear-light dimming must remain brighter than byte halving"
    );
}

#[test]
fn dimming_is_exact_for_every_shade() {
    for byte in 0..=255_u8 {
        let srgb = f64::from(byte) / 255.0;
        let linear = if srgb <= 0.040_45 {
            srgb / 12.92
        } else {
            ((srgb + 0.055) / 1.055).powf(2.4)
        } * 0.5;
        let srgb = if linear <= 0.003_130_8 {
            linear * 12.92
        } else {
            1.055 * linear.powf(1.0 / 2.4) - 0.055
        };
        let expected = (srgb * 255.0).round() as u8;
        let color = u32::from_be_bytes([byte, 0, 0, 9]);
        assert_eq!(dim(color).to_be_bytes(), [expected, 0, 0, 9], "{byte}");
    }
}

#[test]
fn osc_8_hyperlinks_are_underlined() {
    let mut cell = cell('x');
    assert_eq!(effective_underline_style(&cell), UnderlineStyle::Off);

    cell.hyperlink = Some(0);
    assert_eq!(effective_underline_style(&cell), UnderlineStyle::Single);

    cell.width = CellWidth::Spacer;
    assert_eq!(effective_underline_style(&cell), UnderlineStyle::Off);
}

#[test]
fn underline_styles_produce_bounded_physical_primitives() {
    let layout = layout(90, 36);
    for (style, minimum) in [
        (UnderlineStyle::Single, 1),
        (UnderlineStyle::Double, 2),
        (UnderlineStyle::Curly, 4),
        (UnderlineStyle::Dotted, 2),
        (UnderlineStyle::Dashed, 1),
    ] {
        let mut rectangles = Vec::new();
        let mut count = 0;
        push_underline_primitives(
            &mut rectangles,
            &mut count,
            style,
            [9, 0],
            &layout,
            2,
            0xffff_ffff,
        );
        assert!(rectangles.len() >= minimum, "{style:?}");
        assert_eq!(rectangles.len(), count);
        assert!(rectangles.iter().all(|rectangle| {
            rectangle.x >= 9
                && rectangle.x + rectangle.width <= 27
                && rectangle.y + rectangle.height <= 18
        }));
    }
}

#[test]
fn underlines_stop_at_the_limit_of_a_frame() {
    let mut rectangles = Vec::new();
    let mut count = 262_144 - 3;
    let style = UnderlineStyle::Curly;
    push_underline_primitives(&mut rectangles, &mut count, style, [0, 0], &layout(90, 36), 2, 1);
    assert_eq!((rectangles.len(), count), (3, 262_144));
    push_underline_primitives(&mut rectangles, &mut count, style, [0, 0], &layout(90, 36), 2, 1);
    assert_eq!((rectangles.len(), count), (3, 262_144));
}

#[test]
fn dashes_continue_over_cells() {
    let mut rectangles = Vec::new();
    let mut count = 0;
    let style = UnderlineStyle::Dashed;
    push_underline_primitives(&mut rectangles, &mut count, style, [9, 0], &layout(90, 36), 1, 5);
    assert_eq!(
        rectangles,
        vec![rectangle(10, 15, 3, 1, 5), rectangle(15, 15, 3, 1, 5)]
    );
    let mut rectangles = Vec::new();
    push_underline_primitives(&mut rectangles, &mut count, style, [12, 0], &layout(90, 36), 1, 5);
    assert_eq!(
        rectangles,
        vec![
            rectangle(12, 15, 1, 1, 5),
            rectangle(15, 15, 3, 1, 5),
            rectangle(20, 15, 1, 1, 5)
        ]
    );
}

#[test]
fn ranges_hold_their_ends_in_either_order() {
    let range = CellRange { start: [5, 2], end: [1, 1] };
    assert!(point_in_range([1, 1], range));
    assert!(point_in_range([9, 1], range));
    assert!(point_in_range([5, 2], range));
    assert!(!point_in_range([6, 2], range));
    assert!(!point_in_range([0, 1], range));
}

#[test]
fn questions_name_the_source_the_size_and_the_risk() {
    let lines = paste_confirmation_lines(&PasteConfirmationOverlay {
        revision: 1,
        source: TransferTarget::Primary,
        bytes: 120,
        lines: 3,
        risk: PasteRisk::ControlCharacters,
    });
    assert_eq!(
        lines,
        vec![
            "PASTE REQUIRES CONFIRMATION",
            "Source: Primary selection   120 bytes   3 lines",
            "Risk: Control characters may alter terminal state",
            "Enter / Y  Paste     Esc / N  Cancel",
        ]
    );
}

#[test]
fn bitmaps_are_ordered_by_their_keys() {
    let mut emoji = asset(1);
    emoji.key.presentation = GlyphPresentation::Emoji;
    let mut bold = asset(1);
    bold.key.synthetic_bold = true;
    let mut other = asset(9);
    other.key.face = 1;
    let sorted =
        sorted_assets(vec![asset(3), bold.clone(), emoji.clone(), asset(1), other.clone()]);
    assert_eq!(sorted, vec![other, asset(1), emoji, bold, asset(3)]);
}

#[test]
fn texts_are_asked_for_once() {
    let mut combined = cell('e');
    combined.zerowidth = Some(vec!['\u{301}']);
    let mut bold = cell('a');
    bold.flags.bold = true;
    let mut hidden = cell('h');
    hidden.flags.hidden = true;
    let frame = snapshot(
        8,
        1,
        vec![cell('a'), cell(' '), cell('a'), combined, bold, hidden, cell('\u{200e}'), cell('a')],
    );
    let preedit = PreeditOverlay {
        snapshot_generation: 7,
        revision: 1,
        anchor: [0, 0],
        text: "ab".into(),
        cursor: PreeditCursor::Hidden,
    };
    let requests = cluster_requests(&frame, None, Some(&preedit));
    let found: Vec<(String, FontStyle)> =
        requests.iter().map(|r| (r.text.iter().collect(), r.style)).collect();
    assert_eq!(
        found,
        vec![
            ("a".to_string(), FontStyle::Regular),
            ("e\u{301}".to_string(), FontStyle::Regular),
            ("a".to_string(), FontStyle::Bold),
            ("ab".to_string(), FontStyle::Regular),
        ]
    );
    let confirmation = PasteConfirmationOverlay {
        revision: 1,
        source: TransferTarget::Clipboard,
        bytes: 1,
        lines: 1,
        risk: PasteRisk::Multiline,
    };
    assert_eq!(cluster_requests(&frame, Some(&confirmation), Some(&preedit)).len(), 4);
}

#[test]
fn runs_end_where_style_direction_or_pictures_change() {
    let mut bold = cell('c');
    bold.flags.bold = true;
    let mut wide = cell('中');
    wide.width = CellWidth::Wide;
    let mut spacer = cell(' ');
    spacer.width = CellWidth::Spacer;
    let frame = snapshot(
        8,
        1,
        vec![cell('a'), cell('é'), bold, wide, spacer, cell('\u{1f600}'), cell('x'), cell('y')],
    );
    let mut visual = map(8, 1);
    visual.bidi_enabled = true;
    visual.lines[0].atom_levels[7] = 1;
    let runs = terminal_runs(&frame, &visual);
    let texts: Vec<&str> = runs.iter().map(|run| run.text.as_str()).collect();
    assert_eq!(texts, vec!["aé", "c", "中", "\u{1f600}", "x", "y"]);
    let places: Vec<(usize, usize)> =
        runs[0].provenance.iter().map(|part| (part.offset, part.column)).collect();
    assert_eq!(places, vec![(0, 0), (1, 1)]);
    assert!(runs[5].class.right_to_left && !runs[4].class.right_to_left);
    assert!(runs[3].class.emoji);
}

#[test]
fn glyphs_go_to_the_cells_of_their_characters() {
    let mut combined = cell('e');
    combined.zerowidth = Some(vec!['\u{301}']);
    let frame = snapshot(3, 1, vec![combined, cell('b'), cell('c')]);
    let mut visual = map(3, 1);
    visual.bidi_enabled = true;
    let run_glyphs = vec![vec![glyph(1, 0), glyph(2, 3), glyph(3, 4)]];
    let (shapes, keys) =
        prepare_glyph_working_set(&frame, None, None, &visual, &Vec::new(), &run_glyphs, LIMITS)
            .expect("working set");
    let spans: Vec<(usize, u8)> = shapes.iter().map(|s| (s.glyphs.len(), s.span)).collect();
    assert_eq!(spans, vec![(1, 1), (1, 1), (1, 1)]);
    assert_eq!(keys, vec![key(1), key(2), key(3)]);

    let flags = snapshot(2, 1, vec![cell('\u{1f1e9}'), cell('\u{1f1ea}')]);
    let mut visual = map(2, 1);
    visual.bidi_enabled = true;
    let (shapes, _) = prepare_glyph_working_set(
        &flags,
        None,
        None,
        &visual,
        &Vec::new(),
        &vec![vec![glyph(1, 0)]],
        LIMITS,
    )
    .expect("working set");
    assert_eq!((shapes[0].glyphs.len(), shapes[0].span), (1, 2));
    assert_eq!(shapes[1].glyphs.len(), 0);
}

#[test]
fn working_sets_are_bounded() {
    let frame = snapshot(2, 1, vec![cell('a'), cell('b')]);
    let visual = map(2, 1);
    let clusters = vec![shaped("a", vec![glyph(1, 0)]), shaped("b", vec![glyph(2, 0)])];
    let prepare = |limits| {
        prepare_glyph_working_set(&frame, None, None, &visual, &clusters, &Vec::new(), limits)
    };
    assert!(prepare(LIMITS).is_ok());
    assert_eq!(
        prepare(GlyphLimits { bitmaps: 1, ..LIMITS }).expect_err("too many"),
        ComposeError::Capacity(CapacityFault::UniqueGlyphs)
    );
    let mut visual = map(2, 1);
    visual.bidi_enabled = true;
    let outcome = prepare_glyph_working_set(
        &frame,
        None,
        None,
        &visual,
        &Vec::new(),
        &vec![vec![glyph(1, 0), glyph(1, 1)]],
        GlyphLimits { placements: 1, ..LIMITS },
    );
    assert_eq!(
        outcome.expect_err("too many").message(),
        "frame exceeds hard capacity: glyph placements"
    );
    let mut shapes = shapes(2);
    let mut keys = Vec::new();
    let runs = terminal_runs(&frame, &visual);
    let mut empty = runs[0].clone();
    empty.provenance.clear();
    let graphemes = vec![Grapheme { offset: 0, length: 1 }];
    assert_eq!(
        assign_glyphs(&mut shapes, &mut keys, &frame, &empty, &graphemes, &vec![glyph(1, 0)]),
        Err(ComposeError::Snapshot(SnapshotFault::MissingProvenance))
    );
}

fn item(active: bool, unread: bool) -> TabBarItem {
    TabBarItem {
        id: SessionId { value: 1 },
        title: "t".into(),
        rect: PixelRect { x: 0, y: 0, width: 100, height: 32 },
        close_rect: Some(PixelRect { x: 80, y: 8, width: 16, height: 16 }),
        active,
        unread,
        attention: false,
        bell_muted: false,
        drag_offset_x: 0,
    }
}

#[test]
fn glyphs_of_the_tab_bar_have_keys_of_their_own() {
    let bar = TabBarPresentation {
        bar: None,
        items: vec![item(true, false), item(false, true)],
        max_offset: 0,
        offset: 0,
    };
    let texts: Vec<String> =
        tab_requests(Some(&bar)).iter().map(|r| r.text.iter().collect()).collect();
    assert_eq!(texts, vec!["t", "\u{d7}"]);
    assert!(tab_requests(None).is_empty());
    let clusters = vec![shaped("t", vec![glyph(5, 0)])];
    let (keys, own) = prepare_tab_glyph_working_set(&clusters, 10).expect("working set");
    assert_eq!(keys, vec![key(5)]);
    assert_eq!(own[0].glyphs[0].key, tab_glyph_key(key(5)));
    assert_eq!(tab_glyph_key(key(5)).font_generation, 3 | TAB_FONT_KEY_NAMESPACE);
    assert_eq!(
        prepare_tab_glyph_working_set(&clusters, 0).expect_err("too many"),
        ComposeError::Capacity(CapacityFault::TabGlyphs)
    );
    let mut assets = vec![asset(5)];
    join_assets(&mut assets, vec![asset(5)]);
    assert_eq!(assets[0].key, key(5));
    assert_eq!(assets[1].key, tab_glyph_key(key(5)));
}

#[test]
fn scenes_show_cells_cursor_and_tab_bar_in_order() {
    let mut struck = cell('b');
    struck.flags.strikeout = true;
    struck.flags.inverse = true;
    let mut frame = snapshot(2, 1, vec![cell('a'), struck]);
    frame.cursor.visible = true;
    let layout = layout(18, 18);
    let config = EffectiveConfig::default();
    let selection = SelectionOverlay {
        snapshot_generation: 7,
        revision: 1,
        ranges: vec![CellRange { start: [0, 0], end: [0, 0] }],
    };
    let bar = TabBarPresentation {
        bar: Some(PixelRect { x: 0, y: 0, width: 100, height: 32 }),
        items: vec![item(true, false)],
        max_offset: 0,
        offset: 0,
    };
    let side = |value: f64| Number { bits: value.to_bits() };
    let track =
        interaction::PixelRect { x: side(18.0), y: side(0.0), width: side(0.5), height: side(18.0) };
    let scrollbar = ScrollbarPresentation {
        track,
        thumb: interaction::PixelRect { width: side(-1.0), ..track },
        track_color: Color(0x1122_3380),
        thumb_color: Color(0x1122_33ff),
    };
    let visual = map(2, 1);
    let input = SceneInput {
        snapshot: &frame,
        overlays: FrameOverlays {
            selection: &selection,
            preedit: None,
            paste_confirmation: None,
            scrollbar: Some(&scrollbar),
            tab_bar: Some(&bar),
        },
        layout: &layout,
        colors: &config.colors,
        cursor_policy: CursorPresentationPolicy::from(CursorStyle::Block),
        visual_map: &visual,
        layout_generation: 11,
    };
    let mut working = set(
        vec![shaped("a", vec![glyph(1, 0)]), shaped("b", vec![glyph(2, 0)])],
        vec![asset(2), asset(1)],
        2,
    );
    working.tab_shaped = vec![shaped("t", vec![glyph(1, 0)])];
    let scene = compose(&input, working).expect("scene");
    let colors = &config.colors;
    assert_eq!(
        scene.rectangles,
        vec![
            rectangle(0, 0, 9, 18, colors.selection_background.0),
            rectangle(9, 0, 9, 18, colors.foreground.0),
            rectangle(9, 9, 9, 1, colors.background.0),
            rectangle(0, 0, 9, 18, colors.cursor.0),
            rectangle(0, 0, 100, 32, 0x2b2b_2bff),
            rectangle(0, 0, 100, 32, 0x3333_33ff),
            rectangle(99, 7, 1, 18, 0x4141_41ff),
            rectangle(0, 30, 100, 2, 0xff5a_36ff),
        ]
    );
    assert_eq!(scene.scrollbar, vec![ScrollbarPart { rect: track, color: 0x1122_3380 }]);
    assert_eq!(scene.glyphs.len(), 3);
    assert_eq!((scene.glyphs[0].x, scene.glyphs[0].y), (1, 4));
    assert_eq!(scene.glyphs[0].color, colors.selection_background.0);
    assert_eq!(scene.glyphs[0].clip, Clip { x: 0, y: 0, width: 9, height: 18 });
    assert_eq!((scene.glyphs[1].x, scene.glyphs[1].y), (10, 4));
    assert_eq!(scene.glyphs[1].color, colors.background.0);
    assert_eq!((scene.glyphs[2].x, scene.glyphs[2].y), (39, 12));
    assert_eq!(scene.glyphs[2].clip, Clip { x: 12, y: 0, width: 62, height: 32 });
    assert_eq!(scene.glyphs[2].color, 0xeded_edff);
    assert_eq!(scene.glyph_assets, vec![asset(1), asset(2)]);
    assert_eq!(scene.clear, colors.background.0);
    assert_eq!(scene.frame_key.layout_generation, 11);
    assert_eq!(scene.frame_key.unicode_policy_generation, 3);
    assert_eq!((scene.source_generation, scene.font_generation), (7, 1));
}

#[test]
fn questions_hide_the_terminal() {
    let frame = snapshot(2, 1, vec![cell('a'), cell('b')]);
    let layout = layout(900, 360);
    let config = EffectiveConfig::default();
    let mut frame = frame;
    frame.grid = layout.grid;
    frame.cells = vec![cell('a'); layout.grid.columns() * layout.grid.lines()];
    let visual = map(layout.grid.columns, layout.grid.lines);
    let confirmation = PasteConfirmationOverlay {
        revision: 1,
        source: TransferTarget::Clipboard,
        bytes: 4,
        lines: 2,
        risk: PasteRisk::Multiline,
    };
    let selection = no_selection();
    let input = SceneInput {
        snapshot: &frame,
        overlays: FrameOverlays {
            selection: &selection,
            preedit: None,
            paste_confirmation: Some(&confirmation),
            scrollbar: None,
            tab_bar: None,
        },
        layout: &layout,
        colors: &config.colors,
        cursor_policy: CursorPresentationPolicy { blink_phase_visible: true },
        visual_map: &visual,
        layout_generation: 1,
    };
    let clusters: Vec<ShapedCluster> = paste_confirmation_lines(&confirmation)
        .iter()
        .map(|line| shaped(line, vec![glyph(1, 0)]))
        .collect();
    let cells = frame.cells.len();
    let scene = compose(&input, set(clusters, vec![asset(1)], cells)).expect("scene");
    assert_eq!(
        scene.rectangles,
        vec![
            rectangle(0, 0, 900, 360, 0x090b_0fff),
            rectangle(171, 126, 558, 108, 0x1c22_29ff),
            rectangle(171, 126, 558, 3, 0xf2b8_4bff),
        ]
    );
    assert_eq!(scene.glyphs.len(), 4);
    assert_eq!((scene.glyphs[0].x, scene.glyphs[0].y), (190, 148));
    assert_eq!(scene.glyphs[0].color, 0xf2b8_4bff);
    assert_eq!((scene.glyphs[1].y, scene.glyphs[1].color), (166, 0xf4f1_e8ff));
    assert_eq!(
        compose(&input, set(Vec::new(), vec![asset(1)], cells)).expect_err("missing"),
        ComposeError::Snapshot(SnapshotFault::MissingOverlay)
    );
}

#[test]
fn texts_that_are_being_composed_are_underlined() {
    let frame = snapshot(2, 1, vec![cell(' '), cell(' ')]);
    let layout = layout(18, 18);
    let config = EffectiveConfig::default();
    let selection = no_selection();
    let preedit = PreeditOverlay {
        snapshot_generation: 7,
        revision: 1,
        anchor: [1, 0],
        text: "ab".into(),
        cursor: PreeditCursor::Hidden,
    };
    let visual = map(2, 1);
    let input = SceneInput {
        snapshot: &frame,
        overlays: FrameOverlays {
            selection: &selection,
            preedit: Some(&preedit),
            paste_confirmation: None,
            scrollbar: None,
            tab_bar: None,
        },
        layout: &layout,
        colors: &config.colors,
        cursor_policy: CursorPresentationPolicy { blink_phase_visible: true },
        visual_map: &visual,
        layout_generation: 1,
    };
    let clusters = vec![shaped("ab", vec![glyph(1, 0), glyph(1, 1)])];
    let scene = compose(&input, set(clusters, vec![asset(1)], 2)).expect("scene");
    assert_eq!(scene.rectangles, vec![rectangle(9, 17, 18, 1, config.colors.foreground.0)]);
    assert_eq!((scene.glyphs[0].x, scene.glyphs[1].x), (10, 19));
    assert_eq!(
        compose(&input, set(Vec::new(), Vec::new(), 2)).expect_err("missing"),
        ComposeError::Snapshot(SnapshotFault::MissingPreedit)
    );
    let clusters = vec![shaped("ab", vec![glyph(1, 0)])];
    assert_eq!(
        compose(&input, set(clusters, Vec::new(), 2)).expect_err("missing").message(),
        "snapshot contract error: rasterizer omitted preedit glyph asset"
    );
}

#[test]
fn frames_that_do_not_fit_together_are_refused() {
    let config = EffectiveConfig::default();
    let selection = no_selection();
    let layout = layout(18, 18);
    let visual = map(2, 1);
    let refuse = |frame: &FrameSnapshot| {
        let input = SceneInput {
            snapshot: frame,
            overlays: FrameOverlays {
                selection: &selection,
                preedit: None,
                paste_confirmation: None,
                scrollbar: None,
                tab_bar: None,
            },
            layout: &layout,
            colors: &config.colors,
            cursor_policy: CursorPresentationPolicy { blink_phase_visible: true },
            visual_map: &visual,
            layout_generation: 1,
        };
        assert_eq!(
            check_frame(&input).err(),
            compose(&input, set(Vec::new(), Vec::new(), frame.cells.len()))
                .err()
                .filter(|error| *error != ComposeError::Snapshot(SnapshotFault::MissingCluster))
        );
        compose(&input, set(Vec::new(), Vec::new(), frame.cells.len())).expect_err("refused")
    };
    assert_eq!(
        refuse(&snapshot(1, 1, vec![cell('a')])),
        ComposeError::Snapshot(SnapshotFault::GridsDiffer)
    );
    let mut wide = cell('中');
    wide.width = CellWidth::Wide;
    assert_eq!(
        refuse(&snapshot(2, 1, vec![cell('a'), wide.clone()])),
        ComposeError::Snapshot(SnapshotFault::WideWithoutSpacer)
    );
    let mut spacer = cell(' ');
    spacer.width = CellWidth::Spacer;
    assert_eq!(
        refuse(&snapshot(2, 1, vec![cell('a'), spacer])),
        ComposeError::Snapshot(SnapshotFault::OrphanSpacer)
    );
    assert_eq!(
        refuse(&snapshot(2, 1, vec![cell(' '), cell('b')])),
        ComposeError::Snapshot(SnapshotFault::MissingCluster)
    );
}
