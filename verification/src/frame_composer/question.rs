//! How the question is drawn that a paste waits for.
use vstd::prelude::*;
use crate::clipboard::PasteConfirmationOverlay;
use crate::frame_composer::assets::{
    all_drawn, place_glyphs, placed, Clip, FontStyle, GlyphAsset, GlyphPlacement, TextPlace,
};
use crate::frame_composer::requests::{find_shape, shape_of, ShapedCluster};
use crate::frame_composer::tab_strip::{fill, filled};
use crate::frame_composer::{
    confirmation_line, paste_confirmation_lines, ComposeError, RectangleInstance, SnapshotFault,
    CONFIRMATION_LINES,
};
use crate::layout::GridLayout;
use crate::tab::{diff32, min32, sum32, PixelRect};
use crate::text::chars_of;

verus! {

pub const BACKDROP: u32 = 0x090b_0fff;

pub const PANEL: u32 = 0x1c22_29ff;

pub const WARNING: u32 = 0xf2b8_4bff;

pub const PANEL_TEXT: u32 = 0xf4f1_e8ff;

/// The panel with the question: in the middle of the window, and no larger than it.
pub open spec fn panel_of(layout: GridLayout) -> PixelRect {
    let cell_width = layout.cell_px@[0] as int;
    let cell_height = layout.cell_px@[1] as int;
    let room = diff32(layout.viewport_px.width, (cell_width * 2) as u32);
    let width = min32(
        (cell_width * 62) as u32,
        if room > 1 {
            room
        } else {
            1
        },
    );
    let height = min32(
        (cell_height * 6) as u32,
        if layout.viewport_px.height > 1 {
            layout.viewport_px.height
        } else {
            1
        },
    );
    PixelRect {
        x: diff32(layout.viewport_px.width, width) / 2,
        y: diff32(layout.viewport_px.height, height) / 2,
        width,
        height,
    }
}

/// What is drawn of the question, apart from its text. It hides all that is below.
pub open spec fn question_rectangles(layout: GridLayout) -> Seq<RectangleInstance> {
    let panel = panel_of(layout);
    seq![
        filled(
            PixelRect {
                x: 0,
                y: 0,
                width: layout.viewport_px.width,
                height: layout.viewport_px.height,
            },
            BACKDROP,
        ),
        filled(panel, PANEL),
        filled(PixelRect { height: 3, ..panel }, WARNING),
    ]
}

/// Where a line of the question stands.
pub open spec fn line_place(layout: GridLayout, i: int) -> TextPlace {
    let panel = panel_of(layout);
    TextPlace {
        x: sum32(panel.x, (layout.cell_px@[0] * 2) as u32) as i64,
        base: (sum32(panel.y, (layout.cell_px@[1] * (i + 1)) as u32)
            + layout.cell_metrics.baseline_px) as i64,
        clip: Clip { x: panel.x, y: panel.y, width: panel.width, height: panel.height },
        color: if i == 0 {
            WARNING
        } else {
            PANEL_TEXT
        },
        dimmed: false,
    }
}

/// What is wrong with the first lines of the question.
pub open spec fn question_fault(
    confirmation: PasteConfirmationOverlay,
    shaped: Seq<ShapedCluster>,
    assets: Seq<GlyphAsset>,
    i: int,
) -> Option<ComposeError>
    decreases CONFIRMATION_LINES - i,
{
    if i < 0 || i >= CONFIRMATION_LINES {
        None
    } else {
        match shape_of(shaped, confirmation_line(confirmation, i), FontStyle::Regular) {
            None => Some(ComposeError::Snapshot(SnapshotFault::MissingOverlay)),
            Some(glyphs) => if !all_drawn(glyphs, assets) {
                Some(ComposeError::Snapshot(SnapshotFault::MissingOverlayAsset))
            } else {
                question_fault(confirmation, shaped, assets, i + 1)
            },
        }
    }
}

/// The text of the first lines of the question.
pub open spec fn question_glyphs(
    confirmation: PasteConfirmationOverlay,
    layout: GridLayout,
    shaped: Seq<ShapedCluster>,
    assets: Seq<GlyphAsset>,
    n: int,
) -> Seq<GlyphPlacement>
    decreases n,
{
    if n <= 0 {
        Seq::empty()
    } else {
        let before = question_glyphs(confirmation, layout, shaped, assets, n - 1);
        match shape_of(shaped, confirmation_line(confirmation, n - 1), FontStyle::Regular) {
            Some(glyphs) => before + placed(
                glyphs,
                assets,
                line_place(layout, n - 1),
                glyphs.len() as int,
            ),
            None => before,
        }
    }
}

fn measure_panel(layout: &GridLayout) -> (result: PixelRect)
    ensures
        result == panel_of(*layout),
{
    let cell_width: u32 = layout.cell_px[0] as u32;
    let cell_height: u32 = layout.cell_px[1] as u32;
    let room: u32 = layout.viewport_px.width.saturating_sub(cell_width * 2);
    let width: u32 = crate::tab::lesser(
        cell_width * 62,
        if room > 1 {
            room
        } else {
            1
        },
    );
    let height: u32 = crate::tab::lesser(
        cell_height * 6,
        if layout.viewport_px.height > 1 {
            layout.viewport_px.height
        } else {
            1
        },
    );
    PixelRect {
        x: layout.viewport_px.width.saturating_sub(width) / 2,
        y: layout.viewport_px.height.saturating_sub(height) / 2,
        width,
        height,
    }
}

/// Draws the question that a paste waits for.
pub fn compose_paste_confirmation(
    confirmation: &PasteConfirmationOverlay,
    layout: &GridLayout,
    shaped: &Vec<ShapedCluster>,
    assets: &Vec<GlyphAsset>,
) -> (result: Result<(Vec<RectangleInstance>, Vec<GlyphPlacement>), ComposeError>)
    ensures
        match question_fault(*confirmation, shaped@, assets@, 0) {
            Some(fault) => result is Err && result->Err_0 == fault,
            None => {
                &&& result is Ok
                &&& (result->Ok_0).0@ == question_rectangles(*layout)
                &&& (result->Ok_0).1@ == question_glyphs(
                    *confirmation,
                    *layout,
                    shaped@,
                    assets@,
                    CONFIRMATION_LINES as int,
                )
            },
        },
{
    let panel = measure_panel(layout);
    let mut rectangles: Vec<RectangleInstance> = Vec::new();
    rectangles.push(
        fill(
            PixelRect {
                x: 0,
                y: 0,
                width: layout.viewport_px.width,
                height: layout.viewport_px.height,
            },
            BACKDROP,
        ),
    );
    rectangles.push(fill(panel, PANEL));
    rectangles.push(
        fill(PixelRect { x: panel.x, y: panel.y, width: panel.width, height: 3 }, WARNING),
    );
    assert(rectangles@ =~= question_rectangles(*layout));
    let lines = paste_confirmation_lines(confirmation);
    let mut out: Vec<GlyphPlacement> = Vec::new();
    let mut i: usize = 0;
    while i < CONFIRMATION_LINES
        invariant
            i <= CONFIRMATION_LINES,
            panel == panel_of(*layout),
            rectangles@ == question_rectangles(*layout),
            lines@.len() == CONFIRMATION_LINES,
            forall|k: int|
                0 <= k < CONFIRMATION_LINES ==> (#[trigger] lines@[k])@ == confirmation_line(
                    *confirmation,
                    k,
                ),
            question_fault(*confirmation, shaped@, assets@, 0) == question_fault(
                *confirmation,
                shaped@,
                assets@,
                i as int,
            ),
            out@ == question_glyphs(*confirmation, *layout, shaped@, assets@, i as int),
        decreases CONFIRMATION_LINES - i,
    {
        let line = chars_of(lines[i].as_str());
        match find_shape(shaped, &line, FontStyle::Regular) {
            None => {
                return Err(ComposeError::Snapshot(SnapshotFault::MissingOverlay));
            },
            Some(at) => {
                let height: u32 = layout.cell_px[1] as u32;
                let row: u32 = i as u32 + 1;
                assert(height * row <= 0xffff * 4) by (nonlinear_arith)
                    requires
                        height <= 0xffff,
                        row <= 4,
                ;
                let step: u32 = height * row;
                let place = TextPlace {
                    x: panel.x.saturating_add(layout.cell_px[0] as u32 * 2) as i64,
                    base: panel.y.saturating_add(step) as i64
                        + layout.cell_metrics.baseline_px as i64,
                    clip: Clip {
                        x: panel.x,
                        y: panel.y,
                        width: panel.width,
                        height: panel.height,
                    },
                    color: if i == 0 {
                        WARNING
                    } else {
                        PANEL_TEXT
                    },
                    dimmed: false,
                };
                assert(place == line_place(*layout, i as int));
                let (_, complete) = place_glyphs(&mut out, &shaped[at].glyphs, assets, place);
                if !complete {
                    return Err(ComposeError::Snapshot(SnapshotFault::MissingOverlayAsset));
                }
            },
        }
        i += 1;
    }
    Ok((rectangles, out))
}

/// The panel never leaves the window, where the window has a pixel.
pub proof fn the_panel_stays_in_the_window(layout: GridLayout)
    requires
        layout.viewport_px.width > 0,
        layout.viewport_px.height > 0,
    ensures
        panel_of(layout).x + panel_of(layout).width <= layout.viewport_px.width,
        panel_of(layout).y + panel_of(layout).height <= layout.viewport_px.height,
{
}

/// What is drawn while a paste waits depends on where it comes from, how long it is and what is
/// risky about it, and on nothing else: its text is never shown.
pub proof fn the_question_does_not_show_the_paste(
    a: PasteConfirmationOverlay,
    b: PasteConfirmationOverlay,
    i: int,
)
    requires
        a.source == b.source,
        a.bytes == b.bytes,
        a.lines == b.lines,
        a.risk == b.risk,
    ensures
        confirmation_line(a, i) == confirmation_line(b, i),
{
}

/// The question stands in the middle of the window, in front of all else, with its warning along its
/// upper edge.
pub proof fn the_question_stands_in_the_middle(layout: GridLayout)
    requires
        layout.viewport_px.width > 0,
        layout.viewport_px.height > 0,
        layout.cell_px@[0] > 0,
        layout.cell_px@[1] > 0,
    ensures
        ({
            let panel = panel_of(layout);
            let right = layout.viewport_px.width - panel.x - panel.width;
            let below = layout.viewport_px.height - panel.y - panel.height;
            let drawn = question_rectangles(layout);
            &&& 0 <= right - panel.x <= 1
            &&& 0 <= below - panel.y <= 1
            &&& drawn.len() == 3
            &&& drawn[0].x == 0 && drawn[0].y == 0
            &&& drawn[0].width == layout.viewport_px.width
            &&& drawn[0].height == layout.viewport_px.height
            &&& drawn[1].x == panel.x && drawn[1].y == panel.y
            &&& drawn[1].width == panel.width && drawn[1].height == panel.height
            &&& drawn[2].x == panel.x && drawn[2].y == panel.y
            &&& drawn[2].width == panel.width && drawn[2].height == 3
            &&& drawn[2].color == line_place(layout, 0).color
            &&& drawn[1].color != drawn[2].color
        }),
{
}

/// The lines of the question stand one below the other, each one cell lower, two cells from the left
/// edge of the panel, and are cut to it.
pub proof fn lines_of_the_question_stand_below_each_other(layout: GridLayout, i: int)
    requires
        0 <= i < 10,
        layout.viewport_px.height <= 0x7fff_ffff,
        layout.viewport_px.width <= 0x7fff_ffff,
    ensures
        ({
            let panel = panel_of(layout);
            let here = line_place(layout, i);
            let next = line_place(layout, i + 1);
            &&& next.base - here.base == layout.cell_px@[1]
            &&& next.x == here.x
            &&& here.x == panel.x + 2 * layout.cell_px@[0]
            &&& here.clip.x == panel.x && here.clip.y == panel.y
            &&& here.clip.width == panel.width && here.clip.height == panel.height
        }),
{
    let h = layout.cell_px@[1] as int;
    assert(h * (i + 2) == h * (i + 1) + h && 0 <= h * (i + 1) <= 11 * 65_535) by (nonlinear_arith)
        requires
            0 <= i < 10,
            0 <= h <= 65_535,
    ;
    assert(i + 1 + 1 == i + 2);
    assert(h * (i + 2) <= 12 * 65_535) by (nonlinear_arith)
        requires
            0 <= i < 10,
            0 <= h <= 65_535,
    ;
}

} // verus!
