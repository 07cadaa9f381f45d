//! How the tab bar is drawn.
use vstd::prelude::*;
use crate::frame_composer::assets::{
    capped, place_glyphs, placed, Clip, FontStyle, GlyphAsset, GlyphPlacement, ShapedGlyph,
    TextPlace,
};
use crate::frame_composer::requests::{find_shape, shape_of, ShapedCluster, TAB_CLOSE_MARK};
use crate::frame_composer::RectangleInstance;
use crate::tab::{diff32, sum32, PixelRect, TabBarItem, TabBarPresentation};
use crate::text::chars_of;

verus! {

pub const TAB_BAR_BACKGROUND: u32 = 0x2b2b_2bff;

pub const TAB_ACTIVE_BACKGROUND: u32 = 0x3333_33ff;

pub const TAB_DIVIDER: u32 = 0x4141_41ff;

pub const TAB_ACCENT: u32 = 0xff5a_36ff;

pub const TAB_ACTIVE_TEXT: u32 = 0xeded_edff;

pub const TAB_INACTIVE_TEXT: u32 = 0xa8a8_a8ff;

pub const TAB_UNREAD_TEXT: u32 = 0xd8d8_d8ff;

/// A rectangle of one color.
pub open spec fn filled(rect: PixelRect, color: u32) -> RectangleInstance {
    RectangleInstance {
        x: rect.x as u64,
        y: rect.y as u64,
        width: rect.width as u64,
        height: rect.height as u64,
        color,
    }
}

/// A rectangle of one color.
pub fn fill(rect: PixelRect, color: u32) -> (result: RectangleInstance)
    ensures
        result == filled(rect, color),
{
    RectangleInstance {
        x: rect.x as u64,
        y: rect.y as u64,
        width: rect.width as u64,
        height: rect.height as u64,
        color,
    }
}

/// The ground of a tab, where it is the active one.
pub open spec fn ground(item: TabBarItem) -> Seq<RectangleInstance> {
    if item.active {
        seq![filled(item.rect, TAB_ACTIVE_BACKGROUND)]
    } else {
        Seq::empty()
    }
}

/// What divides a tab from the next, where there is room for it.
pub open spec fn divider(item: TabBarItem) -> Seq<RectangleInstance> {
    if item.rect.width > 1 && item.rect.height > 14 {
        seq![
            filled(
                PixelRect {
                    x: sum32(item.rect.x, (item.rect.width - 1) as u32),
                    y: sum32(item.rect.y, 7),
                    width: 1,
                    height: (item.rect.height - 14) as u32,
                },
                TAB_DIVIDER,
            ),
        ]
    } else {
        Seq::empty()
    }
}

/// The line below the active tab, or the dot of one that has something new.
pub open spec fn accent(item: TabBarItem) -> Seq<RectangleInstance> {
    if item.active {
        let height: u32 = if item.rect.height > 1 {
            2
        } else {
            1
        };
        seq![
            filled(
                PixelRect {
                    x: item.rect.x,
                    y: sum32(item.rect.y, diff32(item.rect.height, height)),
                    width: item.rect.width,
                    height,
                },
                TAB_ACCENT,
            ),
        ]
    } else if item.unread && item.rect.width >= 20 {
        seq![
            filled(
                PixelRect {
                    x: sum32(item.rect.x, 8),
                    y: sum32(item.rect.y, item.rect.height / 2),
                    width: 3,
                    height: 3,
                },
                TAB_ACCENT,
            ),
        ]
    } else {
        Seq::empty()
    }
}

/// What is drawn of a tab, apart from its text.
pub open spec fn item_rectangles(item: TabBarItem) -> Seq<RectangleInstance> {
    ground(item) + divider(item) + accent(item)
}

/// What is drawn of the first tabs, apart from their text.
pub open spec fn items_rectangles(items: Seq<TabBarItem>, n: int) -> Seq<RectangleInstance>
    decreases n,
{
    if n <= 0 {
        Seq::empty()
    } else {
        items_rectangles(items, n - 1) + item_rectangles(items[n - 1])
    }
}

/// What is drawn of the tab bar, apart from its text.
pub open spec fn bar_rectangles(bar: TabBarPresentation) -> Seq<RectangleInstance> {
    (match bar.bar {
        Some(rect) => seq![filled(rect, TAB_BAR_BACKGROUND)],
        None => Seq::empty(),
    }) + items_rectangles(bar.items@, bar.items@.len() as int)
}

/// How far a text reaches, in sixty-fourths of a pixel.
pub open spec fn advance_after(glyphs: Seq<ShapedGlyph>, n: int) -> i32
    decreases n,
{
    if n <= 0 {
        0
    } else {
        capped(advance_after(glyphs, n - 1) + glyphs[n - 1].advance_26_6@[0])
    }
}

/// The width of a text in whole pixels.
pub open spec fn text_width(glyphs: Seq<ShapedGlyph>) -> int {
    let advance = advance_after(glyphs, glyphs.len() as int) as int;
    if advance > 0 {
        advance / 64
    } else {
        0
    }
}

/// How far a text stands from the left where it is centered. A text that is too wide begins at
/// the left.
pub open spec fn indent(available: u32, width: int) -> int {
    let room = if available > i32::MAX {
        i32::MAX as int
    } else {
        available as int
    };
    if room > width {
        (room - width) / 2
    } else {
        0
    }
}

/// Half a number, towards zero.
pub open spec fn half(n: i16) -> int {
    if n >= 0 {
        n as int / 2
    } else {
        -((-n) / 2)
    }
}

fn half_of(n: i16) -> (result: i64)
    ensures
        result == half(n),
        -0x8000 <= result <= 0x8000,
{
    let n: i64 = n as i64;
    if n >= 0 {
        n / 2
    } else {
        -((-n) / 2)
    }
}

fn centered(glyphs: &Vec<ShapedGlyph>, available: u32) -> (result: i64)
    ensures
        result == indent(available, text_width(glyphs@)),
        0 <= result <= 0x7fff_ffff,
{
    let mut advance: i32 = 0;
    let mut i: usize = 0;
    while i < glyphs.len()
        invariant
            i <= glyphs@.len(),
            advance == advance_after(glyphs@, i as int),
        decreases glyphs@.len() - i,
    {
        let sum: i64 = advance as i64 + glyphs[i].advance_26_6[0] as i64;
        advance = if sum > 0x7fff_ffff {
            0x7fff_ffff
        } else if sum < -0x8000_0000 {
            -0x8000_0000
        } else {
            sum as i32
        };
        i += 1;
    }
    let width: i64 = if advance > 0 {
        advance as i64 / 64
    } else {
        0
    };
    let room: i64 = if available > 0x7fff_ffff {
        0x7fff_ffff
    } else {
        available as i64
    };
    if room > width {
        (room - width) / 2
    } else {
        0
    }
}

/// The left edge of the title of a tab.
pub open spec fn title_left(item: TabBarItem) -> u32 {
    sum32(item.rect.x, 12)
}

/// The room for the title of a tab: up to what closes it, or to its right edge.
pub open spec fn title_room(item: TabBarItem) -> u32 {
    let right = match item.close_rect {
        Some(close) => diff32(close.x, 6),
        None => diff32(sum32(item.rect.x, item.rect.width), 12),
    };
    diff32(right, title_left(item))
}

/// The color of the title of a tab.
pub open spec fn title_color(item: TabBarItem) -> u32 {
    if item.active {
        TAB_ACTIVE_TEXT
    } else if item.unread {
        TAB_UNREAD_TEXT
    } else {
        TAB_INACTIVE_TEXT
    }
}

/// Where the title of a tab stands.
pub open spec fn title_place(item: TabBarItem, glyphs: Seq<ShapedGlyph>, baseline: i16) -> TextPlace {
    TextPlace {
        x: (title_left(item) + indent(title_room(item), text_width(glyphs))) as i64,
        base: (sum32(item.rect.y, item.rect.height / 2) + half(baseline)) as i64,
        clip: Clip {
            x: title_left(item),
            y: item.rect.y,
            width: title_room(item),
            height: item.rect.height,
        },
        color: title_color(item),
        dimmed: false,
    }
}

/// Where the mark stands that closes a tab.
pub open spec fn close_place(
    item: TabBarItem,
    close: PixelRect,
    glyphs: Seq<ShapedGlyph>,
    baseline: i16,
) -> TextPlace {
    TextPlace {
        x: (close.x + indent(close.width, text_width(glyphs))) as i64,
        base: (sum32(close.y, close.height / 2) + half(baseline)) as i64,
        clip: Clip { x: close.x, y: close.y, width: close.width, height: close.height },
        color: if item.active {
            TAB_ACTIVE_TEXT
        } else {
            TAB_INACTIVE_TEXT
        },
        dimmed: false,
    }
}

/// The title of a tab. One that was not shaped is left out.
pub open spec fn title_glyphs(
    item: TabBarItem,
    shaped: Seq<ShapedCluster>,
    assets: Seq<GlyphAsset>,
    baseline: i16,
) -> Seq<GlyphPlacement> {
    match shape_of(shaped, item.title@, FontStyle::Regular) {
        Some(glyphs) => placed(
            glyphs,
            assets,
            title_place(item, glyphs, baseline),
            glyphs.len() as int,
        ),
        None => Seq::empty(),
    }
}

/// The mark that closes a tab.
pub open spec fn close_glyphs(
    item: TabBarItem,
    shaped: Seq<ShapedCluster>,
    assets: Seq<GlyphAsset>,
    baseline: i16,
) -> Seq<GlyphPlacement> {
    match (item.close_rect, shape_of(shaped, TAB_CLOSE_MARK@, FontStyle::Regular)) {
        (Some(close), Some(glyphs)) => placed(
            glyphs,
            assets,
            close_place(item, close, glyphs, baseline),
            glyphs.len() as int,
        ),
        _ => Seq::empty(),
    }
}

/// The text of the first tabs.
pub open spec fn items_glyphs(
    items: Seq<TabBarItem>,
    shaped: Seq<ShapedCluster>,
    assets: Seq<GlyphAsset>,
    baseline: i16,
    n: int,
) -> Seq<GlyphPlacement>
    decreases n,
{
    if n <= 0 {
        Seq::empty()
    } else {
        items_glyphs(items, shaped, assets, baseline, n - 1) + (title_glyphs(
            items[n - 1],
            shaped,
            assets,
            baseline,
        ) + close_glyphs(items[n - 1], shaped, assets, baseline))
    }
}

fn push_item_rectangles(rectangles: &mut Vec<RectangleInstance>, item: &TabBarItem)
    ensures
        final(rectangles)@ == old(rectangles)@ + item_rectangles(*item),
{
    let ghost before = rectangles@;
    if item.active {
        rectangles.push(fill(item.rect, TAB_ACTIVE_BACKGROUND));
    }
    if item.rect.width > 1 && item.rect.height > 14 {
        rectangles.push(
            fill(
                PixelRect {
                    x: item.rect.x.saturating_add(item.rect.width - 1),
                    y: item.rect.y.saturating_add(7),
                    width: 1,
                    height: item.rect.height - 14,
                },
                TAB_DIVIDER,
            ),
        );
    }
    if item.active {
        let height: u32 = if item.rect.height > 1 {
            2
        } else {
            1
        };
        rectangles.push(
            fill(
                PixelRect {
                    x: item.rect.x,
                    y: item.rect.y.saturating_add(item.rect.height.saturating_sub(height)),
                    width: item.rect.width,
                    height,
                },
                TAB_ACCENT,
            ),
        );
    } else if item.unread && item.rect.width >= 20 {
        rectangles.push(
            fill(
                PixelRect {
                    x: item.rect.x.saturating_add(8),
                    y: item.rect.y.saturating_add(item.rect.height / 2),
                    width: 3,
                    height: 3,
                },
                TAB_ACCENT,
            ),
        );
    }
    assert(rectangles@ =~= before + item_rectangles(*item));
}

fn push_title(
    out: &mut Vec<GlyphPlacement>,
    item: &TabBarItem,
    shaped: &Vec<ShapedCluster>,
    assets: &Vec<GlyphAsset>,
    baseline: i16,
)
    ensures
        final(out)@ == old(out)@ + title_glyphs(*item, shaped@, assets@, baseline),
{
    let ghost before = out@;
    let title = chars_of(item.title.as_str());
    match find_shape(shaped, &title, FontStyle::Regular) {
        Some(i) => {
            let glyphs = &shaped[i].glyphs;
            let left: u32 = item.rect.x.saturating_add(12);
            let right: u32 = match item.close_rect {
                Some(close) => close.x.saturating_sub(6),
                None => item.rect.x.saturating_add(item.rect.width).saturating_sub(12),
            };
            let room: u32 = right.saturating_sub(left);
            let place = TextPlace {
                x: left as i64 + centered(glyphs, room),
                base: item.rect.y.saturating_add(item.rect.height / 2) as i64 + half_of(baseline),
                clip: Clip { x: left, y: item.rect.y, width: room, height: item.rect.height },
                color: if item.active {
                    TAB_ACTIVE_TEXT
                } else if item.unread {
                    TAB_UNREAD_TEXT
                } else {
                    TAB_INACTIVE_TEXT
                },
                dimmed: false,
            };
            assert(place == title_place(*item, glyphs@, baseline));
            let _ = place_glyphs(out, glyphs, assets, place);
        },
        None => {
            assert(out@ =~= before + title_glyphs(*item, shaped@, assets@, baseline));
        },
    }
}

fn push_close(
    out: &mut Vec<GlyphPlacement>,
    item: &TabBarItem,
    shaped: &Vec<ShapedCluster>,
    assets: &Vec<GlyphAsset>,
    baseline: i16,
)
    ensures
        final(out)@ == old(out)@ + close_glyphs(*item, shaped@, assets@, baseline),
{
    let ghost before = out@;
    let mark = chars_of(TAB_CLOSE_MARK);
    match (item.close_rect, find_shape(shaped, &mark, FontStyle::Regular)) {
        (Some(close), Some(i)) => {
            let glyphs = &shaped[i].glyphs;
            let place = TextPlace {
                x: close.x as i64 + centered(glyphs, close.width),
                base: close.y.saturating_add(close.height / 2) as i64 + half_of(baseline),
                clip: Clip { x: close.x, y: close.y, width: close.width, height: close.height },
                color: if item.active {
                    TAB_ACTIVE_TEXT
                } else {
                    TAB_INACTIVE_TEXT
                },
                dimmed: false,
            };
            assert(place == close_place(*item, close, glyphs@, baseline));
            let _ = place_glyphs(out, glyphs, assets, place);
        },
        _ => {
            assert(out@ =~= before + close_glyphs(*item, shaped@, assets@, baseline));
        },
    }
}

/// Draws the tab bar. A text that was not shaped is left out.
pub fn push_tab_bar(
    rectangles: &mut Vec<RectangleInstance>,
    out: &mut Vec<GlyphPlacement>,
    bar: &TabBarPresentation,
    shaped: &Vec<ShapedCluster>,
    assets: &Vec<GlyphAsset>,
    baseline: i16,
)
    ensures
        final(rectangles)@ == old(rectangles)@ + bar_rectangles(*bar),
        final(out)@ == old(out)@ + items_glyphs(
            bar.items@,
            shaped@,
            assets@,
            baseline,
            bar.items@.len() as int,
        ),
{
    let ghost glyphs_before = out@;
    let ghost start = rectangles@;
    match bar.bar {
        Some(rect) => {
            rectangles.push(fill(rect, TAB_BAR_BACKGROUND));
        },
        None => {},
    }
    let ghost before = rectangles@;
    let mut i: usize = 0;
    assert(rectangles@ =~= before + items_rectangles(bar.items@, 0));
    assert(out@ =~= glyphs_before + items_glyphs(bar.items@, shaped@, assets@, baseline, 0));
    while i < bar.items.len()
        invariant
            i <= bar.items@.len(),
            rectangles@ == before + items_rectangles(bar.items@, i as int),
            out@ == glyphs_before + items_glyphs(
                bar.items@,
                shaped@,
                assets@,
                baseline,
                i as int,
            ),
        decreases bar.items@.len() - i,
    {
        let item = &bar.items[i];
        push_item_rectangles(rectangles, item);
        push_title(out, item, shaped, assets, baseline);
        push_close(out, item, shaped, assets, baseline);
        i += 1;
        assert(rectangles@ =~= before + items_rectangles(bar.items@, i as int));
        assert(out@ =~= glyphs_before + items_glyphs(
            bar.items@,
            shaped@,
            assets@,
            baseline,
            i as int,
        ));
    }
    assert(rectangles@ =~= start + bar_rectangles(*bar));
}

/// The active tab has a ground of its own and a line along its lower edge. Another tab has neither,
/// and a dot where it has something new and is wide enough for one.
pub proof fn tabs_are_marked_for_what_they_are(item: TabBarItem)
    requires
        item.rect.y + item.rect.height <= u32::MAX,
        item.rect.x + item.rect.width <= u32::MAX,
        item.rect.height > 0,
    ensures
        item.active ==> {
            &&& ground(item).len() == 1
            &&& ground(item)[0].x == item.rect.x && ground(item)[0].y == item.rect.y
            &&& ground(item)[0].width == item.rect.width
            &&& ground(item)[0].height == item.rect.height
            &&& accent(item).len() == 1
            &&& accent(item)[0].x == item.rect.x
            &&& accent(item)[0].width == item.rect.width
            &&& accent(item)[0].y + accent(item)[0].height == item.rect.y + item.rect.height
        },
        !item.active ==> ground(item).len() == 0,
        !item.active && item.unread && item.rect.width >= 20 ==> {
            &&& accent(item).len() == 1
            &&& accent(item)[0].width == 3 && accent(item)[0].height == 3
            &&& item.rect.x < accent(item)[0].x
            &&& accent(item)[0].x + 3 <= item.rect.x + item.rect.width
        },
        !item.active && !item.unread ==> accent(item).len() == 0,
        divider(item).len() > 0 ==> {
            &&& divider(item)[0].width == 1
            &&& divider(item)[0].x + 1 == item.rect.x + item.rect.width
            &&& divider(item)[0].y == item.rect.y + 7
            &&& divider(item)[0].y + divider(item)[0].height + 7 == item.rect.y + item.rect.height
        },
{
}

/// A text that fits stands in the middle of its room; one that does not begins at its left.
pub proof fn texts_stand_in_the_middle(available: u32, width: int)
    requires
        0 <= width,
        available <= 0x7fff_ffff,
    ensures
        width < available ==> 0 <= (available - width) - 2 * indent(available, width) <= 1,
        width >= available ==> indent(available, width) == 0,
{
}

/// The title of a tab stands between its left edge and what closes it, and is cut to that room. It is
/// brightest in the active tab, and brighter where there is something new.
pub proof fn titles_stand_in_their_tabs(
    item: TabBarItem,
    glyphs: Seq<ShapedGlyph>,
    baseline: i16,
)
    requires
        item.rect.x + item.rect.width <= u32::MAX,
        item.rect.width >= 24,
        item.close_rect is Some ==> item.rect.x + 18 <= item.close_rect->0.x && item.close_rect->0.x
            <= item.rect.x + item.rect.width,
    ensures
        ({
            let at = title_place(item, glyphs, baseline);
            &&& at.clip.x == item.rect.x + 12
            &&& item.close_rect is Some ==> at.clip.x + at.clip.width + 6 == item.close_rect->0.x
            &&& item.close_rect is None ==> at.clip.x + at.clip.width + 12 == item.rect.x
                + item.rect.width
            &&& at.clip.y == item.rect.y && at.clip.height == item.rect.height
            &&& item.active ==> at.color == 0xeded_edff
            &&& !item.active && item.unread ==> at.color == 0xd8d8_d8ff
            &&& !item.active && !item.unread ==> at.color == 0xa8a8_a8ff
        }),
{
}

} // verus!
