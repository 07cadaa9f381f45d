//! The glyphs of a frame and their bitmaps.
use vstd::multiset::Multiset;
use vstd::prelude::*;
use crate::frame_composer::{CapacityFault, ComposeError};

verus! {

#[derive(Clone, Copy, Debug, PartialEq, Eq, Structural)]
pub enum FontStyle {
    Regular,
    Bold,
    Italic,
    BoldItalic,
}

#[derive(Clone, Copy, Debug, PartialEq, Eq, Structural)]
pub enum GlyphPresentation {
    Text,
    Emoji,
}

#[derive(Clone, Copy, Debug, PartialEq, Eq, Structural)]
pub enum GlyphFormat {
    Gray8,
    ColorSrgba8,
}

/// What a glyph is known by.
#[derive(Clone, Copy, Debug, PartialEq, Eq, Structural)]
pub struct GlyphKey {
    pub font_generation: u64,
    pub face: u32,
    pub glyph_id: u32,
    pub synthetic_bold: bool,
    pub synthetic_italic: bool,
    pub presentation: GlyphPresentation,
}

/// The pixels of a glyph, and where they stand on the line.
#[derive(Clone, Debug, PartialEq, Eq)]
pub struct GlyphBitmap {
    pub format: GlyphFormat,
    pub size_px: [u16; 2],
    pub bearing_px: [i16; 2],
    pub advance_26_6: i32,
    pub pixels: Vec<u8>,
}

#[derive(Clone, Debug, PartialEq, Eq)]
pub struct GlyphAsset {
    pub key: GlyphKey,
    pub bitmap: GlyphBitmap,
}

/// A glyph of a text: where it belongs in it, and where it stands, in sixty-fourths of a pixel.
#[derive(Clone, Copy, Debug, PartialEq, Eq)]
pub struct ShapedGlyph {
    pub key: GlyphKey,
    pub cluster: u32,
    pub offset_26_6: [i32; 2],
    pub advance_26_6: [i32; 2],
}

/// A rectangle of the window, in pixels.
#[derive(Clone, Copy, Debug, PartialEq, Eq, Structural)]
pub struct Clip {
    pub x: u32,
    pub y: u32,
    pub width: u32,
    pub height: u32,
}

/// A glyph in the window.
#[derive(Clone, Copy, Debug, PartialEq, Eq, Structural)]
pub struct GlyphPlacement {
    pub key: GlyphKey,
    pub x: i64,
    pub y: i64,
    pub clip: Clip,
    pub color: u32,
    /// Whether a glyph with colors of its own has half its light.
    pub dimmed: bool,
}

/// How much there may be in a frame.
#[derive(Clone, Copy, Debug, PartialEq, Eq, Structural)]
pub struct GlyphLimits {
    pub placements: usize,
    pub bitmaps: usize,
    pub bitmap_bytes: usize,
}

/// The bitmap for a key.
pub open spec fn asset_of(assets: Seq<GlyphAsset>, key: GlyphKey) -> Option<GlyphAsset>
    decreases assets.len(),
{
    if assets.len() == 0 {
        None
    } else if assets[0].key == key {
        Some(assets[0])
    } else {
        asset_of(assets.skip(1), key)
    }
}

fn find_asset(assets: &Vec<GlyphAsset>, key: GlyphKey) -> (result: Option<usize>)
    ensures
        match result {
            Some(i) => i < assets@.len() && asset_of(assets@, key) == Some(assets@[i as int]),
            None => asset_of(assets@, key) is None,
        },
{
    let mut i: usize = 0;
    assert(assets@.skip(0) =~= assets@);
    while i < assets.len()
        invariant
            i <= assets@.len(),
            asset_of(assets@, key) == asset_of(assets@.skip(i as int), key),
        decreases assets@.len() - i,
    {
        assert(assets@.skip(i as int)[0] == assets@[i as int]);
        if assets[i].key == key {
            return Some(i);
        }
        assert(assets@.skip(i as int).skip(1) =~= assets@.skip(i + 1));
        i += 1;
    }
    None
}

/// A number of sixty-fourths in whole ones, towards zero.
pub open spec fn whole(n: int) -> int {
    if n >= 0 {
        n / 64
    } else {
        -((-n) / 64)
    }
}

fn whole_pixels(n: i64) -> (result: i64)
    requires
        -0x2_0000_0000 <= n <= 0x2_0000_0000,
    ensures
        result == whole(n as int),
        -0x1000_0000 <= result <= 0x1000_0000,
{
    if n >= 0 {
        n / 64
    } else {
        -((-n) / 64)
    }
}

/// A sum that stops at the limits of an `i32`.
pub open spec fn capped(n: int) -> i32 {
    if n > i32::MAX {
        i32::MAX
    } else if n < i32::MIN {
        i32::MIN
    } else {
        n as i32
    }
}

fn capped_sum(a: i32, b: i32) -> (result: i32)
    ensures
        result == capped(a + b),
{
    let sum: i64 = a as i64 + b as i64;
    if sum > 0x7fff_ffff {
        0x7fff_ffff
    } else if sum < -0x8000_0000 {
        -0x8000_0000
    } else {
        sum as i32
    }
}

/// Where a text begins in the window, and how it is shown. `base` is the line it stands on.
#[derive(Clone, Copy, Debug, PartialEq, Eq, Structural)]
pub struct TextPlace {
    pub x: i64,
    pub base: i64,
    pub clip: Clip,
    pub color: u32,
    pub dimmed: bool,
}

impl TextPlace {
    /// The numbers are those of a window.
    pub open spec fn valid(self) -> bool {
        -0x4_0000_0000 <= self.x <= 0x4_0000_0000 && -0x4_0000_0000 <= self.base <= 0x4_0000_0000
    }
}

/// How far a text has come after its first glyphs. A glyph without a bitmap takes no room.
pub open spec fn pen_after(glyphs: Seq<ShapedGlyph>, assets: Seq<GlyphAsset>, n: int) -> i32
    decreases n,
{
    if n <= 0 {
        0
    } else {
        let before = pen_after(glyphs, assets, n - 1);
        if asset_of(assets, glyphs[n - 1].key) is Some {
            capped(before + glyphs[n - 1].advance_26_6@[0])
        } else {
            before
        }
    }
}

/// A glyph of a text in the window.
pub open spec fn placement(
    glyph: ShapedGlyph,
    bitmap: GlyphBitmap,
    pen: i32,
    place: TextPlace,
) -> GlyphPlacement {
    GlyphPlacement {
        key: glyph.key,
        x: (place.x + bitmap.bearing_px@[0] + whole(pen + glyph.offset_26_6@[0])) as i64,
        y: (place.base - bitmap.bearing_px@[1] - whole(glyph.offset_26_6@[1] as int)) as i64,
        clip: place.clip,
        color: place.color,
        dimmed: place.dimmed,
    }
}

/// The first glyphs of a text in the window. Those without pixels are not there.
pub open spec fn placed(
    glyphs: Seq<ShapedGlyph>,
    assets: Seq<GlyphAsset>,
    place: TextPlace,
    n: int,
) -> Seq<GlyphPlacement>
    decreases n,
{
    if n <= 0 {
        Seq::empty()
    } else {
        let before = placed(glyphs, assets, place, n - 1);
        let glyph = glyphs[n - 1];
        match asset_of(assets, glyph.key) {
            Some(asset) => if asset.bitmap.size_px@[0] != 0 || asset.bitmap.size_px@[1] != 0 {
                before.push(
                    placement(glyph, asset.bitmap, pen_after(glyphs, assets, n - 1), place),
                )
            } else {
                before
            },
            None => before,
        }
    }
}

/// Whether there is a bitmap for each glyph.
pub open spec fn all_drawn(glyphs: Seq<ShapedGlyph>, assets: Seq<GlyphAsset>) -> bool {
    forall|i: int|
        0 <= i < glyphs.len() ==> asset_of(assets, (#[trigger] glyphs[i]).key) is Some
}

/// Places the glyphs of a text. Gives how far it has come, and whether there was a bitmap for
/// each.
pub fn place_glyphs(
    out: &mut Vec<GlyphPlacement>,
    glyphs: &Vec<ShapedGlyph>,
    assets: &Vec<GlyphAsset>,
    place: TextPlace,
) -> (result: (i32, bool))
    requires
        place.valid(),
    ensures
        final(out)@ == old(out)@ + placed(glyphs@, assets@, place, glyphs@.len() as int),
        result.0 == pen_after(glyphs@, assets@, glyphs@.len() as int),
        result.1 == all_drawn(glyphs@, assets@),
{
    let ghost before = out@;
    let mut pen: i32 = 0;
    let mut complete = true;
    let mut i: usize = 0;
    assert(out@ =~= before + placed(glyphs@, assets@, place, 0));
    while i < glyphs.len()
        invariant
            i <= glyphs@.len(),
            place.valid(),
            out@ == before + placed(glyphs@, assets@, place, i as int),
            pen == pen_after(glyphs@, assets@, i as int),
            complete == forall|k: int|
                0 <= k < i ==> asset_of(assets@, (#[trigger] glyphs@[k]).key) is Some,
        decreases glyphs@.len() - i,
    {
        let glyph = glyphs[i];
        assert(glyphs@[i as int] == glyph);
        match find_asset(assets, glyph.key) {
            Some(at) => {
                let bitmap = &assets[at].bitmap;
                if bitmap.size_px[0] != 0 || bitmap.size_px[1] != 0 {
                    let x: i64 = place.x + bitmap.bearing_px[0] as i64 + whole_pixels(
                        pen as i64 + glyph.offset_26_6[0] as i64,
                    );
                    let y: i64 = place.base - bitmap.bearing_px[1] as i64 - whole_pixels(
                        glyph.offset_26_6[1] as i64,
                    );
                    out.push(
                        GlyphPlacement {
                            key: glyph.key,
                            x,
                            y,
                            clip: place.clip,
                            color: place.color,
                            dimmed: place.dimmed,
                        },
                    );
                }
                pen = capped_sum(pen, glyph.advance_26_6[0]);
            },
            None => {
                complete = false;
            },
        }
        i += 1;
        assert(out@ =~= before + placed(glyphs@, assets@, place, i as int));
    }
    (pen, complete)
}

/// How many bytes the bitmaps have.
pub open spec fn total_bytes(assets: Seq<GlyphAsset>) -> nat
    decreases assets.len(),
{
    if assets.len() == 0 {
        0
    } else {
        total_bytes(assets.drop_last()) + assets.last().bitmap.pixels@.len()
    }
}

/// What there is too much of.
pub open spec fn budget_fault(
    placements: int,
    bitmaps: int,
    bytes: Option<usize>,
    limits: GlyphLimits,
) -> Option<ComposeError> {
    if placements > limits.placements {
        Some(ComposeError::Capacity(CapacityFault::Placements))
    } else if bitmaps > limits.bitmaps {
        Some(ComposeError::Capacity(CapacityFault::UniqueGlyphs))
    } else if bytes is None || bytes->0 > limits.bitmap_bytes {
        Some(ComposeError::Capacity(CapacityFault::BitmapBytes))
    } else {
        None
    }
}

/// Checks how much there is in a frame. There are no bytes where they could not be counted.
pub fn validate_glyph_budget(
    placements: usize,
    unique_bitmaps: usize,
    bitmap_bytes: Option<usize>,
    limits: GlyphLimits,
) -> (result: Result<(), ComposeError>)
    ensures
        match budget_fault(placements as int, unique_bitmaps as int, bitmap_bytes, limits) {
            Some(fault) => result == Err::<(), ComposeError>(fault),
            None => result is Ok,
        },
{
    if placements > limits.placements {
        return Err(ComposeError::Capacity(CapacityFault::Placements));
    }
    if unique_bitmaps > limits.bitmaps {
        return Err(ComposeError::Capacity(CapacityFault::UniqueGlyphs));
    }
    match bitmap_bytes {
        Some(bytes) if bytes <= limits.bitmap_bytes => Ok(()),
        _ => Err(ComposeError::Capacity(CapacityFault::BitmapBytes)),
    }
}

/// The bytes of the bitmaps, as far as they can be counted.
pub open spec fn counted_bytes(assets: Seq<GlyphAsset>) -> Option<usize> {
    if total_bytes(assets) <= usize::MAX {
        Some(total_bytes(assets) as usize)
    } else {
        None
    }
}

proof fn bytes_grow(assets: Seq<GlyphAsset>, n: int)
    requires
        0 <= n <= assets.len(),
    ensures
        total_bytes(assets.take(n)) <= total_bytes(assets),
    decreases assets.len() - n,
{
    if n < assets.len() {
        bytes_grow(assets, n + 1);
        assert(assets.take(n + 1).drop_last() =~= assets.take(n));
    } else {
        assert(assets.take(n) =~= assets);
    }
}

fn count_bytes(assets: &Vec<GlyphAsset>) -> (result: Option<usize>)
    ensures
        result == counted_bytes(assets@),
{
    let mut total: usize = 0;
    let mut i: usize = 0;
    assert(assets@.take(0) =~= Seq::empty());
    while i < assets.len()
        invariant
            i <= assets@.len(),
            total == total_bytes(assets@.take(i as int)),
        decreases assets@.len() - i,
    {
        proof {
            assert(assets@.take(i + 1).drop_last() =~= assets@.take(i as int));
            bytes_grow(assets@, i + 1);
        }
        let length: usize = assets[i].bitmap.pixels.len();
        match total.checked_add(length) {
            Some(sum) => {
                total = sum;
            },
            None => {
                return None;
            },
        }
        i += 1;
    }
    assert(assets@.take(i as int) =~= assets@);
    Some(total)
}

/// Checks the glyphs and bitmaps of a frame.
pub fn validate_glyph_working_set(
    placements: usize,
    assets: &Vec<GlyphAsset>,
    limits: GlyphLimits,
) -> (result: Result<(), ComposeError>)
    ensures
        match budget_fault(
            placements as int,
            assets@.len() as int,
            counted_bytes(assets@),
            limits,
        ) {
            Some(fault) => result == Err::<(), ComposeError>(fault),
            None => result is Ok,
        },
{
    validate_glyph_budget(placements, assets.len(), count_bytes(assets), limits)
}

/// Whether one key comes before another or beside it.
pub open spec fn key_le(a: GlyphKey, b: GlyphKey) -> bool {
    if a.face != b.face {
        a.face < b.face
    } else if a.glyph_id != b.glyph_id {
        a.glyph_id < b.glyph_id
    } else if a.synthetic_bold != b.synthetic_bold {
        !a.synthetic_bold
    } else if a.synthetic_italic != b.synthetic_italic {
        !a.synthetic_italic
    } else {
        a.presentation is Text || b.presentation is Emoji
    }
}

fn is_ordered(a: &GlyphKey, b: &GlyphKey) -> (result: bool)
    ensures
        result == key_le(*a, *b),
{
    if a.face != b.face {
        a.face < b.face
    } else if a.glyph_id != b.glyph_id {
        a.glyph_id < b.glyph_id
    } else if a.synthetic_bold != b.synthetic_bold {
        !a.synthetic_bold
    } else if a.synthetic_italic != b.synthetic_italic {
        !a.synthetic_italic
    } else {
        a.presentation == GlyphPresentation::Text || b.presentation == GlyphPresentation::Emoji
    }
}

/// Whether bitmaps are ordered by their keys.
pub open spec fn is_sorted(assets: Seq<GlyphAsset>) -> bool {
    forall|i: int, j: int|
        0 <= i < j < assets.len() ==> key_le(
            (#[trigger] assets[i]).key,
            (#[trigger] assets[j]).key,
        )
}

/// Orders bitmaps by their keys.
pub fn sorted_assets(assets: Vec<GlyphAsset>) -> (result: Vec<GlyphAsset>)
    ensures
        is_sorted(result@),
        result@.to_multiset() == assets@.to_multiset(),
        result@.len() == assets@.len(),
{
    let ghost all = assets@;
    let mut rest = assets;
    let mut out: Vec<GlyphAsset> = Vec::new();
    proof {
        all.to_multiset_ensures();
        assert(out@.to_multiset() =~= Multiset::empty()) by {
            out@.to_multiset_ensures();
        }
        assert(rest@.to_multiset().add(out@.to_multiset()) =~= all.to_multiset());
    }
    while rest.len() > 0
        invariant
            is_sorted(out@),
            rest@.to_multiset().add(out@.to_multiset()) == all.to_multiset(),
            rest@.len() + out@.len() == all.len(),
        decreases rest@.len(),
    {
        let ghost rest_before = rest@;
        let ghost before = out@;
        let asset = match rest.pop() {
            Some(asset) => asset,
            None => {
                return out;
            },
        };
        let mut at: usize = 0;
        while at < out.len() && is_ordered(&out[at].key, &asset.key)
            invariant
                at <= out@.len(),
                out@ == before,
                forall|k: int| 0 <= k < at ==> key_le((#[trigger] out@[k]).key, asset.key),
            decreases out@.len() - at,
        {
            at += 1;
        }
        proof {
            if at < before.len() {
                assert(!key_le(before[at as int].key, asset.key));
            }
            assert forall|k: int| at <= k < before.len() implies key_le(
                asset.key,
                (#[trigger] before[k]).key,
            ) by {
                if k > at {
                    assert(key_le(before[at as int].key, before[k].key));
                }
            }
        }
        out.insert(at, asset);
        proof {
            assert(out@ == before.insert(at as int, asset));
            before.to_multiset_ensures();
            assert(out@.to_multiset() =~= before.to_multiset().insert(asset)) by {
                insert_in_multiset(before, at as int, asset);
            }
            rest_before.to_multiset_ensures();
            assert(rest_before =~= rest@.push(asset));
            rest@.to_multiset_ensures();
            assert(rest_before.to_multiset() =~= rest@.to_multiset().insert(asset));
            assert(rest@.to_multiset().add(out@.to_multiset()) =~= all.to_multiset());
            assert forall|i: int, j: int| 0 <= i < j < out@.len() implies key_le(
                (#[trigger] out@[i]).key,
                (#[trigger] out@[j]).key,
            ) by {
                let a = if i < at {
                    i
                } else {
                    i - 1
                };
                let b = if j < at {
                    j
                } else {
                    j - 1
                };
                if i != at && j != at {
                    assert(out@[i] == before[a]);
                    assert(out@[j] == before[b]);
                } else if i == at {
                    assert(out@[j] == before[b]);
                } else {
                    assert(out@[i] == before[a]);
                }
            }
        }
    }
    proof {
        rest@.to_multiset_ensures();
        assert(rest@ =~= Seq::empty());
        assert(rest@.to_multiset() =~= Multiset::empty());
        assert(out@.to_multiset() =~= all.to_multiset());
    }
    out
}

proof fn insert_in_multiset(s: Seq<GlyphAsset>, at: int, asset: GlyphAsset)
    requires
        0 <= at <= s.len(),
    ensures
        s.insert(at, asset).to_multiset() == s.to_multiset().insert(asset),
{
    s.to_multiset_ensures();
    let front = s.take(at);
    let back = s.skip(at);
    let all = s.insert(at, asset);
    assert(s =~= front + back);
    assert(all =~= front.push(asset) + back);
    vstd::seq_lib::lemma_multiset_commutative(front, back);
    vstd::seq_lib::lemma_multiset_commutative(front.push(asset), back);
    front.to_multiset_ensures();
    assert(front.push(asset).to_multiset() =~= front.to_multiset().insert(asset));
    assert(all.to_multiset() =~= s.to_multiset().insert(asset));
}

/// The opacity of the pixels of a bitmap with colors.
pub open spec fn coverage(pixels: Seq<u8>) -> Seq<u8> {
    Seq::new((pixels.len() / 4) as nat, |i: int| pixels[4 * i + 3])
}

/// What is left of a bitmap where there is no room for colors.
pub open spec fn without_colors(asset: GlyphAsset, kept: GlyphAsset) -> bool {
    if asset.bitmap.format is ColorSrgba8 {
        &&& kept.key == asset.key
        &&& kept.bitmap.format is Gray8
        &&& kept.bitmap.size_px == asset.bitmap.size_px
        &&& kept.bitmap.bearing_px == asset.bitmap.bearing_px
        &&& kept.bitmap.advance_26_6 == asset.bitmap.advance_26_6
        &&& kept.bitmap.pixels@ == coverage(asset.bitmap.pixels@)
    } else {
        kept == asset
    }
}

fn coverage_of(pixels: &Vec<u8>) -> (result: Vec<u8>)
    ensures
        result@ == coverage(pixels@),
{
    let length: usize = pixels.len();
    let count: usize = length / 4;
    let mut out: Vec<u8> = Vec::new();
    let mut i: usize = 0;
    while i < count
        invariant
            i <= count,
            length == pixels@.len(),
            count == length / 4,
            out@ == coverage(pixels@).take(i as int),
        decreases count - i,
    {
        out.push(pixels[4 * i + 3]);
        i += 1;
        assert(out@ =~= coverage(pixels@).take(i as int));
    }
    assert(out@ =~= coverage(pixels@));
    out
}

/// Takes the colors out of all bitmaps, which leaves their opacity. Tells whether any had colors.
pub fn downgrade_color_working_set(assets: &mut Vec<GlyphAsset>) -> (result: bool)
    ensures
        final(assets)@.len() == old(assets)@.len(),
        forall|i: int|
            0 <= i < old(assets)@.len() ==> without_colors(
                old(assets)@[i],
                #[trigger] final(assets)@[i],
            ),
        result == exists|i: int|
            0 <= i < old(assets)@.len() && (#[trigger] old(
                assets,
            )@[i]).bitmap.format is ColorSrgba8,
{
    let ghost all = assets@;
    let mut changed = false;
    let mut i: usize = 0;
    while i < assets.len()
        invariant
            i <= assets@.len(),
            assets@.len() == all.len(),
            all == old(assets)@,
            forall|k: int| 0 <= k < i ==> without_colors(all[k], #[trigger] assets@[k]),
            forall|k: int| i <= k < all.len() ==> #[trigger] assets@[k] == all[k],
            changed == exists|k: int|
                0 <= k < i && (#[trigger] all[k]).bitmap.format is ColorSrgba8,
        decreases assets@.len() - i,
    {
        assert(assets@[i as int] == all[i as int]);
        if assets[i].bitmap.format == GlyphFormat::ColorSrgba8 {
            let asset = GlyphAsset {
                key: assets[i].key,
                bitmap: GlyphBitmap {
                    format: GlyphFormat::Gray8,
                    size_px: assets[i].bitmap.size_px,
                    bearing_px: assets[i].bitmap.bearing_px,
                    advance_26_6: assets[i].bitmap.advance_26_6,
                    pixels: coverage_of(&assets[i].bitmap.pixels),
                },
            };
            assets.set(i, asset);
            changed = true;
        }
        i += 1;
    }
    changed
}

/// Bitmaps without colors are left as they are, so that taking the colors out a second time
/// changes nothing.
pub proof fn colors_are_taken_out_once(asset: GlyphAsset, once: GlyphAsset, twice: GlyphAsset)
    requires
        without_colors(asset, once),
        without_colors(once, twice),
    ensures
        twice == once,
        once.key == asset.key,
{
}

/// A glyph stands where its text has come to: to the right of where the text begins, and above the
/// line it stands on, by as much as its bitmap says, moved by its own offset.
pub proof fn glyphs_stand_where_their_text_has_come_to(
    glyph: ShapedGlyph,
    bitmap: GlyphBitmap,
    pen: i32,
    place: TextPlace,
)
    requires
        place.valid(),
        0 <= pen <= 0x7fff_0000,
    ensures
        ({
            let at = placement(glyph, bitmap, pen, place);
            &&& glyph.offset_26_6@[0] == 0 ==> at.x == place.x + bitmap.bearing_px@[0] + pen as int
                / 64
            &&& glyph.offset_26_6@[1] == 0 ==> at.y == place.base - bitmap.bearing_px@[1]
            &&& glyph.offset_26_6@[1] == 64 ==> at.y == place.base - bitmap.bearing_px@[1] - 1
            &&& at.key == glyph.key
            &&& at.color == place.color
            &&& at.clip == place.clip
            &&& at.dimmed == place.dimmed
        }),
{
}

/// A text goes on to the right by the advance of each of its glyphs.
pub proof fn a_text_goes_on_by_its_advances(
    glyphs: Seq<ShapedGlyph>,
    assets: Seq<GlyphAsset>,
    n: int,
)
    requires
        0 < n <= glyphs.len(),
        asset_of(assets, glyphs[n - 1].key) is Some,
        i32::MIN <= pen_after(glyphs, assets, n - 1) + glyphs[n - 1].advance_26_6@[0] <= i32::MAX,
    ensures
        pen_after(glyphs, assets, 0) == 0,
        pen_after(glyphs, assets, n) == pen_after(glyphs, assets, n - 1) + glyphs[n
            - 1].advance_26_6@[0],
{
}

/// The bitmap of a glyph is one for its key.
pub proof fn a_bitmap_is_for_its_key(assets: Seq<GlyphAsset>, key: GlyphKey)
    ensures
        asset_of(assets, key) is Some ==> asset_of(assets, key)->0.key == key && assets.contains(
            asset_of(assets, key)->0,
        ),
        asset_of(assets, key) is None ==> forall|i: int|
            0 <= i < assets.len() ==> (#[trigger] assets[i]).key != key,
    decreases assets.len(),
{
    if assets.len() > 0 {
        let rest = assets.skip(1);
        a_bitmap_is_for_its_key(rest, key);
        if assets[0].key == key {
            assert(assets.contains(assets[0]));
        } else {
            if asset_of(rest, key) is Some {
                let i = rest.index_of(asset_of(rest, key)->0);
                assert(assets[i + 1] == rest[i]);
            }
            assert forall|i: int|
                asset_of(rest, key) is None && 0 <= i < assets.len() implies (
            #[trigger] assets[i]).key != key by {
                if i > 0 {
                    assert(rest[i - 1] == assets[i]);
                }
            }
        }
    }
}

/// A frame that has too much of something is refused for that, and one that does not is not.
pub proof fn limits_are_told_apart(
    placements: int,
    bitmaps: int,
    bytes: usize,
    limits: GlyphLimits,
)
    ensures
        budget_fault(placements, bitmaps, Some(bytes), limits) is None <==> placements
            <= limits.placements && bitmaps <= limits.bitmaps && bytes <= limits.bitmap_bytes,
        placements > limits.placements ==> budget_fault(placements, bitmaps, Some(bytes), limits)
            == Some(ComposeError::Capacity(CapacityFault::Placements)),
        placements <= limits.placements && bitmaps > limits.bitmaps ==> budget_fault(
            placements,
            bitmaps,
            Some(bytes),
            limits,
        ) == Some(ComposeError::Capacity(CapacityFault::UniqueGlyphs)),
        placements <= limits.placements && bitmaps <= limits.bitmaps && bytes > limits.bitmap_bytes
            ==> budget_fault(placements, bitmaps, Some(bytes), limits) == Some(
            ComposeError::Capacity(CapacityFault::BitmapBytes),
        ),
{
}

/// Of each pixel with colors its opacity is kept, in the order of the pixels.
pub proof fn the_opacity_of_each_pixel_is_kept(pixels: Seq<u8>, i: int)
    requires
        pixels.len() % 4 == 0,
    ensures
        coverage(pixels).len() * 4 == pixels.len(),
        0 <= i < coverage(pixels).len() ==> coverage(pixels)[i] == pixels[4 * i + 3],
{
}

/// Keys are in one order: of two, one comes first, those of one font that stand beside each other are
/// the same, and what comes before a key comes before all that come after it. The face counts
/// first, then the glyph.
pub proof fn keys_have_one_order(a: GlyphKey, b: GlyphKey, c: GlyphKey)
    ensures
        key_le(a, b) || key_le(b, a),
        key_le(a, a),
        key_le(a, b) && key_le(b, a) ==> a == (GlyphKey { font_generation: a.font_generation, ..b }),
        key_le(a, b) && key_le(b, c) ==> key_le(a, c),
        a.face < b.face ==> key_le(a, b) && !key_le(b, a),
        a.face == b.face && a.glyph_id < b.glyph_id ==> key_le(a, b) && !key_le(b, a),
{
}

} // verus!
