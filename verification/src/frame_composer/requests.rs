//! Which texts of a frame have to be shaped, and which glyphs are drawn.
use vstd::prelude::*;
use crate::clipboard::PasteConfirmationOverlay;
use crate::frame_composer::assets::{FontStyle, GlyphAsset, GlyphKey, ShapedGlyph};
use crate::frame_composer::{
    confirmation_line, paste_confirmation_lines, CapacityFault, ComposeError, CONFIRMATION_LINES,
};
use crate::interaction::PreeditOverlay;
use crate::tab::TabBarPresentation;
use crate::terminal::snapshot::{CellWidth, FrameSnapshot, SnapshotCell};
use crate::text::chars_of;

verus! {

/// The style of the text of a cell.
pub open spec fn style_of(cell: SnapshotCell) -> FontStyle {
    if cell.flags.bold && cell.flags.italic {
        FontStyle::BoldItalic
    } else if cell.flags.bold {
        FontStyle::Bold
    } else if cell.flags.italic {
        FontStyle::Italic
    } else {
        FontStyle::Regular
    }
}

/// The style of the text of a cell.
pub fn cell_style(cell: &SnapshotCell) -> (result: FontStyle)
    ensures
        result == style_of(*cell),
{
    if cell.flags.bold && cell.flags.italic {
        FontStyle::BoldItalic
    } else if cell.flags.bold {
        FontStyle::Bold
    } else if cell.flags.italic {
        FontStyle::Italic
    } else {
        FontStyle::Regular
    }
}

/// The text of a cell: its character, and what is combined with it.
pub open spec fn cluster_of(cell: SnapshotCell) -> Seq<char> {
    seq![cell.ch] + match cell.zerowidth {
        Some(extra) => extra@,
        None => Seq::empty(),
    }
}

/// The text of a cell.
pub fn cell_cluster(cell: &SnapshotCell) -> (result: Vec<char>)
    ensures
        result@ == cluster_of(*cell),
{
    let mut out: Vec<char> = Vec::new();
    out.push(cell.ch);
    match &cell.zerowidth {
        Some(extra) => {
            let mut i: usize = 0;
            while i < extra.len()
                invariant
                    i <= extra@.len(),
                    out@ == seq![cell.ch] + extra@.take(i as int),
                decreases extra@.len() - i,
            {
                out.push(extra[i]);
                i += 1;
                assert(out@ =~= seq![cell.ch] + extra@.take(i as int));
            }
            assert(extra@.take(i as int) =~= extra@);
        },
        None => {},
    }
    assert(out@ =~= cluster_of(*cell));
    out
}

/// Whether a character makes a text one of pictures.
pub open spec fn is_emoji(c: char) -> bool {
    let n = c as u32;
    n == 0x200d || n == 0xfe0f || 0x1f1e6 <= n <= 0x1f1ff || 0x1f300 <= n <= 0x1faff || 0x2600 <= n
        <= 0x27bf
}

fn is_emoji_char(c: char) -> (result: bool)
    ensures
        result == is_emoji(c),
{
    let n: u32 = c as u32;
    n == 0x200d || n == 0xfe0f || (0x1f1e6 <= n && n <= 0x1f1ff) || (0x1f300 <= n && n <= 0x1faff)
        || (0x2600 <= n && n <= 0x27bf)
}

/// Whether the text of a cell is one of pictures.
pub open spec fn shows_emoji(cell: SnapshotCell) -> bool {
    exists|i: int| 0 <= i < cluster_of(cell).len() && is_emoji(#[trigger] cluster_of(cell)[i])
}

/// Decides [`shows_emoji`].
pub fn cell_is_emoji(cell: &SnapshotCell) -> (result: bool)
    ensures
        result == shows_emoji(*cell),
{
    let cluster = cell_cluster(cell);
    let mut i: usize = 0;
    while i < cluster.len()
        invariant
            i <= cluster@.len(),
            cluster@ == cluster_of(*cell),
            forall|k: int| 0 <= k < i ==> !is_emoji(#[trigger] cluster@[k]),
        decreases cluster@.len() - i,
    {
        if is_emoji_char(cluster[i]) {
            assert(is_emoji(cluster_of(*cell)[i as int]));
            return true;
        }
        i += 1;
    }
    false
}

/// Whether a character only steers the direction of text.
pub open spec fn is_bidi(c: char) -> bool {
    let n = c as u32;
    n == 0x61c || n == 0x200e || n == 0x200f || 0x202a <= n <= 0x202e || 0x2066 <= n <= 0x2069
}

/// Decides [`is_bidi`].
pub fn is_bidi_control(c: char) -> (result: bool)
    ensures
        result == is_bidi(c),
{
    let n: u32 = c as u32;
    n == 0x61c || n == 0x200e || n == 0x200f || (0x202a <= n && n <= 0x202e) || (0x2066 <= n && n
        <= 0x2069)
}

/// Whether a cell is there only for another one.
pub open spec fn is_spacer(cell: SnapshotCell) -> bool {
    cell.width is Spacer || cell.width is LeadingSpacer
}

/// Whether a cell has text that is drawn, apart from what steers its direction.
pub open spec fn has_text(cell: SnapshotCell) -> bool {
    !is_spacer(cell) && !cell.flags.hidden && (cell.ch != ' ' || cell.zerowidth is Some)
}

/// Whether a cell has text that is drawn.
pub open spec fn shows_text(cell: SnapshotCell) -> bool {
    has_text(cell) && !is_bidi(cell.ch)
}

fn cell_has_text(cell: &SnapshotCell) -> (result: bool)
    ensures
        result == has_text(*cell),
{
    cell.width != CellWidth::Spacer && cell.width != CellWidth::LeadingSpacer && !cell.flags.hidden
        && (cell.ch != ' ' || cell.zerowidth.is_some())
}

/// Decides [`shows_text`].
pub fn cell_shows_text(cell: &SnapshotCell) -> (result: bool)
    ensures
        result == shows_text(*cell),
{
    cell_has_text(cell) && !is_bidi_control(cell.ch)
}

/// A text that has to be shaped.
#[derive(Clone, Debug, PartialEq, Eq)]
pub struct ClusterRequest {
    pub text: Vec<char>,
    pub style: FontStyle,
}

/// A text and its style.
pub struct RequestModel {
    pub text: Seq<char>,
    pub style: FontStyle,
}

impl View for ClusterRequest {
    type V = RequestModel;

    open spec fn view(&self) -> RequestModel {
        RequestModel { text: self.text@, style: self.style }
    }
}

pub open spec fn requests_view(requests: Seq<ClusterRequest>) -> Seq<RequestModel> {
    requests.map_values(|r: ClusterRequest| r@)
}

/// A list with one more item, unless it is there already.
pub open spec fn with_request(list: Seq<RequestModel>, request: RequestModel) -> Seq<RequestModel> {
    if list.contains(request) {
        list
    } else {
        list.push(request)
    }
}

/// What the first cells ask for.
pub open spec fn cell_requests(cells: Seq<SnapshotCell>, n: int) -> Seq<RequestModel>
    decreases n,
{
    if n <= 0 {
        Seq::empty()
    } else {
        let before = cell_requests(cells, n - 1);
        let cell = cells[n - 1];
        if shows_text(cell) {
            with_request(before, RequestModel { text: cluster_of(cell), style: style_of(cell) })
        } else {
            before
        }
    }
}

/// What the first lines of a question ask for.
pub open spec fn confirmation_requests(confirmation: PasteConfirmationOverlay, n: int) -> Seq<
    RequestModel,
>
    decreases n,
{
    if n <= 0 {
        Seq::empty()
    } else {
        with_request(
            confirmation_requests(confirmation, n - 1),
            RequestModel {
                text: confirmation_line(confirmation, n - 1),
                style: FontStyle::Regular,
            },
        )
    }
}

/// Whether a text that is being composed belongs to a snapshot.
pub open spec fn shows_preedit(snapshot: FrameSnapshot, preedit: Option<&PreeditOverlay>) -> bool {
    preedit is Some && preedit->0.snapshot_generation == snapshot.generation
        && preedit->0.text@.len() > 0
}

/// The texts of a frame, each once, in the order in which they are met. A question hides all else.
pub open spec fn frame_requests(
    snapshot: FrameSnapshot,
    confirmation: Option<&PasteConfirmationOverlay>,
    preedit: Option<&PreeditOverlay>,
) -> Seq<RequestModel> {
    match confirmation {
        Some(confirmation) => confirmation_requests(*confirmation, CONFIRMATION_LINES as int),
        None => {
            let cells = cell_requests(snapshot.cells@, snapshot.cells@.len() as int);
            if shows_preedit(snapshot, preedit) {
                with_request(
                    cells,
                    RequestModel { text: preedit->0.text@, style: FontStyle::Regular },
                )
            } else {
                cells
            }
        },
    }
}

fn same_chars(a: &Vec<char>, b: &Vec<char>) -> (result: bool)
    ensures
        result == (a@ == b@),
{
    if a.len() != b.len() {
        return false;
    }
    let mut i: usize = 0;
    while i < a.len()
        invariant
            i <= a@.len(),
            a@.len() == b@.len(),
            forall|k: int| 0 <= k < i ==> a@[k] == b@[k],
        decreases a@.len() - i,
    {
        if a[i] != b[i] {
            return false;
        }
        i += 1;
    }
    assert(a@ =~= b@);
    true
}

fn push_request(requests: &mut Vec<ClusterRequest>, text: Vec<char>, style: FontStyle)
    ensures
        requests_view(final(requests)@) == with_request(
            requests_view(old(requests)@),
            RequestModel { text: text@, style },
        ),
{
    let ghost list = requests_view(requests@);
    let ghost wanted = RequestModel { text: text@, style };
    let mut i: usize = 0;
    while i < requests.len()
        invariant
            i <= requests@.len(),
            requests@ == old(requests)@,
            list == requests_view(requests@),
            wanted == (RequestModel { text: text@, style }),
            forall|k: int| 0 <= k < i ==> #[trigger] list[k] != wanted,
        decreases requests@.len() - i,
    {
        assert(list[i as int] == requests@[i as int]@);
        if requests[i].style == style && same_chars(&requests[i].text, &text) {
            assert(list[i as int] == wanted);
            return;
        }
        i += 1;
    }
    assert(!list.contains(wanted));
    requests.push(ClusterRequest { text, style });
    assert(requests_view(requests@) =~= list.push(wanted));
}

/// The texts of a frame that have to be shaped on their own.
pub fn cluster_requests(
    snapshot: &FrameSnapshot,
    paste_confirmation: Option<&PasteConfirmationOverlay>,
    preedit: Option<&PreeditOverlay>,
) -> (result: Vec<ClusterRequest>)
    ensures
        requests_view(result@) == frame_requests(*snapshot, paste_confirmation, preedit),
{
    let mut requests: Vec<ClusterRequest> = Vec::new();
    assert(requests_view(requests@) =~= Seq::empty());
    match paste_confirmation {
        Some(confirmation) => {
            let lines = paste_confirmation_lines(confirmation);
            let mut i: usize = 0;
            while i < lines.len()
                invariant
                    i <= lines@.len(),
                    lines@.len() == CONFIRMATION_LINES,
                    forall|k: int|
                        0 <= k < CONFIRMATION_LINES ==> (#[trigger] lines@[k])@
                            == confirmation_line(*confirmation, k),
                    requests_view(requests@) == confirmation_requests(*confirmation, i as int),
                decreases lines@.len() - i,
            {
                push_request(&mut requests, chars_of(lines[i].as_str()), FontStyle::Regular);
                i += 1;
            }
        },
        None => {
            let mut i: usize = 0;
            while i < snapshot.cells.len()
                invariant
                    i <= snapshot.cells@.len(),
                    requests_view(requests@) == cell_requests(snapshot.cells@, i as int),
                decreases snapshot.cells@.len() - i,
            {
                let cell = &snapshot.cells[i];
                if cell_shows_text(cell) {
                    push_request(&mut requests, cell_cluster(cell), cell_style(cell));
                }
                i += 1;
            }
            match preedit {
                Some(preedit) => {
                    let text = chars_of(preedit.text.as_str());
                    if preedit.snapshot_generation == snapshot.generation && text.len() > 0 {
                        push_request(&mut requests, text, FontStyle::Regular);
                    }
                },
                None => {},
            }
        },
    }
    requests
}

/// No text is asked for twice.
pub proof fn requests_are_distinct(cells: Seq<SnapshotCell>, n: int)
    requires
        0 <= n <= cells.len(),
    ensures
        cell_requests(cells, n).no_duplicates(),
    decreases n,
{
    if n > 0 {
        requests_are_distinct(cells, n - 1);
    }
}

/// A text that was shaped.
#[derive(Clone, Debug, PartialEq, Eq)]
pub struct ShapedCluster {
    pub text: Vec<char>,
    pub style: FontStyle,
    pub glyphs: Vec<ShapedGlyph>,
}

/// The glyphs of a text.
pub open spec fn shape_of(shaped: Seq<ShapedCluster>, text: Seq<char>, style: FontStyle) -> Option<
    Seq<ShapedGlyph>,
>
    decreases shaped.len(),
{
    if shaped.len() == 0 {
        None
    } else if shaped[0].text@ == text && shaped[0].style == style {
        Some(shaped[0].glyphs@)
    } else {
        shape_of(shaped.skip(1), text, style)
    }
}

/// Where the glyphs of a text are.
pub fn find_shape(shaped: &Vec<ShapedCluster>, text: &Vec<char>, style: FontStyle) -> (result:
    Option<usize>)
    ensures
        match result {
            Some(i) => i < shaped@.len() && shape_of(shaped@, text@, style) == Some(
                shaped@[i as int].glyphs@,
            ),
            None => shape_of(shaped@, text@, style) is None,
        },
{
    let mut i: usize = 0;
    assert(shaped@.skip(0) =~= shaped@);
    while i < shaped.len()
        invariant
            i <= shaped@.len(),
            shape_of(shaped@, text@, style) == shape_of(shaped@.skip(i as int), text@, style),
        decreases shaped@.len() - i,
    {
        assert(shaped@.skip(i as int)[0] == shaped@[i as int]);
        if shaped[i].style == style && same_chars(&shaped[i].text, text) {
            return Some(i);
        }
        assert(shaped@.skip(i as int).skip(1) =~= shaped@.skip(i + 1));
        i += 1;
    }
    None
}

/// A list of keys with one more, unless it is there already.
pub open spec fn with_key(keys: Seq<GlyphKey>, key: GlyphKey) -> Seq<GlyphKey> {
    if keys.contains(key) {
        keys
    } else {
        keys.push(key)
    }
}

/// A list of keys with those of the first glyphs.
pub open spec fn with_glyphs(keys: Seq<GlyphKey>, glyphs: Seq<ShapedGlyph>, n: int) -> Seq<GlyphKey>
    decreases n,
{
    if n <= 0 {
        keys
    } else {
        with_key(with_glyphs(keys, glyphs, n - 1), glyphs[n - 1].key)
    }
}

/// The keys of the first texts, each once.
pub open spec fn shaped_keys(shaped: Seq<ShapedCluster>, n: int) -> Seq<GlyphKey>
    decreases n,
{
    if n <= 0 {
        Seq::empty()
    } else {
        let glyphs = shaped[n - 1].glyphs@;
        with_glyphs(shaped_keys(shaped, n - 1), glyphs, glyphs.len() as int)
    }
}

/// Adds a key to a list, unless it is there already.
pub fn push_key(keys: &mut Vec<GlyphKey>, key: GlyphKey)
    ensures
        final(keys)@ == with_key(old(keys)@, key),
{
    let mut i: usize = 0;
    while i < keys.len()
        invariant
            i <= keys@.len(),
            keys@ == old(keys)@,
            forall|k: int| 0 <= k < i ==> #[trigger] keys@[k] != key,
        decreases keys@.len() - i,
    {
        if keys[i] == key {
            assert(keys@[i as int] == key);
            return;
        }
        i += 1;
    }
    assert(!keys@.contains(key));
    keys.push(key);
}

fn push_glyph_keys(keys: &mut Vec<GlyphKey>, glyphs: &Vec<ShapedGlyph>)
    ensures
        final(keys)@ == with_glyphs(old(keys)@, glyphs@, glyphs@.len() as int),
{
    let ghost before = keys@;
    let mut i: usize = 0;
    while i < glyphs.len()
        invariant
            i <= glyphs@.len(),
            keys@ == with_glyphs(before, glyphs@, i as int),
        decreases glyphs@.len() - i,
    {
        push_key(keys, glyphs[i].key);
        i += 1;
    }
}

proof fn glyph_keys_grow(keys: Seq<GlyphKey>, glyphs: Seq<ShapedGlyph>, n: int)
    ensures
        keys.len() <= with_glyphs(keys, glyphs, n).len(),
    decreases n,
{
    if n > 0 {
        glyph_keys_grow(keys, glyphs, n - 1);
    }
}

proof fn keys_grow(shaped: Seq<ShapedCluster>, n: int, m: int)
    requires
        0 <= n <= m,
    ensures
        shaped_keys(shaped, n).len() <= shaped_keys(shaped, m).len(),
    decreases m,
{
    if n < m {
        keys_grow(shaped, n, m - 1);
        let glyphs = shaped[m - 1].glyphs@;
        glyph_keys_grow(shaped_keys(shaped, m - 1), glyphs, glyphs.len() as int);
    }
}

/// The glyphs that texts are drawn with, each once, unless there are too many.
pub fn unique_keys(shaped: &Vec<ShapedCluster>, limit: usize, fault: CapacityFault) -> (result:
    Result<Vec<GlyphKey>, ComposeError>)
    ensures
        ({
            let keys = shaped_keys(shaped@, shaped@.len() as int);
            match result {
                Ok(found) => found@ == keys && keys.len() <= limit,
                Err(error) => keys.len() > limit && error == ComposeError::Capacity(fault),
            }
        }),
{
    let mut keys: Vec<GlyphKey> = Vec::new();
    let mut i: usize = 0;
    while i < shaped.len()
        invariant
            i <= shaped@.len(),
            keys@ == shaped_keys(shaped@, i as int),
            keys@.len() <= limit,
        decreases shaped@.len() - i,
    {
        push_glyph_keys(&mut keys, &shaped[i].glyphs);
        i += 1;
        if keys.len() > limit {
            proof {
                keys_grow(shaped@, i as int, shaped@.len() as int);
            }
            return Err(ComposeError::Capacity(fault));
        }
    }
    Ok(keys)
}

/// The bit that keeps the glyphs of the tab bar apart from those of the terminal.
pub const TAB_FONT_KEY_NAMESPACE: u64 = 0x8000_0000_0000_0000;

/// The key of a glyph of the tab bar.
pub open spec fn tab_key(key: GlyphKey) -> GlyphKey {
    GlyphKey { font_generation: key.font_generation | TAB_FONT_KEY_NAMESPACE, ..key }
}

/// The key of a glyph of the tab bar.
pub fn tab_glyph_key(key: GlyphKey) -> (result: GlyphKey)
    ensures
        result == tab_key(key),
{
    GlyphKey {
        font_generation: key.font_generation | TAB_FONT_KEY_NAMESPACE,
        face: key.face,
        glyph_id: key.glyph_id,
        synthetic_bold: key.synthetic_bold,
        synthetic_italic: key.synthetic_italic,
        presentation: key.presentation,
    }
}

/// A glyph of the tab bar is never one of the terminal, whose generations are small.
pub proof fn tab_keys_are_apart(tab: GlyphKey, terminal: GlyphKey)
    requires
        terminal.font_generation < TAB_FONT_KEY_NAMESPACE,
    ensures
        tab_key(tab) != terminal,
{
    let generation: u64 = tab.font_generation;
    assert(generation | 0x8000_0000_0000_0000u64 >= 0x8000_0000_0000_0000u64) by (bit_vector);
}

/// A glyph of the tab bar.
pub open spec fn tab_glyph(glyph: ShapedGlyph) -> ShapedGlyph {
    ShapedGlyph { key: tab_key(glyph.key), ..glyph }
}

/// A text of the tab bar after it was shaped, with glyphs of the tab bar.
pub open spec fn is_tab_cluster(cluster: ShapedCluster, own: ShapedCluster) -> bool {
    &&& own.text@ == cluster.text@
    &&& own.style == cluster.style
    &&& own.glyphs@ == cluster.glyphs@.map_values(|g: ShapedGlyph| tab_glyph(g))
}

fn tab_cluster(cluster: &ShapedCluster) -> (result: ShapedCluster)
    ensures
        is_tab_cluster(*cluster, result),
{
    let mut glyphs: Vec<ShapedGlyph> = Vec::new();
    let ghost all = cluster.glyphs@.map_values(|g: ShapedGlyph| tab_glyph(g));
    let mut i: usize = 0;
    while i < cluster.glyphs.len()
        invariant
            i <= cluster.glyphs@.len(),
            all == cluster.glyphs@.map_values(|g: ShapedGlyph| tab_glyph(g)),
            glyphs@ == all.take(i as int),
        decreases cluster.glyphs@.len() - i,
    {
        let glyph = cluster.glyphs[i];
        glyphs.push(
            ShapedGlyph {
                key: tab_glyph_key(glyph.key),
                cluster: glyph.cluster,
                offset_26_6: glyph.offset_26_6,
                advance_26_6: glyph.advance_26_6,
            },
        );
        assert(all[i as int] == tab_glyph(cluster.glyphs@[i as int]));
        i += 1;
        assert(glyphs@ =~= all.take(i as int));
    }
    assert(glyphs@ =~= all);
    ShapedCluster {
        text: vstd::slice::slice_to_vec(cluster.text.as_slice()),
        style: cluster.style,
        glyphs,
    }
}

/// The glyphs that the tab bar is drawn with, each once and as its font knows them, and its texts
/// with glyphs of their own; unless there are too many.
pub fn prepare_tab_glyph_working_set(shaped: &Vec<ShapedCluster>, limit: usize) -> (result: Result<
    (Vec<GlyphKey>, Vec<ShapedCluster>),
    ComposeError,
>)
    ensures
        ({
            let keys = shaped_keys(shaped@, shaped@.len() as int);
            match result {
                Ok((found, own)) => {
                    &&& keys.len() <= limit
                    &&& found@ == keys
                    &&& own@.len() == shaped@.len()
                    &&& forall|i: int|
                        0 <= i < shaped@.len() ==> is_tab_cluster(shaped@[i], #[trigger] own@[i])
                },
                Err(error) => keys.len() > limit && error == ComposeError::Capacity(
                    CapacityFault::TabGlyphs,
                ),
            }
        }),
{
    let keys = match unique_keys(shaped, limit, CapacityFault::TabGlyphs) {
        Ok(keys) => keys,
        Err(error) => {
            return Err(error);
        },
    };
    let mut own: Vec<ShapedCluster> = Vec::new();
    let mut i: usize = 0;
    while i < shaped.len()
        invariant
            i <= shaped@.len(),
            own@.len() == i,
            forall|k: int| 0 <= k < i ==> is_tab_cluster(shaped@[k], #[trigger] own@[k]),
        decreases shaped@.len() - i,
    {
        own.push(tab_cluster(&shaped[i]));
        i += 1;
    }
    Ok((keys, own))
}

/// The bitmaps of the terminal's glyphs together with those of the tab bar's, the latter under
/// keys of their own.
pub open spec fn joined_assets(terminal: Seq<GlyphAsset>, tabs: Seq<GlyphAsset>) -> Seq<GlyphAsset> {
    terminal + tabs.map_values(|a: GlyphAsset| GlyphAsset { key: tab_key(a.key), ..a })
}

/// Adds the bitmaps of the tab bar's glyphs to those of the terminal's.
pub fn join_assets(terminal: &mut Vec<GlyphAsset>, tabs: Vec<GlyphAsset>)
    ensures
        final(terminal)@ == joined_assets(old(terminal)@, tabs@),
{
    let ghost before = terminal@;
    let ghost all = tabs@;
    let ghost own = all.map_values(|a: GlyphAsset| GlyphAsset { key: tab_key(a.key), ..a });
    let mut rest = tabs;
    let ghost mut i: int = 0;
    assert(terminal@ =~= before + own.take(0));
    assert(rest@ =~= all.skip(0));
    while rest.len() > 0
        invariant
            0 <= i <= all.len(),
            rest@ == all.skip(i),
            own == all.map_values(|a: GlyphAsset| GlyphAsset { key: tab_key(a.key), ..a }),
            terminal@ == before + own.take(i),
        decreases rest@.len(),
    {
        let mut asset = rest.remove(0);
        asset.key = tab_glyph_key(asset.key);
        terminal.push(asset);
        assert(own[i] == asset);
        proof {
            i = i + 1;
        }
        assert(rest@ =~= all.skip(i));
        assert(terminal@ =~= before + own.take(i));
    }
    assert(own.take(i) =~= own);
}

/// What closes a tab.
pub const TAB_CLOSE_MARK: &'static str = "\u{d7}";

/// What the first tabs ask for.
pub open spec fn tab_requests_after(items: Seq<crate::tab::TabBarItem>, n: int) -> Seq<RequestModel>
    decreases n,
{
    if n <= 0 {
        Seq::empty()
    } else {
        with_request(
            tab_requests_after(items, n - 1),
            RequestModel { text: items[n - 1].title@, style: FontStyle::Regular },
        )
    }
}

/// Whether a tab can be closed.
pub open spec fn some_closable(items: Seq<crate::tab::TabBarItem>) -> bool {
    exists|i: int| 0 <= i < items.len() && (#[trigger] items[i]).close_rect is Some
}

/// The texts of the tab bar, each once.
pub open spec fn tab_bar_requests(tab_bar: Option<&TabBarPresentation>) -> Seq<RequestModel> {
    match tab_bar {
        None => Seq::empty(),
        Some(bar) => {
            let titles = tab_requests_after(bar.items@, bar.items@.len() as int);
            if some_closable(bar.items@) {
                with_request(
                    titles,
                    RequestModel { text: TAB_CLOSE_MARK@, style: FontStyle::Regular },
                )
            } else {
                titles
            }
        },
    }
}

/// The texts of the tab bar that have to be shaped.
pub fn tab_requests(tab_bar: Option<&TabBarPresentation>) -> (result: Vec<ClusterRequest>)
    ensures
        requests_view(result@) == tab_bar_requests(tab_bar),
{
    let mut requests: Vec<ClusterRequest> = Vec::new();
    assert(requests_view(requests@) =~= Seq::empty());
    let bar = match tab_bar {
        Some(bar) => bar,
        None => {
            return requests;
        },
    };
    let mut closable = false;
    let mut i: usize = 0;
    while i < bar.items.len()
        invariant
            i <= bar.items@.len(),
            requests_view(requests@) == tab_requests_after(bar.items@, i as int),
            closable == exists|k: int|
                0 <= k < i && (#[trigger] bar.items@[k]).close_rect is Some,
        decreases bar.items@.len() - i,
    {
        let item = &bar.items[i];
        assert(bar.items@[i as int] == *item);
        push_request(&mut requests, chars_of(item.title.as_str()), FontStyle::Regular);
        if item.close_rect.is_some() {
            closable = true;
        }
        i += 1;
    }
    if closable {
        push_request(&mut requests, chars_of(TAB_CLOSE_MARK), FontStyle::Regular);
    }
    requests
}

/// How many glyphs the first lines of a question have.
pub open spec fn confirmation_placements(
    confirmation: PasteConfirmationOverlay,
    shaped: Seq<ShapedCluster>,
    n: int,
) -> nat
    decreases n,
{
    if n <= 0 {
        0
    } else {
        confirmation_placements(confirmation, shaped, n - 1) + run_length(
            shaped,
            confirmation_line(confirmation, n - 1),
            FontStyle::Regular,
        )
    }
}

/// How many glyphs a text has, none where it was not shaped.
pub open spec fn run_length(shaped: Seq<ShapedCluster>, text: Seq<char>, style: FontStyle) -> nat {
    match shape_of(shaped, text, style) {
        Some(glyphs) => glyphs.len(),
        None => 0,
    }
}

/// How many glyphs the first cells have.
pub open spec fn cell_placements(cells: Seq<SnapshotCell>, shaped: Seq<ShapedCluster>, n: int) -> nat
    decreases n,
{
    if n <= 0 {
        0
    } else {
        cell_placements(cells, shaped, n - 1) + if has_text(cells[n - 1]) {
            run_length(shaped, cluster_of(cells[n - 1]), style_of(cells[n - 1]))
        } else {
            0
        }
    }
}

/// How many glyphs a frame has that are shaped cell by cell.
pub open spec fn prepared_placements(
    snapshot: FrameSnapshot,
    confirmation: Option<&PasteConfirmationOverlay>,
    preedit: Option<&PreeditOverlay>,
    shaped: Seq<ShapedCluster>,
) -> nat {
    match confirmation {
        Some(confirmation) => confirmation_placements(
            *confirmation,
            shaped,
            CONFIRMATION_LINES as int,
        ),
        None => {
            let cells = cell_placements(snapshot.cells@, shaped, snapshot.cells@.len() as int);
            if shows_preedit(snapshot, preedit) && preedit->0.anchor@[0] < snapshot.grid.columns
                && preedit->0.anchor@[1] < snapshot.grid.lines {
                cells + run_length(shaped, preedit->0.text@, FontStyle::Regular)
            } else {
                cells
            }
        },
    }
}

fn count_glyphs(shaped: &Vec<ShapedCluster>, text: &Vec<char>, style: FontStyle) -> (result: usize)
    ensures
        result == run_length(shaped@, text@, style),
{
    match find_shape(shaped, text, style) {
        Some(i) => shaped[i].glyphs.len(),
        None => 0,
    }
}

proof fn confirmation_counts_grow(
    confirmation: PasteConfirmationOverlay,
    shaped: Seq<ShapedCluster>,
    n: int,
    m: int,
)
    requires
        0 <= n <= m,
    ensures
        confirmation_placements(confirmation, shaped, n) <= confirmation_placements(
            confirmation,
            shaped,
            m,
        ),
    decreases m,
{
    if n < m {
        confirmation_counts_grow(confirmation, shaped, n, m - 1);
    }
}

proof fn cell_counts_grow(cells: Seq<SnapshotCell>, shaped: Seq<ShapedCluster>, n: int, m: int)
    requires
        0 <= n <= m,
    ensures
        cell_placements(cells, shaped, n) <= cell_placements(cells, shaped, m),
    decreases m,
{
    if n < m {
        cell_counts_grow(cells, shaped, n, m - 1);
    }
}

/// Counts the glyphs of a frame that are shaped cell by cell, as far as they can be counted.
pub fn count_prepared_placements(
    snapshot: &FrameSnapshot,
    paste_confirmation: Option<&PasteConfirmationOverlay>,
    preedit: Option<&PreeditOverlay>,
    shaped: &Vec<ShapedCluster>,
) -> (result: Option<usize>)
    ensures
        ({
            let count = prepared_placements(*snapshot, paste_confirmation, preedit, shaped@);
            if count <= usize::MAX {
                result == Some(count as usize)
            } else {
                result is None
            }
        }),
{
    let mut total: usize = 0;
    match paste_confirmation {
        Some(confirmation) => {
            let lines = paste_confirmation_lines(confirmation);
            let mut i: usize = 0;
            while i < lines.len()
                invariant
                    i <= lines@.len(),
                    lines@.len() == CONFIRMATION_LINES,
                    paste_confirmation == Some(confirmation),
                    forall|k: int|
                        0 <= k < CONFIRMATION_LINES ==> (#[trigger] lines@[k])@
                            == confirmation_line(*confirmation, k),
                    total == confirmation_placements(*confirmation, shaped@, i as int),
                decreases lines@.len() - i,
            {
                let text = chars_of(lines[i].as_str());
                let count: usize = count_glyphs(shaped, &text, FontStyle::Regular);
                proof {
                    confirmation_counts_grow(
                        *confirmation,
                        shaped@,
                        i + 1,
                        CONFIRMATION_LINES as int,
                    );
                }
                match total.checked_add(count) {
                    Some(sum) => {
                        total = sum;
                    },
                    None => {
                        return None;
                    },
                }
                i += 1;
            }
            Some(total)
        },
        None => {
            let mut i: usize = 0;
            while i < snapshot.cells.len()
                invariant
                    i <= snapshot.cells@.len(),
                    paste_confirmation is None,
                    total == cell_placements(snapshot.cells@, shaped@, i as int),
                decreases snapshot.cells@.len() - i,
            {
                let cell = &snapshot.cells[i];
                proof {
                    cell_counts_grow(
                        snapshot.cells@,
                        shaped@,
                        i + 1,
                        snapshot.cells@.len() as int,
                    );
                }
                if cell_has_text(cell) {
                    let count: usize = count_glyphs(
                        shaped,
                        &cell_cluster(cell),
                        cell_style(cell),
                    );
                    match total.checked_add(count) {
                        Some(sum) => {
                            total = sum;
                        },
                        None => {
                            return None;
                        },
                    }
                }
                i += 1;
            }
            match preedit {
                Some(preedit) => {
                    let text = chars_of(preedit.text.as_str());
                    if preedit.snapshot_generation == snapshot.generation && text.len() > 0
                        && preedit.anchor[0] < snapshot.grid.columns && preedit.anchor[1]
                        < snapshot.grid.lines {
                        let count: usize = count_glyphs(shaped, &text, FontStyle::Regular);
                        return total.checked_add(count);
                    }
                },
                None => {},
            }
            Some(total)
        },
    }
}

/// A text is bold, italic, both or neither, as its cell asks for.
pub proof fn texts_are_styled_as_asked(cell: SnapshotCell)
    ensures
        style_of(cell) is BoldItalic <==> cell.flags.bold && cell.flags.italic,
        style_of(cell) is Bold <==> cell.flags.bold && !cell.flags.italic,
        style_of(cell) is Italic <==> !cell.flags.bold && cell.flags.italic,
        style_of(cell) is Regular <==> !cell.flags.bold && !cell.flags.italic,
{
}

/// The text of a cell is its character and what is combined with it, in this order.
pub proof fn a_cell_has_the_text_it_shows(cell: SnapshotCell)
    ensures
        cluster_of(cell)[0] == cell.ch,
        cell.zerowidth is None ==> cluster_of(cell).len() == 1,
        cell.zerowidth is Some ==> cluster_of(cell).skip(1) == cell.zerowidth->0@,
{
    if cell.zerowidth is Some {
        assert(cluster_of(cell).skip(1) =~= cell.zerowidth->0@);
    }
}

/// The text of every cell that shows one is asked for in its style, and nothing is asked for that no
/// cell shows.
pub proof fn every_text_is_asked_for(cells: Seq<SnapshotCell>, n: int, i: int)
    requires
        0 <= i < n <= cells.len(),
        !(cells[i].width is Spacer),
        !(cells[i].width is LeadingSpacer),
        !cells[i].flags.hidden,
        cells[i].ch != ' ',
        !is_bidi(cells[i].ch),
    ensures
        cell_requests(cells, n).contains(
            RequestModel { text: cluster_of(cells[i]), style: style_of(cells[i]) },
        ),
    decreases n,
{
    let wanted = RequestModel { text: cluster_of(cells[i]), style: style_of(cells[i]) };
    let before = cell_requests(cells, n - 1);
    let now = cell_requests(cells, n);
    if i < n - 1 {
        every_text_is_asked_for(cells, n - 1, i);
        let k = before.index_of(wanted);
        assert(now[k] == wanted);
    } else {
        assert(shows_text(cells[i]));
        if !before.contains(wanted) {
            assert(now[now.len() - 1] == wanted);
        }
    }
}

/// Nothing is asked for that no cell shows.
pub proof fn nothing_else_is_asked_for(cells: Seq<SnapshotCell>, n: int, k: int)
    requires
        0 <= n <= cells.len(),
        0 <= k < cell_requests(cells, n).len(),
    ensures
        exists|i: int|
            0 <= i < n && cell_requests(cells, n)[k].text == cluster_of(#[trigger] cells[i])
                && cell_requests(cells, n)[k].style == style_of(cells[i])
                && !cells[i].flags.hidden,
    decreases n,
{
    if n > 0 {
        let before = cell_requests(cells, n - 1);
        if k < before.len() {
            nothing_else_is_asked_for(cells, n - 1, k);
        } else {
            assert(cells[n - 1] == cells[n - 1]);
        }
    }
}

/// The glyphs of a text are those of the first text that is the same, in the same style.
pub proof fn a_text_has_its_own_glyphs(
    shaped: Seq<ShapedCluster>,
    text: Seq<char>,
    style: FontStyle,
)
    ensures
        shape_of(shaped, text, style) is Some ==> exists|i: int|
            0 <= i < shaped.len() && (#[trigger] shaped[i]).text@ == text && shaped[i].style == style
                && shape_of(shaped, text, style) == Some(shaped[i].glyphs@),
        (exists|i: int|
            0 <= i < shaped.len() && (#[trigger] shaped[i]).text@ == text && shaped[i].style
                == style) ==> shape_of(shaped, text, style) is Some,
    decreases shaped.len(),
{
    if shaped.len() > 0 {
        let rest = shaped.skip(1);
        a_text_has_its_own_glyphs(rest, text, style);
        if !(shaped[0].text@ == text && shaped[0].style == style) {
            if shape_of(rest, text, style) is Some {
                let i = choose|i: int|
                    0 <= i < rest.len() && (#[trigger] rest[i]).text@ == text && rest[i].style
                        == style && shape_of(rest, text, style) == Some(rest[i].glyphs@);
                assert(shaped[i + 1] == rest[i]);
            }
            if exists|i: int|
                0 <= i < shaped.len() && (#[trigger] shaped[i]).text@ == text && shaped[i].style
                    == style {
                let i = choose|i: int|
                    0 <= i < shaped.len() && (#[trigger] shaped[i]).text@ == text
                        && shaped[i].style == style;
                assert(rest[i - 1] == shaped[i]);
            }
        } else {
            assert(shaped[0].glyphs@ == shaped[0].glyphs@);
        }
    }
}

/// A question asks for its own lines and hides all else. Without one, a text that is being composed on
/// the frame is asked for too.
pub proof fn a_frame_asks_for_what_it_shows(
    snapshot: FrameSnapshot,
    confirmation: PasteConfirmationOverlay,
    preedit: PreeditOverlay,
)
    ensures
        frame_requests(snapshot, Some(&confirmation), Some(&preedit)) == frame_requests(
            snapshot,
            Some(&confirmation),
            None,
        ),
        preedit.snapshot_generation == snapshot.generation && preedit.text@.len() > 0
            ==> frame_requests(snapshot, None, Some(&preedit)).contains(
            RequestModel { text: preedit.text@, style: FontStyle::Regular },
        ),
        preedit.snapshot_generation != snapshot.generation || preedit.text@.len() == 0
            ==> frame_requests(snapshot, None, Some(&preedit)) == frame_requests(
            snapshot,
            None,
            None,
        ),
{
    let cells = cell_requests(snapshot.cells@, snapshot.cells@.len() as int);
    let wanted = RequestModel { text: preedit.text@, style: FontStyle::Regular };
    if !cells.contains(wanted) {
        let all = cells.push(wanted);
        assert(all[all.len() - 1] == wanted);
    }
}

/// Each of the lines of a question is asked for.
pub proof fn every_line_of_a_question_is_asked_for(
    confirmation: PasteConfirmationOverlay,
    n: int,
    i: int,
)
    requires
        0 <= i < n,
    ensures
        confirmation_requests(confirmation, n).contains(
            RequestModel {
                text: confirmation_line(confirmation, i),
                style: FontStyle::Regular,
            },
        ),
    decreases n,
{
    let wanted = RequestModel {
        text: confirmation_line(confirmation, i),
        style: FontStyle::Regular,
    };
    let before = confirmation_requests(confirmation, n - 1);
    let now = confirmation_requests(confirmation, n);
    if i < n - 1 {
        every_line_of_a_question_is_asked_for(confirmation, n - 1, i);
        let k = before.index_of(wanted);
        assert(now[k] == wanted);
    } else if !before.contains(wanted) {
        assert(now[now.len() - 1] == wanted);
    }
}

proof fn glyph_keys_stay(keys: Seq<GlyphKey>, glyphs: Seq<ShapedGlyph>, n: int, key: GlyphKey)
    requires
        0 <= n <= glyphs.len(),
    ensures
        keys.contains(key) ==> with_glyphs(keys, glyphs, n).contains(key),
        forall|j: int| 0 <= j < n ==> with_glyphs(keys, glyphs, n).contains((#[trigger] glyphs[j]).key),
        keys.no_duplicates() ==> with_glyphs(keys, glyphs, n).no_duplicates(),
    decreases n,
{
    if n > 0 {
        glyph_keys_stay(keys, glyphs, n - 1, key);
        let before = with_glyphs(keys, glyphs, n - 1);
        let now = with_glyphs(keys, glyphs, n);
        let last = glyphs[n - 1].key;
        assert forall|k: GlyphKey| before.contains(k) implies #[trigger] now.contains(k) by {
            let i = before.index_of(k);
            assert(now[i] == k);
        }
        assert(now.contains(last)) by {
            if !before.contains(last) {
                assert(now[before.len() as int] == last);
            }
        }
    }
}

/// Every glyph of every text has its bitmap in the list, and none is there twice.
pub proof fn every_glyph_has_a_bitmap(shaped: Seq<ShapedCluster>, n: int, i: int, j: int)
    requires
        0 <= n <= shaped.len(),
    ensures
        shaped_keys(shaped, n).no_duplicates(),
        0 <= i < n && 0 <= j < shaped[i].glyphs@.len() ==> shaped_keys(shaped, n).contains(
            shaped[i].glyphs@[j].key,
        ),
    decreases n,
{
    if n > 0 {
        every_glyph_has_a_bitmap(shaped, n - 1, i, j);
        let glyphs = shaped[n - 1].glyphs@;
        glyph_keys_stay(
            shaped_keys(shaped, n - 1),
            glyphs,
            glyphs.len() as int,
            shaped[i].glyphs@[j].key,
        );
    }
}

/// The title of every tab is asked for, and the mark that closes a tab where a tab has it.
pub proof fn the_texts_of_the_tabs_are_asked_for(bar: &TabBarPresentation, i: int)
    requires
        0 <= i < bar.items@.len(),
    ensures
        tab_bar_requests(Some(bar)).contains(
            RequestModel { text: bar.items@[i].title@, style: FontStyle::Regular },
        ),
        bar.items@[i].close_rect is Some ==> tab_bar_requests(Some(bar)).contains(
            RequestModel { text: TAB_CLOSE_MARK@, style: FontStyle::Regular },
        ),
        tab_bar_requests(None).len() == 0,
{
    let items = bar.items@;
    tab_titles_are_asked_for(items, items.len() as int, i);
    let titles = tab_requests_after(items, items.len() as int);
    let all = tab_bar_requests(Some(bar));
    let title = RequestModel { text: items[i].title@, style: FontStyle::Regular };
    let mark = RequestModel { text: TAB_CLOSE_MARK@, style: FontStyle::Regular };
    let k = titles.index_of(title);
    assert(all[k] == title);
    if items[i].close_rect is Some {
        assert(some_closable(items));
        if !titles.contains(mark) {
            assert(all[titles.len() as int] == mark);
        }
    }
}

proof fn tab_titles_are_asked_for(items: Seq<crate::tab::TabBarItem>, n: int, i: int)
    requires
        0 <= i < n <= items.len(),
    ensures
        tab_requests_after(items, n).contains(
            RequestModel { text: items[i].title@, style: FontStyle::Regular },
        ),
    decreases n,
{
    let wanted = RequestModel { text: items[i].title@, style: FontStyle::Regular };
    let before = tab_requests_after(items, n - 1);
    let now = tab_requests_after(items, n);
    if i < n - 1 {
        tab_titles_are_asked_for(items, n - 1, i);
        let k = before.index_of(wanted);
        assert(now[k] == wanted);
    } else if !before.contains(wanted) {
        assert(now[before.len() as int] == wanted);
    }
}

} // verus!
