//! What holds of the tabs of a window and of the bar that shows them.
use vstd::prelude::*;
use crate::config::TabBarVisibility;
use crate::session::TerminalSession;
use super::{
    bar_length, bar_visible, close_target, distinct, drop_item, earliest, elided, heir, hit_item,
    index_of, index_of_finds, items_of, BarModel, ItemModel, PixelRect, SessionId, TabBarItem,
    TabEntry, TabsModel,
};

verus! {

/// A tab is found where it stands.
proof fn found<R>(m: TabsModel<R>, i: int)
    requires
        m.wf(),
        0 <= i < m.tabs.len(),
    ensures
        index_of(m.tabs, m.tabs[i].id) == Some(i),
        distinct(m.tabs),
{
    let all = m.tabs + m.closing;
    assert forall|x: int, y: int| 0 <= x < y < m.tabs.len() implies (#[trigger] m.tabs[x]).id != (
    #[trigger] m.tabs[y]).id by {
        assert(all[x].id != all[y].id);
    }
    index_of_finds(m.tabs, m.tabs[i].id);
}

/// The next tab is the one to the right, the previous tab the one to the left. Past the last tab
/// comes the first, and before the first the last.
pub proof fn the_next_tab_is_to_the_right<R>(m: TabsModel<R>, i: int, delta: i8)
    requires
        m.wf(),
        m.tabs.len() >= 2,
        0 <= i < m.tabs.len(),
        m.active == Some(m.tabs[i].id),
    ensures
        delta > 0 && i + 1 < m.tabs.len() ==> m.stepped(delta).active == Some(m.tabs[i + 1].id),
        delta > 0 && i + 1 == m.tabs.len() ==> m.stepped(delta).active == Some(m.tabs[0].id),
        delta < 0 && i > 0 ==> m.stepped(delta).active == Some(m.tabs[i - 1].id),
        delta < 0 && i == 0 ==> m.stepped(delta).active == Some(m.tabs.last().id),
        m.stepped(delta).tabs == m.tabs,
        m.stepped(delta).closing == m.closing,
{
    found(m, i);
}

/// A step to the right and a step to the left undo each other.
pub proof fn steps_undo_each_other<R>(m: TabsModel<R>)
    requires
        m.wf(),
    ensures
        m.stepped(1).stepped((-1) as i8) == m,
        m.stepped((-1) as i8).stepped(1) == m,
{
    if m.tabs.len() >= 2 {
        let i = choose|i: int| 0 <= i < m.tabs.len() && (#[trigger] m.tabs[i]).id == m.active->0;
        found(m, i);
        found(m, m.neighbour(1));
        found(m, m.neighbour((-1) as i8));
    }
}

/// Tabs are numbered from one, from the left. A number that no tab has changes nothing.
pub proof fn tabs_are_numbered_from_the_left<R>(m: TabsModel<R>, i: int, ordinal: u8)
    requires
        m.wf(),
        0 <= i < m.tabs.len(),
    ensures
        ordinal == i + 1 ==> m.chosen(ordinal).active == Some(m.tabs[i].id),
        ordinal == 0 || ordinal > m.tabs.len() ==> m.chosen(ordinal) == m,
        m.chosen(ordinal).tabs == m.tabs,
{
}

/// A tab that is moved stands where it was put, or at the end, and the others keep their order.
/// The active tab stays active.
pub proof fn a_moved_tab_stands_where_it_was_put<R>(m: TabsModel<R>, i: int, target: usize)
    requires
        m.wf(),
        0 <= i < m.tabs.len(),
    ensures
        ({
            let n = m.reordered(m.tabs[i].id, target);
            let at = if target < m.tabs.len() {
                target as int
            } else {
                m.tabs.len() - 1
            };
            &&& n.tabs.len() == m.tabs.len()
            &&& n.tabs[at] == m.tabs[i]
            &&& n.tabs.remove(at) == m.tabs.remove(i)
            &&& n.active == m.active
            &&& n.closing == m.closing
        }),
{
    found(m, i);
    let at = if target < m.tabs.len() {
        target as int
    } else {
        m.tabs.len() - 1
    };
    let n = m.reordered(m.tabs[i].id, target);
    assert(n.tabs.remove(at) =~= m.tabs.remove(i));
}

/// The active tab moves past its neighbour, to the right or to the left, and stays active. At the
/// end of the bar it stays where it is.
pub proof fn the_active_tab_moves_past_its_neighbour<R>(m: TabsModel<R>, i: int)
    requires
        m.wf(),
        0 <= i < m.tabs.len(),
        m.active == Some(m.tabs[i].id),
    ensures
        i + 1 < m.tabs.len() ==> m.shifted(1).tabs == m.tabs.update(i, m.tabs[i + 1]).update(
            i + 1,
            m.tabs[i],
        ),
        i > 0 ==> m.shifted((-1) as i8).tabs == m.tabs.update(i, m.tabs[i - 1]).update(
            i - 1,
            m.tabs[i],
        ),
        i + 1 == m.tabs.len() ==> m.shifted(1) == m,
        i == 0 ==> m.shifted((-1) as i8) == m,
        m.shifted(1).active == m.active,
        m.shifted((-1) as i8).active == m.active,
{
    found(m, i);
    if i + 1 < m.tabs.len() {
        assert(m.shifted(1).tabs =~= m.tabs.update(i, m.tabs[i + 1]).update(i + 1, m.tabs[i]));
    }
    if i > 0 {
        assert(m.shifted((-1) as i8).tabs =~= m.tabs.update(i, m.tabs[i - 1]).update(
            i - 1,
            m.tabs[i],
        ));
    }
}

/// When the active tab goes, the tab to its right becomes active, or, for the last tab, the one to
/// its left. When another tab goes, the active tab stays active.
pub proof fn the_right_neighbour_takes_over<R>(m: TabsModel<R>, i: int)
    requires
        m.wf(),
        0 <= i < m.tabs.len(),
    ensures
        ({
            let n = m.without(m.tabs[i].id);
            &&& n.tabs == m.tabs.remove(i)
            &&& m.active == Some(m.tabs[i].id) && i + 1 < m.tabs.len() ==> n.active == Some(
                m.tabs[i + 1].id,
            ) && heir(m.tabs.remove(i), i) == n.active
            &&& m.active == Some(m.tabs[i].id) && 0 < i && i + 1 == m.tabs.len() ==> n.active
                == Some(m.tabs[i - 1].id) && heir(m.tabs.remove(i), i) == n.active
            &&& m.active != Some(m.tabs[i].id) ==> n.active == m.active
            &&& m.tabs.len() == 1 ==> n.active is None
        }),
{
    found(m, i);
    if m.tabs.len() == 1 && m.active != Some(m.tabs[i].id) {
        let k = choose|k: int| 0 <= k < m.tabs.len() && (#[trigger] m.tabs[k]).id == m.active->0;
        assert(k == i);
    }
}

/// A tab that is taken out and put back where it was leaves everything as it was.
pub proof fn a_tab_can_be_put_back<R>(m: TabsModel<R>, i: int)
    requires
        m.wf(),
        0 <= i < m.tabs.len(),
    ensures
        m.without(m.tabs[i].id).holding(
            m.tabs[i],
            i as usize,
            m.active == Some(m.tabs[i].id),
        ) == m,
{
    found(m, i);
    let left = m.without(m.tabs[i].id);
    let all = m.tabs + m.closing;
    assert(all[i] == m.tabs[i]);
    assert forall|k: int| 0 <= k < left.tabs.len() implies (#[trigger] left.tabs[k]).id
        != m.tabs[i].id by {
        let x = if k < i {
            k
        } else {
            k + 1
        };
        assert(left.tabs[k] == all[x]);
    }
    assert forall|k: int| 0 <= k < left.closing.len() implies (#[trigger] left.closing[k]).id
        != m.tabs[i].id by {
        assert(left.closing[k] == all[m.tabs.len() + k]);
    }
    assert(left.tabs.insert(i, m.tabs[i]) =~= m.tabs);
    if m.active != Some(m.tabs[i].id) {
        let k = choose|k: int| 0 <= k < m.tabs.len() && (#[trigger] m.tabs[k]).id == m.active->0;
        assert(m.tabs.len() > 1);
    }
}

/// A tab that is put among others stands where it was put and is active if it is to be. No tab is
/// added past the limit.
pub proof fn a_tab_is_put_where_it_is_to_stand<R>(
    m: TabsModel<R>,
    entry: TabEntry<R>,
    target: usize,
    activate: bool,
)
    requires
        m.wf(),
        !m.knows(entry.id),
        target <= m.tabs.len(),
    ensures
        ({
            let n = m.holding(entry, target, activate);
            if m.tabs.len() + m.closing.len() < m.max_count {
                &&& n.tabs[target as int] == entry
                &&& n.tabs.remove(target as int) == m.tabs
                &&& activate || m.tabs.len() == 0 ==> n.active == Some(entry.id)
                &&& !activate && m.tabs.len() > 0 ==> n.active == m.active
            } else {
                n == m
            }
        }),
{
    assert(m.tabs.insert(target as int, entry).remove(target as int) =~= m.tabs);
}

/// What happens in a tab is told by its own marks, and a look at it takes all of them away.
/// Everything else in it stays.
pub proof fn a_look_takes_the_marks_away<R>(m: TabsModel<R>, i: int, show: bool)
    requires
        m.wf(),
        0 <= i < m.tabs.len(),
        m.next_bell < u64::MAX,
    ensures
        ({
            let id = m.tabs[i].id;
            let told = m.with_output(id);
            let rung = m.rung(id, show);
            let seen = told.rung(id, show).seen(id);
            &&& told.tabs[i].unread
            &&& told.tabs[i].attention == m.tabs[i].attention
            &&& rung.tabs[i].active_bell_generation is Some
            &&& rung.tabs[i].unread == m.tabs[i].unread
            &&& show ==> rung.tabs[i].attention
            &&& !show && !m.tabs[i].attention ==> !rung.tabs[i].attention
            &&& !seen.tabs[i].unread
            &&& !seen.tabs[i].attention
            &&& seen.tabs[i].active_bell_generation is None
            &&& seen.tabs[i].bell_muted == m.tabs[i].bell_muted
            &&& seen.tabs[i].id == id
            &&& seen.tabs[i].title == m.tabs[i].title
            &&& forall|k: int|
                0 <= k < m.tabs.len() && k != i ==> #[trigger] seen.tabs[k] == m.tabs[k]
        }),
{
    found(m, i);
    let id = m.tabs[i].id;
    same_places(m, m.with_output(id), i);
    same_places(m, m.with_output(id).rung(id, show), i);
}

/// Tabs that have the same identities are found in the same places.
proof fn same_places<R>(m: TabsModel<R>, n: TabsModel<R>, i: int)
    requires
        m.wf(),
        0 <= i < m.tabs.len(),
        n.tabs.len() == m.tabs.len(),
        forall|k: int| 0 <= k < m.tabs.len() ==> (#[trigger] n.tabs[k]).id == m.tabs[k].id,
    ensures
        index_of(n.tabs, m.tabs[i].id) == Some(i),
{
    found(m, i);
    assert forall|x: int, y: int| 0 <= x < y < n.tabs.len() implies (#[trigger] n.tabs[x]).id != (
    #[trigger] n.tabs[y]).id by {
        assert(m.tabs[x].id != m.tabs[y].id);
    }
    index_of_finds(n.tabs, m.tabs[i].id);
    assert(n.tabs[i].id == m.tabs[i].id);
}

/// Bells that ring one after the other belong together until the tab is looked at; the next one is
/// counted on.
pub proof fn bells_belong_together_until_they_are_seen<R>(m: TabsModel<R>, i: int, show: bool)
    requires
        m.wf(),
        0 <= i < m.tabs.len(),
        m.next_bell + 1 < u64::MAX,
        m.tabs[i].active_bell_generation is None,
    ensures
        ({
            let id = m.tabs[i].id;
            let once = m.rung(id, show);
            let twice = once.rung(id, show);
            let again = once.seen(id).rung(id, show);
            &&& once.tabs[i].active_bell_generation->0.value == m.next_bell
            &&& twice.tabs[i].active_bell_generation == once.tabs[i].active_bell_generation
            &&& again.tabs[i].active_bell_generation->0.value == m.next_bell + 1
        }),
{
    found(m, i);
    let id = m.tabs[i].id;
    same_places(m, m.rung(id, show), i);
    same_places(m, m.rung(id, show).seen(id), i);
}

/// Muting a tab takes its bell away, and doing so twice lets it ring as before.
pub proof fn a_muted_tab_keeps_no_bell<R>(m: TabsModel<R>, i: int)
    requires
        m.wf(),
        0 <= i < m.tabs.len(),
    ensures
        ({
            let id = m.tabs[i].id;
            let once = m.muted(id);
            let twice = once.muted(id);
            &&& once.tabs[i].bell_muted == !m.tabs[i].bell_muted
            &&& twice.tabs[i].bell_muted == m.tabs[i].bell_muted
            &&& once.tabs[i].unread == m.tabs[i].unread
            &&& once.tabs[i].bell_muted ==> !once.tabs[i].attention
                && once.tabs[i].active_bell_generation is None
            &&& !once.tabs[i].bell_muted ==> once.tabs[i].attention == m.tabs[i].attention
        }),
{
    found(m, i);
    same_places(m, m.muted(m.tabs[i].id), i);
}

/// The earliest deadline is that of a tab, and no tab has an earlier one.
pub proof fn no_deadline_is_earlier<R>(tabs: Seq<TabEntry<R>>, i: int)
    requires
        0 <= i < tabs.len(),
        tabs[i].session@.deadline is Some,
    ensures
        earliest(tabs) is Some,
        earliest(tabs)->0.nanos <= tabs[i].session@.deadline->0.nanos,
        exists|k: int|
            0 <= k < tabs.len() && (#[trigger] tabs[k]).session@.deadline == earliest(tabs),
    decreases tabs.len(),
{
    let init = tabs.drop_last();
    let last = tabs.len() - 1;
    if i < last {
        no_deadline_is_earlier(init, i);
        assert(init[i] == tabs[i]);
        let k = choose|k: int|
            0 <= k < init.len() && (#[trigger] init[k]).session@.deadline == earliest(init);
        assert(tabs[k] == init[k]);
    } else if earliest(init) is Some {
        some_tab_has_it(init);
        let k = choose|k: int|
            0 <= k < init.len() && (#[trigger] init[k]).session@.deadline == earliest(init);
        assert(tabs[k] == init[k]);
    }
    assert(tabs[last] == tabs.last());
}

proof fn some_tab_has_it<R>(tabs: Seq<TabEntry<R>>)
    requires
        earliest(tabs) is Some,
    ensures
        exists|k: int|
            0 <= k < tabs.len() && (#[trigger] tabs[k]).session@.deadline == earliest(tabs),
    decreases tabs.len(),
{
    if tabs.len() > 0 {
        let init = tabs.drop_last();
        if earliest(init) is Some {
            some_tab_has_it(init);
            let k = choose|k: int|
                0 <= k < init.len() && (#[trigger] init[k]).session@.deadline == earliest(init);
            assert(tabs[k] == init[k]);
        }
        assert(tabs[tabs.len() - 1] == tabs.last());
    }
}

/// Whether an item shows a tab: its identity, its marks and its title.
pub open spec fn shows<R>(item: ItemModel, m: TabsModel<R>, tab: TabEntry<R>) -> bool {
    &&& item.id == tab.id
    &&& item.active <==> m.active == Some(tab.id)
    &&& item.unread == tab.unread
    &&& item.attention == tab.attention
    &&& item.bell_muted == tab.bell_muted
    &&& tab.title@.len() <= 64 ==> item.title == tab.title@
    &&& tab.title@.len() > 64 ==> item.title == tab.title@.take(64) + "..."@
}

/// Every tab that is in view is shown at its place, as it is.
pub proof fn tabs_in_view_are_shown<R>(
    m: TabsModel<R>,
    bar: BarModel,
    offset: u32,
    height: u32,
    close: bool,
    n: int,
    k: int,
)
    requires
        0 <= k < n <= m.tabs.len(),
        bar.start(k) < bar.end(k),
        offset <= bar.start(k),
        bar.end(k) <= offset + bar.width <= u32::MAX,
    ensures
        ({
            let items = items_of(m, bar, offset, height, close, n);
            exists|i: int|
                0 <= i < items.len() && shows(#[trigger] items[i], m, m.tabs[k]) && items[i].rect
                    == (PixelRect {
                    x: (bar.start(k) - offset) as u32,
                    y: 0,
                    width: (bar.end(k) - bar.start(k)) as u32,
                    height,
                }) && (items[i].close_rect is Some ==> close)
        }),
    decreases n,
{
    let items = items_of(m, bar, offset, height, close, n);
    let before = items_of(m, bar, offset, height, close, n - 1);
    let rect = PixelRect {
        x: (bar.start(k) - offset) as u32,
        y: 0,
        width: (bar.end(k) - bar.start(k)) as u32,
        height,
    };
    if k == n - 1 {
        let item = items[items.len() - 1];
        assert(item.title == elided(m.tabs[k].title@));
        assert(shows(item, m, m.tabs[k]));
        assert(item.rect == rect);
    } else {
        tabs_in_view_are_shown(m, bar, offset, height, close, n - 1, k);
        let i = choose|i: int|
            0 <= i < before.len() && shows(#[trigger] before[i], m, m.tabs[k]) && before[i].rect
                == rect && (before[i].close_rect is Some ==> close);
        assert(items[i] == before[i]);
    }
}

/// A point that is on exactly one item hits its tab, on the closing target if the point is on it.
/// A point on no item hits nothing.
pub proof fn a_point_hits_the_tab_under_it(items: Seq<TabBarItem>, x: u32, y: u32, from: int)
    requires
        0 <= from <= items.len(),
    ensures
        (forall|i: int| from <= i < items.len() ==> !(#[trigger] items[i]).rect.holds(x, y))
            ==> hit_item(items, x, y, from) is None,
        hit_item(items, x, y, from) is Some ==> exists|i: int|
            from <= i < items.len() && (#[trigger] items[i]).id == (hit_item(items, x, y, from)->0).0
                && items[i].rect.x <= x < items[i].rect.x + items[i].rect.width && items[i].rect.y
                <= y < items[i].rect.y + items[i].rect.height && ((hit_item(
                items,
                x,
                y,
                from,
            )->0).1 ==> items[i].close_rect is Some && items[i].close_rect->0.x <= x),
        (exists|i: int|
            from <= i < items.len() && (#[trigger] items[i]).rect.holds(x, y)) ==> hit_item(
            items,
            x,
            y,
            from,
        ) is Some,
    decreases items.len() - from,
{
    if from < items.len() {
        a_point_hits_the_tab_under_it(items, x, y, from + 1);
        if items[from].rect.holds(x, y) {
            assert(items[from].id == (hit_item(items, x, y, from)->0).0);
        }
    }
}

/// A rectangle holds the points from its left upper corner on, up to its sides.
pub proof fn a_rectangle_holds_its_points(rect: PixelRect, x: u32, y: u32)
    requires
        rect.x + rect.width <= u32::MAX,
        rect.y + rect.height <= u32::MAX,
    ensures
        rect.holds(x, y) <==> rect.x <= x < rect.x + rect.width && rect.y <= y < rect.y
            + rect.height,
{
}

/// A tab that is dropped takes the place of the first item whose middle is to the right of the
/// pointer. To the right of all middles it goes to the end.
pub proof fn a_tab_is_dropped_before_the_next_middle(items: Seq<TabBarItem>, x: u32, from: int)
    requires
        0 <= from <= items.len(),
        items.len() > 0,
        forall|i: int|
            0 <= i < items.len() ==> (#[trigger] items[i]).rect.x + items[i].rect.width <= u32::MAX,
    ensures
        drop_item(items, x, from) is Some,
        ({
            let k = drop_item(items, x, from)->0;
            &&& 0 <= k < items.len()
            &&& from < items.len() ==> from <= k
            &&& forall|i: int|
                from <= i < k ==> (#[trigger] items[i]).rect.x + items[i].rect.width / 2 <= x
            &&& from <= k && k + 1 < items.len() ==> x < items[k].rect.x + items[k].rect.width / 2
        }),
    decreases items.len() - from,
{
    if from < items.len() {
        a_tab_is_dropped_before_the_next_middle(items, x, from + 1);
    }
}

/// The closing target is a square at the right end of its tab, four pixels from it and in the
/// middle of its height. A tab that has less than 32 pixels beside it has none.
pub proof fn the_closing_target_is_at_the_right_end(rect: PixelRect)
    requires
        rect.x + rect.width <= u32::MAX,
        rect.height <= 1_000_000,
    ensures
        close_target(rect, false) is None,
        ({
            let target = close_target(rect, true);
            &&& target is Some ==> {
                let at = target->0;
                &&& at.width == at.height
                &&& at.x + at.width + 4 == rect.x + rect.width
                &&& at.width + 32 <= rect.width
                &&& 0 <= (rect.height - at.height) - 2 * at.y <= 1
                &&& at.width <= rect.height
                &&& rect.height <= 16 ==> at.width == rect.height
                &&& rect.height > 16 ==> at.width >= 16 && 4 * at.width >= 3 * rect.height
                &&& rect.height >= 24 ==> 4 * at.width < 3 * rect.height + 4
            }
            &&& rect.width >= rect.height + 32 ==> target is Some
        }),
{
}

/// A length is scaled to the least number of pixels that holds it, and is never less than one.
pub proof fn lengths_are_rounded_up(value: u16, scale: u32)
    requires
        value * scale <= u32::MAX - 119,
    ensures
        ({
            let pixels = bar_length(value, scale);
            &&& pixels >= 1
            &&& pixels * 120 >= value * scale
            &&& value * scale > 0 ==> (pixels - 1) * 120 < value * scale
        }),
        bar_length(value, 120) == if value >= 1 {
            value as u32
        } else {
            1u32
        },
        bar_length(value, 240) == if value >= 1 {
            (2 * value) as u32
        } else {
            1u32
        },
{
}

/// The bar is there for one tab or more, for two or more, or never.
pub proof fn the_bar_is_shown_as_asked(count: int)
    ensures
        bar_visible(TabBarVisibility::Always, count) <==> count >= 1,
        bar_visible(TabBarVisibility::Multiple, count) <==> count >= 2,
        !bar_visible(TabBarVisibility::Never, count),
{
}

/// Tabs that do not fit keep their smallest width, one right of the other.
pub proof fn tabs_that_do_not_fit_keep_their_width(bar: BarModel, i: int)
    requires
        0 <= i < bar.count,
        bar.min_width * bar.count <= u32::MAX,
        bar.min_width * bar.count > bar.width,
    ensures
        bar.start(i) == i * bar.min_width,
        bar.end(i) == (i + 1) * bar.min_width,
        bar.max_offset() == bar.min_width * bar.count - bar.width,
{
    let c = bar.count as int;
    let w = bar.min_width as int;
    assert(i * w + w <= w * c && 0 <= i * w && (i + 1) * w == i * w + w) by (nonlinear_arith)
        requires
            0 <= i < c,
            0 <= w,
    ;
}

/// A tab that is added stands to the right of all others, is active, and has nothing new in it.
pub proof fn a_new_tab_is_the_last_and_active<R>(
    m: TabsModel<R>,
    n: TabsModel<R>,
    id: SessionId,
    session: TerminalSession,
    runtime: R,
    title: Seq<char>,
)
    requires
        super::added(m, n, id, session, runtime, title),
    ensures
        n.active == Some(id),
        n.tabs.len() == m.tabs.len() + 1,
        n.tabs.take(m.tabs.len() as int) == m.tabs,
        n.tabs[m.tabs.len() as int].id == id,
        n.tabs[m.tabs.len() as int].title@ == title,
        !n.tabs[m.tabs.len() as int].unread,
        !n.tabs[m.tabs.len() as int].attention,
        !n.tabs[m.tabs.len() as int].bell_muted,
        n.closing == m.closing,
{
    assert(n.tabs.take(m.tabs.len() as int) =~= n.tabs.drop_last());
}

/// An activation is a change exactly if it leads from one tab to another.
pub proof fn an_activation_tells_where_it_leads(from: SessionId, to: SessionId)
    ensures
        from == to ==> super::activation(from, to) is Unchanged,
        from != to ==> super::activation(from, to) == (super::Activation::Changed { from, to }),
{
}

/// A title of up to 64 characters is shown as it is. Of a longer one, its first 64 characters are
/// shown with three dots behind them.
pub proof fn long_titles_are_cut_at_their_end(title: Seq<char>, i: int)
    ensures
        title.len() <= 64 ==> elided(title) == title,
        title.len() > 64 ==> {
            let shown = elided(title);
            &&& shown.len() == 67
            &&& 0 <= i < 64 ==> shown[i] == title[i]
            &&& 64 <= i < 67 ==> shown[i] == '.'
        },
{
    reveal_strlit("...");
}

} // verus!
