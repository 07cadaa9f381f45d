//! Tabs and the bar that shows them.
use vstd::prelude::*;
use vstd::string::StringExecFns;
use crate::config::{TabBarVisibility, TabsConfig};
use crate::session::{ShutdownPoll, TerminalSession};
use crate::terminal::cwd::{
    local_path, opt_view, validate_report, CwdRejectReason, CwdReport, LocalCwdHint, LocalIdentity,
    ReportModel,
};
use crate::text::{chars_of, dec, push_dec, string_of};
use crate::time::Instant;

pub mod laws;

verus! {

/// A rectangle of pixels. It holds its left and top edges, not its right and bottom ones.
#[derive(Clone, Copy, Debug, PartialEq, Eq, Structural)]
pub struct PixelRect {
    pub x: u32,
    pub y: u32,
    pub width: u32,
    pub height: u32,
}

/// A sum that stops at the largest `u32`.
pub open spec fn sum32(a: u32, b: u32) -> u32 {
    if a + b <= u32::MAX {
        (a + b) as u32
    } else {
        u32::MAX
    }
}

/// A difference that stops at zero.
pub open spec fn diff32(a: u32, b: u32) -> u32 {
    if a >= b {
        (a - b) as u32
    } else {
        0
    }
}

pub open spec fn min32(a: u32, b: u32) -> u32 {
    if a <= b {
        a
    } else {
        b
    }
}

pub(crate) fn lesser(a: u32, b: u32) -> (result: u32)
    ensures
        result == min32(a, b),
{
    if a <= b {
        a
    } else {
        b
    }
}

impl PixelRect {
    /// Whether a point lies in the rectangle.
    pub open spec fn holds(self, x: u32, y: u32) -> bool {
        self.x <= x < sum32(self.x, self.width) && self.y <= y < sum32(self.y, self.height)
    }

    /// Decides [`PixelRect::holds`].
    pub fn contains(self, point: [u32; 2]) -> (result: bool)
        ensures
            result == self.holds(point@[0], point@[1]),
    {
        point[0] >= self.x && point[1] >= self.y && point[0] < self.x.saturating_add(self.width)
            && point[1] < self.y.saturating_add(self.height)
    }
}

/// The identity of a session. It is never zero.
#[derive(Clone, Copy, Debug, PartialEq, Eq, PartialOrd, Ord, Hash, Structural)]
pub struct SessionId {
    pub value: u64,
}

impl SessionId {
    pub fn get(self) -> (result: u64)
        ensures
            result == self.value,
    {
        self.value
    }
}

#[derive(Clone, Copy, Debug, PartialEq, Eq, Structural)]
pub enum TabError {
    LimitReached { limit: usize },
    SessionIdExhausted,
    BellGenerationExhausted,
    UnknownSession(SessionId),
    DuplicateSession(SessionId),
    NoActiveSession,
}

impl TabError {
    pub open spec fn text(self) -> Seq<char> {
        match self {
            TabError::LimitReached { limit } => "tab limit reached ("@ + dec(limit as nat) + ")"@,
            TabError::SessionIdExhausted => "session id space exhausted"@,
            TabError::BellGenerationExhausted => "bell generation space exhausted"@,
            TabError::UnknownSession(id) => "unknown session SessionId("@ + dec(id.value as nat)
                + ")"@,
            TabError::DuplicateSession(id) => "duplicate session SessionId("@ + dec(id.value as nat)
                + ")"@,
            TabError::NoActiveSession => "window has no active session"@,
        }
    }

    /// What the error says.
    pub fn message(&self) -> (result: String)
        ensures
            result@ == self.text(),
    {
        match *self {
            TabError::LimitReached { limit } => numbered("tab limit reached (", limit as u64),
            TabError::SessionIdExhausted => String::from_str("session id space exhausted"),
            TabError::BellGenerationExhausted => String::from_str(
                "bell generation space exhausted",
            ),
            TabError::UnknownSession(id) => numbered("unknown session SessionId(", id.value),
            TabError::DuplicateSession(id) => numbered("duplicate session SessionId(", id.value),
            TabError::NoActiveSession => String::from_str("window has no active session"),
        }
    }
}

fn numbered(head: &str, number: u64) -> (result: String)
    ensures
        result@ == head@ + dec(number as nat) + ")"@,
{
    let mut out = String::from_str(head);
    push_dec(&mut out, number);
    out.append(")");
    out
}

/// Hands out the identities of sessions.
#[derive(Clone, Copy, Debug)]
pub struct SessionIdAllocator {
    pub next: Option<u64>,
}

impl Default for SessionIdAllocator {
    fn default() -> (result: SessionIdAllocator)
        ensures
            result.next == Some(1u64),
    {
        SessionIdAllocator { next: Some(1) }
    }
}

impl SessionIdAllocator {
    /// Allocates the next identity. Each is larger than those before, up to the last one.
    pub fn allocate(&mut self) -> (result: Result<SessionId, TabError>)
        ensures
            match old(self).next {
                None => result is Err && result->Err_0 is SessionIdExhausted && final(self).next is None,
                Some(next) => {
                    &&& result is Ok && result->Ok_0.value == next
                    &&& final(self).next == (if next < u64::MAX {
                        Some((next + 1) as u64)
                    } else {
                        None
                    })
                },
            },
    {
        match self.next {
            None => Err(TabError::SessionIdExhausted),
            Some(next) => {
                self.next = next.checked_add(1);
                Ok(SessionId { value: next })
            },
        }
    }
}

/// A bell that has not been acknowledged yet.
#[derive(Clone, Copy, Debug, PartialEq, Eq, Hash, Structural)]
pub struct BellGeneration {
    pub value: u64,
}

impl BellGeneration {
    pub fn get(self) -> (result: u64)
        ensures
            result == self.value,
    {
        self.value
    }
}

#[derive(Clone, Copy, Debug, PartialEq, Eq, Structural)]
pub enum TabTitleSource {
    Default,
    Explicit,
}

/// A tab: its session, what the application holds for it, and how it is shown.
pub struct TabEntry<R> {
    pub id: SessionId,
    pub session: TerminalSession,
    pub runtime: R,
    pub title: String,
    pub title_source: TabTitleSource,
    pub cwd_hint: Option<LocalCwdHint>,
    pub last_cwd_reject: Option<CwdRejectReason>,
    pub unread: bool,
    pub attention: bool,
    pub bell_muted: bool,
    pub active_bell_generation: Option<BellGeneration>,
}

/// The tabs of a window.
pub struct TabManager<R> {
    tabs: Vec<TabEntry<R>>,
    closing: Vec<TabEntry<R>>,
    active_id: Option<SessionId>,
    next_bell_generation: u64,
    drain_cursor: Option<SessionId>,
    max_count: u8,
}

/// The state of a manager.
pub struct TabsModel<R> {
    pub tabs: Seq<TabEntry<R>>,
    pub closing: Seq<TabEntry<R>>,
    pub active: Option<SessionId>,
    pub next_bell: u64,
    pub cursor: Option<SessionId>,
    pub max_count: u8,
}

#[derive(Clone, Copy, Debug, PartialEq, Eq, Structural)]
pub enum Activation {
    Changed { from: SessionId, to: SessionId },
    Unchanged,
}

#[derive(Clone, Copy, Debug, PartialEq, Eq, Structural)]
pub enum ReorderOutcome {
    Unchanged,
    Changed { from: usize, to: usize },
}

/// The first tab with an identity.
pub open spec fn index_of<R>(tabs: Seq<TabEntry<R>>, id: SessionId) -> Option<int>
    decreases tabs.len(),
{
    if tabs.len() == 0 {
        None
    } else {
        match index_of(tabs.drop_last(), id) {
            Some(i) => Some(i),
            None => if tabs.last().id == id {
                Some(tabs.len() - 1)
            } else {
                None
            },
        }
    }
}

pub open spec fn has_id<R>(tabs: Seq<TabEntry<R>>, id: SessionId) -> bool {
    exists|i: int| 0 <= i < tabs.len() && (#[trigger] tabs[i]).id == id
}

/// No identity occurs twice.
pub open spec fn distinct<R>(tabs: Seq<TabEntry<R>>) -> bool {
    forall|i: int, j: int|
        0 <= i < j < tabs.len() ==> (#[trigger] tabs[i]).id != (#[trigger] tabs[j]).id
}

/// The first tab with an identity is there, and there is one wherever the identity occurs.
pub proof fn index_of_finds<R>(tabs: Seq<TabEntry<R>>, id: SessionId)
    ensures
        index_of(tabs, id) is Some <==> has_id(tabs, id),
        index_of(tabs, id) is Some ==> 0 <= index_of(tabs, id)->0 < tabs.len() && tabs[index_of(
            tabs,
            id,
        )->0].id == id,
        distinct(tabs) ==> forall|i: int|
            0 <= i < tabs.len() && (#[trigger] tabs[i]).id == id ==> index_of(tabs, id) == Some(i),
    decreases tabs.len(),
{
    if tabs.len() > 0 {
        let init = tabs.drop_last();
        index_of_finds(init, id);
        if has_id(tabs, id) {
            let i = choose|i: int| 0 <= i < tabs.len() && (#[trigger] tabs[i]).id == id;
            if i < tabs.len() - 1 {
                assert(init[i].id == id);
            }
        }
        if has_id(init, id) {
            let i = choose|i: int| 0 <= i < init.len() && (#[trigger] init[i]).id == id;
            assert(tabs[i].id == id);
        }
        if distinct(tabs) {
            assert(distinct(init)) by {
                assert forall|i: int, j: int| 0 <= i < j < init.len() implies (#[trigger] init[i]).id
                    != (#[trigger] init[j]).id by {
                    assert(tabs[i].id != tabs[j].id);
                }
            }
            assert forall|i: int| 0 <= i < tabs.len() && (#[trigger] tabs[i]).id
                == id implies index_of(tabs, id) == Some(i) by {
                if i < tabs.len() - 1 {
                    assert(init[i].id == id);
                } else if index_of(init, id) is Some {
                    let k = index_of(init, id)->0;
                    assert(tabs[k].id == id);
                    assert(tabs[k].id != tabs[i].id);
                }
            }
        }
    }
}

impl<R> TabsModel<R> {
    /// No identity occurs twice, the tabs are within their limit, and one of them is active
    /// unless there is none.
    pub open spec fn wf(self) -> bool {
        &&& distinct(self.tabs + self.closing)
        &&& self.tabs.len() + self.closing.len() <= self.max_count
        &&& self.active is None <==> self.tabs.len() == 0
        &&& self.active is Some ==> has_id(self.tabs, self.active->0)
        &&& self.max_count >= 1
        &&& self.next_bell >= 1
    }

    pub open spec fn full(self) -> bool {
        self.tabs.len() + self.closing.len() >= self.max_count
    }

    pub open spec fn knows(self, id: SessionId) -> bool {
        has_id(self.tabs, id) || has_id(self.closing, id)
    }

    pub open spec fn active_index(self) -> Option<int> {
        match self.active {
            Some(id) => index_of(self.tabs, id),
            None => None,
        }
    }
}

impl<R> View for TabManager<R> {
    type V = TabsModel<R>;

    closed spec fn view(&self) -> TabsModel<R> {
        TabsModel {
            tabs: self.tabs@,
            closing: self.closing@,
            active: self.active_id,
            next_bell: self.next_bell_generation,
            cursor: self.drain_cursor,
            max_count: self.max_count,
        }
    }
}

/// A tab as it is shown first.
pub open spec fn is_fresh<R>(entry: TabEntry<R>, id: SessionId, title: Seq<char>) -> bool {
    &&& entry.id == id
    &&& entry.title@ == title
    &&& entry.title_source is Default
    &&& entry.cwd_hint is None
    &&& entry.last_cwd_reject is None
    &&& !entry.unread
    &&& !entry.attention
    &&& !entry.bell_muted
    &&& entry.active_bell_generation is None
}

fn position<R>(tabs: &Vec<TabEntry<R>>, id: SessionId) -> (result: Option<usize>)
    ensures
        match index_of(tabs@, id) {
            Some(i) => result is Some && result->0 == i && i < tabs@.len() && tabs@[i].id == id,
            None => result is None,
        },
        result is Some <==> has_id(tabs@, id),
{
    let mut i: usize = 0;
    proof {
        index_of_finds(tabs@, id);
    }
    while i < tabs.len()
        invariant
            i <= tabs@.len(),
            index_of(tabs@.take(i as int), id) is None,
            index_of(tabs@, id) is Some <==> has_id(tabs@, id),
        decreases tabs@.len() - i,
    {
        assert(tabs@.take(i + 1).drop_last() =~= tabs@.take(i as int));
        if tabs[i].id == id {
            proof {
                first_index_stays(tabs@, id, i + 1);
                assert(tabs@[i as int].id == id);
            }
            return Some(i);
        }
        i += 1;
    }
    assert(tabs@.take(i as int) =~= tabs@);
    None
}

proof fn first_index_stays<R>(tabs: Seq<TabEntry<R>>, id: SessionId, n: int)
    requires
        0 <= n <= tabs.len(),
        index_of(tabs.take(n), id) is Some,
    ensures
        index_of(tabs, id) == index_of(tabs.take(n), id),
    decreases tabs.len() - n,
{
    if n < tabs.len() {
        assert(tabs.take(n + 1).drop_last() =~= tabs.take(n));
        first_index_stays(tabs, id, n + 1);
    } else {
        assert(tabs.take(n) =~= tabs);
    }
}

/// The largest identity of tabs, or zero.
pub open spec fn largest<R>(tabs: Seq<TabEntry<R>>) -> u64
    decreases tabs.len(),
{
    if tabs.len() == 0 {
        0
    } else {
        let before = largest(tabs.drop_last());
        if tabs.last().id.value > before {
            tabs.last().id.value
        } else {
            before
        }
    }
}

fn largest_id<R>(tabs: &Vec<TabEntry<R>>) -> (result: u64)
    ensures
        result == largest(tabs@),
{
    let mut best: u64 = 0;
    let mut i: usize = 0;
    assert(tabs@.take(0) =~= Seq::empty());
    while i < tabs.len()
        invariant
            i <= tabs@.len(),
            best == largest(tabs@.take(i as int)),
        decreases tabs@.len() - i,
    {
        assert(tabs@.take(i + 1).drop_last() =~= tabs@.take(i as int));
        if tabs[i].id.value > best {
            best = tabs[i].id.value;
        }
        i += 1;
    }
    assert(tabs@.take(i as int) =~= tabs@);
    best
}

proof fn largest_is_largest<R>(tabs: Seq<TabEntry<R>>, id: SessionId)
    ensures
        has_id(tabs, id) ==> id.value <= largest(tabs),
    decreases tabs.len(),
{
    if tabs.len() > 0 && has_id(tabs, id) {
        let i = choose|i: int| 0 <= i < tabs.len() && (#[trigger] tabs[i]).id == id;
        if i < tabs.len() - 1 {
            assert(tabs.drop_last()[i].id == id);
            largest_is_largest(tabs.drop_last(), id);
        }
    }
}

proof fn distinct_insert<R>(a: Seq<TabEntry<R>>, b: Seq<TabEntry<R>>, i: int, e: TabEntry<R>)
    requires
        distinct(a + b),
        0 <= i <= a.len(),
        !has_id(a, e.id),
        !has_id(b, e.id),
    ensures
        distinct(a.insert(i, e) + b),
{
    let old_all = a + b;
    let all = a.insert(i, e) + b;
    assert forall|x: int, y: int| 0 <= x < y < all.len() implies (#[trigger] all[x]).id != (
    #[trigger] all[y]).id by {
        let ox = if x < i {
            x
        } else {
            x - 1
        };
        let oy = if y < i {
            y
        } else {
            y - 1
        };
        if x != i && y != i {
            assert(all[x] == old_all[ox]);
            assert(all[y] == old_all[oy]);
        } else {
            let k = if x == i {
                oy
            } else {
                ox
            };
            if k < a.len() {
                assert(a[k].id != e.id);
            } else {
                assert(b[k - a.len()].id != e.id);
            }
        }
    }
}

proof fn distinct_remove<R>(a: Seq<TabEntry<R>>, b: Seq<TabEntry<R>>, i: int)
    requires
        distinct(a + b),
        0 <= i < a.len(),
    ensures
        distinct(a.remove(i) + b),
        distinct(a.remove(i) + b.push(a[i])),
        !has_id(a.remove(i), a[i].id),
        !has_id(b, a[i].id),
{
    let all = a + b;
    let left = a.remove(i) + b;
    let moved = a.remove(i) + b.push(a[i]);
    let from = |x: int| {
        if x < i {
            x
        } else {
            x + 1
        }
    };
    assert forall|x: int, y: int| 0 <= x < y < left.len() implies (#[trigger] left[x]).id != (
    #[trigger] left[y]).id by {
        assert(left[x] == all[from(x)]);
        assert(left[y] == all[from(y)]);
    }
    assert forall|x: int, y: int| 0 <= x < y < moved.len() implies (#[trigger] moved[x]).id != (
    #[trigger] moved[y]).id by {
        assert(moved[x] == all[from(x)]);
        if y < moved.len() - 1 {
            assert(moved[y] == all[from(y)]);
        } else {
            assert(moved[y] == all[i]);
        }
    }
    assert forall|x: int| 0 <= x < a.remove(i).len() implies (#[trigger] a.remove(i)[x]).id
        != a[i].id by {
        assert(a.remove(i)[x] == all[from(x)]);
        assert(all[i] == a[i]);
    }
    assert forall|x: int| 0 <= x < b.len() implies (#[trigger] b[x]).id != a[i].id by {
        assert(b[x] == all[a.len() + x]);
        assert(all[i] == a[i]);
    }
}

impl<R> TabManager<R> {
    /// A window with one tab.
    pub fn bootstrap_entry(entry: TabEntry<R>, max_count: u8) -> (result: TabManager<R>)
        requires
            max_count >= 1,
        ensures
            result@.tabs == seq![entry],
            result@.closing.len() == 0,
            result@.active == Some(entry.id),
            result@.next_bell == 1,
            result@.cursor is None,
            result@.max_count == max_count,
            result@.wf(),
    {
        let id = entry.id;
        let mut tabs: Vec<TabEntry<R>> = Vec::new();
        tabs.push(entry);
        let result = TabManager {
            tabs,
            closing: Vec::new(),
            active_id: Some(id),
            next_bell_generation: 1,
            drain_cursor: None,
            max_count,
        };
        proof {
            assert(result@.tabs =~= seq![entry]);
            assert(result@.tabs[0].id == id);
        }
        result
    }

    /// A window with one tab of the given identity.
    pub fn bootstrap_with_id(id: SessionId, session: TerminalSession, runtime: R, max_count: u8) -> (
    result: TabManager<R>)
        requires
            max_count >= 1,
        ensures
            result@.tabs.len() == 1,
            is_fresh(result@.tabs[0], id, "Shell"@),
            result@.tabs[0].session == session,
            result@.tabs[0].runtime == runtime,
            result@.closing.len() == 0,
            result@.active == Some(id),
            result@.max_count == max_count,
            result@.wf(),
    {
        let entry = fresh_entry(id, session, runtime, "Shell".to_owned());
        TabManager::bootstrap_entry(entry, max_count)
    }

    /// A window with its first tab.
    pub fn bootstrap(session: TerminalSession, runtime: R, max_count: u8) -> (result: TabManager<R>)
        requires
            max_count >= 1,
        ensures
            result@.tabs.len() == 1,
            is_fresh(result@.tabs[0], SessionId { value: 1 }, "Shell"@),
            result@.tabs[0].session == session,
            result@.tabs[0].runtime == runtime,
            result@.closing.len() == 0,
            result@.active == Some(SessionId { value: 1 }),
            result@.max_count == max_count,
            result@.wf(),
    {
        TabManager::bootstrap_with_id(SessionId { value: 1 }, session, runtime, max_count)
    }

    /// Adds a tab with an identity larger than those that are in use, and activates it.
    pub fn push(&mut self, session: TerminalSession, runtime: R, title: String) -> (result: Result<
        SessionId,
        TabError,
    >)
        requires
            old(self)@.wf(),
        ensures
            ({
                let m = old(self)@;
                let top = if largest(m.tabs) >= largest(m.closing) {
                    largest(m.tabs)
                } else {
                    largest(m.closing)
                };
                let id = SessionId { value: (top + 1) as u64 };
                if m.full() {
                    &&& result is Err && result->Err_0 == (TabError::LimitReached {
                        limit: m.max_count as usize,
                    })
                    &&& final(self)@ == m
                } else if top == u64::MAX {
                    &&& result is Err && result->Err_0 is SessionIdExhausted
                    &&& final(self)@ == m
                } else {
                    &&& result is Ok && result->Ok_0 == id
                    &&& added(m, final(self)@, id, session, runtime, title@)
                }
            }),
            final(self)@.wf(),
    {
        if self.tabs.len() + self.closing.len() >= self.max_count as usize {
            return Err(TabError::LimitReached { limit: self.max_count as usize });
        }
        let open: u64 = largest_id(&self.tabs);
        let closing: u64 = largest_id(&self.closing);
        let top: u64 = if open >= closing {
            open
        } else {
            closing
        };
        let value: u64 = match top.checked_add(1) {
            Some(value) => value,
            None => {
                return Err(TabError::SessionIdExhausted);
            },
        };
        proof {
            largest_is_largest(self.tabs@, SessionId { value });
            largest_is_largest(self.closing@, SessionId { value });
        }
        self.push_with_id(SessionId { value }, session, runtime, title)
    }

    /// Adds a tab of the given identity and activates it.
    pub fn push_with_id(
        &mut self,
        id: SessionId,
        session: TerminalSession,
        runtime: R,
        title: String,
    ) -> (result: Result<SessionId, TabError>)
        requires
            old(self)@.wf(),
        ensures
            ({
                let m = old(self)@;
                if m.full() {
                    &&& result is Err && result->Err_0 == (TabError::LimitReached {
                        limit: m.max_count as usize,
                    })
                    &&& final(self)@ == m
                } else if m.knows(id) {
                    &&& result is Err && result->Err_0 == TabError::DuplicateSession(id)
                    &&& final(self)@ == m
                } else {
                    &&& result is Ok && result->Ok_0 == id
                    &&& added(m, final(self)@, id, session, runtime, title@)
                }
            }),
            final(self)@.wf(),
    {
        if self.tabs.len() + self.closing.len() >= self.max_count as usize {
            return Err(TabError::LimitReached { limit: self.max_count as usize });
        }
        if position(&self.tabs, id).is_some() || position(&self.closing, id).is_some() {
            return Err(TabError::DuplicateSession(id));
        }
        let entry = fresh_entry(id, session, runtime, title);
        let ghost before = self.tabs@;
        self.tabs.push(entry);
        self.active_id = Some(id);
        proof {
            distinct_insert(before, self.closing@, before.len() as int, entry);
            assert(before.insert(before.len() as int, entry) =~= self.tabs@);
            assert(self.tabs@.drop_last() =~= before);
            assert(self.tabs@[before.len() as int].id == id);
        }
        Ok(id)
    }

    pub fn active_id(&self) -> (result: Option<SessionId>)
        ensures
            result == self@.active,
    {
        self.active_id
    }

    pub fn len(&self) -> (result: usize)
        ensures
            result == self@.tabs.len(),
    {
        self.tabs.len()
    }

    pub fn total_len(&self) -> (result: usize)
        requires
            self@.wf(),
        ensures
            result == self@.tabs.len() + self@.closing.len(),
    {
        self.tabs.len() + self.closing.len()
    }

    pub fn is_empty(&self) -> (result: bool)
        ensures
            result == (self@.tabs.len() == 0),
    {
        self.tabs.len() == 0
    }

    pub fn closing_is_empty(&self) -> (result: bool)
        ensures
            result == (self@.closing.len() == 0),
    {
        self.closing.len() == 0
    }

    pub fn has_capacity(&self) -> (result: bool)
        requires
            self@.wf(),
        ensures
            result == !self@.full(),
    {
        self.tabs.len() + self.closing.len() < self.max_count as usize
    }

    pub fn tabs(&self) -> (result: &Vec<TabEntry<R>>)
        ensures
            result@ == self@.tabs,
    {
        &self.tabs
    }

    pub fn closing(&self) -> (result: &Vec<TabEntry<R>>)
        ensures
            result@ == self@.closing,
    {
        &self.closing
    }

    fn active_index(&self) -> (result: Option<usize>)
        ensures
            match self@.active_index() {
                Some(i) => result is Some && result->0 == i && i < self@.tabs.len(),
                None => result is None,
            },
    {
        match self.active_id {
            Some(id) => position(&self.tabs, id),
            None => None,
        }
    }

    /// The active tab.
    pub fn active(&self) -> (result: Option<&TabEntry<R>>)
        ensures
            match self@.active_index() {
                Some(i) => result is Some && *result->0 == self@.tabs[i],
                None => result is None,
            },
    {
        match self.active_index() {
            Some(i) => Some(&self.tabs[i]),
            None => None,
        }
    }

    /// Activates a tab.
    pub fn activate(&mut self, target: SessionId) -> (result: Result<Activation, TabError>)
        requires
            old(self)@.wf(),
        ensures
            ({
                let m = old(self)@;
                if !has_id(m.tabs, target) {
                    &&& result is Err && result->Err_0 == TabError::UnknownSession(target)
                    &&& final(self)@ == m
                } else {
                    &&& result is Ok && result->Ok_0 == activation(m.active->0, target)
                    &&& final(self)@ == (TabsModel { active: Some(target), ..m })
                }
            }),
            final(self)@.wf(),
    {
        match position(&self.tabs, target) {
            None => {
                return Err(TabError::UnknownSession(target));
            },
            Some(_) => {},
        }
        let from = match self.active_id {
            Some(from) => from,
            None => {
                return Err(TabError::UnknownSession(target));
            },
        };
        if from == target {
            return Ok(Activation::Unchanged);
        }
        self.active_id = Some(target);
        Ok(Activation::Changed { from, to: target })
    }

    /// Activates the tab to the right of the active one, or to its left for a negative `delta`,
    /// around the ends.
    pub fn activate_relative(&mut self, delta: i8) -> (result: Activation)
        requires
            old(self)@.wf(),
        ensures
            final(self)@ == old(self)@.stepped(delta),
            ({
                let m = old(self)@;
                let len = m.tabs.len() as int;
                if len < 2 {
                    result is Unchanged && final(self)@ == m
                } else {
                    let at = m.active_index()->0;
                    let next = if delta < 0 {
                        if at == 0 {
                            len - 1
                        } else {
                            at - 1
                        }
                    } else if at + 1 == len {
                        0
                    } else {
                        at + 1
                    };
                    &&& m.active_index() is Some
                    &&& result == activation(m.active->0, m.tabs[next].id)
                    &&& final(self)@ == (TabsModel { active: Some(m.tabs[next].id), ..m })
                }
            }),
            final(self)@.wf(),
    {
        let len: usize = self.tabs.len();
        if len < 2 {
            return Activation::Unchanged;
        }
        proof {
            index_of_finds(self.tabs@, self.active_id->0);
        }
        let at: usize = match self.active_index() {
            Some(at) => at,
            None => {
                return Activation::Unchanged;
            },
        };
        let next: usize = if delta < 0 {
            if at == 0 {
                len - 1
            } else {
                at - 1
            }
        } else if at + 1 == len {
            0
        } else {
            at + 1
        };
        let id = self.tabs[next].id;
        assert(self.tabs@[next as int].id == id);
        match self.activate(id) {
            Ok(activation) => activation,
            Err(_) => Activation::Unchanged,
        }
    }

    /// Activates the tab with the given number, counted from one. Where there is none, nothing
    /// happens.
    pub fn activate_ordinal(&mut self, ordinal: u8) -> (result: Activation)
        requires
            old(self)@.wf(),
        ensures
            final(self)@ == old(self)@.chosen(ordinal),
            ({
                let m = old(self)@;
                if 1 <= ordinal <= m.tabs.len() {
                    let id = m.tabs[ordinal - 1].id;
                    &&& result == activation(m.active->0, id)
                    &&& final(self)@ == (TabsModel { active: Some(id), ..m })
                } else {
                    result is Unchanged && final(self)@ == m
                }
            }),
            final(self)@.wf(),
    {
        if ordinal == 0 || ordinal as usize > self.tabs.len() {
            return Activation::Unchanged;
        }
        let id = self.tabs[ordinal as usize - 1].id;
        assert(self.tabs@[ordinal - 1].id == id);
        match self.activate(id) {
            Ok(activation) => activation,
            Err(_) => Activation::Unchanged,
        }
    }
}

/// What an activation is.
pub open spec fn activation(from: SessionId, to: SessionId) -> Activation {
    if from == to {
        Activation::Unchanged
    } else {
        Activation::Changed { from, to }
    }
}

/// A fresh tab was added at the end and activated.
pub open spec fn added<R>(
    m: TabsModel<R>,
    n: TabsModel<R>,
    id: SessionId,
    session: TerminalSession,
    runtime: R,
    title: Seq<char>,
) -> bool {
    &&& n.tabs.len() == m.tabs.len() + 1
    &&& n.tabs.drop_last() == m.tabs
    &&& is_fresh(n.tabs.last(), id, title)
    &&& n.tabs.last().session == session
    &&& n.tabs.last().runtime == runtime
    &&& n == (TabsModel { tabs: n.tabs, active: Some(id), ..m })
}

fn fresh_entry<R>(id: SessionId, session: TerminalSession, runtime: R, title: String) -> (result:
    TabEntry<R>)
    ensures
        is_fresh(result, id, title@),
        result.session == session,
        result.runtime == runtime,
{
    TabEntry {
        id,
        session,
        runtime,
        title,
        title_source: TabTitleSource::Default,
        cwd_hint: None,
        last_cwd_reject: None,
        unread: false,
        attention: false,
        bell_muted: false,
        active_bell_generation: None,
    }
}

/// A tab moved from one place to another.
pub open spec fn moved<R>(tabs: Seq<TabEntry<R>>, from: int, to: int) -> Seq<TabEntry<R>> {
    tabs.remove(from).insert(to, tabs[from])
}

/// The tab that is active once the tab at `index` is gone: its right neighbour, or else the last.
pub open spec fn heir<R>(tabs: Seq<TabEntry<R>>, index: int) -> Option<SessionId> {
    if tabs.len() == 0 {
        None
    } else if index < tabs.len() {
        Some(tabs[index].id)
    } else {
        Some(tabs.last().id)
    }
}

/// The identities of tabs, from a place on and around the end.
pub open spec fn rotation<R>(tabs: Seq<TabEntry<R>>, start: int) -> Seq<SessionId> {
    Seq::new(
        tabs.len(),
        |i: int| tabs[if start + i < tabs.len() { start + i } else { start + i - tabs.len() }].id,
    )
}

impl<R> TabsModel<R> {
    /// Where the next round of draining starts: right after the tab where the last one ended.
    pub open spec fn drain_start(self) -> int {
        match self.cursor {
            Some(id) => match index_of(self.tabs, id) {
                Some(i) => if i + 1 < self.tabs.len() {
                    i + 1
                } else {
                    0
                },
                None => 0,
            },
            None => 0,
        }
    }

    pub open spec fn with_tab(self, i: int, entry: TabEntry<R>) -> TabsModel<R> {
        TabsModel { tabs: self.tabs.update(i, entry), ..self }
    }
}

impl<R> TabsModel<R> {
    /// The place to the right of the active tab, or to its left for a negative `delta`, around the
    /// ends.
    pub open spec fn neighbour(self, delta: i8) -> int {
        let at = self.active_index()->0;
        if delta < 0 {
            if at == 0 {
                self.tabs.len() - 1
            } else {
                at - 1
            }
        } else if at + 1 == self.tabs.len() {
            0
        } else {
            at + 1
        }
    }

    /// The neighbour of the active tab is activated.
    pub open spec fn stepped(self, delta: i8) -> TabsModel<R> {
        if self.tabs.len() < 2 {
            self
        } else {
            TabsModel { active: Some(self.tabs[self.neighbour(delta)].id), ..self }
        }
    }

    /// The tab with a number is activated.
    pub open spec fn chosen(self, ordinal: u8) -> TabsModel<R> {
        if 1 <= ordinal <= self.tabs.len() {
            TabsModel { active: Some(self.tabs[ordinal - 1].id), ..self }
        } else {
            self
        }
    }

    /// A tab is moved to a place.
    pub open spec fn reordered(self, id: SessionId, target: usize) -> TabsModel<R> {
        match index_of(self.tabs, id) {
            None => self,
            Some(from) => {
                let to = if target < self.tabs.len() {
                    target as int
                } else {
                    self.tabs.len() - 1
                };
                if from == to {
                    self
                } else {
                    TabsModel { tabs: moved(self.tabs, from, to), ..self }
                }
            },
        }
    }

    /// The active tab is moved by one place.
    pub open spec fn shifted(self, delta: i8) -> TabsModel<R> {
        match self.active_index() {
            None => self,
            Some(from) => {
                let to = if delta < 0 {
                    if from > 0 {
                        from - 1
                    } else {
                        0
                    }
                } else if from + 1 < self.tabs.len() {
                    from + 1
                } else {
                    from
                };
                if from == to {
                    self
                } else {
                    TabsModel { tabs: moved(self.tabs, from, to), ..self }
                }
            },
        }
    }

    /// A tab is taken out.
    pub open spec fn without(self, id: SessionId) -> TabsModel<R> {
        match index_of(self.tabs, id) {
            None => self,
            Some(index) => {
                let left = self.tabs.remove(index);
                TabsModel {
                    tabs: left,
                    active: if self.active == Some(id) || left.len() == 0 {
                        heir(left, index)
                    } else {
                        self.active
                    },
                    ..self
                }
            },
        }
    }

    /// A tab is put at a place.
    pub open spec fn holding(self, entry: TabEntry<R>, target: usize, activate: bool) -> TabsModel<R> {
        let at = if target <= self.tabs.len() {
            target as int
        } else {
            self.tabs.len() as int
        };
        if self.full() || self.knows(entry.id) {
            self
        } else {
            TabsModel {
                tabs: self.tabs.insert(at, entry),
                active: if activate || self.active is None {
                    Some(entry.id)
                } else {
                    self.active
                },
                ..self
            }
        }
    }

    /// A tab has output that was not seen.
    pub open spec fn with_output(self, id: SessionId) -> TabsModel<R> {
        match index_of(self.tabs, id) {
            None => self,
            Some(i) => self.with_tab(i, TabEntry { unread: true, ..self.tabs[i] }),
        }
    }

    /// The bell of a tab rang.
    pub open spec fn rung(self, id: SessionId, show_attention: bool) -> TabsModel<R> {
        match index_of(self.tabs, id) {
            None => self,
            Some(i) => match self.tabs[i].active_bell_generation {
                Some(_) => self.with_tab(
                    i,
                    TabEntry {
                        attention: self.tabs[i].attention || show_attention,
                        ..self.tabs[i]
                    },
                ),
                None => if self.next_bell == u64::MAX {
                    self
                } else {
                    TabsModel {
                        next_bell: (self.next_bell + 1) as u64,
                        ..self.with_tab(
                            i,
                            TabEntry {
                                active_bell_generation: Some(
                                    BellGeneration { value: self.next_bell },
                                ),
                                attention: show_attention,
                                ..self.tabs[i]
                            },
                        )
                    }
                },
            },
        }
    }

    /// The user looks at a tab.
    pub open spec fn seen(self, id: SessionId) -> TabsModel<R> {
        match index_of(self.tabs, id) {
            None => self,
            Some(i) => self.with_tab(
                i,
                TabEntry {
                    unread: false,
                    attention: false,
                    active_bell_generation: None,
                    ..self.tabs[i]
                },
            ),
        }
    }

    /// The bell of a tab is muted, or rings again.
    pub open spec fn muted(self, id: SessionId) -> TabsModel<R> {
        match index_of(self.tabs, id) {
            None => self,
            Some(i) => if self.tabs[i].bell_muted {
                self.with_tab(i, TabEntry { bell_muted: false, ..self.tabs[i] })
            } else {
                self.with_tab(
                    i,
                    TabEntry {
                        bell_muted: true,
                        attention: false,
                        active_bell_generation: None,
                        ..self.tabs[i]
                    },
                )
            },
        }
    }
}

proof fn same_ids_keep_wf<R>(m: TabsModel<R>, i: int, entry: TabEntry<R>)
    requires
        m.wf(),
        0 <= i < m.tabs.len(),
        entry.id == m.tabs[i].id,
    ensures
        m.with_tab(i, entry).wf(),
{
    let n = m.with_tab(i, entry);
    let all = m.tabs + m.closing;
    let now = n.tabs + n.closing;
    assert forall|x: int, y: int| 0 <= x < y < now.len() implies (#[trigger] now[x]).id != (
    #[trigger] now[y]).id by {
        assert(all[x].id != all[y].id);
        assert(now[x].id == all[x].id);
        assert(now[y].id == all[y].id);
    }
    let k = choose|k: int| 0 <= k < m.tabs.len() && (#[trigger] m.tabs[k]).id == m.active->0;
    assert(n.tabs[k].id == m.active->0);
}

impl<R> TabManager<R> {
    /// Moves a tab to a place. The active tab and the order of draining stay with their tabs.
    pub fn reorder(&mut self, session: SessionId, target_index: usize) -> (result: Result<
        ReorderOutcome,
        TabError,
    >)
        requires
            old(self)@.wf(),
        ensures
            final(self)@ == old(self)@.reordered(session, target_index),
            ({
                let m = old(self)@;
                match index_of(m.tabs, session) {
                    None => {
                        &&& result is Err && result->Err_0 == TabError::UnknownSession(session)
                        &&& final(self)@ == m
                    },
                    Some(from) => {
                        let to = if target_index < m.tabs.len() {
                            target_index as int
                        } else {
                            m.tabs.len() - 1
                        };
                        if from == to {
                            result is Ok && result->Ok_0 is Unchanged && final(self)@ == m
                        } else {
                            &&& result is Ok && result->Ok_0 == (ReorderOutcome::Changed {
                                from: from as usize,
                                to: to as usize,
                            })
                            &&& final(self)@ == (TabsModel { tabs: moved(m.tabs, from, to), ..m })
                        }
                    },
                }
            }),
            final(self)@.wf(),
    {
        let from: usize = match position(&self.tabs, session) {
            Some(from) => from,
            None => {
                return Err(TabError::UnknownSession(session));
            },
        };
        let to: usize = if target_index < self.tabs.len() {
            target_index
        } else {
            self.tabs.len() - 1
        };
        if from == to {
            return Ok(ReorderOutcome::Unchanged);
        }
        let ghost before = self.tabs@;
        let entry = self.tabs.remove(from);
        self.tabs.insert(to, entry);
        proof {
            assert(self.tabs@ =~= moved(before, from as int, to as int));
            distinct_remove(before, self.closing@, from as int);
            distinct_insert(before.remove(from as int), self.closing@, to as int, entry);
            let k = choose|k: int|
                0 <= k < before.len() && (#[trigger] before[k]).id == self.active_id->0;
            let left = before.remove(from as int);
            if k == from {
                assert(self.tabs@[to as int].id == self.active_id->0);
            } else {
                let x = if k < from {
                    k
                } else {
                    k - 1
                };
                assert(left[x] == before[k]);
                let y = if x < to {
                    x
                } else {
                    x + 1
                };
                assert(self.tabs@[y] == left[x]);
            }
        }
        Ok(ReorderOutcome::Changed { from, to })
    }

    /// Moves the active tab by one place, to the left for a negative `delta`.
    pub fn move_active(&mut self, delta: i8) -> (result: Result<ReorderOutcome, TabError>)
        requires
            old(self)@.wf(),
        ensures
            final(self)@ == old(self)@.shifted(delta),
            ({
                let m = old(self)@;
                match m.active_index() {
                    None => {
                        &&& result is Err && result->Err_0 is NoActiveSession
                        &&& final(self)@ == m
                    },
                    Some(from) => {
                        let to = if delta < 0 {
                            if from > 0 {
                                from - 1
                            } else {
                                0
                            }
                        } else if from + 1 < m.tabs.len() {
                            from + 1
                        } else {
                            from
                        };
                        if from == to {
                            result is Ok && result->Ok_0 is Unchanged && final(self)@ == m
                        } else {
                            &&& result is Ok && result->Ok_0 == (ReorderOutcome::Changed {
                                from: from as usize,
                                to: to as usize,
                            })
                            &&& final(self)@ == (TabsModel { tabs: moved(m.tabs, from, to), ..m })
                        }
                    },
                }
            }),
            final(self)@.wf(),
    {
        let id = match self.active_id {
            Some(id) => id,
            None => {
                return Err(TabError::NoActiveSession);
            },
        };
        let from: usize = match self.active_index() {
            Some(from) => from,
            None => {
                return Err(TabError::NoActiveSession);
            },
        };
        let target: usize = if delta < 0 {
            if from > 0 {
                from - 1
            } else {
                0
            }
        } else if from + 1 < self.tabs.len() {
            from + 1
        } else {
            from
        };
        self.reorder(id, target)
    }

    /// Closes the active tab: its session begins to shut down, and its right neighbour, or else
    /// the last tab, becomes active.
    pub fn close_active(&mut self, now: Instant) -> (result: Option<SessionId>)
        requires
            old(self)@.wf(),
        ensures
            ({
                let m = old(self)@;
                let n = final(self)@;
                match m.active_index() {
                    None => result is None && n == m,
                    Some(index) => {
                        let left = m.tabs.remove(index);
                        let entry = m.tabs[index];
                        let last = n.closing.last();
                        &&& result == Some(entry.id)
                        &&& n.closing.len() == m.closing.len() + 1
                        &&& n.closing.drop_last() == m.closing
                        &&& last == (TabEntry { session: last.session, ..entry })
                        &&& n == (TabsModel {
                            tabs: left,
                            closing: n.closing,
                            active: heir(left, index),
                            ..m
                        })
                        &&& last.session@ == entry.session@.shutting_down(now)
                    },
                }
            }),
            final(self)@.wf(),
    {
        let index: usize = match self.active_index() {
            Some(index) => index,
            None => {
                return None;
            },
        };
        let ghost before = self.tabs@;
        let ghost old_closing = self.closing@;
        let mut entry = self.tabs.remove(index);
        let id = entry.id;
        entry.session.begin_shutdown(now);
        self.closing.push(entry);
        let left: usize = self.tabs.len();
        self.active_id =
        if left == 0 {
            None
        } else if index < left {
            Some(self.tabs[index].id)
        } else {
            Some(self.tabs[left - 1].id)
        };
        proof {
            assert(self.tabs@ =~= before.remove(index as int));
            assert(self.closing@.drop_last() =~= old_closing);
            distinct_remove(before, old_closing, index as int);
            let good = before.remove(index as int) + old_closing.push(before[index as int]);
            let now_all = self.tabs@ + self.closing@;
            assert forall|x: int, y: int| 0 <= x < y < now_all.len() implies (#[trigger] now_all[x]).id
                != (#[trigger] now_all[y]).id by {
                assert(now_all[x].id == good[x].id);
                assert(now_all[y].id == good[y].id);
            }
            if left > 0 {
                let k = if index < left {
                    index as int
                } else {
                    left - 1
                };
                assert(self.tabs@[k].id == self.active_id->0);
            }
        }
        Some(id)
    }

    /// The order in which tabs are drained in this round. Each tab comes once, and the round
    /// starts where the last one left off, so that none is always last.
    pub fn drain_order(&mut self) -> (result: Vec<SessionId>)
        requires
            old(self)@.wf(),
        ensures
            result@ == rotation(old(self)@.tabs, old(self)@.drain_start()),
            final(self)@ == (if old(self)@.tabs.len() == 0 {
                old(self)@
            } else {
                TabsModel { cursor: Some(result@.last()), ..old(self)@ }
            }),
            final(self)@.wf(),
    {
        let mut order: Vec<SessionId> = Vec::new();
        let len: usize = self.tabs.len();
        if len == 0 {
            assert(order@ =~= rotation(self.tabs@, 0));
            assert(rotation(self.tabs@, self@.drain_start()) =~= order@);
            return order;
        }
        let start: usize = match self.drain_cursor {
            Some(id) => match position(&self.tabs, id) {
                Some(i) => if i + 1 < len {
                    i + 1
                } else {
                    0
                },
                None => 0,
            },
            None => 0,
        };
        let mut i: usize = 0;
        let ghost whole = rotation(self.tabs@, start as int);
        while i < len
            invariant
                i <= len,
                len == self.tabs@.len(),
                len <= 255,
                start < len,
                *self == *old(self),
                whole == rotation(self.tabs@, start as int),
                order@ == whole.take(i as int),
            decreases len - i,
        {
            let at: usize = if start + i < len {
                start + i
            } else {
                start + i - len
            };
            order.push(self.tabs[at].id);
            i += 1;
            assert(whole.take(i as int) =~= whole.take(i - 1).push(whole[i - 1]));
        }
        assert(whole.take(i as int) =~= whole);
        self.drain_cursor = Some(order[len - 1]);
        order
    }

    /// A tab by its identity. What is done to it may not change its identity.
    pub fn get_mut(&mut self, id: SessionId) -> (result: Option<&mut TabEntry<R>>)
        requires
            old(self)@.wf(),
        ensures
            match index_of(old(self)@.tabs, id) {
                Some(i) => {
                    &&& result is Some
                    &&& *result->0 == old(self)@.tabs[i]
                    &&& final(self)@ == old(self)@.with_tab(i, *final(result->0))
                },
                None => result is None && final(self)@ == old(self)@,
            },
    {
        match position(&self.tabs, id) {
            Some(i) => Some(&mut self.tabs[i]),
            None => None,
        }
    }

    /// Takes a tab out, with its place. If it was active, its right neighbour, or else the last
    /// tab, becomes active.
    pub fn extract(&mut self, id: SessionId) -> (result: Result<(TabEntry<R>, usize), TabError>)
        requires
            old(self)@.wf(),
        ensures
            final(self)@ == old(self)@.without(id),
            ({
                let m = old(self)@;
                match index_of(m.tabs, id) {
                    None => {
                        &&& result is Err && result->Err_0 == TabError::UnknownSession(id)
                        &&& final(self)@ == m
                    },
                    Some(index) => {
                        let left = m.tabs.remove(index);
                        &&& result is Ok
                        &&& (result->Ok_0).0 == m.tabs[index]
                        &&& (result->Ok_0).1 == index
                        &&& final(self)@ == (TabsModel {
                            tabs: left,
                            active: if m.active == Some(id) || left.len() == 0 {
                                heir(left, index)
                            } else {
                                m.active
                            },
                            ..m
                        })
                    },
                }
            }),
            final(self)@.wf(),
    {
        let index: usize = match position(&self.tabs, id) {
            Some(index) => index,
            None => {
                return Err(TabError::UnknownSession(id));
            },
        };
        let ghost before = self.tabs@;
        let entry = self.tabs.remove(index);
        let left: usize = self.tabs.len();
        let was_active = match self.active_id {
            Some(active) => active == id,
            None => false,
        };
        if left == 0 {
            self.active_id = None;
        } else if was_active {
            self.active_id =
            if index < left {
                Some(self.tabs[index].id)
            } else {
                Some(self.tabs[left - 1].id)
            };
        }
        proof {
            assert(self.tabs@ =~= before.remove(index as int));
            distinct_remove(before, self.closing@, index as int);
            if left > 0 {
                if was_active {
                    let k = if index < left {
                        index as int
                    } else {
                        left - 1
                    };
                    assert(self.tabs@[k].id == self.active_id->0);
                } else {
                    let k = choose|k: int|
                        0 <= k < before.len() && (#[trigger] before[k]).id == self.active_id->0;
                    let x = if k < index {
                        k
                    } else {
                        k - 1
                    };
                    assert(self.tabs@[x] == before[k]);
                }
            }
        }
        Ok((entry, index))
    }

    /// Puts a tab at a place. It becomes active if it is to be, or if it is the only one.
    pub fn insert(&mut self, entry: TabEntry<R>, target: usize, activate: bool) -> (result: Result<
        SessionId,
        TabError,
    >)
        requires
            old(self)@.wf(),
        ensures
            final(self)@ == old(self)@.holding(entry, target, activate),
            ({
                let m = old(self)@;
                let at = if target <= m.tabs.len() {
                    target as int
                } else {
                    m.tabs.len() as int
                };
                if m.full() {
                    &&& result is Err && result->Err_0 == (TabError::LimitReached {
                        limit: m.max_count as usize,
                    })
                    &&& final(self)@ == m
                } else if m.knows(entry.id) {
                    &&& result is Err && result->Err_0 == TabError::DuplicateSession(entry.id)
                    &&& final(self)@ == m
                } else {
                    &&& result is Ok && result->Ok_0 == entry.id
                    &&& final(self)@ == (TabsModel {
                        tabs: m.tabs.insert(at, entry),
                        active: if activate || m.active is None {
                            Some(entry.id)
                        } else {
                            m.active
                        },
                        ..m
                    })
                }
            }),
            final(self)@.wf(),
    {
        if !self.has_capacity() {
            return Err(TabError::LimitReached { limit: self.max_count as usize });
        }
        let id = entry.id;
        if position(&self.tabs, id).is_some() || position(&self.closing, id).is_some() {
            return Err(TabError::DuplicateSession(id));
        }
        let at: usize = if target <= self.tabs.len() {
            target
        } else {
            self.tabs.len()
        };
        let ghost before = self.tabs@;
        let ghost was = self.active_id;
        self.tabs.insert(at, entry);
        if activate || self.active_id.is_none() {
            self.active_id = Some(id);
        }
        proof {
            assert(self.tabs@ =~= before.insert(at as int, entry));
            distinct_insert(before, self.closing@, at as int, entry);
            assert(self.tabs@[at as int].id == id);
            if self.active_id == was && was is Some {
                let k = choose|k: int|
                    0 <= k < before.len() && (#[trigger] before[k]).id == was->0;
                let x = if k < at {
                    k
                } else {
                    k + 1
                };
                assert(self.tabs@[x] == before[k]);
            }
        }
        Ok(id)
    }

    /// A tab has output that was not seen. Tells whether that is new.
    pub fn mark_unread(&mut self, id: SessionId) -> (result: bool)
        requires
            old(self)@.wf(),
        ensures
            final(self)@ == old(self)@.with_output(id),
            ({
                let m = old(self)@;
                match index_of(m.tabs, id) {
                    None => !result && final(self)@ == m,
                    Some(i) => {
                        &&& result == !m.tabs[i].unread
                        &&& final(self)@ == m.with_tab(
                            i,
                            TabEntry { unread: true, ..m.tabs[i] },
                        )
                    },
                }
            }),
            final(self)@.wf(),
    {
        match position(&self.tabs, id) {
            None => false,
            Some(i) => {
                let changed = !self.tabs[i].unread;
                self.tabs[i].unread = true;
                proof {
                    same_ids_keep_wf(old(self)@, i as int, self.tabs@[i as int]);
                    assert(self.tabs@ =~= old(self)@.tabs.update(i as int, self.tabs@[i as int]));
                }
                changed
            },
        }
    }

    /// The bell of a tab in the background rang. Until it is acknowledged, further bells belong
    /// to the same generation.
    pub fn record_background_bell(&mut self, id: SessionId, show_attention: bool) -> (result: Result<
        BellGeneration,
        TabError,
    >)
        requires
            old(self)@.wf(),
        ensures
            final(self)@ == old(self)@.rung(id, show_attention),
            ({
                let m = old(self)@;
                match index_of(m.tabs, id) {
                    None => {
                        &&& result is Err && result->Err_0 == TabError::UnknownSession(id)
                        &&& final(self)@ == m
                    },
                    Some(i) => match m.tabs[i].active_bell_generation {
                        Some(generation) => {
                            &&& result is Ok && result->Ok_0 == generation
                            &&& final(self)@ == m.with_tab(
                                i,
                                TabEntry {
                                    attention: m.tabs[i].attention || show_attention,
                                    ..m.tabs[i]
                                },
                            )
                        },
                        None => if m.next_bell == u64::MAX {
                            &&& result is Err && result->Err_0 is BellGenerationExhausted
                            &&& final(self)@ == m
                        } else {
                            let generation = BellGeneration { value: m.next_bell };
                            &&& result is Ok && result->Ok_0 == generation
                            &&& final(self)@ == (TabsModel {
                                next_bell: (m.next_bell + 1) as u64,
                                ..m.with_tab(
                                    i,
                                    TabEntry {
                                        active_bell_generation: Some(generation),
                                        attention: show_attention,
                                        ..m.tabs[i]
                                    },
                                )
                            })
                        },
                    },
                }
            }),
            final(self)@.wf(),
    {
        let index: usize = match position(&self.tabs, id) {
            Some(index) => index,
            None => {
                return Err(TabError::UnknownSession(id));
            },
        };
        if let Some(generation) = self.tabs[index].active_bell_generation {
            if show_attention {
                self.tabs[index].attention = true;
            }
            proof {
                same_ids_keep_wf(old(self)@, index as int, self.tabs@[index as int]);
                assert(self.tabs@ =~= old(self)@.tabs.update(
                    index as int,
                    self.tabs@[index as int],
                ));
            }
            return Ok(generation);
        }
        let generation = BellGeneration { value: self.next_bell_generation };
        match self.next_bell_generation.checked_add(1) {
            Some(next) => {
                self.next_bell_generation = next;
            },
            None => {
                return Err(TabError::BellGenerationExhausted);
            },
        }
        self.tabs[index].active_bell_generation = Some(generation);
        self.tabs[index].attention = show_attention;
        proof {
            same_ids_keep_wf(old(self)@, index as int, self.tabs@[index as int]);
            assert(self.tabs@ =~= old(self)@.tabs.update(index as int, self.tabs@[index as int]));
        }
        Ok(generation)
    }

    /// The user looks at a tab: nothing in it is new any more. Hands out the generation of the
    /// bell that was not acknowledged.
    pub fn acknowledge(&mut self, id: SessionId) -> (result: Option<BellGeneration>)
        requires
            old(self)@.wf(),
        ensures
            final(self)@ == old(self)@.seen(id),
            ({
                let m = old(self)@;
                match index_of(m.tabs, id) {
                    None => result is None && final(self)@ == m,
                    Some(i) => {
                        &&& result == m.tabs[i].active_bell_generation
                        &&& final(self)@ == m.with_tab(
                            i,
                            TabEntry {
                                unread: false,
                                attention: false,
                                active_bell_generation: None,
                                ..m.tabs[i]
                            },
                        )
                    },
                }
            }),
            final(self)@.wf(),
    {
        match position(&self.tabs, id) {
            None => None,
            Some(i) => {
                let generation = self.tabs[i].active_bell_generation;
                self.tabs[i].unread = false;
                self.tabs[i].attention = false;
                self.tabs[i].active_bell_generation = None;
                proof {
                    same_ids_keep_wf(old(self)@, i as int, self.tabs@[i as int]);
                    assert(self.tabs@ =~= old(self)@.tabs.update(i as int, self.tabs@[i as int]));
                }
                generation
            },
        }
    }

    /// Mutes the bell of a tab, or lets it ring again. A bell that was not acknowledged is
    /// dropped when the tab is muted; what is unread stays so.
    pub fn toggle_bell_mute(&mut self, id: SessionId) -> (result: Result<
        (bool, Option<BellGeneration>),
        TabError,
    >)
        requires
            old(self)@.wf(),
        ensures
            final(self)@ == old(self)@.muted(id),
            ({
                let m = old(self)@;
                match index_of(m.tabs, id) {
                    None => {
                        &&& result is Err && result->Err_0 == TabError::UnknownSession(id)
                        &&& final(self)@ == m
                    },
                    Some(i) => if m.tabs[i].bell_muted {
                        &&& result is Ok && result->Ok_0 == (false, None::<BellGeneration>)
                        &&& final(self)@ == m.with_tab(
                            i,
                            TabEntry { bell_muted: false, ..m.tabs[i] },
                        )
                    } else {
                        &&& result is Ok && result->Ok_0 == (
                            true,
                            m.tabs[i].active_bell_generation,
                        )
                        &&& final(self)@ == m.with_tab(
                            i,
                            TabEntry {
                                bell_muted: true,
                                attention: false,
                                active_bell_generation: None,
                                ..m.tabs[i]
                            },
                        )
                    },
                }
            }),
            final(self)@.wf(),
    {
        let i: usize = match position(&self.tabs, id) {
            Some(i) => i,
            None => {
                return Err(TabError::UnknownSession(id));
            },
        };
        let muted = !self.tabs[i].bell_muted;
        self.tabs[i].bell_muted = muted;
        let mut invalidated: Option<BellGeneration> = None;
        if muted {
            invalidated = self.tabs[i].active_bell_generation;
            self.tabs[i].attention = false;
            self.tabs[i].active_bell_generation = None;
        }
        proof {
            same_ids_keep_wf(old(self)@, i as int, self.tabs@[i as int]);
            assert(self.tabs@ =~= old(self)@.tabs.update(i as int, self.tabs@[i as int]));
        }
        Ok((muted, invalidated))
    }

    /// Takes a report of the working directory for a tab. A report that is refused drops the
    /// directory that was known.
    pub fn apply_cwd_report(&mut self, id: SessionId, report: CwdReport, identity: &LocalIdentity) -> (
    result: Option<Result<(), CwdRejectReason>>)
        requires
            old(self)@.wf(),
        ensures
            ({
                let m = old(self)@;
                let n = final(self)@;
                let checked = match report@ {
                    ReportModel::Invalid(reason) => Err(reason),
                    ReportModel::Uri(uri) => local_path(uri, opt_view(identity.hostname)),
                };
                match index_of(m.tabs, id) {
                    None => result is None && n == m,
                    Some(i) => {
                        &&& result is Some
                        &&& n == m.with_tab(i, n.tabs[i])
                        &&& match checked {
                            Ok(path) => {
                                &&& result->0 is Ok
                                &&& n.tabs[i].cwd_hint is Some
                                &&& n.tabs[i].cwd_hint->0.path@ == path
                                &&& n.tabs[i] == (TabEntry {
                                    cwd_hint: n.tabs[i].cwd_hint,
                                    last_cwd_reject: None,
                                    ..m.tabs[i]
                                })
                            },
                            Err(reason) => {
                                &&& result->0 == Err::<(), CwdRejectReason>(reason)
                                &&& n.tabs[i] == (TabEntry {
                                    cwd_hint: None,
                                    last_cwd_reject: Some(reason),
                                    ..m.tabs[i]
                                })
                            },
                        }
                    },
                }
            }),
            final(self)@.wf(),
    {
        let i: usize = match position(&self.tabs, id) {
            Some(i) => i,
            None => {
                return None;
            },
        };
        let result = match validate_report(report, identity) {
            Ok(hint) => {
                self.tabs[i].cwd_hint = Some(hint);
                self.tabs[i].last_cwd_reject = None;
                Ok(())
            },
            Err(reason) => {
                self.tabs[i].cwd_hint = None;
                self.tabs[i].last_cwd_reject = Some(reason);
                Err(reason)
            },
        };
        proof {
            same_ids_keep_wf(old(self)@, i as int, self.tabs@[i as int]);
            assert(self.tabs@ =~= old(self)@.tabs.update(i as int, self.tabs@[i as int]));
        }
        Some(result)
    }

    /// Looks whether the tab at a place among those that are closing is done, and lets it go if
    /// it is. The tab that was last among them takes its place.
    pub fn poll_closing(&mut self, index: usize, now: Instant, joined: bool) -> (result: ShutdownPoll)
        requires
            old(self)@.wf(),
            index < old(self)@.closing.len(),
        ensures
            ({
                let m = old(self)@;
                let n = final(self)@;
                let session = m.closing[index as int].session@;
                let done = session.deadline is Some && (!session.has_process || joined || now.nanos
                    >= session.deadline->0.nanos);
                &&& result == (if !done {
                    ShutdownPoll::Pending
                } else if !session.has_process || joined {
                    ShutdownPoll::Complete
                } else {
                    ShutdownPoll::TimedOut
                })
                &&& n == (TabsModel { closing: n.closing, ..m })
                &&& if done {
                    n.closing == m.closing.update(index as int, m.closing.last()).drop_last()
                } else {
                    let entry = n.closing[index as int];
                    &&& n.closing == m.closing.update(index as int, entry)
                    &&& entry == (TabEntry { session: entry.session, ..m.closing[index as int] })
                    &&& entry.session@ == session
                }
            }),
            final(self)@.wf(),
    {
        let ghost before = self.closing@;
        let poll = self.closing[index].session.poll_shutdown(now, joined);
        let ghost polled = self.closing@;
        assert(polled =~= before.update(index as int, polled[index as int]));
        if poll != ShutdownPoll::Pending {
            self.closing.swap_remove(index);
            assert(self.closing@ =~= before.update(index as int, before.last()).drop_last());
        }
        proof {
            let all = old(self)@.tabs + before;
            let now_all = self.tabs@ + self.closing@;
            let n = self.tabs@.len();
            assert forall|x: int, y: int| 0 <= x < y < now_all.len() implies (#[trigger] now_all[x]).id
                != (#[trigger] now_all[y]).id by {
                let ox = if x == n + index && self.closing@.len() < before.len() {
                    n + before.len() - 1
                } else {
                    x
                };
                let oy = if y == n + index && self.closing@.len() < before.len() {
                    n + before.len() - 1
                } else {
                    y
                };
                assert(now_all[x].id == all[ox].id);
                assert(now_all[y].id == all[oy].id);
                assert(ox != oy);
                if ox < oy {
                    assert(all[ox].id != all[oy].id);
                } else {
                    assert(all[oy].id != all[ox].id);
                }
            }
        }
        poll
    }

    /// The earliest time by which a tab that is closing has to be done.
    pub fn next_closing_deadline(&self) -> (result: Option<Instant>)
        ensures
            result == earliest(self@.closing),
    {
        let mut best: Option<Instant> = None;
        let mut i: usize = 0;
        assert(self.closing@.take(0) =~= Seq::empty());
        while i < self.closing.len()
            invariant
                i <= self.closing@.len(),
                best == earliest(self.closing@.take(i as int)),
            decreases self.closing@.len() - i,
        {
            assert(self.closing@.take(i + 1).drop_last() =~= self.closing@.take(i as int));
            if let Some(deadline) = self.closing[i].session.shutdown_deadline() {
                best =
                match best {
                    None => Some(deadline),
                    Some(other) => if deadline.nanos < other.nanos {
                        Some(deadline)
                    } else {
                        Some(other)
                    },
                };
            }
            i += 1;
        }
        assert(self.closing@.take(i as int) =~= self.closing@);
        best
    }
}

/// The earliest deadline of tabs.
pub open spec fn earliest<R>(tabs: Seq<TabEntry<R>>) -> Option<Instant>
    decreases tabs.len(),
{
    if tabs.len() == 0 {
        None
    } else {
        let before = earliest(tabs.drop_last());
        match tabs.last().session@.deadline {
            None => before,
            Some(deadline) => match before {
                None => Some(deadline),
                Some(other) => if deadline.nanos < other.nanos {
                    Some(deadline)
                } else {
                    Some(other)
                },
            },
        }
    }
}

/// A round of draining visits every tab exactly once.
pub proof fn a_round_visits_every_tab_once<R>(m: TabsModel<R>, i: int)
    requires
        m.wf(),
        0 <= i < m.tabs.len(),
    ensures
        ({
            let order = rotation(m.tabs, m.drain_start());
            &&& order.len() == m.tabs.len()
            &&& order.no_duplicates()
            &&& order.contains(m.tabs[i].id)
        }),
{
    let len = m.tabs.len() as int;
    let start = m.drain_start();
    if m.cursor is Some {
        index_of_finds(m.tabs, m.cursor->0);
    }
    let order = rotation(m.tabs, start);
    let all = m.tabs + m.closing;
    let at = |k: int| if start + k < len { start + k } else { start + k - len };
    assert forall|x: int, y: int| 0 <= x < order.len() && 0 <= y < order.len() && x
        != y implies order[x] != order[y] by {
        assert(order[x] == all[at(x)].id);
        assert(order[y] == all[at(y)].id);
        if at(x) < at(y) {
            assert(all[at(x)].id != all[at(y)].id);
        } else {
            assert(all[at(y)].id != all[at(x)].id);
        }
    }
    let k = if i >= start {
        i - start
    } else {
        i - start + len
    };
    assert(order[k] == m.tabs[i].id);
}

/// What the tab bar shows of one tab.
#[derive(Clone, Debug)]
pub struct TabBarItem {
    pub id: SessionId,
    pub title: String,
    pub rect: PixelRect,
    pub close_rect: Option<PixelRect>,
    pub active: bool,
    pub unread: bool,
    pub attention: bool,
    pub bell_muted: bool,
    pub drag_offset_x: i32,
}

/// An item over its text.
pub struct ItemModel {
    pub id: SessionId,
    pub title: Seq<char>,
    pub rect: PixelRect,
    pub close_rect: Option<PixelRect>,
    pub active: bool,
    pub unread: bool,
    pub attention: bool,
    pub bell_muted: bool,
    pub drag_offset_x: i32,
}

impl View for TabBarItem {
    type V = ItemModel;

    open spec fn view(&self) -> ItemModel {
        ItemModel {
            id: self.id,
            title: self.title@,
            rect: self.rect,
            close_rect: self.close_rect,
            active: self.active,
            unread: self.unread,
            attention: self.attention,
            bell_muted: self.bell_muted,
            drag_offset_x: self.drag_offset_x,
        }
    }
}

pub open spec fn items_view(items: Seq<TabBarItem>) -> Seq<ItemModel> {
    items.map_values(|i: TabBarItem| i@)
}

/// The tab bar.
#[derive(Clone, Debug)]
pub struct TabBarPresentation {
    pub bar: Option<PixelRect>,
    pub items: Vec<TabBarItem>,
    pub max_offset: u32,
    pub offset: u32,
}

/// The longest title that is shown in full, in characters.
pub const MAX_TITLE_CHARS: usize = 64;

/// A title, cut where it is too long.
pub open spec fn elided(title: Seq<char>) -> Seq<char> {
    if title.len() <= MAX_TITLE_CHARS {
        title
    } else {
        title.take(MAX_TITLE_CHARS as int) + "..."@
    }
}

fn elide_title(title: &str) -> (result: String)
    ensures
        result@ == elided(title@),
{
    let mut chars = chars_of(title);
    if chars.len() <= MAX_TITLE_CHARS {
        return string_of(&chars);
    }
    chars.truncate(MAX_TITLE_CHARS);
    assert(chars@ =~= title@.take(MAX_TITLE_CHARS as int));
    let mut out = string_of(&chars);
    out.append("...");
    out
}

/// A length in pixels at a scale of so many parts of 120: rounded up, and at least one.
pub open spec fn bar_length(value: u16, scale_120: u32) -> u32 {
    let product = if value * scale_120 <= u32::MAX {
        (value * scale_120) as u32
    } else {
        u32::MAX
    };
    let length = sum32(product, 119) / 120;
    if length >= 1 {
        length
    } else {
        1
    }
}

fn bar_pixels(value: u16, scale_120: u32) -> (result: u32)
    ensures
        result == bar_length(value, scale_120),
{
    let product: u32 = match (value as u32).checked_mul(scale_120) {
        Some(product) => product,
        None => u32::MAX,
    };
    let length: u32 = product.saturating_add(119) / 120;
    if length >= 1 {
        length
    } else {
        1
    }
}

/// How the items of a bar are placed: so many tabs in a viewport of so many pixels, each at least
/// so wide.
pub struct BarModel {
    pub count: u32,
    pub width: u32,
    pub min_width: u32,
}

impl BarModel {
    /// A product that stops at the largest `u32`.
    pub open spec fn capped(a: int, b: int) -> u32 {
        if a * b <= u32::MAX {
            (a * b) as u32
        } else {
            u32::MAX
        }
    }

    /// All tabs fit the viewport, so they share it.
    pub open spec fn fills(self) -> bool {
        BarModel::capped(self.min_width as int, self.count as int) <= self.width
    }

    pub open spec fn start(self, index: int) -> u32 {
        if self.fills() {
            (self.width * index / self.count as int) as u32
        } else {
            BarModel::capped(index, self.min_width as int)
        }
    }

    pub open spec fn end(self, index: int) -> u32 {
        if self.fills() {
            (self.width * (index + 1) / self.count as int) as u32
        } else {
            sum32(self.start(index), self.min_width)
        }
    }

    pub open spec fn max_offset(self) -> u32 {
        if self.fills() {
            0
        } else {
            diff32(BarModel::capped(self.min_width as int, self.count as int), self.width)
        }
    }

    /// How far the bar is scrolled: as requested, but so that the active tab is in view.
    pub open spec fn offset(self, requested: u32, active: int) -> u32 {
        let wanted = min32(requested, self.max_offset());
        let left = if self.start(active) < wanted {
            self.start(active)
        } else {
            wanted
        };
        if self.end(active) > sum32(left, self.width) {
            min32(diff32(self.end(active), self.width), self.max_offset())
        } else {
            left
        }
    }

    /// The columns of an item that are in view, if any are.
    pub open spec fn shown(self, index: int, offset: u32) -> Option<(u32, u32)> {
        let start = if self.start(index) >= offset {
            self.start(index)
        } else {
            offset
        };
        let end = min32(self.end(index), sum32(offset, self.width));
        if start < end {
            Some(((start - offset) as u32, (end - start) as u32))
        } else {
            None
        }
    }
}

/// The size of the target that closes a tab.
pub open spec fn close_size(height: u32) -> u32 {
    let three = if height * 3 <= u32::MAX {
        (height * 3) as int
    } else {
        u32::MAX as int
    };
    let size = ((three + 3) / 4) as u32;
    min32(
        if size >= 16 {
            size
        } else {
            16
        },
        height,
    )
}

/// The target that closes a tab, where the tab is wide enough for one.
pub open spec fn close_target(rect: PixelRect, enabled: bool) -> Option<PixelRect> {
    let size = close_size(rect.height);
    if enabled && rect.width >= sum32(size, 32) {
        Some(
            PixelRect {
                x: diff32(sum32(rect.x, rect.width), sum32(size, 4)),
                y: ((rect.height - size) / 2) as u32,
                width: size,
                height: size,
            },
        )
    } else {
        None
    }
}

fn close_rect(rect: PixelRect, enabled: bool) -> (result: Option<PixelRect>)
    ensures
        result == close_target(rect, enabled),
{
    let three: u64 = match rect.height.checked_mul(3) {
        Some(three) => three as u64,
        None => u32::MAX as u64,
    };
    let quarter: u32 = ((three + 3) / 4) as u32;
    let size: u32 = lesser(
        if quarter >= 16 {
            quarter
        } else {
            16
        },
        rect.height,
    );
    if enabled && rect.width >= size.saturating_add(32) {
        Some(
            PixelRect {
                x: rect.x.saturating_add(rect.width).saturating_sub(size.saturating_add(4)),
                y: (rect.height - size) / 2,
                width: size,
                height: size,
            },
        )
    } else {
        None
    }
}

/// What the bar shows of the first `n` tabs.
pub open spec fn items_of<R>(
    m: TabsModel<R>,
    bar: BarModel,
    offset: u32,
    height: u32,
    close: bool,
    n: int,
) -> Seq<ItemModel>
    decreases n,
{
    if n <= 0 {
        Seq::empty()
    } else {
        let before = items_of(m, bar, offset, height, close, n - 1);
        match bar.shown(n - 1, offset) {
            None => before,
            Some((x, width)) => {
                let tab = m.tabs[n - 1];
                let rect = PixelRect { x, y: 0, width, height };
                before.push(
                    ItemModel {
                        id: tab.id,
                        title: elided(tab.title@),
                        rect,
                        close_rect: close_target(rect, close),
                        active: m.active == Some(tab.id),
                        unread: tab.unread,
                        attention: tab.attention,
                        bell_muted: tab.bell_muted,
                        drag_offset_x: 0,
                    },
                )
            },
        }
    }
}

/// Whether the bar is shown.
pub open spec fn bar_visible(visibility: TabBarVisibility, count: int) -> bool {
    match visibility {
        TabBarVisibility::Always => count >= 1,
        TabBarVisibility::Multiple => count >= 2,
        TabBarVisibility::Never => false,
    }
}

proof fn shared_bounds(bar: BarModel, index: int)
    requires
        bar.count > 0,
        0 <= index < bar.count,
        bar.fills(),
    ensures
        0 <= bar.width * index / bar.count as int <= bar.width * (index + 1) / bar.count as int
            <= bar.width,
        bar.width * (index + 1) <= u32::MAX * u32::MAX,
{
    let c = bar.count as int;
    let w = bar.width as int;
    assert(w * index <= w * (index + 1) <= w * c) by (nonlinear_arith)
        requires
            0 <= w,
            0 <= index < c,
    ;
    assert(w * (index + 1) <= u32::MAX * u32::MAX) by (nonlinear_arith)
        requires
            0 <= w <= u32::MAX,
            0 <= index < c <= u32::MAX,
    ;
    assert(0 <= w * index) by (nonlinear_arith)
        requires
            0 <= w,
            0 <= index,
    ;
    vstd::arithmetic::div_mod::lemma_div_is_ordered(w * index, w * (index + 1), c);
    vstd::arithmetic::div_mod::lemma_div_is_ordered(w * (index + 1), w * c, c);
    vstd::arithmetic::div_mod::lemma_div_multiples_vanish(w, c);
    vstd::arithmetic::mul::lemma_mul_is_commutative(w, c);
    vstd::arithmetic::div_mod::lemma_div_pos_is_pos(w * index, c);
}

fn capped_mul(a: u32, b: u32) -> (result: u32)
    ensures
        result == BarModel::capped(a as int, b as int),
{
    match a.checked_mul(b) {
        Some(product) => product,
        None => u32::MAX,
    }
}

fn item_bounds(count: u32, width: u32, min_width: u32, index: u32) -> (result: (u32, u32))
    requires
        0 <= index < count,
    ensures
        ({
            let bar = BarModel { count, width, min_width };
            result.0 == bar.start(index as int) && result.1 == bar.end(index as int)
        }),
{
    let ghost bar = BarModel { count, width, min_width };
    if capped_mul(min_width, count) <= width {
        proof {
            shared_bounds(bar, index as int);
            assert(width * index <= width * (index + 1)) by (nonlinear_arith)
                requires
                    0 <= width,
            ;
        }
        let start: u64 = width as u64 * index as u64 / count as u64;
        let end: u64 = width as u64 * (index as u64 + 1) / count as u64;
        (start as u32, end as u32)
    } else {
        let start: u32 = capped_mul(index, min_width);
        (start, start.saturating_add(min_width))
    }
}

/// How far a tab has been dragged.
#[derive(Clone, Copy, Debug, PartialEq, Eq, Structural)]
pub enum TabDragPhase {
    Armed,
    Dragging,
}

impl TabBarPresentation {
    /// Lays the bar out. Tabs share the viewport where they fit it at their smallest width; else
    /// they keep that width and the bar is scrolled, with the active tab in view.
    pub fn layout<R>(
        manager: &TabManager<R>,
        viewport_width: u32,
        scale_120: u32,
        config: &TabsConfig,
        requested_offset: u32,
    ) -> (result: TabBarPresentation)
        requires
            manager@.wf(),
        ensures
            ({
                let m = manager@;
                let height = bar_length(config.bar_height, scale_120);
                let bar = BarModel {
                    count: m.tabs.len() as u32,
                    width: viewport_width,
                    min_width: bar_length(config.min_width, scale_120),
                };
                let active = match m.active_index() {
                    Some(i) => i,
                    None => 0,
                };
                if !bar_visible(config.visibility, m.tabs.len() as int) {
                    result.bar is None && result.items@.len() == 0 && result.max_offset == 0
                        && result.offset == 0
                } else {
                    &&& result.bar == Some(
                        PixelRect { x: 0, y: 0, width: viewport_width, height },
                    )
                    &&& result.max_offset == bar.max_offset()
                    &&& result.offset == bar.offset(requested_offset, active)
                    &&& items_view(result.items@) == items_of(
                        m,
                        bar,
                        result.offset,
                        height,
                        config.show_close_button,
                        m.tabs.len() as int,
                    )
                }
            }),
    {
        let len: usize = manager.tabs.len();
        let visible = match config.visibility {
            TabBarVisibility::Always => len >= 1,
            TabBarVisibility::Multiple => len >= 2,
            TabBarVisibility::Never => false,
        };
        if !visible {
            return TabBarPresentation { bar: None, items: Vec::new(), max_offset: 0, offset: 0 };
        }
        let height: u32 = bar_pixels(config.bar_height, scale_120);
        let min_width: u32 = bar_pixels(config.min_width, scale_120);
        let count: u32 = len as u32;
        let ghost bar = BarModel { count, width: viewport_width, min_width };
        let total: u32 = capped_mul(min_width, count);
        let max_offset: u32 = if total <= viewport_width {
            0
        } else {
            total.saturating_sub(viewport_width)
        };
        let active: u32 = match manager.active_index() {
            Some(i) => i as u32,
            None => 0,
        };
        let (active_start, active_end) = item_bounds(count, viewport_width, min_width, active);
        let mut offset: u32 = lesser(requested_offset, max_offset);
        if active_start < offset {
            offset = active_start;
        }
        if active_end > offset.saturating_add(viewport_width) {
            offset = lesser(active_end.saturating_sub(viewport_width), max_offset);
        }
        let mut items: Vec<TabBarItem> = Vec::new();
        let mut i: usize = 0;
        assert(items_view(items@) =~= Seq::empty());
        while i < len
            invariant
                i <= len,
                len == manager@.tabs.len(),
                len <= 255,
                count == len,
                bar == (BarModel { count, width: viewport_width, min_width }),
                items_view(items@) == items_of(
                    manager@,
                    bar,
                    offset,
                    height,
                    config.show_close_button,
                    i as int,
                ),
            decreases len - i,
        {
            let tab = &manager.tabs[i];
            let (logical_start, logical_end) = item_bounds(
                count,
                viewport_width,
                min_width,
                i as u32,
            );
            let start: u32 = if logical_start >= offset {
                logical_start
            } else {
                offset
            };
            let end: u32 = lesser(logical_end, offset.saturating_add(viewport_width));
            let ghost before = items@;
            if start < end {
                let rect = PixelRect { x: start - offset, y: 0, width: end - start, height };
                let is_active = match manager.active_id {
                    Some(id) => id == tab.id,
                    None => false,
                };
                items.push(
                    TabBarItem {
                        id: tab.id,
                        title: elide_title(tab.title.as_str()),
                        rect,
                        close_rect: close_rect(rect, config.show_close_button),
                        active: is_active,
                        unread: tab.unread,
                        attention: tab.attention,
                        bell_muted: tab.bell_muted,
                        drag_offset_x: 0,
                    },
                );
                assert(items_view(items@) =~= items_view(before).push(items@.last()@));
            }
            i += 1;
        }
        TabBarPresentation {
            bar: Some(PixelRect { x: 0, y: 0, width: viewport_width, height }),
            items,
            max_offset,
            offset,
        }
    }

    /// The tab at a point, and whether the point is on its closing target.
    pub fn hit(&self, point: [u32; 2]) -> (result: Option<(SessionId, bool)>)
        ensures
            result == hit_item(self.items@, point@[0], point@[1], 0),
    {
        let mut i: usize = 0;
        while i < self.items.len()
            invariant
                i <= self.items@.len(),
                hit_item(self.items@, point@[0], point@[1], 0) == hit_item(
                    self.items@,
                    point@[0],
                    point@[1],
                    i as int,
                ),
            decreases self.items@.len() - i,
        {
            if self.items[i].rect.contains(point) {
                let close = match self.items[i].close_rect {
                    Some(rect) => rect.contains(point),
                    None => false,
                };
                return Some((self.items[i].id, close));
            }
            i += 1;
        }
        None
    }

    /// The place to which a tab would move if it were dropped at a column: that of the first item
    /// whose middle lies to the right, or of the last item.
    pub fn proposed_index<R>(&self, manager: &TabManager<R>, x: u32) -> (result: Option<usize>)
        ensures
            match drop_item(self.items@, x, 0) {
                None => result is None,
                Some(k) => match index_of(manager@.tabs, self.items@[k].id) {
                    Some(i) => result is Some && result->0 == i,
                    None => result is None,
                },
            },
    {
        let len: usize = self.items.len();
        if len == 0 {
            return None;
        }
        let mut i: usize = 0;
        while i < len
            invariant
                i <= len,
                len == self.items@.len(),
                drop_item(self.items@, x, 0) == drop_item(self.items@, x, i as int),
            decreases len - i,
        {
            let rect = self.items[i].rect;
            if x < rect.x.saturating_add(rect.width / 2) {
                return position(&manager.tabs, self.items[i].id);
            }
            i += 1;
        }
        position(&manager.tabs, self.items[len - 1].id)
    }

    /// Shows the label of one tab moved by so many pixels.
    pub fn apply_drag_preview(&mut self, session: SessionId, offset_x: i32)
        ensures
            final(self).bar == old(self).bar,
            final(self).max_offset == old(self).max_offset,
            final(self).offset == old(self).offset,
            match first_item(old(self).items@, session, 0) {
                None => final(self).items@ == old(self).items@,
                Some(k) => final(self).items@ == old(self).items@.update(
                    k,
                    TabBarItem { drag_offset_x: offset_x, ..old(self).items@[k] },
                ),
            },
    {
        let mut i: usize = 0;
        while i < self.items.len()
            invariant
                i <= self.items@.len(),
                *self == *old(self),
                first_item(self.items@, session, 0) == first_item(self.items@, session, i as int),
            decreases self.items@.len() - i,
        {
            if self.items[i].id == session {
                self.items[i].drag_offset_x = offset_x;
                assert(self.items@ =~= old(self).items@.update(
                    i as int,
                    TabBarItem { drag_offset_x: offset_x, ..old(self).items@[i as int] },
                ));
                return ;
            }
            i += 1;
        }
    }
}

/// The first item from `from` on that holds a point.
pub open spec fn hit_item(items: Seq<TabBarItem>, x: u32, y: u32, from: int) -> Option<
    (SessionId, bool),
>
    decreases items.len() - from,
{
    if from >= items.len() {
        None
    } else if items[from].rect.holds(x, y) {
        Some(
            (
                items[from].id,
                items[from].close_rect is Some && items[from].close_rect->0.holds(x, y),
            ),
        )
    } else {
        hit_item(items, x, y, from + 1)
    }
}

/// The first item from `from` on whose middle lies to the right of a column, or the last item.
pub open spec fn drop_item(items: Seq<TabBarItem>, x: u32, from: int) -> Option<int>
    decreases items.len() - from,
{
    if items.len() == 0 {
        None
    } else if from >= items.len() {
        Some(items.len() - 1)
    } else if x < sum32(items[from].rect.x, items[from].rect.width / 2) {
        Some(from)
    } else {
        drop_item(items, x, from + 1)
    }
}

/// The first item of a tab from `from` on.
pub open spec fn first_item(items: Seq<TabBarItem>, id: SessionId, from: int) -> Option<int>
    decreases items.len() - from,
{
    if from >= items.len() {
        None
    } else if items[from].id == id {
        Some(from)
    } else {
        first_item(items, id, from + 1)
    }
}

/// Tabs that share the bar cover it from end to end without gaps or overlaps, and the bar is not
/// scrolled.
pub proof fn shared_bar_is_covered(bar: BarModel, index: int, requested: u32, active: int)
    requires
        bar.count > 0,
        bar.fills(),
        0 <= index < bar.count,
        0 <= active < bar.count,
    ensures
        bar.start(0) == 0,
        bar.end(bar.count - 1) == bar.width,
        bar.start(index) <= bar.end(index),
        index + 1 < bar.count ==> bar.end(index) == bar.start(index + 1),
        bar.max_offset() == 0,
        bar.offset(requested, active) == 0,
{
    shared_bounds(bar, index);
    shared_bounds(bar, active);
    let c = bar.count as int;
    let w = bar.width as int;
    assert(w * 0 == 0);
    vstd::arithmetic::div_mod::lemma_div_multiples_vanish(w, c);
    vstd::arithmetic::mul::lemma_mul_is_commutative(w, c);
    assert(0int / c == 0) by (nonlinear_arith)
        requires
            c > 0,
    ;
}

/// In a bar that is scrolled, the active tab is in view from end to end if the viewport can hold
/// it at all, and the bar is never scrolled past its end.
pub proof fn active_tab_is_in_view(bar: BarModel, requested: u32, active: int)
    requires
        bar.count > 0,
        !bar.fills(),
        0 <= active < bar.count,
        bar.min_width <= bar.width,
        bar.min_width * bar.count <= u32::MAX,
    ensures
        ({
            let offset = bar.offset(requested, active);
            &&& offset <= bar.max_offset()
            &&& offset <= bar.start(active)
            &&& bar.end(active) <= offset + bar.width
        }),
{
    let c = bar.count as int;
    let w = bar.min_width as int;
    assert(active * w + w <= w * c) by (nonlinear_arith)
        requires
            0 <= active < c,
            0 <= w,
    ;
    assert(0 <= active * w) by (nonlinear_arith)
        requires
            0 <= active,
            0 <= w,
    ;
}

/// Every item lies inside the bar, and its closing target lies inside it.
pub proof fn items_lie_in_the_bar<R>(
    m: TabsModel<R>,
    bar: BarModel,
    offset: u32,
    height: u32,
    close: bool,
    n: int,
    k: int,
)
    requires
        0 <= k < items_of(m, bar, offset, height, close, n).len(),
        offset + bar.width <= u32::MAX,
    ensures
        ({
            let item = items_of(m, bar, offset, height, close, n)[k];
            &&& item.rect.x + item.rect.width <= bar.width
            &&& item.rect.width > 0
            &&& item.rect.height == height
            &&& item.close_rect is Some ==> {
                let target = item.close_rect->0;
                &&& item.rect.x <= target.x
                &&& target.x + target.width <= item.rect.x + item.rect.width
                &&& target.y + target.height <= height
            }
        }),
    decreases n,
{
    if n > 0 {
        let before = items_of(m, bar, offset, height, close, n - 1);
        if k < before.len() {
            items_lie_in_the_bar(m, bar, offset, height, close, n - 1, k);
        }
    }
}

} // verus!
