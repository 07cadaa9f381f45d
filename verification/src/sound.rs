//! When the bell of a tab may sound.
use vstd::prelude::*;
use crate::tab::SessionId;
use crate::time::Instant;

verus! {

/// How long a tab's bell stays silent after it sounded, in nanoseconds.
pub const SESSION_COOLDOWN: u64 = 250_000_000;

/// A tab whose bell sounded.
#[derive(Clone, Copy, Debug, PartialEq, Eq, Structural)]
pub struct Played {
    pub session: SessionId,
    pub at: Instant,
}

/// Which bells sounded lately.
#[derive(Debug)]
pub struct SoundCooldown {
    played: Vec<Played>,
}

impl View for SoundCooldown {
    type V = Seq<Played>;

    closed spec fn view(&self) -> Seq<Played> {
        self.played@
    }
}

/// Whether a bell sounded so lately that another one is silent.
pub open spec fn is_recent(played: Played, now: Instant) -> bool {
    now.nanos - played.at.nanos < SESSION_COOLDOWN
}

/// The bells that sounded lately.
pub open spec fn recent(played: Seq<Played>, now: Instant) -> Seq<Played>
    decreases played.len(),
{
    if played.len() == 0 {
        Seq::empty()
    } else if is_recent(played.last(), now) {
        recent(played.drop_last(), now).push(played.last())
    } else {
        recent(played.drop_last(), now)
    }
}

/// The bells of other tabs.
pub open spec fn without(played: Seq<Played>, session: SessionId) -> Seq<Played>
    decreases played.len(),
{
    if played.len() == 0 {
        Seq::empty()
    } else if played.last().session == session {
        without(played.drop_last(), session)
    } else {
        without(played.drop_last(), session).push(played.last())
    }
}

/// Whether the bell of a tab sounded.
pub open spec fn sounded(played: Seq<Played>, session: SessionId) -> bool {
    exists|i: int| 0 <= i < played.len() && (#[trigger] played[i]).session == session
}

impl SoundCooldown {
    pub fn new() -> (result: SoundCooldown)
        ensures
            result@ == Seq::<Played>::empty(),
    {
        let result = SoundCooldown { played: Vec::new() };
        assert(result@ =~= Seq::empty());
        result
    }

    /// Whether the bell of a tab may sound at `now`. What is no longer recent is forgotten.
    pub fn may_play(&mut self, session: SessionId, now: Instant) -> (result: bool)
        ensures
            final(self)@ == recent(old(self)@, now),
            result == !sounded(recent(old(self)@, now), session),
    {
        let mut kept: Vec<Played> = Vec::new();
        let mut silent = false;
        let mut i: usize = 0;
        let ghost all = self.played@;
        assert(all.take(0) =~= Seq::empty());
        assert(kept@ =~= Seq::empty());
        while i < self.played.len()
            invariant
                i <= self.played@.len(),
                all == self.played@,
                kept@ == recent(all.take(i as int), now),
                silent == sounded(kept@, session),
            decreases self.played@.len() - i,
        {
            let played = self.played[i];
            assert(all.take(i + 1).drop_last() =~= all.take(i as int));
            if now.saturating_duration_since(played.at).nanos < SESSION_COOLDOWN {
                let ghost before = kept@;
                kept.push(played);
                proof {
                    if sounded(before, session) {
                        let k = choose|k: int|
                            0 <= k < before.len() && (#[trigger] before[k]).session == session;
                        assert(kept@[k].session == session);
                    }
                    if played.session == session {
                        assert(kept@[before.len() as int].session == session);
                    }
                    if sounded(kept@, session) && played.session != session {
                        let k = choose|k: int|
                            0 <= k < kept@.len() && (#[trigger] kept@[k]).session == session;
                        assert(before[k].session == session);
                    }
                }
                if played.session == session {
                    silent = true;
                }
            }
            i += 1;
        }
        assert(all.take(i as int) =~= all);
        self.played = kept;
        !silent
    }

    /// The bell of a tab sounded at `now`.
    pub fn record(&mut self, session: SessionId, now: Instant)
        ensures
            final(self)@ == without(old(self)@, session).push(Played { session, at: now }),
    {
        self.forget(session);
        self.played.push(Played { session, at: now });
    }

    /// The tab is gone.
    pub fn forget(&mut self, session: SessionId)
        ensures
            final(self)@ == without(old(self)@, session),
    {
        let mut kept: Vec<Played> = Vec::new();
        let mut i: usize = 0;
        let ghost all = self.played@;
        assert(all.take(0) =~= Seq::empty());
        assert(kept@ =~= Seq::empty());
        while i < self.played.len()
            invariant
                i <= self.played@.len(),
                all == self.played@,
                kept@ == without(all.take(i as int), session),
            decreases self.played@.len() - i,
        {
            assert(all.take(i + 1).drop_last() =~= all.take(i as int));
            if self.played[i].session != session {
                kept.push(self.played[i]);
            }
            i += 1;
        }
        assert(all.take(i as int) =~= all);
        self.played = kept;
    }
}

/// Right after the bell of a tab sounded, it stays silent until the cooldown is over.
pub proof fn a_bell_cools_down(played: Seq<Played>, session: SessionId, at: Instant, now: Instant)
    requires
        now.nanos >= at.nanos,
    ensures
        now.nanos - at.nanos < SESSION_COOLDOWN ==> sounded(
            recent(without(played, session).push(Played { session, at }), now),
            session,
        ),
        now.nanos - at.nanos >= SESSION_COOLDOWN ==> !sounded(
            recent(without(played, session).push(Played { session, at }), now),
            session,
        ),
{
    let others = without(played, session);
    let all = others.push(Played { session, at });
    assert(all.drop_last() =~= others);
    without_has_none(played, session);
    recent_of_others(others, session, now);
    if now.nanos - at.nanos < SESSION_COOLDOWN {
        let kept = recent(all, now);
        assert(kept.last().session == session);
        assert(kept[kept.len() - 1].session == session);
    }
}

proof fn without_has_none(played: Seq<Played>, session: SessionId)
    ensures
        !sounded(without(played, session), session),
    decreases played.len(),
{
    if played.len() > 0 {
        without_has_none(played.drop_last(), session);
        let before = without(played.drop_last(), session);
        let all = without(played, session);
        assert forall|i: int| 0 <= i < all.len() implies (#[trigger] all[i]).session != session by {
            if i < before.len() {
                assert(all[i] == before[i]);
            }
        }
    }
}

proof fn recent_of_others(played: Seq<Played>, session: SessionId, now: Instant)
    requires
        !sounded(played, session),
    ensures
        !sounded(recent(played, now), session),
    decreases played.len(),
{
    if played.len() > 0 {
        let init = played.drop_last();
        assert forall|i: int| 0 <= i < init.len() implies (#[trigger] init[i]).session != session by {
            assert(played[i].session != session);
        }
        recent_of_others(init, session, now);
        let before = recent(init, now);
        let all = recent(played, now);
        assert(played[played.len() - 1].session != session);
        assert forall|i: int| 0 <= i < all.len() implies (#[trigger] all[i]).session != session by {
            if i < before.len() {
                assert(all[i] == before[i]);
            }
        }
    }
}

proof fn sounded_lately(played: Seq<Played>, session: SessionId, now: Instant)
    ensures
        sounded(recent(played, now), session) <==> exists|i: int|
            0 <= i < played.len() && (#[trigger] played[i]).session == session && is_recent(
                played[i],
                now,
            ),
    decreases played.len(),
{
    if played.len() > 0 {
        let init = played.drop_last();
        let last = played.last();
        sounded_lately(init, session, now);
        let before = recent(init, now);
        let all = recent(played, now);
        if sounded(before, session) {
            let k = choose|k: int| 0 <= k < before.len() && (#[trigger] before[k]).session == session;
            assert(all[k].session == session);
            let i = choose|i: int|
                0 <= i < init.len() && (#[trigger] init[i]).session == session && is_recent(
                    init[i],
                    now,
                );
            assert(played[i].session == session && is_recent(played[i], now));
        }
        if last.session == session && is_recent(last, now) {
            assert(all[before.len() as int].session == session);
            assert(played[played.len() - 1].session == session);
        }
        if sounded(all, session) && !sounded(before, session) {
            let k = choose|k: int| 0 <= k < all.len() && (#[trigger] all[k]).session == session;
            if k < before.len() {
                assert(before[k].session == session);
            }
            assert(played[played.len() - 1].session == session);
        }
        if exists|i: int|
            0 <= i < played.len() && (#[trigger] played[i]).session == session && is_recent(
                played[i],
                now,
            ) {
            let i = choose|i: int|
                0 <= i < played.len() && (#[trigger] played[i]).session == session && is_recent(
                    played[i],
                    now,
                );
            if i < init.len() {
                assert(init[i].session == session);
            }
        }
    }
}

proof fn others_stay(played: Seq<Played>, session: SessionId, other: SessionId, now: Instant)
    requires
        other != session,
    ensures
        sounded(recent(without(played, session), now), other) == sounded(
            recent(played, now),
            other,
        ),
    decreases played.len(),
{
    if played.len() > 0 {
        let init = played.drop_last();
        let last = played.last();
        others_stay(init, session, other, now);
        sounded_lately(init, other, now);
        sounded_lately(played, other, now);
        let kept = without(init, session);
        if last.session != session {
            let all = without(played, session);
            assert(all.drop_last() =~= kept);
            one_more_sounded(kept, last, other, now);
        }
        assert(played =~= init.push(last));
        one_more_sounded(init, last, other, now);
    }
}

proof fn one_more_sounded(played: Seq<Played>, last: Played, session: SessionId, now: Instant)
    ensures
        sounded(recent(played.push(last), now), session) == (sounded(recent(played, now), session)
            || last.session == session && is_recent(last, now)),
{
    let all = played.push(last);
    sounded_lately(played, session, now);
    sounded_lately(all, session, now);
    assert(all[played.len() as int] == last);
    if exists|i: int|
        0 <= i < played.len() && (#[trigger] played[i]).session == session && is_recent(
            played[i],
            now,
        ) {
        let i = choose|i: int|
            0 <= i < played.len() && (#[trigger] played[i]).session == session && is_recent(
                played[i],
                now,
            );
        assert(all[i].session == session);
    }
    if exists|i: int|
        0 <= i < all.len() && (#[trigger] all[i]).session == session && is_recent(all[i], now) {
        let i = choose|i: int|
            0 <= i < all.len() && (#[trigger] all[i]).session == session && is_recent(all[i], now);
        if i < played.len() {
            assert(played[i].session == session);
        }
    }
}

/// A bell keeps its own tab silent for a quarter of a second and no other: a bell of another tab, or
/// the end of another tab, changes nothing for it.
pub proof fn a_bell_silences_its_own_tab(
    played: Seq<Played>,
    session: SessionId,
    other: SessionId,
    at: Instant,
    now: Instant,
)
    requires
        now.nanos >= at.nanos,
        other != session,
    ensures
        sounded(recent(without(played, session).push(Played { session, at }), now), session)
            <==> now.nanos - at.nanos < 250_000_000,
        sounded(recent(without(played, session).push(Played { session, at }), now), other)
            == sounded(recent(played, now), other),
        sounded(recent(without(played, session), now), other) == sounded(
            recent(played, now),
            other,
        ),
        !sounded(recent(without(played, session), now), session),
{
    a_bell_cools_down(played, session, at, now);
    others_stay(played, session, other, now);
    one_more_sounded(without(played, session), Played { session, at }, other, now);
    without_has_none(played, session);
    let left = without(played, session);
    sounded_lately(left, session, now);
}

} // verus!
