//! What happens when the bell rings.
use vstd::prelude::*;
use crate::config::BellConfig;
use crate::tab::SessionId;
use crate::time::{Duration, Instant};

verus! {

/// The longest time for which a burst of bells is shown, in nanoseconds, unless one bell alone is
/// shown longer.
pub const VISUAL_BURST_CAP: u64 = 240_000_000;

#[derive(Clone, Copy, Debug, PartialEq, Eq, Structural)]
pub struct BellContext {
    pub session_id: SessionId,
    pub active: bool,
    pub window_focused: bool,
    pub muted: bool,
    pub session_effects_allowed: bool,
}

#[derive(Clone, Copy, Debug, PartialEq, Eq, Structural)]
pub struct BellEffects {
    pub record_attention_episode: bool,
    pub show_attention_marker: bool,
    pub schedule_visual: bool,
    pub enqueue_sound: bool,
    pub enqueue_notification: bool,
}

impl BellEffects {
    pub open spec fn none() -> BellEffects {
        BellEffects {
            record_attention_episode: false,
            show_attention_marker: false,
            schedule_visual: false,
            enqueue_sound: false,
            enqueue_notification: false,
        }
    }
}

impl Default for BellEffects {
    fn default() -> (result: BellEffects)
        ensures
            result == BellEffects::none(),
    {
        BellEffects {
            record_attention_episode: false,
            show_attention_marker: false,
            schedule_visual: false,
            enqueue_sound: false,
            enqueue_notification: false,
        }
    }
}

/// What a bell does. One that the user sees and hears flashes and sounds; one in the background
/// asks for attention.
pub open spec fn effects_of(context: BellContext, config: BellConfig) -> BellEffects {
    if !config.enabled || context.muted || !context.session_effects_allowed {
        BellEffects::none()
    } else if context.active && context.window_focused {
        BellEffects {
            schedule_visual: config.visual,
            enqueue_sound: config.audible,
            ..BellEffects::none()
        }
    } else {
        BellEffects {
            record_attention_episode: true,
            show_attention_marker: config.attention,
            schedule_visual: false,
            enqueue_sound: config.audible && (context.window_focused
                || config.audible_when_unfocused),
            enqueue_notification: config.desktop_notifications,
        }
    }
}

/// Decides what a bell does.
pub fn decide(context: BellContext, config: &BellConfig) -> (result: BellEffects)
    ensures
        result == effects_of(context, *config),
{
    if !config.enabled || context.muted || !context.session_effects_allowed {
        return BellEffects::default();
    }
    if context.active && context.window_focused {
        return BellEffects {
            record_attention_episode: false,
            show_attention_marker: false,
            schedule_visual: config.visual,
            enqueue_sound: config.audible,
            enqueue_notification: false,
        };
    }
    BellEffects {
        record_attention_episode: true,
        show_attention_marker: config.attention,
        schedule_visual: false,
        enqueue_sound: config.audible && (context.window_focused || config.audible_when_unfocused),
        enqueue_notification: config.desktop_notifications,
    }
}

/// A flash is for what the user looks at, attention for what they do not: no bell asks for both,
/// and a bell that is muted or switched off does nothing.
pub proof fn attention_and_flash_are_separate(context: BellContext, config: BellConfig)
    ensures
        ({
            let effects = effects_of(context, config);
            &&& !(effects.schedule_visual && effects.record_attention_episode)
            &&& effects.show_attention_marker || effects.enqueue_notification
                ==> effects.record_attention_episode
            &&& context.muted || !config.enabled ==> effects == BellEffects::none()
        }),
{
}

/// The flash that is shown.
#[derive(Clone, Copy, Debug, PartialEq, Eq, Structural)]
pub struct VisualBellState {
    pub owner: Option<SessionId>,
    pub burst_started_at: Option<Instant>,
    pub visible_until: Option<Instant>,
}

/// The instant one span later, if the clock can show it.
pub open spec fn later(at: Instant, span: Duration) -> Option<Instant> {
    if at.can_add(span) {
        Some(Instant { nanos: (at.nanos + span.nanos) as u64 })
    } else {
        None
    }
}

impl VisualBellState {
    pub open spec fn none() -> VisualBellState {
        VisualBellState { owner: None, burst_started_at: None, visible_until: None }
    }

    /// Whether a bell at `now` belongs to the burst that is shown.
    pub open spec fn in_burst(self, owner: SessionId, now: Instant) -> bool {
        self.owner == Some(owner) && self.visible_until is Some && self.visible_until->0.nanos
            > now.nanos && self.burst_started_at is Some
    }

    /// The flash after a bell at `now`. A burst goes on, but not past its cap.
    pub open spec fn after(self, owner: SessionId, now: Instant, duration: Duration) -> VisualBellState {
        let started = if self.in_burst(owner, now) {
            self.burst_started_at->0
        } else {
            now
        };
        let cap = Duration {
            nanos: if duration.nanos >= VISUAL_BURST_CAP {
                duration.nanos
            } else {
                VISUAL_BURST_CAP
            },
        };
        VisualBellState {
            owner: Some(owner),
            burst_started_at: Some(started),
            visible_until: Some(
                match (later(now, duration), later(started, cap)) {
                    (Some(requested), Some(maximum)) => if requested.nanos <= maximum.nanos {
                        requested
                    } else {
                        maximum
                    },
                    (Some(deadline), None) => deadline,
                    (None, Some(deadline)) => deadline,
                    (None, None) => now,
                },
            ),
        }
    }

    /// Shows a bell at `now` for a while.
    pub fn schedule(&mut self, owner: SessionId, now: Instant, duration: Duration)
        ensures
            *final(self) == old(self).after(owner, now, duration),
    {
        let same_owner = match self.owner {
            Some(id) => id == owner,
            None => false,
        };
        let showing = match self.visible_until {
            Some(deadline) => deadline.nanos > now.nanos,
            None => false,
        };
        let started = match self.burst_started_at {
            Some(started) => if same_owner && showing {
                started
            } else {
                now
            },
            None => now,
        };
        let cap = Duration {
            nanos: if duration.nanos >= VISUAL_BURST_CAP {
                duration.nanos
            } else {
                VISUAL_BURST_CAP
            },
        };
        let requested = now.checked_add(duration);
        let maximum = started.checked_add(cap);
        self.owner = Some(owner);
        self.burst_started_at = Some(started);
        self.visible_until =
        Some(
            match (requested, maximum) {
                (Some(requested), Some(maximum)) => if requested.nanos <= maximum.nanos {
                    requested
                } else {
                    maximum
                },
                (Some(deadline), None) => deadline,
                (None, Some(deadline)) => deadline,
                (None, None) => now,
            },
        );
    }

    /// Whether the flash of a tab is shown at `now`.
    pub fn active_for(&self, owner: SessionId, now: Instant) -> (result: bool)
        ensures
            result == (self.owner == Some(owner) && self.visible_until is Some
                && self.visible_until->0.nanos > now.nanos),
    {
        let same_owner = match self.owner {
            Some(id) => id == owner,
            None => false,
        };
        match self.visible_until {
            Some(deadline) => same_owner && deadline.nanos > now.nanos,
            None => false,
        }
    }

    /// Ends a flash whose time is over. Tells whether it did.
    pub fn expire(&mut self, now: Instant) -> (result: bool)
        ensures
            result == (old(self).visible_until is Some && old(self).visible_until->0.nanos
                <= now.nanos),
            *final(self) == (if result {
                VisualBellState::none()
            } else {
                *old(self)
            }),
    {
        let over = match self.visible_until {
            Some(deadline) => deadline.nanos <= now.nanos,
            None => false,
        };
        if over {
            self.cancel();
        }
        over
    }

    pub fn cancel(&mut self)
        ensures
            *final(self) == VisualBellState::none(),
    {
        self.owner = None;
        self.burst_started_at = None;
        self.visible_until = None;
    }

    pub fn deadline(&self) -> (result: Option<Instant>)
        ensures
            result == self.visible_until,
    {
        self.visible_until
    }
}

impl Default for VisualBellState {
    fn default() -> (result: VisualBellState)
        ensures
            result == VisualBellState::none(),
    {
        VisualBellState { owner: None, burst_started_at: None, visible_until: None }
    }
}

/// The flash after bells of one tab at the given times, each for the same duration.
pub open spec fn rung(
    state: VisualBellState,
    owner: SessionId,
    times: Seq<Instant>,
    duration: Duration,
) -> VisualBellState
    decreases times.len(),
{
    if times.len() == 0 {
        state
    } else {
        rung(state, owner, times.drop_last(), duration).after(owner, times.last(), duration)
    }
}

/// However often the bell rings, a burst is never shown longer than its cap.
pub proof fn a_burst_is_capped(
    state: VisualBellState,
    owner: SessionId,
    times: Seq<Instant>,
    duration: Duration,
)
    requires
        times.len() > 0,
        duration.nanos <= VISUAL_BURST_CAP,
        forall|i: int|
            0 <= i < times.len() ==> (#[trigger] times[i]).nanos + VISUAL_BURST_CAP <= u64::MAX,
        state.burst_started_at is Some ==> state.burst_started_at->0.nanos + VISUAL_BURST_CAP
            <= u64::MAX,
    ensures
        ({
            let shown = rung(state, owner, times, duration);
            &&& shown.burst_started_at is Some
            &&& shown.visible_until is Some
            &&& shown.visible_until->0.nanos <= shown.burst_started_at->0.nanos + VISUAL_BURST_CAP
        }),
    decreases times.len(),
{
    let init = times.drop_last();
    let before = rung(state, owner, init, duration);
    if init.len() > 0 {
        a_burst_is_capped(state, owner, init, duration);
    }
    started_can_be_shown(state, owner, init, duration);
    assert(times.last() == times[times.len() - 1]);
}

proof fn started_can_be_shown(
    state: VisualBellState,
    owner: SessionId,
    times: Seq<Instant>,
    duration: Duration,
)
    requires
        forall|i: int|
            0 <= i < times.len() ==> (#[trigger] times[i]).nanos + VISUAL_BURST_CAP <= u64::MAX,
        state.burst_started_at is Some ==> state.burst_started_at->0.nanos + VISUAL_BURST_CAP
            <= u64::MAX,
    ensures
        ({
            let shown = rung(state, owner, times, duration);
            shown.burst_started_at is Some ==> shown.burst_started_at->0.nanos + VISUAL_BURST_CAP
                <= u64::MAX
        }),
    decreases times.len(),
{
    if times.len() > 0 {
        started_can_be_shown(state, owner, times.drop_last(), duration);
        assert(times.last() == times[times.len() - 1]);
    }
}

/// A bell that the user looks at flashes and sounds where that is switched on, and asks for nothing
/// else.
pub proof fn a_bell_in_view_flashes_and_sounds(context: BellContext, config: BellConfig)
    requires
        config.enabled,
        !context.muted,
        context.session_effects_allowed,
        context.active,
        context.window_focused,
    ensures
        effects_of(context, config).schedule_visual <==> config.visual,
        effects_of(context, config).enqueue_sound <==> config.audible,
        !effects_of(context, config).record_attention_episode,
        !effects_of(context, config).enqueue_notification,
{
}

/// A bell in the background is told by a mark and by a notification where they are switched on. It
/// sounds while the window has the focus, and otherwise only if it is to. It never flashes.
pub proof fn a_bell_in_the_background_asks_for_attention(context: BellContext, config: BellConfig)
    requires
        config.enabled,
        !context.muted,
        context.session_effects_allowed,
        !context.active || !context.window_focused,
    ensures
        effects_of(context, config).record_attention_episode,
        effects_of(context, config).show_attention_marker <==> config.attention,
        effects_of(context, config).enqueue_notification <==> config.desktop_notifications,
        !effects_of(context, config).schedule_visual,
        context.window_focused ==> effects_of(context, config).enqueue_sound == config.audible,
        !context.window_focused ==> effects_of(context, config).enqueue_sound == (config.audible
            && config.audible_when_unfocused),
{
}

/// A single flash lasts as long as it is asked to, from the bell on, in the tab where the bell
/// rang. Another tab's bell begins a flash of its own.
pub proof fn a_flash_lasts_as_long_as_it_is_asked_to(
    state: VisualBellState,
    owner: SessionId,
    now: Instant,
    duration: Duration,
)
    requires
        state.owner != Some(owner) || state.visible_until is None || state.visible_until->0.nanos
            <= now.nanos,
        now.nanos + duration.nanos <= u64::MAX,
    ensures
        ({
            let shown = state.after(owner, now, duration);
            &&& shown.owner == Some(owner)
            &&& shown.burst_started_at == Some(now)
            &&& shown.visible_until is Some
            &&& shown.visible_until->0.nanos == now.nanos + duration.nanos
        }),
{
}

/// A bell that rings while its flash is shown lets it go on, and does not cut it short.
pub proof fn a_flash_goes_on(
    state: VisualBellState,
    owner: SessionId,
    first: Instant,
    second: Instant,
    duration: Duration,
)
    requires
        state.owner != Some(owner),
        first.nanos <= second.nanos < first.nanos + duration.nanos,
        duration.nanos <= 240_000_000,
        first.nanos + 480_000_000 <= u64::MAX,
    ensures
        ({
            let one = state.after(owner, first, duration);
            let two = one.after(owner, second, duration);
            &&& two.burst_started_at == Some(first)
            &&& two.visible_until->0.nanos >= one.visible_until->0.nanos
            &&& second.nanos + duration.nanos <= first.nanos + 240_000_000
                ==> two.visible_until->0.nanos == second.nanos + duration.nanos
            &&& two.visible_until->0.nanos <= first.nanos + 240_000_000
        }),
{
}

} // verus!
