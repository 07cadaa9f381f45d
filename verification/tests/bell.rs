use leyline::bell::{decide, BellContext, BellEffects, VisualBellState};
use leyline::config::BellConfig;
use leyline::notification::{
    is_backing_off, notification_body, ControlCommand, NotificationBoard, NotificationQueue,
    NotificationRateLimiter, ShowCommand, NOTIFICATION_BACKOFF,
};
use leyline::session_pump::SessionPump;
use leyline::sound::SoundCooldown;
use leyline::tab::{BellGeneration, SessionId};
use leyline::time::{Duration, Instant};

fn id(value: u64) -> SessionId {
    SessionId { value }
}

fn at(start: Instant, duration: Duration) -> Instant {
    start.checked_add(duration).expect("instant")
}

const START: Instant = Instant { nanos: 1_000_000_000 };

#[test]
fn effect_matrix_keeps_background_attention_separate() {
    let config = BellConfig::default();
    let focused = decide(
        BellContext {
            session_id: id(1),
            active: true,
            window_focused: true,
            muted: false,
            session_effects_allowed: true,
        },
        &config,
    );
    assert!(focused.schedule_visual);
    assert!(!focused.record_attention_episode);
    let background = decide(
        BellContext {
            session_id: id(1),
            active: false,
            window_focused: true,
            muted: false,
            session_effects_allowed: true,
        },
        &config,
    );
    assert!(background.record_attention_episode);
    assert!(background.show_attention_marker);
    assert!(!background.schedule_visual);
}

#[test]
fn a_muted_or_disabled_bell_does_nothing() {
    let context = BellContext {
        session_id: id(1),
        active: false,
        window_focused: false,
        muted: true,
        session_effects_allowed: true,
    };
    let muted = decide(context, &BellConfig::default());
    assert!(!muted.enqueue_sound && !muted.enqueue_notification);
    let disabled = BellConfig { enabled: false, ..BellConfig::default() };
    assert_eq!(
        decide(BellContext { muted: false, ..context }, &disabled),
        BellEffects::default()
    );
}

#[test]
fn repeated_visual_bells_have_a_burst_cap() {
    let start = START;
    let mut state = VisualBellState::default();
    state.schedule(id(1), start, Duration::from_millis(120));
    state.schedule(id(1), at(start, Duration::from_millis(110)), Duration::from_millis(120));
    state.schedule(id(1), at(start, Duration::from_millis(220)), Duration::from_millis(120));
    assert_eq!(state.deadline(), start.checked_add(Duration::from_millis(240)));
    assert!(state.active_for(id(1), start));
    assert!(!state.active_for(id(2), start));
    assert!(state.expire(at(start, Duration::from_millis(240))));
    assert_eq!(state.deadline(), None);
}

#[test]
fn cooldown_and_global_window_are_consumed_only_by_admitted_shows() {
    let mut limiter = NotificationRateLimiter::new();
    let config = BellConfig::default();
    let now = START;
    assert!(limiter.allows(id(1), now, &config));
    limiter.record(id(1), now);
    assert!(!limiter.allows(id(1), now, &config));
    for session in 2_u64..=6 {
        assert!(limiter.allows(id(session), now, &config));
        limiter.record(id(session), now);
    }
    assert!(!limiter.allows(id(7), now, &config));
}

#[test]
fn the_notification_window_slides_and_forgets() {
    let config = BellConfig { notification_burst_per_minute: 1, ..BellConfig::default() };
    let mut limiter = NotificationRateLimiter::new();
    limiter.record(id(1), START);
    let soon = at(START, Duration::from_secs(59));
    assert!(!limiter.allows(id(2), soon, &config));
    let later = at(START, Duration::from_secs(60));
    assert!(limiter.allows(id(2), later, &config));
    limiter.record(id(1), later);
    limiter.forget(id(1));
    assert!(!limiter.allows(id(1), later, &config));
    assert!(limiter.allows(id(1), at(later, Duration::from_secs(60)), &config));
}

#[test]
fn controls_are_ordered_and_hold_back_shows() {
    let config = BellConfig::default();
    let generation = BellGeneration { value: 4 };
    let mut queue = NotificationQueue::new();
    let show = queue.show(id(1), generation, 1, START, &config).expect("show");
    assert_eq!(show.sequence, 1);
    queue.shown(id(1), START);
    let first = queue.acknowledge(id(1), generation).expect("control");
    assert_eq!(
        first,
        ControlCommand::Acknowledge { session_id: id(1), generation, barrier: 2 }
    );
    queue.control_refused(first);
    let later = at(START, Duration::from_secs(20));
    assert_eq!(queue.show(id(1), generation, 1, later, &config), None);
    assert!(queue.show(id(2), generation, 2, later, &config).is_some());
    let second = queue.forget(id(1)).expect("control");
    queue.control_refused(second);
    assert_eq!(queue.next_control(), Some(second));
    queue.put_back(second);
    assert_eq!(queue.next_control(), Some(second));
    assert_eq!(queue.next_control(), None);
    queue.control_refused(first);
    queue.drop_controls();
    assert_eq!(queue.next_control(), None);
}

#[test]
fn an_acknowledgement_overtakes_the_shows_before_it() {
    let generation = BellGeneration { value: 1 };
    let command = |sequence| ShowCommand { session_id: id(1), generation, sequence, ordinal: 1 };
    let mut board = NotificationBoard::new();
    let control = ControlCommand::Acknowledge { session_id: id(1), generation, barrier: 5 };
    assert_eq!(board.take_control(control, true), None);
    assert_eq!(board.take_show(command(3), true), None);
    assert_eq!(board.take_show(command(6), false), Some(0));
    board.shown(command(6), 42);
    assert_eq!(board.take_show(command(7), false), Some(42));
    let stale = ControlCommand::Acknowledge {
        session_id: id(1),
        generation: BellGeneration { value: 9 },
        barrier: 8,
    };
    assert_eq!(board.take_control(stale, false), None);
    let forget = ControlCommand::Forget { session_id: id(1), barrier: 9 };
    assert_eq!(board.take_control(forget, false), Some(42));
    assert_eq!(board.take_control(forget, false), None);
}

#[test]
fn a_bell_is_silent_while_it_cools_down() {
    let mut sounds = SoundCooldown::new();
    assert!(sounds.may_play(id(1), START));
    sounds.record(id(1), START);
    assert!(!sounds.may_play(id(1), at(START, Duration::from_millis(249))));
    assert!(sounds.may_play(id(2), START));
    assert!(sounds.may_play(id(1), at(START, Duration::from_millis(250))));
    sounds.record(id(1), START);
    sounds.forget(id(1));
    assert!(sounds.may_play(id(1), START));
}

#[test]
fn a_round_of_a_window_is_bounded() {
    let (events, bytes, time) = SessionPump::limits();
    assert_eq!((events, bytes), (64, 1024 * 1024));
    assert_eq!(time, Duration::from_millis(2));
}

#[test]
fn a_service_that_failed_is_left_alone_for_a_while() {
    assert_eq!(notification_body(12), "Terminal bell (tab 12)");
    let failed = Instant { nanos: 100 };
    let later = Instant { nanos: 100 + NOTIFICATION_BACKOFF };
    assert!(!is_backing_off(None, failed));
    assert!(is_backing_off(Some(failed), failed));
    assert!(is_backing_off(Some(failed), Instant { nanos: later.nanos - 1 }));
    assert!(!is_backing_off(Some(failed), later));
}

#[test]
fn a_refused_notification_keeps_the_window() {
    let config = BellConfig { notification_burst_per_minute: 1, ..BellConfig::default() };
    let mut queue = NotificationQueue::new();
    let generation = BellGeneration { value: 1 };
    assert!(queue.show(id(1), generation, 1, START, &config).is_some());
    queue.shown(id(1), START);
    for _ in 0..3 {
        assert_eq!(queue.show(id(2), generation, 2, START, &config), None);
    }
    let later = at(START, Duration::from_secs(60));
    assert!(queue.show(id(2), generation, 2, later, &config).is_some());
}
