use leyline::config::{EffectiveConfig, Number, ScrollbarMode};
use leyline::interaction::{
    ClickTracker, ImeError, ImeState, LinkCandidate, PixelRect, ScrollbarController, ScrollbarHit,
    ScrollbarInteraction, ScrollbarPresentation, SCROLLBAR_VISIBILITY,
};
use leyline::keys::ModifierMask;
use leyline::terminal::snapshot::{SelectionKind, SelectionPoint};
use leyline::time::Instant;

#[test]
fn done_applies_commit_even_when_serial_mismatches() {
    let mut ime = ImeState::default();
    ime.activate();
    assert_eq!(ime.sent_commit().unwrap(), 1);
    ime.commit_string("中文".into()).unwrap();
    let done = ime.done(99, 7, [2, 3]).unwrap();
    assert_eq!(done.commit.as_deref(), Some("中文".as_bytes()));
    assert!(done.outbound_resend_required && ime.outbound.dirty);
}

#[test]
fn transaction_is_invisible_until_done_and_preedit_never_commits() {
    let mut ime = ImeState::default();
    ime.activate();
    ime.preedit_string("中".into(), Some((0, 3))).unwrap();
    assert!(ime.has_preedit());
    assert!(ime.preedit.is_none());
    let done = ime.done(0, 4, [1, 1]).unwrap();
    assert!(done.commit.is_none());
    assert!(ime.has_preedit());
    assert_eq!(ime.preedit.as_ref().unwrap().text.as_str(), "中");

    ime.preedit_string(String::new(), None).unwrap();
    ime.done(0, 4, [1, 1]).unwrap();
    assert!(!ime.has_preedit());
}

#[test]
fn cursor_must_use_utf8_boundaries() {
    let mut ime = ImeState::default();
    ime.activate();
    assert_eq!(
        ime.preedit_string("中".into(), Some((1, 2))),
        Err(ImeError::InvalidCursor)
    );
}

#[test]
fn texts_that_are_too_long_and_inactive_contexts_are_refused() {
    let mut ime = ImeState::default();
    assert_eq!(ime.commit_string("a".into()), Err(ImeError::Inactive));
    ime.activate();
    assert_eq!(
        ime.preedit_string("a".repeat(4_097), None),
        Err(ImeError::PreeditTooLarge)
    );
    assert_eq!(
        ime.commit_string("a".repeat(65_537)),
        Err(ImeError::CommitTooLarge)
    );
    ime.record_commit_serial(u32::MAX);
    assert_eq!(ime.sent_commit(), Err(ImeError::SerialOverflow));
    ime.deactivate();
    assert!(!ime.is_active());
}

#[test]
fn click_tracker_requires_same_cell_button_and_deadline() {
    let point = SelectionPoint { column: 2, line: 1 };
    let mut clicks = ClickTracker::default();
    assert_eq!(clicks.register(1, point, 10), SelectionKind::Simple);
    assert_eq!(clicks.register(1, point, 410), SelectionKind::Semantic);
    assert_eq!(clicks.register(1, point, 411), SelectionKind::Lines);
    assert_eq!(clicks.register(1, point, 412), SelectionKind::Simple);
    assert_eq!(clicks.register(2, point, 413), SelectionKind::Simple);
    assert_eq!(
        clicks.register(2, SelectionPoint { column: 3, line: 1 }, 414),
        SelectionKind::Simple
    );
    assert_eq!(clicks.register(2, point, 900), SelectionKind::Simple);
}

#[test]
fn link_candidate_rejects_any_stale_release_property() {
    let point = SelectionPoint { column: 2, line: 1 };
    let modifiers = ModifierMask { shift: false, control: true, alt: false, super_key: false };
    let candidate = LinkCandidate { snapshot_generation: 7, hyperlink: 3, point, modifiers };
    assert!(candidate.matches(7, 3, point, modifiers));
    assert!(!candidate.matches(8, 3, point, modifiers));
    assert!(!candidate.matches(7, 4, point, modifiers));
}

#[test]
fn the_scrollbar_fades_after_it_was_used() {
    let now = Instant { nanos: 1_000 };
    let mut bar = ScrollbarController::default();
    let mut config = EffectiveConfig::default().scrollbar;
    let side = |value: f64| Number { bits: value.to_bits() };
    let track = PixelRect { x: side(1.0), y: side(2.0), width: side(3.0), height: side(4.0) };
    let thumb = PixelRect { height: side(2.0), ..track };
    assert_eq!(bar.presentation(track, thumb, 0, 10, &config, now), None);
    assert_eq!(bar.press(ScrollbarHit::Outside, 100, 24, 0, now), None);
    bar.note_scroll(now);
    assert_eq!(
        bar.presentation(track, thumb, 0, 10, &config, now),
        Some(ScrollbarPresentation {
            track,
            thumb,
            track_color: config.track,
            thumb_color: config.thumb,
        })
    );
    assert_eq!(bar.presentation(track, thumb, 0, 0, &config, now), None);
    let end = Instant { nanos: 1_000 + SCROLLBAR_VISIBILITY };
    assert_eq!(bar.next_deadline(), Some(end));
    assert!(bar.expire(end));
    assert_eq!(bar.next_deadline(), None);
    config.mode = ScrollbarMode::Hidden;
    assert_eq!(bar.presentation(track, thumb, 0, 10, &config, now), None);
    let grab_offset_px = side(1.5);
    let hit = ScrollbarHit::Thumb { movable: true, grab_offset_px };
    assert_eq!(bar.press(hit, 100, 24, 5, now), Some(5));
    assert_eq!(bar.interaction(), ScrollbarInteraction::Dragging { grab_offset_px });
    assert_eq!(bar.pointer_motion(false, now), Some(grab_offset_px));
    let shown = bar.presentation(track, thumb, 0, 10, &config, now).expect("in use");
    assert_eq!(shown.thumb_color, config.thumb_hover);
    assert!(bar.release());
    assert!(!bar.release());
}
