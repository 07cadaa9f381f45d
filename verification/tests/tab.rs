use leyline::config::{EffectiveConfig, NewTabCwdPolicy, TabBarVisibility, TabsConfig};
use leyline::session::TerminalSession;
use leyline::tab::{
    Activation, PixelRect, ReorderOutcome, SessionId, SessionIdAllocator, TabBarPresentation,
    TabError, TabManager,
};
use leyline::terminal::cwd::{CwdRejectReason, CwdReport, LocalIdentity};
use leyline::terminal::snapshot::GridSize;
use leyline::time::Instant;

const NOW: Instant = Instant { nanos: 5 };

#[test]
fn session_ids_include_last_value_then_report_exhaustion() {
    let mut allocator = SessionIdAllocator { next: Some(u64::MAX) };
    assert_eq!(allocator.allocate().unwrap().get(), u64::MAX);
    assert!(matches!(
        allocator.allocate(),
        Err(TabError::SessionIdExhausted)
    ));
}

fn session() -> TerminalSession {
    TerminalSession::new(GridSize::new(8, 4).unwrap(), false, 1024 * 1024)
}

#[test]
fn stable_ids_wrap_navigation_and_close_prefers_the_right_neighbor() {
    let mut manager = TabManager::bootstrap(session(), (), 3);
    let second = manager.push(session(), (), "two".into()).unwrap();
    let third = manager.push(session(), (), "three".into()).unwrap();
    assert_eq!(manager.active_id(), Some(third));
    assert!(
        matches!(manager.activate_relative(1), Activation::Changed { to, .. } if to.get() == 1)
    );
    manager.activate(second).unwrap();
    manager.close_active(NOW);
    assert_eq!(manager.active_id(), Some(third));
    assert!(!manager.has_capacity());
}

#[test]
fn ordinal_miss_is_a_consumed_noop_and_bar_hit_uses_half_open_rectangles() {
    let mut manager = TabManager::bootstrap(session(), (), 2);
    assert_eq!(manager.activate_ordinal(9), Activation::Unchanged);
    let bar = TabBarPresentation::layout(
        &manager,
        200,
        120,
        &TabsConfig {
            max_count: 2,
            bar_height: 32,
            min_width: 80,
            max_width: 240,
            show_close_button: true,
            new_tab_cwd: NewTabCwdPolicy::Inherit,
            visibility: TabBarVisibility::Always,
        },
        0,
    );
    assert_eq!(bar.hit([0, 0]).map(|hit| hit.0.get()), Some(1));
    assert_eq!(bar.hit([200, 0]), None);
    let close = bar.items[0].close_rect.expect("wide tab has close target");
    assert_eq!([close.width, close.height], [24, 24]);
    assert_eq!(
        bar.hit([close.x + close.width / 2, close.y + close.height / 2]),
        Some((manager.active_id().unwrap(), true))
    );
}

#[test]
fn tabs_fill_the_bar_when_the_minimum_widths_fit() {
    let mut manager = TabManager::bootstrap(session(), (), 3);
    manager.push(session(), (), "two".into()).unwrap();
    manager.push(session(), (), "three".into()).unwrap();

    let bar = TabBarPresentation::layout(
        &manager,
        1000,
        120,
        &EffectiveConfig::default().tabs,
        0,
    );

    assert_eq!(
        bar.items[0].rect,
        PixelRect {
            x: 0,
            y: 0,
            width: 333,
            height: 32
        }
    );
    assert_eq!(bar.items[1].rect.x, 333);
    assert_eq!(
        bar.items[2].rect,
        PixelRect {
            x: 666,
            y: 0,
            width: 334,
            height: 32
        }
    );
    assert_eq!(bar.max_offset, 0);
}

#[test]
fn drag_preview_moves_only_the_selected_label() {
    let mut manager = TabManager::bootstrap(session(), (), 2);
    let first = manager.active_id().unwrap();
    manager.push(session(), (), "two".into()).unwrap();
    let mut bar = TabBarPresentation::layout(
        &manager,
        800,
        120,
        &EffectiveConfig::default().tabs,
        0,
    );

    bar.apply_drag_preview(first, 37);

    assert_eq!(bar.items[0].drag_offset_x, 37);
    assert_eq!(bar.items[1].drag_offset_x, 0);
}

#[test]
fn cwd_reports_are_routed_by_stable_session_id_and_rejection_clears_hint() {
    let mut manager = TabManager::bootstrap(session(), (), 2);
    let first = manager.active_id().unwrap();
    let second = manager.push(session(), (), "two".into()).unwrap();
    let identity = LocalIdentity::new(Some("host".into()));

    assert_eq!(
        manager.apply_cwd_report(
            first,
            CwdReport::Uri(b"file:///tmp/first".to_vec()),
            &identity
        ),
        Some(Ok(()))
    );
    assert_eq!(
        manager.apply_cwd_report(
            second,
            CwdReport::Uri(b"file:///tmp/second".to_vec()),
            &identity
        ),
        Some(Ok(()))
    );
    assert_eq!(
        manager.tabs()[0].cwd_hint.as_ref().unwrap().path,
        b"/tmp/first"
    );
    assert_eq!(
        manager.tabs()[1].cwd_hint.as_ref().unwrap().path,
        b"/tmp/second"
    );

    assert_eq!(
        manager.apply_cwd_report(
            first,
            CwdReport::Uri(b"file://remote/tmp/remote".to_vec()),
            &identity
        ),
        Some(Err(CwdRejectReason::RemoteAuthority))
    );
    assert!(manager.tabs()[0].cwd_hint.is_none());
    assert!(manager.tabs()[1].cwd_hint.is_some());
    assert_eq!(
        manager.apply_cwd_report(
            SessionId { value: 999 },
            CwdReport::Uri(b"file:///tmp/stale".to_vec()),
            &identity
        ),
        None
    );
}

#[test]
fn attention_generation_is_reused_and_mute_preserves_unread() {
    let mut manager = TabManager::bootstrap(session(), (), 2);
    let id = manager.active_id().unwrap();
    assert!(manager.mark_unread(id));
    let first = manager.record_background_bell(id, true).unwrap();
    let repeated = manager.record_background_bell(id, true).unwrap();
    assert_eq!(first, repeated);
    assert!(manager.tabs()[0].attention);
    let (muted, invalidated) = manager.toggle_bell_mute(id).unwrap();
    assert!(muted);
    assert_eq!(invalidated, Some(first));
    assert!(manager.tabs()[0].unread);
    assert!(!manager.tabs()[0].attention);
    let (muted, invalidated) = manager.toggle_bell_mute(id).unwrap();
    assert!(!muted);
    assert_eq!(invalidated, None);
    assert!(manager.tabs()[0].unread);
}

#[test]
fn hidden_attention_episode_is_still_acknowledged() {
    let mut manager = TabManager::bootstrap(session(), (), 1);
    let id = manager.active_id().unwrap();
    let generation = manager.record_background_bell(id, false).unwrap();
    assert!(!manager.tabs()[0].attention);
    assert_eq!(manager.acknowledge(id), Some(generation));
    assert_eq!(manager.acknowledge(id), None);
}

#[test]
fn reorder_preserves_active_identity_and_fair_cursor() {
    let mut manager = TabManager::bootstrap(session(), (), 3);
    let first = manager.active_id().unwrap();
    let second = manager.push(session(), (), "two".into()).unwrap();
    let third = manager.push(session(), (), "three".into()).unwrap();
    let _ = manager.drain_order();
    assert_eq!(
        manager.reorder(third, 0).unwrap(),
        ReorderOutcome::Changed { from: 2, to: 0 }
    );
    assert_eq!(manager.active_id(), Some(third));
    assert_eq!(
        manager.tabs().iter().map(|tab| tab.id).collect::<Vec<_>>(),
        vec![third, first, second]
    );
    assert_eq!(manager.drain_order().len(), 3);
}

#[test]
fn visibility_policy_removes_all_tab_hit_regions() {
    let manager = TabManager::bootstrap(session(), (), 2);
    for visibility in [
        TabBarVisibility::Multiple,
        TabBarVisibility::Never,
    ] {
        let mut config = EffectiveConfig::default().tabs;
        config.visibility = visibility;
        let bar = TabBarPresentation::layout(&manager, 200, 120, &config, 0);
        assert!(bar.bar.is_none());
        assert!(bar.items.is_empty());
    }
}

#[test]
fn tabs_are_limited_and_known_by_their_sessions() {
    let mut manager = TabManager::bootstrap(session(), (), 1);
    assert!(matches!(
        manager.push(session(), (), "two".into()),
        Err(TabError::LimitReached { limit: 1 })
    ));
    let stranger = SessionId { value: 77 };
    assert!(matches!(manager.activate(stranger), Err(TabError::UnknownSession(id)) if id == stranger));
    assert!(matches!(manager.extract(stranger), Err(TabError::UnknownSession(_))));
    let first = manager.active_id().unwrap();
    let (entry, index) = manager.extract(first).unwrap();
    assert_eq!(index, 0);
    assert!(manager.is_empty());
    assert_eq!(manager.insert(entry, 0, true).unwrap(), first);
    assert!(manager.get_mut(first).is_some());
    assert_eq!((manager.len(), manager.total_len()), (1, 1));
}

#[test]
fn closed_tabs_wait_for_their_sessions() {
    let mut manager = TabManager::bootstrap(session(), (), 2);
    manager.close_active(NOW);
    assert!(manager.is_empty() && !manager.closing_is_empty());
    assert!(manager.next_closing_deadline().is_some());
}
