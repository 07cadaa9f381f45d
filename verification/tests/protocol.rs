use leyline::terminal::cwd::{
    valid_absolute_env_path, validate_report, CwdRejectReason, CwdReport, CwdTracker,
    LocalIdentity, MAX_OSC7_URI_BYTES,
};
use leyline::terminal::protocol::KeyboardProtocolTracker;
use leyline::terminal::snapshot::{KeyboardProtocolState, ModifyOtherKeysLevel};

#[test]
fn tracker_handles_terminators_splits_and_literal_semicolon() {
    let mut tracker = CwdTracker::default();
    tracker.advance(b"noise\x1b]7;file:///tmp/a;b\x1b");
    assert_eq!(tracker.take_report(), None);
    tracker.advance(b"\\");
    assert_eq!(
        tracker.take_report(),
        Some(CwdReport::Uri(b"file:///tmp/a;b".to_vec()))
    );
    tracker.advance(b"\x1b]7;file:///tmp/c\x07");
    assert_eq!(
        tracker.take_report(),
        Some(CwdReport::Uri(b"file:///tmp/c".to_vec()))
    );
}

#[test]
fn tracker_is_bounded_and_recovers_after_overflow() {
    let mut tracker = CwdTracker::default();
    let mut input = b"\x1b]7;".to_vec();
    input.extend(std::iter::repeat_n(b'x', MAX_OSC7_URI_BYTES + 1));
    input.push(0x07);
    tracker.advance(&input);
    assert!(tracker.storage_len() <= MAX_OSC7_URI_BYTES + 1);
    assert_eq!(
        tracker.take_report(),
        Some(CwdReport::Invalid(CwdRejectReason::TooLong))
    );
    tracker.advance(b"\x1b]7;file:///ok\x07");
    assert!(matches!(tracker.take_report(), Some(CwdReport::Uri(_))));
}

#[test]
fn tracker_accepts_exact_limit_and_keeps_only_the_latest_report() {
    let mut tracker = CwdTracker::default();
    let mut input = b"\x1b]7;".to_vec();
    input.extend(std::iter::repeat_n(b'x', MAX_OSC7_URI_BYTES));
    input.push(0x07);
    input.extend_from_slice(b"\x1b]7;file:///latest\x07");
    tracker.advance(&input);
    assert_eq!(
        tracker.take_report(),
        Some(CwdReport::Uri(b"file:///latest".to_vec()))
    );
    assert_eq!(tracker.overwritten_reports(), 1);
    assert!(tracker.storage_len() <= MAX_OSC7_URI_BYTES + 1);
}

#[test]
fn cancellation_preserves_the_previous_pending_report() {
    let mut tracker = CwdTracker::default();
    tracker.advance(b"\x1b]7;file:///old\x07\x1b]7;partial\x18");
    assert_eq!(
        tracker.take_report(),
        Some(CwdReport::Uri(b"file:///old".to_vec()))
    );
}

#[test]
fn validator_enforces_local_file_uri_and_preserves_bytes() {
    let identity = LocalIdentity::new(Some("Workstation".into()));
    let hint = validate_report(
        CwdReport::Uri(b"FiLe://workstation./tmp/a%20b/%FF;x".to_vec()),
        &identity,
    )
    .unwrap();
    assert_eq!(hint.path, b"/tmp/a b/\xff;x");
    assert_eq!(
        validate_report(CwdReport::Uri(b"file://remote/tmp".to_vec()), &identity),
        Err(CwdRejectReason::RemoteAuthority)
    );
    assert_eq!(
        validate_report(CwdReport::Uri(b"file:///tmp?q".to_vec()), &identity),
        Err(CwdRejectReason::InvalidPath)
    );
}

#[test]
fn any_chunking_produces_the_same_report() {
    let input = b"prefix\x1b]7;file:///tmp/a%20b\x1b\\suffix";
    for split in 0..=input.len() {
        let mut tracker = CwdTracker::default();
        tracker.advance(&input[..split]);
        tracker.advance(&input[split..]);
        assert_eq!(
            tracker.take_report(),
            Some(CwdReport::Uri(b"file:///tmp/a%20b".to_vec()))
        );
    }
}

#[test]
fn set_query_push_pop_and_unknown_flags_are_atomic() {
    let mut tracker = KeyboardProtocolTracker::default();
    let (reply, _) = tracker.advance(b"\x1b[=3;1u\x1b[?u");
    assert_eq!(reply, [(10, b"\x1b[?3u".to_vec())]);
    tracker.advance(b"\x1b[>8u\x1b[=1;2u\x1b[<1u");
    assert_eq!(tracker.state().kitty.bits(), 3);
    let (_, audit) = tracker.advance(b"\x1b[=32;1u");
    assert_eq!(audit.unknown_flags, 1);
    assert_eq!(tracker.state().kitty.bits(), 3);
}

#[test]
fn state_is_per_screen_and_ris_resets_everything() {
    let mut tracker = KeyboardProtocolTracker::default();
    tracker.advance(b"\x1b[=1u\x1b[?1049h\x1b[=8u");
    assert_eq!(tracker.state().kitty.bits(), 8);
    tracker.advance(b"\x1b[?1049l");
    assert_eq!(tracker.state().kitty.bits(), 1);
    tracker.advance(b"\x1b[>4;2m\x1bc");
    assert_eq!(tracker.state(), KeyboardProtocolState::default());
}

#[test]
fn vim_omitted_mok_level_disables_protocol() {
    let mut tracker = KeyboardProtocolTracker::default();
    tracker.advance(b"\x1b[>4;2m");
    assert_eq!(tracker.state().modify_other_keys, ModifyOtherKeysLevel::All);

    let (_, audit) = tracker.advance(b"\x1b[>4;m");
    assert_eq!(
        tracker.state().modify_other_keys,
        ModifyOtherKeysLevel::Disabled
    );
    assert_eq!(audit.changes, 1);
    assert_eq!(audit.rejected, 0);
}

#[test]
fn fragmented_sequences_and_stack_overflow_are_bounded() {
    let mut tracker = KeyboardProtocolTracker::default();
    tracker.advance(b"\x1b[");
    tracker.advance(b"=7;1u");
    for _ in 0..16 {
        tracker.advance(b"\x1b[>1u");
    }
    let (_, audit) = tracker.advance(b"\x1b[>2u");
    assert_eq!(audit.stack_overflow, 1);
    assert_eq!(tracker.state().kitty.bits(), 1);
}

#[test]
fn every_kind_of_bad_report_has_its_reason() {
    let identity = LocalIdentity::new(Some("box".into()));
    let reason = |uri: &[u8]| {
        validate_report(CwdReport::Uri(uri.to_vec()), &identity).expect_err("refused")
    };
    assert_eq!(reason(b"file:///a\xff"), CwdRejectReason::InvalidEncoding);
    assert_eq!(reason(b"file"), CwdRejectReason::InvalidUri);
    assert_eq!(reason(b"file:/a"), CwdRejectReason::InvalidUri);
    assert_eq!(reason(b"file:///a%zz"), CwdRejectReason::InvalidPath);
    assert_eq!(reason(b"http://box/a"), CwdRejectReason::UnsupportedScheme);
    assert_eq!(reason(b"file://other/a"), CwdRejectReason::RemoteAuthority);
    assert_eq!(reason(b"file:///a%00"), CwdRejectReason::InvalidPath);
    assert_eq!(
        validate_report(CwdReport::Invalid(CwdRejectReason::TooLong), &identity),
        Err(CwdRejectReason::TooLong)
    );
    assert!(validate_report(CwdReport::Uri(b"file://localhost/a".to_vec()), &identity).is_ok());
}

#[test]
fn paths_of_the_environment_are_absolute_and_without_zero() {
    assert_eq!(valid_absolute_env_path(Some(b"/a".to_vec())), Some(b"/a".to_vec()));
    for path in [None, Some(Vec::new()), Some(b"a".to_vec()), Some(b"/a\0".to_vec())] {
        assert_eq!(valid_absolute_env_path(path), None);
    }
}

#[test]
fn the_host_name_comes_from_the_system() {
    let captured = LocalIdentity::capture();
    let named = LocalIdentity::from_node_name(&b"Some.Host.".to_vec());
    assert_eq!(named, LocalIdentity::new(Some("some.host".into())));
    if let Some(name) = &captured.hostname {
        let uri = format!("file://{name}/tmp");
        assert!(validate_report(CwdReport::Uri(uri.into_bytes()), &captured).is_ok());
    }
}
