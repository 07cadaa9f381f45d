use leyline::app::event::ProcessSignal;
use leyline::desktop::{open_result, validate_uri, DesktopError, QueueAnswer};
use leyline::diagnostics::{escape_diagnostic, render_error, ErrorCategory};
use leyline::input::shortcut::{
    parse_key, resolve, BindingOrigin, KeyChord, LogicalKeyPattern, ParseKeyError, ShortcutResult,
};
use leyline::config::{Action, KeyBinding};
use leyline::keys::{KeyInput, KeyState, LogicalKey, ModifierMask};
use leyline::security::{
    validate_title, AuditLogDecision, MetadataRateLimiter, PolicyDecision, RejectReason,
    AUDIT_LOG_BURST, AUDIT_LOG_WINDOW, MAX_TITLE_BYTES,
};
use leyline::signal::ProcessSignalState;
use leyline::time::{Duration, Instant};

#[test]
fn only_explicit_safe_schemes_are_accepted() {
    assert_eq!(
        validate_uri("HTTPS://example.com/a?b=c").unwrap(),
        "HTTPS://example.com/a?b=c"
    );
    assert!(matches!(validate_uri("file:///etc/passwd"), Err(DesktopError::DisallowedScheme)));
    assert!(matches!(validate_uri("https://ok\n--bad"), Err(DesktopError::InvalidUri)));
    assert!(validate_uri("example.com").is_err());
}

#[test]
fn escapes_terminal_controls() {
    assert_eq!(escape_diagnostic("bad\n\x1b[31m"), "bad\\n\\u{1b}[31m");
}

#[test]
fn errors_are_reported_with_their_causes_where_asked() {
    let causes = vec!["first".to_string(), "second".to_string()];
    assert_eq!(
        render_error(ErrorCategory::Configuration, "no font", &causes, false),
        "leyline: configuration error: no font\n"
    );
    assert_eq!(
        render_error(ErrorCategory::Remote, "no host", &causes, true),
        "leyline: ssh error: no host\n  caused by: first\n  caused by: second\n"
    );
    assert_eq!(ErrorCategory::Cli.exit_code(), 2);
    assert_eq!(ErrorCategory::Renderer.exit_code(), 3);
    assert_eq!(ErrorCategory::Internal.exit_code(), 4);
    assert_eq!(ErrorCategory::Remote.exit_code(), 5);
}

#[test]
fn title_limit_is_measured_in_utf8_bytes_and_nul_is_rejected() {
    assert_eq!(MAX_TITLE_BYTES, 1024);
    assert!(matches!(validate_title("safe"), PolicyDecision::Allow(_)));
    assert!(matches!(
        validate_title(&"中".repeat(342)),
        PolicyDecision::Reject { reason: RejectReason::TooLarge { .. } }
    ));
    assert_eq!(
        validate_title("bad\0title"),
        PolicyDecision::Reject { reason: RejectReason::Nul }
    );
}

#[test]
fn metadata_limiter_emits_five_per_minute_and_reports_suppression() {
    let start = Instant { nanos: 7 };
    let mut limiter = MetadataRateLimiter::default();
    for _ in 0..AUDIT_LOG_BURST {
        assert_eq!(limiter.record(start), AuditLogDecision::Emit { previously_suppressed: 0 });
    }
    assert_eq!(limiter.record(start), AuditLogDecision::Suppress);
    assert_eq!(limiter.record(start), AuditLogDecision::Suppress);
    let next = start.checked_add(Duration { nanos: AUDIT_LOG_WINDOW }).unwrap();
    assert_eq!(limiter.record(next), AuditLogDecision::Emit { previously_suppressed: 2 });
}

#[test]
fn state_preserves_first_signal_and_counts_publications() {
    let mut state = ProcessSignalState::default();
    state.publish(ProcessSignal::Interrupt, true);
    state.publish(ProcessSignal::Terminate, true);
    assert_eq!(state.first_signal(), Some(ProcessSignal::Interrupt));
    assert_eq!(state.received_count(), 2);
    assert!(!state.wake_failed());
    state.publish(ProcessSignal::Hangup, false);
    assert!(state.wake_failed());
    assert_eq!(state.first_signal(), Some(ProcessSignal::Interrupt));
}

#[test]
fn parser_has_finite_named_vocabulary_and_unicode_scalars() {
    assert_eq!(parse_key("Insert"), Ok(LogicalKeyPattern::Insert));
    assert_eq!(parse_key("plus"), Ok(LogicalKeyPattern::Character('+')));
    assert_eq!(parse_key("中"), Ok(LogicalKeyPattern::Character('中')));
    assert_eq!(parse_key("not-a-key"), Err(ParseKeyError));
    assert_eq!(parse_key("F13"), Err(ParseKeyError));
}

#[test]
fn the_last_binding_for_a_key_wins_and_releases_have_none() {
    let modifiers = ModifierMask { shift: true, control: true, alt: false, super_key: false };
    let binding = |action| KeyBinding {
        chord: KeyChord { key: LogicalKeyPattern::Character('c'), modifiers },
        action,
        origin: BindingOrigin::Default,
    };
    let bindings = vec![binding(Action::CopyClipboard), binding(Action::NewTab)];
    let mut key = KeyInput {
        state: KeyState::Pressed,
        logical_key: LogicalKey::Character('C'),
        shortcut_modifiers: modifiers,
    };
    assert_eq!(resolve(&bindings, &key), ShortcutResult::Matched(Action::NewTab));
    key.state = KeyState::Released;
    assert_eq!(resolve(&bindings, &key), ShortcutResult::NotMatched);
    key.state = KeyState::Repeated;
    key.shortcut_modifiers.alt = true;
    assert_eq!(resolve(&bindings, &key), ShortcutResult::NotMatched);
}

#[test]
fn function_keys_are_named_in_plain_digits() {
    for number in 1..=12 {
        let key = Ok(LogicalKeyPattern::Function(number));
        assert_eq!(parse_key(&format!("F{number}")), key);
        assert_eq!(parse_key(&format!("f{number}")), key);
        assert_eq!(parse_key(&format!("F+{number}")), Err(ParseKeyError));
        assert_eq!(parse_key(&format!("F0{number}")), Err(ParseKeyError));
    }
    assert_eq!(parse_key("F0"), Err(ParseKeyError));
    assert_eq!(parse_key("F0005"), Err(ParseKeyError));
    assert_eq!(parse_key("F"), Ok(LogicalKeyPattern::Character('F')));
}

#[test]
fn links_are_opened_unless_they_or_the_queue_refuse() {
    let uri = "https://example.com";
    assert_eq!(open_result(uri, QueueAnswer::Taken), Ok(()));
    assert_eq!(open_result(uri, QueueAnswer::Full), Err(DesktopError::QueueFull));
    assert_eq!(open_result(uri, QueueAnswer::Stopped), Err(DesktopError::WorkerStopped));
    assert_eq!(
        open_result("file:///etc", QueueAnswer::Full),
        Err(DesktopError::DisallowedScheme)
    );
}
