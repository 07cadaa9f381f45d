use leyline::app::event::{ByteBatch, ChildExit, PtyEvent, PtyFailure};
use leyline::config::{CursorStyle, EffectiveConfig};
use leyline::security::INTERACTIVE_INPUT_RESERVE;
use leyline::session::{
    queue_class_limit, FlushStep, PtyStep, QueueClass, SessionAction, SessionError,
    SessionReplyRequest, SessionState, SessionTitleDelta, ShutdownPoll, TerminalSession, WriteStatus,
    INPUT_CHUNK_BYTES, MAX_QUERY_REPLY_BYTES, SHUTDOWN_DEADLINE,
};
use leyline::terminal::adapter::{EngineModes, ParserAudit, ParserOutcome, TerminalEvent};
use leyline::terminal::input::{Modifiers, TerminalKey};
use leyline::terminal::protocol::ProtocolAudit;
use leyline::terminal::snapshot::{CursorShape, GridSize};
use leyline::time::Instant;

const LIMIT: usize = 1024 * 1024;

const NOW: Instant = Instant { nanos: 10 };

const MODES: EngineModes = EngineModes {
    alt_screen: false,
    bracketed_paste: true,
    app_cursor: false,
    app_keypad: false,
    focus_in_out: true,
    alternate_scroll: false,
    mouse_motion: false,
    mouse_drag: false,
    mouse_report_click: false,
    sgr_mouse: false,
    utf8_mouse: false,
    show_cursor: true,
};

fn session(hold: bool) -> TerminalSession {
    TerminalSession::new(GridSize::new(10, 2).unwrap(), hold, LIMIT)
}

fn outcome(bell: bool, events: Vec<TerminalEvent>) -> ParserOutcome {
    ParserOutcome {
        was_pending: false,
        is_pending: false,
        explicit_commits: 0,
        capacity_commits: 0,
        audit: ParserAudit { unknown_sequences: 0, rejected_actions: 0, truncated_sequences: 0 },
        bell,
        events,
    }
}

fn feed(session: &mut TerminalSession, bytes: &[u8], bell: bool, events: Vec<TerminalEvent>) {
    let plan = session.begin_output(bytes).expect("begin").expect("plan");
    session.finish_output(plan.audit, outcome(bell, events), NOW).expect("finish");
}

#[test]
fn bulk_and_parser_replies_preserve_interactive_credit() {
    assert_eq!(queue_class_limit(QueueClass::Interactive, LIMIT), LIMIT);
    assert_eq!(
        queue_class_limit(QueueClass::Bulk, LIMIT),
        LIMIT - INTERACTIVE_INPUT_RESERVE
    );
    assert_eq!(
        queue_class_limit(QueueClass::ParserReply, LIMIT),
        queue_class_limit(QueueClass::Bulk, LIMIT)
    );
}

#[test]
fn input_is_written_in_order_and_in_chunks() {
    let mut session = session(false);
    session.queue_input(vec![1; INPUT_CHUNK_BYTES + 1], 0).expect("input");
    session.queue_input(vec![2], 0).expect("input");
    let chunk = session.next_chunk(LIMIT).expect("chunk");
    assert_eq!(chunk, vec![1; INPUT_CHUNK_BYTES]);
    assert!(matches!(
        session.take_write_status(WriteStatus::Accepted, LIMIT),
        Ok(FlushStep::Continue { .. })
    ));
    assert_eq!(session.next_chunk(LIMIT), Some(vec![1]));
    assert!(!matches!(
        session.take_write_status(WriteStatus::WouldBlock, LIMIT),
        Ok(FlushStep::Continue { .. })
    ));
    assert_eq!(session.next_chunk(LIMIT), Some(vec![1]));
    session.take_write_status(WriteStatus::Accepted, LIMIT).expect("written");
    assert_eq!(session.next_chunk(LIMIT), Some(vec![2]));
    assert!(matches!(
        session.take_write_status(WriteStatus::Closed, LIMIT),
        Err(SessionError::InputClosed)
    ));
}

#[test]
fn input_that_does_not_fit_is_refused_as_a_whole() {
    let mut session = session(false);
    let bulk = queue_class_limit(QueueClass::Bulk, LIMIT);
    assert!(matches!(
        session.queue_transaction(QueueClass::Bulk, vec![0; bulk + 1], 0),
        Err(SessionError::InputCapacityExceeded)
    ));
    assert_eq!(session.next_chunk(LIMIT), None);
    session.queue_transaction(QueueClass::Bulk, vec![0; bulk], 0).expect("bulk");
    assert!(matches!(
        session.queue_transaction(QueueClass::ParserReply, vec![0], 0),
        Err(SessionError::InputCapacityExceeded)
    ));
    session.queue_transaction(QueueClass::Interactive, vec![9], 0).expect("typed");
}

#[test]
fn keys_pastes_and_focus_are_encoded() {
    let mut session = session(false);
    let taken = session
        .input_key(TerminalKey::Up, Modifiers::default(), MODES, 3, 0)
        .expect("key");
    assert!(taken.scroll_to_bottom);
    assert_eq!(session.next_chunk(LIMIT), Some(b"\x1b[A".to_vec()));
    session.take_write_status(WriteStatus::Accepted, LIMIT).expect("written");
    let taken = session.commit_text("x", 0, 0).expect("text");
    assert!(!taken.scroll_to_bottom);
    assert_eq!(session.next_chunk(LIMIT), Some(b"x".to_vec()));
    session.take_write_status(WriteStatus::Accepted, LIMIT).expect("written");
    session.paste("p", MODES, 0, 0).expect("paste");
    assert_eq!(session.next_chunk(LIMIT), Some(b"\x1b[200~p\x1b[201~".to_vec()));
    session.take_write_status(WriteStatus::Accepted, LIMIT).expect("written");
    session.focus_changed(true, MODES, 0).expect("focus");
    assert_eq!(session.next_chunk(LIMIT), Some(b"\x1b[I".to_vec()));
}

#[test]
fn output_brings_titles_bells_and_replies() {
    let mut session = session(false);
    feed(
        &mut session,
        b"x",
        true,
        vec![
            TerminalEvent::Title("one".into()),
            TerminalEvent::Title("two".into()),
            TerminalEvent::PtyWrite(b"\x1b[0n".to_vec()),
        ],
    );
    assert_eq!(session.take_title(), Some(SessionTitleDelta::Show("two".into())));
    assert_eq!(session.take_title(), None);
    assert!(session.take_bell());
    assert!(!session.take_bell());
    let requests = session.take_reply_requests();
    assert_eq!(requests.len(), 1);
    assert!(matches!(&requests[0], SessionReplyRequest::Bytes(bytes) if bytes == b"\x1b[0n"));
    assert!(session.answer_reply(b"\x1b[0n".to_vec(), false, 0));
    assert_eq!(session.next_chunk(LIMIT), Some(b"\x1b[0n".to_vec()));
    assert!(!session.answer_reply(vec![0; MAX_QUERY_REPLY_BYTES + 1], true, 0));
    assert_eq!(session.security_audit().query_rejected, 1);
}

#[test]
fn a_session_ends_after_exit_and_end_of_output() {
    let mut plain = session(false);
    plain.observe_read_closed().expect("closed");
    plain.update_state();
    assert_eq!(plain.state(), SessionState::ReadClosed);
    plain.observe_exit(ChildExit::Code(0)).expect("exit");
    plain.update_state();
    assert_eq!(plain.state(), SessionState::Completed);
    assert!(matches!(
        plain.observe_exit(ChildExit::Code(1)),
        Err(SessionError::DuplicateExit)
    ));
    assert!(matches!(plain.observe_read_closed(), Err(SessionError::DuplicateReadClose)));
    assert!(matches!(plain.begin_output(b"x"), Err(SessionError::OutputAfterClose)));
}

#[test]
fn a_held_session_stays_after_its_child() {
    let mut held = session(true);
    held.observe_exit(ChildExit::Code(0)).expect("exit");
    held.observe_read_closed().expect("closed");
    let action =
        held.finish_session(None, outcome(false, Vec::new()), NOW).expect("finished");
    assert_eq!(action, SessionAction::Held);
    assert_eq!(held.state(), SessionState::Held);
}

#[test]
fn a_failed_session_says_why() {
    let mut failed = session(false);
    let error = failed.observe_failure("gone".into());
    assert!(matches!(error, SessionError::Pty(message) if message == "gone"));
    assert_eq!(failed.state(), SessionState::Failed);
}

#[test]
fn shutdown_is_polled_until_it_is_complete_or_too_late() {
    let mut session_a = session(false);
    assert!(session_a.begin_shutdown(NOW));
    assert!(!session_a.begin_shutdown(NOW));
    assert_eq!(session_a.poll_shutdown(NOW, false), ShutdownPoll::Pending);
    assert_eq!(session_a.poll_shutdown(NOW, true), ShutdownPoll::Complete);
    assert_eq!(session_a.state(), SessionState::Closed);
    let mut session_b = session(false);
    session_b.begin_shutdown(NOW);
    let late = Instant { nanos: NOW.nanos + SHUTDOWN_DEADLINE };
    assert_eq!(session_b.shutdown_deadline(), Some(late));
    assert_eq!(session_b.poll_shutdown(late, false), ShutdownPoll::TimedOut);
}

#[test]
fn batches_of_protocol_queries_are_answered_between_their_pieces() {
    let mut session = session(false);
    let plan = session.begin_output(b"a\x1b[?ub").expect("begin").expect("plan");
    assert_eq!(plan.pieces.len(), 2);
    assert_eq!((plan.pieces[0].start, plan.pieces[0].end), (0, 5));
    assert_eq!(plan.pieces[0].reply.as_deref(), Some(b"\x1b[?0u".as_slice()));
    assert_eq!((plan.pieces[1].start, plan.pieces[1].end), (5, 6));
    assert_eq!(plan.audit, ProtocolAudit { queries: 1, ..ProtocolAudit::default() });
}

#[test]
fn events_of_the_child_move_a_session_on() {
    let mut session = session(false);
    let batch = ByteBatch::new(b"hi".to_vec()).expect("batch");
    assert!(matches!(
        session.handle_pty_event(PtyEvent::Output(batch.clone())),
        Ok(PtyStep::Feed(Some(_)))
    ));
    assert!(matches!(session.handle_pty_event(PtyEvent::Writable), Ok(PtyStep::Write)));
    assert!(matches!(
        session.handle_pty_event(PtyEvent::ReadClosed),
        Ok(PtyStep::Settled { ended: false })
    ));
    assert_eq!(session.state(), SessionState::ReadClosed);
    assert!(matches!(
        session.handle_pty_event(PtyEvent::Output(batch)),
        Err(SessionError::OutputAfterClose)
    ));
    assert!(matches!(
        session.handle_pty_event(PtyEvent::Exited(ChildExit::Code(3))),
        Ok(PtyStep::Settled { ended: true })
    ));
    assert_eq!(session.state(), SessionState::Completed);
    assert!(matches!(
        session.handle_pty_event(PtyEvent::Exited(ChildExit::Code(3))),
        Err(SessionError::DuplicateExit)
    ));
    let failure = PtyFailure { message: "gone".into() };
    assert_eq!(
        session.handle_pty_event(PtyEvent::Failed(failure)).expect_err("failed").message(),
        "PTY failed: gone"
    );
    assert_eq!(session.state(), SessionState::Failed);
}

#[test]
fn a_session_starts_as_it_is_configured() {
    let mut config = EffectiveConfig::default();
    config.behavior.hold_after_exit = true;
    config.cursor.style = CursorStyle::Beam;
    config.scrolling.history_lines = 77;
    let (mut session, engine) =
        TerminalSession::start(&config, GridSize::new(10, 2).unwrap(), LIMIT);
    assert_eq!(engine.history_lines, 77);
    assert_eq!(engine.default_cursor_shape, CursorShape::Beam);
    assert_eq!(session.state(), SessionState::Running);
    session.observe_exit(ChildExit::Code(0)).expect("exit");
    session.observe_read_closed().expect("closed");
    assert!(session.update_state());
    let action = session.finish_session(None, outcome(false, Vec::new()), NOW).expect("finished");
    assert_eq!(action, SessionAction::Held);
}
