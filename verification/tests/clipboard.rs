use leyline::app::runtime::Received;
use leyline::clipboard::{
    check_transfer_state, confirmation_key, drain_round, evaluate_paste, PasteConfirmationDecision,
    PastePolicy, PasteRisk, ReadTransfer, ResultRound, TransferError, ABSOLUTE_TIMEOUT,
    NO_PROGRESS_TIMEOUT,
};
use leyline::keys::LogicalKey;
use leyline::terminal::input::MAX_PASTE_BODY_BYTES;
use leyline::time::Instant;

#[test]
fn multiline_and_controls_do_not_bypass_confirmation() {
    assert!(matches!(
        evaluate_paste("one\ntwo", true),
        PastePolicy::NeedsConfirmation { risk: PasteRisk::Multiline, .. }
    ));
    assert!(matches!(
        evaluate_paste("echo\u{1b}[31m", false),
        PastePolicy::NeedsConfirmation { risk: PasteRisk::ControlCharacters, .. }
    ));
    assert_eq!(evaluate_paste("safe", true), PastePolicy::Allowed("safe".into()));
    assert_eq!(evaluate_paste("bad\0", false), PastePolicy::Rejected);
}

#[test]
fn confirmation_keys_accept_reject_and_consume_everything_else() {
    assert_eq!(confirmation_key(LogicalKey::Enter), PasteConfirmationDecision::Accept);
    assert_eq!(confirmation_key(LogicalKey::Character('Y')), PasteConfirmationDecision::Accept);
    assert_eq!(confirmation_key(LogicalKey::Escape), PasteConfirmationDecision::Reject);
    assert_eq!(confirmation_key(LogicalKey::Character('n')), PasteConfirmationDecision::Reject);
    assert_eq!(confirmation_key(LogicalKey::Function(1)), PasteConfirmationDecision::Consume);
}

#[test]
fn one_trailing_line_ending_does_not_require_confirmation() {
    assert_eq!(
        evaluate_paste("single line\n", true),
        PastePolicy::Allowed("single line\n".into())
    );
    assert!(matches!(
        evaluate_paste("one\ntwo\n", true),
        PastePolicy::NeedsConfirmation { lines: 2, risk: PasteRisk::Multiline, .. }
    ));
}

#[test]
fn paste_body_limit_reserves_the_bracketed_wrapper_before_modal() {
    let at_limit = "a".repeat(MAX_PASTE_BODY_BYTES);
    assert!(matches!(evaluate_paste(&at_limit, true), PastePolicy::Allowed(_)));
    let over_limit = "a".repeat(MAX_PASTE_BODY_BYTES + 1);
    assert_eq!(evaluate_paste(&over_limit, true), PastePolicy::Rejected);
}

#[test]
fn transfer_reader_enforces_utf8_and_size() {
    let mut transfer = ReadTransfer::new();
    transfer.take_chunk("terminal 中文".as_bytes()).expect("chunk");
    assert_eq!(transfer.finish().expect("read"), "terminal 中文");

    let mut transfer = ReadTransfer::new();
    transfer.take_chunk(&[0xff]).expect("chunk");
    assert_eq!(transfer.finish(), Err(TransferError::InvalidUtf8));

    let mut transfer = ReadTransfer::new();
    let chunk = vec![b'a'; 8 * 1024 * 1024];
    transfer.take_chunk(&chunk).expect("chunk");
    assert_eq!(transfer.take_chunk(b"b"), Err(TransferError::TooLarge));
}

#[test]
fn transfers_end_when_cancelled_or_stuck() {
    let start = Instant { nanos: 0 };
    let later = |nanos| Instant { nanos };
    assert_eq!(check_transfer_state(false, start, start, later(1)), Ok(()));
    assert_eq!(
        check_transfer_state(true, start, start, later(1)),
        Err(TransferError::Cancelled)
    );
    assert_eq!(
        check_transfer_state(false, start, start, later(NO_PROGRESS_TIMEOUT)),
        Err(TransferError::Timeout)
    );
    let end = later(ABSOLUTE_TIMEOUT);
    assert_eq!(check_transfer_state(false, start, end, end), Err(TransferError::Timeout));
}

#[test]
fn result_drain_is_bounded_per_ui_round() {
    let (sender, results) = crossbeam_channel::bounded(8);
    for _ in 0..3 {
        sender.send(TransferError::Timeout).unwrap();
    }
    let round = drain_round(&results, 2);
    assert!(round.more);
    assert_eq!(round.taken, vec![TransferError::Timeout, TransferError::Timeout]);
    let round = drain_round(&results, 2);
    assert!(!round.more);
    assert_eq!(round.taken.len(), 1);
}

#[test]
fn a_round_of_results_stops_at_an_empty_channel() {
    let mut round = ResultRound { taken: vec![1], more: false };
    assert!(round.take(3, Received::Event(2)));
    assert!(!round.take(3, Received::Event(3)));
    assert_eq!(round.taken, vec![1, 2, 3]);
    let mut round = ResultRound::<u8> { taken: Vec::new(), more: false };
    assert!(!round.take(3, Received::Empty));
    assert!(!round.take(3, Received::Disconnected));
}
