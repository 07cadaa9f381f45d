use leyline::app::event::{BatchError, BulkEvent, ControlEvent, UnsupportedProcessSignal};
use leyline::app::runtime::{BulkSendError, ControlSendError};
use leyline::clipboard::{TransferError, TransferQueueError};
use leyline::interaction::ImeError;
use leyline::layout::LayoutError;
use leyline::session::SessionError;
use leyline::signal::SignalRelayError;
use leyline::tab::{SessionId, TabError};
use leyline::terminal::adapter::TerminalError;
use leyline::terminal::input::InputError;

#[test]
fn batches_and_signals_that_are_refused_are_named() {
    assert_eq!(BatchError::Empty.message(), "PTY output batches cannot be empty");
    assert_eq!(
        BatchError::TooLarge(65_537).message(),
        "PTY output batch is 65537 bytes; the limit is 65536"
    );
    assert_eq!(UnsupportedProcessSignal(9).message(), "unsupported process signal 9");
    assert_eq!(UnsupportedProcessSignal(-12).message(), "unsupported process signal -12");
    assert_eq!(
        UnsupportedProcessSignal(i32::MIN).message(),
        "unsupported process signal -2147483648"
    );
}

#[test]
fn events_that_are_not_sent_come_back() {
    let error = ControlSendError::Cancelled(ControlEvent::PtyWritable);
    assert_eq!(error.message(), "control send was cancelled");
    let error = ControlSendError::Disconnected(ControlEvent::PtyWritable);
    assert_eq!(error.message(), "control inbox is disconnected");
    let error = BulkSendError::Cancelled(BulkEvent::PtyReadClosed);
    assert_eq!(error.message(), "bulk send was cancelled");
    let error = BulkSendError::Disconnected(BulkEvent::PtyReadClosed);
    assert_eq!(error.message(), "bulk inbox is disconnected");
}

#[test]
fn transfers_that_fail_say_why() {
    assert_eq!(TransferError::TooLarge.message(), "clipboard transfer exceeds 8 MiB");
    assert_eq!(TransferError::InvalidUtf8.message(), "clipboard transfer is not UTF-8");
    assert_eq!(TransferError::Cancelled.message(), "clipboard transfer was cancelled");
    assert_eq!(TransferError::Timeout.message(), "clipboard transfer timed out");
    assert_eq!(TransferError::Io("gone".into()).message(), "clipboard I/O failed: gone");
    assert_eq!(TransferQueueError::Full.message(), "clipboard transfer queue is full");
    assert_eq!(
        TransferQueueError::Closed.message(),
        "clipboard transfer workers have stopped"
    );
}

#[test]
fn text_input_and_layouts_that_fail_say_why() {
    assert_eq!(ImeError::Inactive.message(), "text input is inactive");
    assert_eq!(ImeError::PreeditTooLarge.message(), "preedit exceeds its hard limit");
    assert_eq!(
        ImeError::CommitTooLarge.message(),
        "IME commit exceeds its hard limit or contains NUL"
    );
    assert_eq!(
        ImeError::InvalidCursor.message(),
        "preedit cursor is not a valid UTF-8 byte range"
    );
    assert_eq!(ImeError::SerialOverflow.message(), "IME serial overflow");
    assert_eq!(ImeError::RevisionOverflow.message(), "IME revision overflow");
    assert_eq!(
        LayoutError::Overflow.message(),
        "layout size or scale exceeds the supported range"
    );
}

#[test]
fn terminals_that_fail_say_why() {
    assert_eq!(
        TerminalError::BatchTooLarge(70_000).message(),
        "PTY output batch is 70000 bytes; the limit is 65536"
    );
    assert_eq!(TerminalError::GenerationOverflow.message(), "terminal generation overflow");
    assert_eq!(
        TerminalError::SnapshotTooLarge.message(),
        "terminal snapshot dimensions overflow"
    );
    assert_eq!(
        TerminalError::CombiningLimit.message(),
        "terminal combining character resource limit exceeded"
    );
    assert_eq!(TerminalError::HyperlinkTooLarge.message(), "terminal hyperlink is too large");
    assert_eq!(TerminalError::TooManyHyperlinks.message(), "terminal hyperlink table is full");
    assert_eq!(
        TerminalError::SelectionPoint.message(),
        "selection point is outside the visible grid"
    );
}

#[test]
fn sessions_that_fail_say_why() {
    let terminal = SessionError::Terminal(TerminalError::GenerationOverflow);
    assert_eq!(terminal.message(), "terminal generation overflow");
    assert_eq!(SessionError::Size("too small".into()).message(), "too small");
    assert_eq!(SessionError::Command("x".into()).message(), "PTY command failed: x");
    assert_eq!(SessionError::Join("x".into()).message(), "PTY join failed: x");
    assert_eq!(SessionError::Pty("x".into()).message(), "PTY failed: x");
    assert_eq!(
        SessionError::OutputAfterClose.message(),
        "received PTY output after read closure"
    );
    assert_eq!(SessionError::DuplicateExit.message(), "received duplicate child exit event");
    assert_eq!(
        SessionError::DuplicateReadClose.message(),
        "received duplicate PTY read closure"
    );
    assert_eq!(SessionError::InputCapacityExceeded.message(), "PTY input capacity exceeded");
    assert_eq!(SessionError::InputClosed.message(), "PTY input endpoint is closed");
    assert_eq!(SessionError::Input(InputError::Nul).message(), "input contains NUL");
}

#[test]
fn tabs_and_relays_that_fail_say_why() {
    assert_eq!(TabError::LimitReached { limit: 32 }.message(), "tab limit reached (32)");
    assert_eq!(TabError::SessionIdExhausted.message(), "session id space exhausted");
    assert_eq!(TabError::BellGenerationExhausted.message(), "bell generation space exhausted");
    let id = SessionId { value: 7 };
    assert_eq!(TabError::UnknownSession(id).message(), "unknown session SessionId(7)");
    assert_eq!(TabError::DuplicateSession(id).message(), "duplicate session SessionId(7)");
    assert_eq!(TabError::NoActiveSession.message(), "window has no active session");
    assert_eq!(
        SignalRelayError::Install("x".into()).message(),
        "cannot install process signal relay: x"
    );
    assert_eq!(
        SignalRelayError::Panicked.message(),
        "process signal relay thread panicked"
    );
}
