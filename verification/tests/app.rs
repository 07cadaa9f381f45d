use leyline::app::event::{
    AppEvent, BatchError, BulkEvent, ByteBatch, ChildExit, ControlEvent, ProcessSignal, PtyEvent,
    PtyFailure, ShutdownReason,
};
use leyline::app::runtime::{
    drain_round, DrainResult, DrainRound, InboxPolicy, PtyCompletion, Received, RuntimeBuildError,
    WakeState,
};
use leyline::app::{App, AppAction, AppBuilder, AppError, AppOperation, Lifecycle, ShutdownTransition};
use leyline::cli::LaunchRequest;
use leyline::config::EffectiveConfig;
use leyline::diagnostics::ErrorCategory;
use std::sync::Arc;

fn application() -> App {
    AppBuilder::new(Arc::new(EffectiveConfig::default()), LaunchRequest::DefaultShell).build()
}

#[test]
fn process_signals_have_stable_numbers_and_exit_codes() {
    for (number, signal, exit_code) in [
        (1, ProcessSignal::Hangup, 129),
        (2, ProcessSignal::Interrupt, 130),
        (15, ProcessSignal::Terminate, 143),
    ] {
        assert_eq!(ProcessSignal::try_from(number), Ok(signal));
        assert_eq!(signal.number(), number);
        assert_eq!(signal.exit_code(), exit_code);
    }
    assert!(ProcessSignal::try_from(9).is_err());
}

#[test]
fn lifecycle_is_forward_only_and_shutdown_is_idempotent() {
    let mut app = application();
    app.start().expect("start");
    assert_eq!(
        app.request_shutdown(ShutdownReason::UserRequested).expect("shutdown"),
        ShutdownTransition::Started
    );
    assert_eq!(
        app.request_shutdown(ShutdownReason::PlatformFailure).expect("shutdown"),
        ShutdownTransition::AlreadyShuttingDown
    );
    assert_eq!(app.lifecycle(), &Lifecycle::ShuttingDown(ShutdownReason::UserRequested));
    app.stop().expect("stop");
}

#[test]
fn invalid_transitions_name_what_was_tried_and_end_the_application() {
    let mut app = application();
    let error = app.stop().expect_err("nothing to stop");
    assert_eq!(
        error,
        AppError::InvalidTransition { operation: AppOperation::Stop, from: Lifecycle::Starting }
    );
    assert_eq!(error.message(), "cannot stop while lifecycle is Starting");
    assert_eq!(error.category(), ErrorCategory::Internal);
    assert_eq!(app.lifecycle(), &Lifecycle::ShuttingDown(ShutdownReason::StartupFailure));
    let error = app.start().expect_err("already ending");
    assert_eq!(
        error.message(),
        "cannot start while lifecycle is ShuttingDown(StartupFailure)"
    );
    app.stop().expect("stop");
    let error = app.handle_event(AppEvent::Pty(PtyEvent::Writable)).expect_err("stopped");
    assert_eq!(error.message(), "cannot handle PTY event while lifecycle is Stopped");

    let mut app = application();
    let reason = ShutdownReason::Signal(ProcessSignal::Hangup);
    assert_eq!(
        app.handle_event(AppEvent::ShutdownRequested(reason)),
        Ok(AppAction::BeginShutdown)
    );
    assert_eq!(
        app.handle_event(AppEvent::ShutdownRequested(ShutdownReason::ChildExited)),
        Ok(AppAction::Continue)
    );
    assert_eq!(
        app.start().expect_err("ending").message(),
        "cannot start while lifecycle is ShuttingDown(Signal(Hangup))"
    );
}

#[test]
fn batches_are_bounded_and_never_empty() {
    assert_eq!(ByteBatch::new(Vec::new()), Err(BatchError::Empty));
    assert_eq!(ByteBatch::new(vec![0; 65_537]), Err(BatchError::TooLarge(65_537)));
    let batch = ByteBatch::new(vec![1, 2, 3]).expect("batch");
    assert_eq!(batch.len(), 3);
    assert!(!batch.is_empty());
    assert_eq!(batch.as_slice(), &[1, 2, 3]);
}

#[test]
fn enforces_capacity_and_control_precedes_bulk_with_budgets() {
    let policy = InboxPolicy {
        control_capacity: 1,
        bulk_capacity: 2,
        control_budget: 1,
        bulk_event_budget: 1,
        bulk_byte_budget: 10,
    }
    .validate()
    .expect("policy");
    let (control, control_rx) = crossbeam_channel::bounded(policy.control_capacity);
    let (bulk, bulk_rx) = crossbeam_channel::bounded(policy.bulk_capacity);
    let mut wake = WakeState { pending: false };
    let mut woken = 0;
    control
        .try_send(ControlEvent::Shutdown(ShutdownReason::UserRequested))
        .expect("send");
    woken += usize::from(wake.notify());
    assert!(matches!(
        control.try_send(ControlEvent::Shutdown(ShutdownReason::UserRequested)),
        Err(crossbeam_channel::TrySendError::Full(_))
    ));
    bulk.send(BulkEvent::PtyOutput(ByteBatch::new(vec![1]).expect("batch")))
        .expect("send");
    woken += usize::from(wake.notify());
    let round = drain_round(&policy, &control_rx, &bulk_rx);
    assert_eq!(
        round.result,
        DrainResult {
            control: 1,
            bulk: 1,
            bulk_bytes: 1,
            control_disconnected: false,
            bulk_disconnected: false
        }
    );
    assert!(matches!(round.events[0], AppEvent::ShutdownRequested(_)));
    assert_eq!(woken, 1);
}

#[test]
fn clearing_wake_rechecks_queues() {
    let policy = InboxPolicy::default();
    let (control, control_rx) = crossbeam_channel::bounded(policy.control_capacity);
    let (_bulk, bulk_rx) = crossbeam_channel::bounded::<BulkEvent>(policy.bulk_capacity);
    let mut wake = WakeState { pending: false };
    control
        .try_send(ControlEvent::Shutdown(ShutdownReason::UserRequested))
        .expect("send");
    assert!(wake.notify());
    assert!(!wake.prepare_to_wait(control_rx.is_empty() && bulk_rx.is_empty()));
    drain_round(&policy, &control_rx, &bulk_rx);
    assert!(wake.prepare_to_wait(control_rx.is_empty() && bulk_rx.is_empty()));
    assert!(wake.notify());
    assert!(!wake.notify());
}

#[test]
fn pty_completion_requires_exit_and_read_close_in_any_order() {
    let mut state = PtyCompletion::default();
    state.observe_control(&ControlEvent::PtyExited(ChildExit::Code(0)));
    assert!(!state.final_output_complete());
    state.observe_bulk(&BulkEvent::PtyReadClosed);
    assert!(state.final_output_complete());

    let mut reverse = PtyCompletion::default();
    reverse.observe_bulk(&BulkEvent::PtyReadClosed);
    assert!(!reverse.final_output_complete());
    reverse.observe_control(&ControlEvent::PtyExited(ChildExit::Code(0)));
    assert!(reverse.final_output_complete());
}

#[test]
fn a_round_notes_a_closed_channel_and_stops_at_its_bytes() {
    let policy = InboxPolicy { bulk_byte_budget: 3, ..InboxPolicy::default() };
    let (control, control_rx) = crossbeam_channel::bounded::<ControlEvent>(1);
    let (bulk, bulk_rx) = crossbeam_channel::bounded(4);
    drop(control);
    for _ in 0..3 {
        bulk.send(BulkEvent::PtyOutput(ByteBatch::new(vec![7, 7]).expect("batch")))
            .expect("send");
    }
    let round = drain_round(&policy, &control_rx, &bulk_rx);
    assert!(round.result.control_disconnected);
    assert_eq!(round.result.bulk, 2);
    assert_eq!(round.result.bulk_bytes, 4);

    let mut round = DrainRound::start();
    let failure = PtyFailure { message: "gone".into() };
    assert!(round.take_control(&policy, Received::Event(ControlEvent::PtyFailed(failure.clone()))));
    assert!(!round.take_control(&policy, Received::Empty));
    assert!(!round.take_bulk(&policy, Received::Disconnected));
    assert_eq!(round.events, vec![AppEvent::Pty(PtyEvent::Failed(failure))]);
    assert!(round.result.bulk_disconnected);
}

#[test]
fn inbox_policies_are_checked() {
    let policy = InboxPolicy { control_capacity: 0, ..InboxPolicy::default() };
    assert_eq!(policy.validate(), Err(RuntimeBuildError::InvalidCapacity));
    let policy = InboxPolicy { bulk_capacity: 65_537, ..InboxPolicy::default() };
    assert_eq!(policy.validate(), Err(RuntimeBuildError::InvalidCapacity));
    let policy = InboxPolicy { bulk_byte_budget: 0, ..InboxPolicy::default() };
    assert_eq!(policy.validate(), Err(RuntimeBuildError::InvalidBudget));
    assert_eq!(
        RuntimeBuildError::InvalidCapacity.message(),
        "inbox capacity must be in 1..=65536"
    );
    assert_eq!(
        RuntimeBuildError::InvalidBudget.message(),
        "inbox processing budgets must be nonzero"
    );
}

#[test]
fn a_round_counts_the_bytes_that_it_takes() {
    let policy = InboxPolicy { bulk_byte_budget: usize::MAX, ..InboxPolicy::default() };
    let (_control, control_rx) = crossbeam_channel::bounded::<ControlEvent>(1);
    let (bulk, bulk_rx) = crossbeam_channel::bounded(4);
    for length in [3, 5] {
        let batch = ByteBatch::new(vec![7; length]).expect("batch");
        bulk.send(BulkEvent::PtyOutput(batch)).expect("send");
    }
    bulk.send(BulkEvent::PtyReadClosed).expect("send");
    let round = drain_round(&policy, &control_rx, &bulk_rx);
    assert_eq!((round.result.bulk, round.result.bulk_bytes), (3, 8));

    let mut round = DrainRound::start();
    round.result.bulk_bytes = usize::MAX - 1;
    let batch = ByteBatch::new(vec![1, 2]).expect("batch");
    assert!(!round.take_bulk(&policy, Received::Event(BulkEvent::PtyOutput(batch))));
    assert_eq!(round.result.bulk_bytes, usize::MAX);
}
