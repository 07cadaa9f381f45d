//! The application: its events and its lifecycle.
pub mod event;
pub mod runtime;

use vstd::prelude::*;
use vstd::string::StringExecFns;
use std::sync::Arc;
use crate::app::event::{AppEvent, ProcessSignal, ShutdownReason};
use crate::cli::LaunchRequest;
use crate::config::EffectiveConfig;
use crate::diagnostics::ErrorCategory;

verus! {

#[derive(Clone, Copy, Debug, PartialEq, Eq, Structural)]
pub enum Lifecycle {
    Starting,
    Running,
    ShuttingDown(ShutdownReason),
    Stopped,
}

#[derive(Clone, Copy, Debug, PartialEq, Eq, Structural)]
pub enum AppAction {
    Continue,
    BeginShutdown,
    Stop,
}

#[derive(Clone, Copy, Debug, PartialEq, Eq, Structural)]
pub enum ShutdownTransition {
    Started,
    AlreadyShuttingDown,
}

/// What could not be done.
#[derive(Clone, Copy, Debug, PartialEq, Eq, Structural)]
pub enum AppOperation {
    Start,
    Stop,
    HandlePtyEvent,
}

impl AppOperation {
    pub open spec fn spec_name(self) -> Seq<char> {
        match self {
            AppOperation::Start => "start"@,
            AppOperation::Stop => "stop"@,
            AppOperation::HandlePtyEvent => "handle PTY event"@,
        }
    }

    pub fn name(self) -> (result: &'static str)
        ensures
            result@ == self.spec_name(),
    {
        match self {
            AppOperation::Start => "start",
            AppOperation::Stop => "stop",
            AppOperation::HandlePtyEvent => "handle PTY event",
        }
    }
}

#[derive(Clone, Copy, Debug, PartialEq, Eq, Structural)]
pub enum AppError {
    InvalidTransition { operation: AppOperation, from: Lifecycle },
}

pub open spec fn signal_text(signal: ProcessSignal) -> Seq<char> {
    match signal {
        ProcessSignal::Hangup => "Hangup"@,
        ProcessSignal::Interrupt => "Interrupt"@,
        ProcessSignal::Terminate => "Terminate"@,
    }
}

fn signal_name(signal: ProcessSignal) -> (result: &'static str)
    ensures
        result@ == signal_text(signal),
{
    match signal {
        ProcessSignal::Hangup => "Hangup",
        ProcessSignal::Interrupt => "Interrupt",
        ProcessSignal::Terminate => "Terminate",
    }
}

pub open spec fn reason_text(reason: ShutdownReason) -> Seq<char> {
    match reason {
        ShutdownReason::SkeletonComplete => "SkeletonComplete"@,
        ShutdownReason::UserRequested => "UserRequested"@,
        ShutdownReason::ChildExited => "ChildExited"@,
        ShutdownReason::PlatformFailure => "PlatformFailure"@,
        ShutdownReason::StartupFailure => "StartupFailure"@,
        ShutdownReason::EventIngressDisconnected => "EventIngressDisconnected"@,
        ShutdownReason::Signal(signal) => "Signal("@ + signal_text(signal) + ")"@,
    }
}

fn push_reason(out: &mut String, reason: ShutdownReason)
    ensures
        final(out)@ == old(out)@ + reason_text(reason),
{
    let ghost before = out@;
    match reason {
        ShutdownReason::SkeletonComplete => out.append("SkeletonComplete"),
        ShutdownReason::UserRequested => out.append("UserRequested"),
        ShutdownReason::ChildExited => out.append("ChildExited"),
        ShutdownReason::PlatformFailure => out.append("PlatformFailure"),
        ShutdownReason::StartupFailure => out.append("StartupFailure"),
        ShutdownReason::EventIngressDisconnected => out.append("EventIngressDisconnected"),
        ShutdownReason::Signal(signal) => {
            out.append("Signal(");
            out.append(signal_name(signal));
            out.append(")");
        },
    }
    assert(out@ =~= before + reason_text(reason));
}

pub open spec fn lifecycle_text(lifecycle: Lifecycle) -> Seq<char> {
    match lifecycle {
        Lifecycle::Starting => "Starting"@,
        Lifecycle::Running => "Running"@,
        Lifecycle::ShuttingDown(reason) => "ShuttingDown("@ + reason_text(reason) + ")"@,
        Lifecycle::Stopped => "Stopped"@,
    }
}

impl AppError {
    pub open spec fn text(self) -> Seq<char> {
        match self {
            AppError::InvalidTransition { operation, from } => "cannot "@ + operation.spec_name()
                + " while lifecycle is "@ + lifecycle_text(from),
        }
    }

    pub fn category(&self) -> (result: ErrorCategory)
        ensures
            result == ErrorCategory::Internal,
    {
        ErrorCategory::Internal
    }

    /// What the error says.
    pub fn message(&self) -> (result: String)
        ensures
            result@ == self.text(),
    {
        match *self {
            AppError::InvalidTransition { operation, from } => {
                let mut out = String::from_str("cannot ");
                out.append(operation.name());
                out.append(" while lifecycle is ");
                let ghost head = out@;
                match from {
                    Lifecycle::Starting => out.append("Starting"),
                    Lifecycle::Running => out.append("Running"),
                    Lifecycle::ShuttingDown(reason) => {
                        out.append("ShuttingDown(");
                        push_reason(&mut out, reason);
                        out.append(")");
                    },
                    Lifecycle::Stopped => out.append("Stopped"),
                }
                assert(out@ =~= head + lifecycle_text(from));
                out
            },
        }
    }
}

/// The lifecycle after something that could not be done: an application that has not begun to
/// end ends now.
pub open spec fn after_fault(lifecycle: Lifecycle) -> Lifecycle {
    match lifecycle {
        Lifecycle::Starting | Lifecycle::Running => Lifecycle::ShuttingDown(
            ShutdownReason::StartupFailure,
        ),
        _ => lifecycle,
    }
}

/// The lifecycle after the application was asked to end.
pub open spec fn after_request(lifecycle: Lifecycle, reason: ShutdownReason) -> Lifecycle {
    match lifecycle {
        Lifecycle::Starting | Lifecycle::Running => Lifecycle::ShuttingDown(reason),
        _ => lifecycle,
    }
}

/// The application.
#[derive(Debug)]
pub struct App {
    config: Arc<EffectiveConfig>,
    launch: LaunchRequest,
    lifecycle: Lifecycle,
}

/// The state of the application.
pub struct AppModel {
    pub config: EffectiveConfig,
    pub launch: LaunchRequest,
    pub lifecycle: Lifecycle,
}

impl View for App {
    type V = AppModel;

    closed spec fn view(&self) -> AppModel {
        AppModel { config: *self.config, launch: self.launch, lifecycle: self.lifecycle }
    }
}

impl App {
    pub fn lifecycle(&self) -> (result: &Lifecycle)
        ensures
            *result == self@.lifecycle,
    {
        &self.lifecycle
    }

    pub fn config(&self) -> (result: &EffectiveConfig)
        ensures
            *result == self@.config,
    {
        &*self.config
    }

    pub fn launch(&self) -> (result: &LaunchRequest)
        ensures
            *result == self@.launch,
    {
        &self.launch
    }

    /// Moves the application from starting to running.
    pub fn start(&mut self) -> (result: Result<(), AppError>)
        ensures
            final(self)@.lifecycle == after_step(old(self)@.lifecycle, AppStep::Start),
            ({
                let from = old(self)@.lifecycle;
                if from is Starting {
                    &&& result is Ok
                    &&& final(self)@ == (AppModel { lifecycle: Lifecycle::Running, ..old(self)@ })
                } else {
                    &&& result == Err::<(), AppError>(
                        AppError::InvalidTransition { operation: AppOperation::Start, from },
                    )
                    &&& final(self)@ == (AppModel { lifecycle: after_fault(from), ..old(self)@ })
                }
            }),
    {
        if self.lifecycle != Lifecycle::Starting {
            return Err(self.invalid_transition(AppOperation::Start));
        }
        self.lifecycle = Lifecycle::Running;
        Ok(())
    }

    /// Applies one event.
    pub fn handle_event(&mut self, event: AppEvent) -> (result: Result<AppAction, AppError>)
        ensures
            final(self)@.lifecycle == after_step(
                old(self)@.lifecycle,
                match event {
                    AppEvent::ShutdownRequested(reason) => AppStep::Request(reason),
                    AppEvent::Pty(_) => AppStep::HandlePtyEvent,
                },
            ),
            ({
                let from = old(self)@.lifecycle;
                match event {
                    AppEvent::ShutdownRequested(reason) => {
                        &&& result == Ok::<AppAction, AppError>(
                            if from is Starting || from is Running {
                                AppAction::BeginShutdown
                            } else {
                                AppAction::Continue
                            },
                        )
                        &&& final(self)@ == (AppModel {
                            lifecycle: after_request(from, reason),
                            ..old(self)@
                        })
                    },
                    AppEvent::Pty(_) => if from is Running || from is ShuttingDown {
                        result == Ok::<AppAction, AppError>(AppAction::Continue) && final(self)@
                            == old(self)@
                    } else {
                        &&& result == Err::<AppAction, AppError>(
                            AppError::InvalidTransition {
                                operation: AppOperation::HandlePtyEvent,
                                from,
                            },
                        )
                        &&& final(self)@ == (AppModel { lifecycle: after_fault(from), ..old(self)@ })
                    },
                }
            }),
    {
        match event {
            AppEvent::ShutdownRequested(reason) => match self.request_shutdown(reason) {
                Ok(ShutdownTransition::Started) => Ok(AppAction::BeginShutdown),
                Ok(ShutdownTransition::AlreadyShuttingDown) => Ok(AppAction::Continue),
                Err(error) => Err(error),
            },
            AppEvent::Pty(_) => match self.lifecycle {
                Lifecycle::Running => Ok(AppAction::Continue),
                Lifecycle::ShuttingDown(_) => Ok(AppAction::Continue),
                _ => Err(self.invalid_transition(AppOperation::HandlePtyEvent)),
            },
        }
    }

    /// Asks the application to end. The first reason is kept.
    pub fn request_shutdown(&mut self, reason: ShutdownReason) -> (result: Result<
        ShutdownTransition,
        AppError,
    >)
        ensures
            final(self)@.lifecycle == after_step(
                old(self)@.lifecycle,
                AppStep::Request(reason),
            ),
            ({
                let from = old(self)@.lifecycle;
                &&& result == Ok::<ShutdownTransition, AppError>(
                    if from is Starting || from is Running {
                        ShutdownTransition::Started
                    } else {
                        ShutdownTransition::AlreadyShuttingDown
                    },
                )
                &&& final(self)@ == (AppModel {
                    lifecycle: after_request(from, reason),
                    ..old(self)@
                })
            }),
    {
        match self.lifecycle {
            Lifecycle::Starting => {
                self.lifecycle = Lifecycle::ShuttingDown(reason);
                Ok(ShutdownTransition::Started)
            },
            Lifecycle::Running => {
                self.lifecycle = Lifecycle::ShuttingDown(reason);
                Ok(ShutdownTransition::Started)
            },
            _ => Ok(ShutdownTransition::AlreadyShuttingDown),
        }
    }

    /// Completes the end of the application.
    pub fn stop(&mut self) -> (result: Result<(), AppError>)
        ensures
            final(self)@.lifecycle == after_step(old(self)@.lifecycle, AppStep::Stop),
            ({
                let from = old(self)@.lifecycle;
                if from is ShuttingDown {
                    &&& result is Ok
                    &&& final(self)@ == (AppModel { lifecycle: Lifecycle::Stopped, ..old(self)@ })
                } else {
                    &&& result == Err::<(), AppError>(
                        AppError::InvalidTransition { operation: AppOperation::Stop, from },
                    )
                    &&& final(self)@ == (AppModel { lifecycle: after_fault(from), ..old(self)@ })
                }
            }),
    {
        match self.lifecycle {
            Lifecycle::ShuttingDown(_) => {
                self.lifecycle = Lifecycle::Stopped;
                Ok(())
            },
            _ => Err(self.invalid_transition(AppOperation::Stop)),
        }
    }

    fn invalid_transition(&mut self, operation: AppOperation) -> (result: AppError)
        ensures
            result == (AppError::InvalidTransition { operation, from: old(self)@.lifecycle }),
            final(self)@ == (AppModel {
                lifecycle: after_fault(old(self)@.lifecycle),
                ..old(self)@
            }),
    {
        let from = self.lifecycle;
        match from {
            Lifecycle::Starting => {
                self.lifecycle = Lifecycle::ShuttingDown(ShutdownReason::StartupFailure);
            },
            Lifecycle::Running => {
                self.lifecycle = Lifecycle::ShuttingDown(ShutdownReason::StartupFailure);
            },
            _ => {},
        }
        AppError::InvalidTransition { operation, from }
    }
}

#[derive(Debug)]
pub struct AppBuilder {
    config: Arc<EffectiveConfig>,
    launch: LaunchRequest,
}

impl AppBuilder {
    pub closed spec fn spec_config(&self) -> EffectiveConfig {
        *self.config
    }

    pub closed spec fn spec_launch(&self) -> LaunchRequest {
        self.launch
    }

    pub fn new(config: Arc<EffectiveConfig>, launch: LaunchRequest) -> (result: AppBuilder)
        ensures
            result.spec_config() == *config,
            result.spec_launch() == launch,
    {
        AppBuilder { config, launch }
    }

    pub fn build(self) -> (result: App)
        ensures
            result@ == (AppModel {
                config: self.spec_config(),
                launch: self.spec_launch(),
                lifecycle: Lifecycle::Starting,
            }),
    {
        App { config: self.config, launch: self.launch, lifecycle: Lifecycle::Starting }
    }
}

/// How far a lifecycle has come.
pub open spec fn progress(lifecycle: Lifecycle) -> int {
    match lifecycle {
        Lifecycle::Starting => 0,
        Lifecycle::Running => 1,
        Lifecycle::ShuttingDown(_) => 2,
        Lifecycle::Stopped => 3,
    }
}

/// Something that is done to the application.
pub enum AppStep {
    Start,
    Request(ShutdownReason),
    HandlePtyEvent,
    Stop,
}

/// The lifecycle after a step.
pub open spec fn after_step(lifecycle: Lifecycle, step: AppStep) -> Lifecycle {
    match step {
        AppStep::Start => if lifecycle is Starting {
            Lifecycle::Running
        } else {
            after_fault(lifecycle)
        },
        AppStep::Request(reason) => after_request(lifecycle, reason),
        AppStep::HandlePtyEvent => if lifecycle is Running || lifecycle is ShuttingDown {
            lifecycle
        } else {
            after_fault(lifecycle)
        },
        AppStep::Stop => if lifecycle is ShuttingDown {
            Lifecycle::Stopped
        } else {
            after_fault(lifecycle)
        },
    }
}

/// The lifecycle after steps in order.
pub open spec fn after_steps(lifecycle: Lifecycle, steps: Seq<AppStep>) -> Lifecycle
    decreases steps.len(),
{
    if steps.len() == 0 {
        lifecycle
    } else {
        after_step(after_steps(lifecycle, steps.drop_last()), steps.last())
    }
}

/// Whatever is done, in whatever order, the lifecycle never goes back; and once the application
/// has begun to end, the reason stays the first one until it has stopped.
pub proof fn lifecycle_is_forward_only(lifecycle: Lifecycle, steps: Seq<AppStep>)
    ensures
        progress(lifecycle) <= progress(after_steps(lifecycle, steps)),
        lifecycle is ShuttingDown && after_steps(lifecycle, steps) is ShuttingDown ==> after_steps(
            lifecycle,
            steps,
        ) == lifecycle,
    decreases steps.len(),
{
    if steps.len() > 0 {
        lifecycle_is_forward_only(lifecycle, steps.drop_last());
    }
}

/// An application that is started runs; one that is asked to end does so, for the reason it was given;
/// and one that has ended is stopped. What comes out of order ends it.
pub proof fn the_application_starts_runs_and_ends(reason: ShutdownReason)
    ensures
        after_step(Lifecycle::Starting, AppStep::Start) is Running,
        after_step(Lifecycle::Running, AppStep::HandlePtyEvent) is Running,
        after_step(Lifecycle::Running, AppStep::Request(reason)) == Lifecycle::ShuttingDown(reason),
        after_step(Lifecycle::Starting, AppStep::Request(reason)) == Lifecycle::ShuttingDown(reason),
        after_step(Lifecycle::ShuttingDown(reason), AppStep::HandlePtyEvent)
            == Lifecycle::ShuttingDown(reason),
        after_step(Lifecycle::ShuttingDown(reason), AppStep::Stop) is Stopped,
        after_step(Lifecycle::Running, AppStep::Start) == Lifecycle::ShuttingDown(
            ShutdownReason::StartupFailure,
        ),
        after_step(Lifecycle::Starting, AppStep::HandlePtyEvent) == Lifecycle::ShuttingDown(
            ShutdownReason::StartupFailure,
        ),
        after_step(Lifecycle::Running, AppStep::Stop) == Lifecycle::ShuttingDown(
            ShutdownReason::StartupFailure,
        ),
        after_step(Lifecycle::Stopped, AppStep::Request(reason)) is Stopped,
{
}

} // verus!
