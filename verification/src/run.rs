//! How a run of the terminal starts and ends.
use vstd::prelude::*;
use vstd::string::StringExecFns;
use crate::app::event::{ProcessSignal, ShutdownReason};
use crate::app::runtime::RuntimeBuildError;
use crate::app::{after_fault, App, AppError, AppModel, AppOperation, Lifecycle};
use crate::config::{config_error_text, ConfigError};
use crate::diagnostics::{error_report, render_error, texts, ErrorCategory};
use crate::logging::LoggingError;
use crate::signal::SignalRelayError;
use crate::terminfo::TerminfoError;

verus! {

/// How the user interface ended.
#[derive(Clone, Copy, Debug, PartialEq, Eq, Structural)]
pub enum UiExit {
    Clean,
    Signaled(ProcessSignal),
}

/// How a run ended.
#[derive(Clone, Copy, Debug, PartialEq, Eq, Structural)]
pub struct RunOutcome {
    exit_code: u8,
}

impl View for RunOutcome {
    type V = u8;

    closed spec fn view(&self) -> u8 {
        self.exit_code
    }
}

/// The exit code for an error.
pub open spec fn category_code(category: ErrorCategory) -> u8 {
    match category {
        ErrorCategory::Platform | ErrorCategory::Renderer => 3,
        ErrorCategory::Internal => 4,
        ErrorCategory::Remote => 5,
        _ => 2,
    }
}

impl RunOutcome {
    pub fn exit_code(self) -> (result: u8)
        ensures
            result == self@,
    {
        self.exit_code
    }

    /// A run that only printed what the command line asked for, or what is wrong with it.
    pub fn printed(success: bool) -> (result: RunOutcome)
        ensures
            result@ == (if success {
                0u8
            } else {
                category_code(ErrorCategory::Cli)
            }),
    {
        RunOutcome {
            exit_code: if success {
                0
            } else {
                ErrorCategory::Cli.exit_code()
            },
        }
    }

    /// A run whose user interface ended.
    pub fn finished(exit: UiExit) -> (result: RunOutcome)
        ensures
            result@ == match exit {
                UiExit::Clean => 0u8,
                UiExit::Signaled(signal) => (128 + signal.code()) as u8,
            },
    {
        match exit {
            UiExit::Clean => RunOutcome { exit_code: 0 },
            UiExit::Signaled(signal) => RunOutcome { exit_code: signal.exit_code() },
        }
    }

    /// A run that failed.
    pub fn failed(category: ErrorCategory) -> (result: RunOutcome)
        ensures
            result@ == category_code(category),
    {
        RunOutcome { exit_code: category.exit_code() }
    }
}

/// A run ends with zero exactly where nothing failed: no error and no signal gives zero.
pub proof fn only_success_ends_with_zero(category: ErrorCategory, signal: ProcessSignal)
    ensures
        category_code(category) != 0,
        (128 + signal.code()) as u8 != 0,
{
}

/// What kept the terminal from starting.
#[derive(Debug)]
pub enum StartupErrorSource {
    Config(ConfigError),
    Logging(LoggingError),
    App(AppError),
    Launch(String),
    Runtime(RuntimeBuildError),
    Signal(SignalRelayError),
    Graphics { category: ErrorCategory, message: String, causes: Vec<String> },
    Terminfo(TerminfoError),
}

pub open spec fn startup_category(source: StartupErrorSource) -> ErrorCategory {
    match source {
        StartupErrorSource::Config(error) => if error is PathUnavailable {
            ErrorCategory::Environment
        } else {
            ErrorCategory::Configuration
        },
        StartupErrorSource::Graphics { category, .. } => category,
        StartupErrorSource::Terminfo(error) => error@.category(),
        _ => ErrorCategory::Internal,
    }
}

pub open spec fn startup_text(source: StartupErrorSource) -> Seq<char> {
    match source {
        StartupErrorSource::Config(error) => config_error_text(error),
        StartupErrorSource::App(error) => error.text(),
        StartupErrorSource::Terminfo(error) => error@.text(),
        StartupErrorSource::Logging(error) => error.text(),
        StartupErrorSource::Launch(message) => message@,
        StartupErrorSource::Runtime(error) => error.text(),
        StartupErrorSource::Signal(error) => error.text(),
        StartupErrorSource::Graphics { message, .. } => message@,
    }
}

/// What has caused an error that kept the terminal from starting: the error itself, then what
/// caused that.
pub open spec fn startup_causes(source: StartupErrorSource) -> Seq<Seq<char>> {
    seq![startup_text(source)] + match source {
        StartupErrorSource::Config(ConfigError::Read { source, .. }) => seq![source@],
        StartupErrorSource::Config(ConfigError::Utf8 { source, .. }) => seq![source@],
        StartupErrorSource::Config(ConfigError::Parse { source, .. }) => seq![source@],
        StartupErrorSource::Terminfo(error) => error@.causes(),
        StartupErrorSource::Signal(error) => error.causes(),
        StartupErrorSource::Graphics { causes, .. } => texts(causes@),
        _ => Seq::empty(),
    }
}

/// An error that kept the terminal from starting, and whether its causes are shown.
#[derive(Debug)]
pub struct StartupError {
    pub source: StartupErrorSource,
    pub verbose: bool,
}

impl StartupError {
    pub fn category(&self) -> (result: ErrorCategory)
        ensures
            result == startup_category(self.source),
    {
        match &self.source {
            StartupErrorSource::Config(error) => error.category(),
            StartupErrorSource::Graphics { category, .. } => *category,
            StartupErrorSource::Terminfo(error) => error.category(),
            _ => ErrorCategory::Internal,
        }
    }

    /// What the error says.
    pub fn message(&self) -> (result: String)
        ensures
            result@ == startup_text(self.source),
    {
        match &self.source {
            StartupErrorSource::Config(error) => error.message(),
            StartupErrorSource::App(error) => error.message(),
            StartupErrorSource::Terminfo(error) => error.message(),
            StartupErrorSource::Logging(error) => error.message().to_owned(),
            StartupErrorSource::Launch(message) => message.as_str().to_owned(),
            StartupErrorSource::Runtime(error) => error.message().to_owned(),
            StartupErrorSource::Signal(error) => error.message(),
            StartupErrorSource::Graphics { message, .. } => message.as_str().to_owned(),
        }
    }

    /// What has caused the error.
    pub fn causes(&self) -> (result: Vec<String>)
        ensures
            texts(result@) == startup_causes(self.source),
    {
        let mut out: Vec<String> = Vec::new();
        out.push(self.message());
        match &self.source {
            StartupErrorSource::Config(error) => match error {
                ConfigError::Read { source, .. } => out.push(source.as_str().to_owned()),
                ConfigError::Utf8 { source, .. } => out.push(source.as_str().to_owned()),
                ConfigError::Parse { source, .. } => out.push(source.as_str().to_owned()),
                _ => {},
            },
            StartupErrorSource::Terminfo(error) => push_texts(&mut out, &error.causes()),
            StartupErrorSource::Signal(error) => match error {
                SignalRelayError::Install(cause) => out.push(cause.as_str().to_owned()),
                SignalRelayError::Spawn(cause) => out.push(cause.as_str().to_owned()),
                SignalRelayError::Panicked => {},
            },
            StartupErrorSource::Graphics { causes, .. } => push_texts(&mut out, causes),
            _ => {},
        }
        assert(texts(out@) =~= startup_causes(self.source));
        out
    }

    /// The report of the error, with its causes where they are shown.
    pub fn report(&self) -> (result: String)
        ensures
            result@ == error_report(
                startup_category(self.source),
                startup_text(self.source),
                startup_causes(self.source),
                self.verbose,
            ),
    {
        render_error(self.category(), self.message().as_str(), &self.causes(), self.verbose)
    }
}

fn push_texts(out: &mut Vec<String>, more: &Vec<String>)
    ensures
        texts(final(out)@) == texts(old(out)@) + texts(more@),
{
    let ghost before = texts(out@);
    let mut i: usize = 0;
    assert(before =~= before + texts(more@.take(0)));
    while i < more.len()
        invariant
            i <= more@.len(),
            texts(out@) == before + texts(more@.take(i as int)),
        decreases more@.len() - i,
    {
        let ghost known = out@;
        out.push(more[i].as_str().to_owned());
        assert(texts(out@) =~= texts(known).push(more@[i as int]@));
        assert(texts(more@.take(i + 1)) =~= texts(more@.take(i as int)).push(more@[i as int]@));
        i += 1;
        assert(texts(out@) =~= before + texts(more@.take(i as int)));
    }
    assert(more@.take(i as int) =~= more@);
}

/// What is said of a warning about the configuration.
pub fn configuration_warning(message: &str) -> (result: String)
    ensures
        result@ == "leyline: configuration warning: "@ + message@ + "\n"@,
{
    let mut out = String::from_str("leyline: configuration warning: ");
    out.append(message);
    out.append("\n");
    out
}

/// Runs an application without a window: it starts, is asked to end at once, and stops.
pub fn run_headless(app: &mut App) -> (result: Result<UiExit, AppError>)
    ensures
        ({
            let from = old(app)@.lifecycle;
            if from is Starting {
                &&& result == Ok::<UiExit, AppError>(UiExit::Clean)
                &&& final(app)@ == (AppModel { lifecycle: Lifecycle::Stopped, ..old(app)@ })
            } else {
                &&& result == Err::<UiExit, AppError>(
                    AppError::InvalidTransition { operation: AppOperation::Start, from },
                )
                &&& final(app)@ == (AppModel { lifecycle: after_fault(from), ..old(app)@ })
            }
        }),
{
    match app.start() {
        Ok(_) => {},
        Err(error) => {
            return Err(error);
        },
    }
    match app.request_shutdown(ShutdownReason::SkeletonComplete) {
        Ok(_) => {},
        Err(error) => {
            return Err(error);
        },
    }
    match app.stop() {
        Ok(_) => Ok(UiExit::Clean),
        Err(error) => Err(error),
    }
}

/// What went wrong is told by the exit code: 3 where it was the platform or the renderer, 4 where it
/// was the terminal itself, 5 where it was another host, and 2 for anything else.
pub proof fn exit_codes_tell_what_went_wrong(category: ErrorCategory)
    ensures
        category_code(category) == 3 <==> category is Platform || category is Renderer,
        category_code(category) == 4 <==> category is Internal,
        category_code(category) == 5 <==> category is Remote,
        category_code(ErrorCategory::Configuration) == 2,
        category_code(ErrorCategory::Environment) == 2,
{
}

/// An error of the configuration is told as one, unless there is no place for the configuration; an
/// error of the graphics keeps its own kind.
pub proof fn startup_errors_keep_their_kind(source: StartupErrorSource)
    ensures
        source is Config && !(source->Config_0 is PathUnavailable) ==> startup_category(source)
            is Configuration,
        source is Config && source->Config_0 is PathUnavailable ==> startup_category(source)
            is Environment,
        source is Graphics ==> startup_category(source) == source->category,
        source is Launch || source is Runtime || source is Signal || source is App
            || source is Logging ==> startup_category(source) is Internal,
{
}

} // verus!
