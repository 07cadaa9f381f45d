use leyline::cli::{
    display_os, interpret, parse_geometry, Cli, CommandSpec, DoctorOperation, LaunchRequest,
    Operation, ParseOutcome, ParsedArguments, Subcommand, TerminfoOperation, Verbosity,
    WindowGeometry, WindowOverrides,
};
use leyline::config::{EffectiveConfig, StartupWindowState};
use leyline::run::{configuration_warning, run_headless, StartupError, StartupErrorSource, UiExit};
use leyline::app::event::ProcessSignal;
use leyline::app::runtime::RuntimeBuildError;
use leyline::app::{AppBuilder, Lifecycle};
use leyline::config::ConfigError;
use leyline::diagnostics::ErrorCategory;
use leyline::logging::LoggingError;
use leyline::signal::SignalRelayError;
use leyline::terminfo::{TerminalIdentity, TerminfoError};
use leyline::RunOutcome;
use std::sync::Arc;

fn arguments() -> ParsedArguments {
    ParsedArguments {
        verbose: 0,
        term: None,
        geometry: None,
        maximized: false,
        fullscreen: false,
        new_window: false,
        execute: None,
        subcommand: None,
    }
}

fn values(values: &[&str]) -> Option<Vec<Vec<u8>>> {
    Some(values.iter().map(|value| value.as_bytes().to_vec()).collect())
}

fn subcommand(group: &str, name: &str) -> Subcommand {
    Subcommand {
        group: group.into(),
        name: name.into(),
        database: None,
        host: None,
        json: false,
    }
}

fn run(arguments: ParsedArguments) -> Cli {
    match interpret(arguments) {
        ParseOutcome::Run(cli) => cli,
        ParseOutcome::Print { text, .. } => panic!("unexpected parse result: {text}"),
    }
}

#[test]
fn preserves_execute_argv_and_hyphen_values() {
    let cli = run(ParsedArguments {
        execute: values(&["printf", "a b", "--help", "-v"]),
        ..arguments()
    });
    assert_eq!(
        cli.command,
        Some(CommandSpec {
            program: b"printf".to_vec(),
            args: vec![b"a b".to_vec(), b"--help".to_vec(), b"-v".to_vec()],
        })
    );
    assert_eq!(cli.verbosity, Verbosity::Warn);
    assert_eq!(cli.operation, Operation::Launch);
    assert_eq!(cli.launch_request(), LaunchRequest::Command(cli.command.clone().unwrap()));
    assert_eq!(run(arguments()).launch_request(), LaunchRequest::DefaultShell);
}

#[test]
fn parses_identity_and_management_commands_without_consuming_execute_argv() {
    let cli = run(ParsedArguments {
        term: Some("xterm-256color".into()),
        subcommand: Some(subcommand("terminfo", "check")),
        ..arguments()
    });
    assert_eq!(cli.terminal_identity, Some(TerminalIdentity::Xterm256Color));
    assert_eq!(
        cli.operation,
        Operation::Terminfo(TerminfoOperation::Check { database: None })
    );
}

#[test]
fn optional_separator_is_not_a_program() {
    assert_eq!(
        run(ParsedArguments { execute: values(&["--", "echo", "ok"]), ..arguments() }).command,
        run(ParsedArguments { execute: values(&["echo", "ok"]), ..arguments() }).command
    );
}

#[test]
fn separator_without_program_is_an_error() {
    assert!(matches!(
        interpret(ParsedArguments { execute: values(&["--"]), ..arguments() }),
        ParseOutcome::Print { success: false, .. }
    ));
}

#[test]
fn parses_strict_geometry_and_window_state_overrides() {
    let cli = run(ParsedArguments {
        geometry: Some(parse_geometry("120x36").expect("geometry")),
        fullscreen: true,
        new_window: true,
        ..arguments()
    });
    assert_eq!(
        cli.window,
        WindowOverrides {
            geometry: Some(WindowGeometry { columns: 120, lines: 36 }),
            startup_state: Some(StartupWindowState::Fullscreen),
            new_window: true,
        }
    );
    for geometry in ["0x24", "80x0", "80X24", " 80x24", "80x24+0+0", "501x24"] {
        assert!(parse_geometry(geometry).is_err());
    }
}

#[test]
fn geometries_are_refused_with_a_reason() {
    for (geometry, reason) in [
        ("", "geometry must use ASCII COLUMNSxLINES without whitespace"),
        ("80\t24", "geometry must use ASCII COLUMNSxLINES without whitespace"),
        ("8\u{e9}x24", "geometry must use ASCII COLUMNSxLINES without whitespace"),
        ("80", "geometry must use COLUMNSxLINES"),
        ("x24", "geometry must use COLUMNSxLINES"),
        ("80x", "geometry must use COLUMNSxLINES"),
        ("80x24x1", "geometry must use COLUMNSxLINES"),
        ("ax24", "columns must be an unsigned decimal integer"),
        ("4294967296x24", "columns must be an unsigned decimal integer"),
        ("80x-1", "lines must be an unsigned decimal integer"),
        ("19x24", "columns must be in 20..=500"),
        ("80x301", "lines must be in 5..=300"),
    ] {
        assert_eq!(parse_geometry(geometry), Err(reason.to_string()), "{geometry}");
    }
    assert_eq!(parse_geometry("+20x5"), Ok(WindowGeometry { columns: 20, lines: 5 }));
}

#[test]
fn accepts_non_utf8_command_arguments() {
    let invalid = vec![b'x', 0xff];
    let cli = run(ParsedArguments {
        execute: Some(vec![b"echo".to_vec(), invalid.clone()]),
        ..arguments()
    });
    assert_eq!(cli.command.expect("command").args, vec![invalid]);
}

#[test]
fn management_commands_take_no_launch_options() {
    let management = || Some(subcommand("doctor", "terminfo"));
    let outcome = interpret(ParsedArguments {
        new_window: true,
        subcommand: management(),
        ..arguments()
    });
    match outcome {
        ParseOutcome::Print { text, success } => {
            assert!(!success);
            assert_eq!(
                text,
                "error: launch options cannot be combined with a management subcommand\n"
            );
        }
        ParseOutcome::Run(cli) => panic!("unexpected parse result: {cli:?}"),
    }
    let cli = run(ParsedArguments { verbose: 9, subcommand: management(), ..arguments() });
    assert_eq!(cli.operation, Operation::Doctor(DoctorOperation::Terminfo));
    assert_eq!(cli.verbosity, Verbosity::Trace);
    assert!(cli.is_verbose());
    let ssh = Subcommand {
        host: Some(b"box".to_vec()),
        json: true,
        ..subcommand("doctor", "ssh")
    };
    assert!(ssh.known());
    assert!(!subcommand("doctor", "ssh").known());
    assert!(!subcommand("terminfo", "ssh").known());
    assert_eq!(
        run(ParsedArguments { subcommand: Some(ssh), ..arguments() }).operation,
        Operation::Doctor(DoctorOperation::Ssh { host: b"box".to_vec(), json: true })
    );
}

#[test]
fn the_command_line_takes_precedence_over_the_configuration() {
    let mut config = EffectiveConfig::default();
    let cli = run(ParsedArguments {
        term: Some("xterm-256color".into()),
        geometry: Some(WindowGeometry { columns: 100, lines: 30 }),
        maximized: true,
        ..arguments()
    });
    cli.apply(&mut config);
    assert_eq!(config.terminal.identity, TerminalIdentity::Xterm256Color);
    assert_eq!((config.window.columns, config.window.lines), (Some(100), Some(30)));
    assert_eq!(config.window.startup_state, Some(StartupWindowState::Maximized));
    let mut untouched = EffectiveConfig::default();
    run(arguments()).apply(&mut untouched);
    assert_eq!(untouched, EffectiveConfig::default());
}

#[test]
fn values_are_shown_in_quotes_and_escaped() {
    assert_eq!(display_os(b"a b"), "\"a b\"");
    assert_eq!(display_os(b"\x1b\"\xff"), "\"\\u{1b}\\\"\\u{fffd}\"");
}

#[test]
fn runs_end_with_their_exit_codes() {
    assert_eq!(RunOutcome::printed(true).exit_code(), 0);
    assert_eq!(RunOutcome::printed(false).exit_code(), 2);
    assert_eq!(RunOutcome::finished(UiExit::Clean).exit_code(), 0);
    assert_eq!(
        RunOutcome::finished(UiExit::Signaled(ProcessSignal::Terminate)).exit_code(),
        143
    );
    assert_eq!(RunOutcome::failed(ErrorCategory::Platform).exit_code(), 3);
}

#[test]
fn startup_errors_keep_the_category_of_their_source() {
    let error = |source| StartupError { source, verbose: true };
    let config = error(StartupErrorSource::Config(ConfigError::PathUnavailable));
    assert_eq!(config.category(), ErrorCategory::Environment);
    let terminfo = error(StartupErrorSource::Terminfo(TerminfoError::NotOwned));
    assert_eq!(terminfo.category(), ErrorCategory::Platform);
    let signal = error(StartupErrorSource::Signal(SignalRelayError::Spawn("errno 1".into())));
    assert_eq!(
        signal.report(),
        "leyline: internal error: cannot start process signal relay: errno 1\n  \
         caused by: cannot start process signal relay: errno 1\n  caused by: errno 1\n"
    );
    let logging = StartupError {
        source: StartupErrorSource::Logging(LoggingError::AlreadyInitialized),
        verbose: false,
    };
    assert_eq!(
        logging.report(),
        "leyline: internal error: the global logging subscriber is already initialized\n"
    );
    let runtime = error(StartupErrorSource::Runtime(RuntimeBuildError::InvalidBudget));
    assert_eq!(runtime.causes(), vec!["inbox processing budgets must be nonzero".to_string()]);
    let graphics = error(StartupErrorSource::Graphics {
        category: ErrorCategory::Renderer,
        message: "no device".into(),
        causes: vec!["unplugged".into()],
    });
    assert_eq!(graphics.causes(), vec!["no device".to_string(), "unplugged".to_string()]);
    assert_eq!(graphics.category(), ErrorCategory::Renderer);
    assert_eq!(graphics.message(), "no device");
    assert_eq!(
        configuration_warning("odd"),
        "leyline: configuration warning: odd\n"
    );
}

#[test]
fn an_application_without_a_window_stops_at_once() {
    let mut app =
        AppBuilder::new(Arc::new(EffectiveConfig::default()), LaunchRequest::DefaultShell).build();
    assert_eq!(run_headless(&mut app), Ok(UiExit::Clean));
    assert_eq!(app.lifecycle(), &Lifecycle::Stopped);
    assert!(run_headless(&mut app).is_err());
}
