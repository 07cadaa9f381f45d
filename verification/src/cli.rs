//! What the command line asks for.
use vstd::prelude::*;
use vstd::slice::{slice_subrange, slice_to_vec};
use vstd::string::StringExecFns;
use vstd::utf8::encode_utf8;
use crate::config::{
    EffectiveConfig, EffectiveModel, StartupWindowState, TerminalConfig, WindowConfig, MAX_COLUMNS,
    MAX_LINES, MIN_COLUMNS, MIN_LINES,
};
use crate::diagnostics::{escape_diagnostic, escaped};
use crate::terminfo::{identity_of, TerminalIdentity};
use crate::text::{
    bytes_eq, chars_of, is_text, lossy_text, number_of, parse_u32, string_bytes, utf8_lossy,
};

verus! {

/// What is asked of the window.
#[derive(Clone, Copy, Debug, PartialEq, Eq, Structural)]
pub struct WindowOverrides {
    pub geometry: Option<WindowGeometry>,
    pub startup_state: Option<StartupWindowState>,
    pub new_window: bool,
}

#[derive(Clone, Copy, Debug, PartialEq, Eq, Structural)]
pub struct WindowGeometry {
    pub columns: u16,
    pub lines: u16,
}

#[derive(Clone, Debug, PartialEq, Eq)]
pub enum Operation {
    Launch,
    Terminfo(TerminfoOperation),
    Doctor(DoctorOperation),
}

#[derive(Clone, Debug, PartialEq, Eq)]
#[allow(inconsistent_fields)]
pub enum TerminfoOperation {
    Print,
    Check { database: Option<Vec<u8>> },
    Install { database: Option<Vec<u8>> },
    Uninstall { database: Option<Vec<u8>> },
}

#[derive(Clone, Debug, PartialEq, Eq)]
pub enum DoctorOperation {
    Terminfo,
    Ssh { host: Vec<u8>, json: bool },
}

/// A program and its arguments.
#[derive(Clone, Debug, PartialEq, Eq)]
pub struct CommandSpec {
    pub program: Vec<u8>,
    pub args: Vec<Vec<u8>>,
}

#[derive(Clone, Debug, PartialEq, Eq)]
pub enum LaunchRequest {
    DefaultShell,
    Command(CommandSpec),
}

#[derive(Clone, Copy, Debug, PartialEq, Eq, Structural)]
pub enum Verbosity {
    Warn,
    Info,
    Debug,
    Trace,
}

impl Default for Verbosity {
    fn default() -> (result: Verbosity)
        ensures
            result == Verbosity::Warn,
    {
        Verbosity::Warn
    }
}

#[derive(Clone, Debug, PartialEq, Eq)]
pub struct Cli {
    pub command: Option<CommandSpec>,
    pub verbosity: Verbosity,
    pub terminal_identity: Option<TerminalIdentity>,
    pub operation: Operation,
    pub window: WindowOverrides,
}

#[derive(Debug)]
pub enum ParseOutcome {
    Run(Cli),
    Print { text: String, success: bool },
}

/// A management command: its name, that of its part, and what it is given.
#[derive(Clone, Debug, PartialEq, Eq)]
pub struct Subcommand {
    pub group: String,
    pub name: String,
    pub database: Option<Vec<u8>>,
    pub host: Option<Vec<u8>>,
    pub json: bool,
}

/// The options and values that stand on a command line.
#[derive(Clone, Debug, PartialEq, Eq)]
pub struct ParsedArguments {
    pub verbose: u8,
    pub term: Option<String>,
    pub geometry: Option<WindowGeometry>,
    pub maximized: bool,
    pub fullscreen: bool,
    pub new_window: bool,
    pub execute: Option<Vec<Vec<u8>>>,
    pub subcommand: Option<Subcommand>,
}

/// Whether a text is ASCII.
pub open spec fn is_ascii_text(s: Seq<char>) -> bool {
    forall|i: int| 0 <= i < s.len() ==> (#[trigger] s[i]) as u32 <= 0x7f
}

/// Whether a character is ASCII white space.
pub open spec fn is_ascii_space(c: char) -> bool {
    c == ' ' || c == '\t' || c == '\n' || c == '\r' || c == '\u{c}'
}

/// The first place of a character.
pub open spec fn place_of(s: Seq<char>, c: char, i: int) -> Option<int>
    decreases s.len() - i,
{
    if i < 0 || i >= s.len() {
        None
    } else if s[i] == c {
        Some(i)
    } else {
        place_of(s, c, i + 1)
    }
}

fn find_char(s: &Vec<char>, c: char, from: usize) -> (result: Option<usize>)
    requires
        from <= s@.len(),
    ensures
        match result {
            Some(i) => place_of(s@, c, from as int) == Some(i as int) && from <= i < s@.len(),
            None => place_of(s@, c, from as int) is None,
        },
{
    let mut i: usize = from;
    while i < s.len()
        invariant
            from <= i <= s@.len(),
            place_of(s@, c, from as int) == place_of(s@, c, i as int),
        decreases s@.len() - i,
    {
        if s[i] == c {
            return Some(i);
        }
        i += 1;
    }
    None
}

/// The number that a text writes, if it fits 32 bits.
pub open spec fn small_number(s: Seq<char>) -> Option<u32> {
    match number_of(s) {
        Some(n) => if n <= u32::MAX {
            Some(n as u32)
        } else {
            None
        },
        None => None,
    }
}

/// What is wrong with the text of a geometry, before its numbers are looked at.
pub open spec fn geometry_shape_fault(value: Seq<char>) -> Option<Seq<char>> {
    if value.len() == 0 || !is_ascii_text(value) || (exists|i: int|
        0 <= i < value.len() && is_ascii_space(#[trigger] value[i])) {
        Some("geometry must use ASCII COLUMNSxLINES without whitespace"@)
    } else {
        match place_of(value, 'x', 0) {
            None => Some("geometry must use COLUMNSxLINES"@),
            Some(i) => if i == 0 || i == value.len() - 1 || place_of(value, 'x', i + 1) is Some {
                Some("geometry must use COLUMNSxLINES"@)
            } else {
                None
            },
        }
    }
}

/// The grid that a text asks for: its columns, an `x` and its lines.
pub open spec fn geometry_of(value: Seq<char>) -> Result<WindowGeometry, Seq<char>> {
    match geometry_shape_fault(value) {
        Some(fault) => Err(fault),
        None => {
            let i = place_of(value, 'x', 0)->0;
            match small_number(value.take(i)) {
                None => Err("columns must be an unsigned decimal integer"@),
                Some(columns) => match small_number(value.skip(i + 1)) {
                    None => Err("lines must be an unsigned decimal integer"@),
                    Some(lines) => if !(MIN_COLUMNS <= columns <= MAX_COLUMNS) {
                        Err("columns must be in 20..=500"@)
                    } else if !(MIN_LINES <= lines <= MAX_LINES) {
                        Err("lines must be in 5..=300"@)
                    } else {
                        Ok(WindowGeometry { columns: columns as u16, lines: lines as u16 })
                    },
                },
            }
        },
    }
}

/// Whether a text is ASCII without white space.
fn is_plain(chars: &Vec<char>) -> (result: bool)
    ensures
        result == (is_ascii_text(chars@) && !(exists|i: int|
            0 <= i < chars@.len() && is_ascii_space(#[trigger] chars@[i]))),
{
    let mut i: usize = 0;
    while i < chars.len()
        invariant
            i <= chars@.len(),
            forall|k: int|
                0 <= k < i ==> (#[trigger] chars@[k]) as u32 <= 0x7f && !is_ascii_space(
                    chars@[k],
                ),
        decreases chars@.len() - i,
    {
        let c = chars[i];
        let code: u32 = c as u32;
        if code > 0x7f {
            assert(chars@[i as int] as u32 > 0x7f);
            return false;
        }
        if c == ' ' || c == '\t' || c == '\n' || c == '\r' || c == '\u{c}' {
            assert(is_ascii_space(chars@[i as int]));
            return false;
        }
        i += 1;
    }
    true
}

/// Reads the grid that is asked for.
pub fn parse_geometry(value: &str) -> (result: Result<WindowGeometry, String>)
    ensures
        match geometry_of(value@) {
            Ok(geometry) => result is Ok && result->Ok_0 == geometry,
            Err(fault) => result is Err && (result->Err_0)@ == fault,
        },
{
    let chars = chars_of(value);
    if chars.len() == 0 || !is_plain(&chars) {
        return Err(
            String::from_str("geometry must use ASCII COLUMNSxLINES without whitespace"),
        );
    }
    let at: usize = match find_char(&chars, 'x', 0) {
        Some(at) => at,
        None => {
            return Err(String::from_str("geometry must use COLUMNSxLINES"));
        },
    };
    if at == 0 || at == chars.len() - 1 || find_char(&chars, 'x', at + 1).is_some() {
        return Err(String::from_str("geometry must use COLUMNSxLINES"));
    }
    let before = slice_to_vec(slice_subrange(chars.as_slice(), 0, at));
    assert(before@ =~= value@.take(at as int));
    let after = slice_to_vec(slice_subrange(chars.as_slice(), at + 1, chars.len()));
    assert(after@ =~= value@.skip(at + 1));
    let columns: u32 = match parse_u32(&before) {
        Some(columns) => columns,
        None => {
            return Err(String::from_str("columns must be an unsigned decimal integer"));
        },
    };
    let lines: u32 = match parse_u32(&after) {
        Some(lines) => lines,
        None => {
            return Err(String::from_str("lines must be an unsigned decimal integer"));
        },
    };
    if columns < MIN_COLUMNS as u32 || columns > MAX_COLUMNS as u32 {
        return Err(String::from_str("columns must be in 20..=500"));
    }
    if lines < MIN_LINES as u32 || lines > MAX_LINES as u32 {
        return Err(String::from_str("lines must be in 5..=300"));
    }
    Ok(WindowGeometry { columns: columns as u16, lines: lines as u16 })
}

/// A grid that is asked for is one that a window can have.
pub proof fn geometries_are_within_limits(value: Seq<char>)
    requires
        geometry_of(value) is Ok,
    ensures
        MIN_COLUMNS <= (geometry_of(value)->Ok_0).columns <= MAX_COLUMNS,
        MIN_LINES <= (geometry_of(value)->Ok_0).lines <= MAX_LINES,
{
}

/// Whether a management command is one that there is, with what it needs.
pub open spec fn is_known(command: Subcommand) -> bool {
    (command.group@ == "terminfo"@ && (command.name@ == "print"@ || command.name@ == "check"@
        || command.name@ == "install"@ || command.name@ == "uninstall"@)) || (command.group@
        == "doctor"@ && (command.name@ == "terminfo"@ || (command.name@ == "ssh"@
        && command.host is Some)))
}

/// What a management command does.
pub open spec fn operation_of(command: Option<Subcommand>) -> Operation {
    match command {
        None => Operation::Launch,
        Some(command) => if command.group@ == "terminfo"@ {
            Operation::Terminfo(
                if command.name@ == "print"@ {
                    TerminfoOperation::Print
                } else if command.name@ == "check"@ {
                    TerminfoOperation::Check { database: command.database }
                } else if command.name@ == "install"@ {
                    TerminfoOperation::Install { database: command.database }
                } else {
                    TerminfoOperation::Uninstall { database: command.database }
                },
            )
        } else {
            Operation::Doctor(
                if command.name@ == "terminfo"@ {
                    DoctorOperation::Terminfo
                } else {
                    DoctorOperation::Ssh { host: command.host->0, json: command.json }
                },
            )
        },
    }
}

impl Subcommand {
    /// Decides [`is_known`].
    pub fn known(&self) -> (result: bool)
        ensures
            result == is_known(*self),
    {
        (is_text(&self.group, "terminfo") && (is_text(&self.name, "print") || is_text(
            &self.name,
            "check",
        ) || is_text(&self.name, "install") || is_text(&self.name, "uninstall"))) || (is_text(
            &self.group,
            "doctor",
        ) && (is_text(&self.name, "terminfo") || (is_text(&self.name, "ssh")
            && self.host.is_some())))
    }
}

fn parse_operation(command: Option<Subcommand>) -> (result: Operation)
    requires
        command is Some ==> is_known(command->0),
    ensures
        result == operation_of(command),
{
    match command {
        None => Operation::Launch,
        Some(command) => {
            if is_text(&command.group, "terminfo") {
                proof {
                    reveal_strlit("terminfo");
                    reveal_strlit("doctor");
                }
                assert(command.group@.len() == 8);
                Operation::Terminfo(
                    if is_text(&command.name, "print") {
                        TerminfoOperation::Print
                    } else if is_text(&command.name, "check") {
                        TerminfoOperation::Check { database: command.database }
                    } else if is_text(&command.name, "install") {
                        TerminfoOperation::Install { database: command.database }
                    } else {
                        TerminfoOperation::Uninstall { database: command.database }
                    },
                )
            } else if is_text(&command.name, "terminfo") {
                Operation::Doctor(DoctorOperation::Terminfo)
            } else {
                match command.host {
                    Some(host) => Operation::Doctor(
                        DoctorOperation::Ssh { host, json: command.json },
                    ),
                    None => Operation::Doctor(DoctorOperation::Terminfo),
                }
            }
        },
    }
}

/// Where the program stands among the values of `-e`: first, or behind a separator.
pub open spec fn program_place(values: Seq<Vec<u8>>) -> int {
    if values.len() > 0 && values[0]@ == encode_utf8("--"@) {
        1
    } else {
        0
    }
}

/// Whether a program is asked for but not named.
pub open spec fn lacks_program(arguments: ParsedArguments) -> bool {
    arguments.execute is Some && arguments.execute->0@.len() <= program_place(
        arguments.execute->0@,
    )
}

/// Whether something is asked for that only a window can give.
pub open spec fn asks_for_window(arguments: ParsedArguments) -> bool {
    arguments.execute is Some || arguments.geometry is Some || arguments.maximized
        || arguments.fullscreen || arguments.new_window
}

pub open spec fn verbosity_of(count: u8) -> Verbosity {
    if count == 0 {
        Verbosity::Warn
    } else if count == 1 {
        Verbosity::Info
    } else if count == 2 {
        Verbosity::Debug
    } else {
        Verbosity::Trace
    }
}

pub open spec fn state_of(arguments: ParsedArguments) -> Option<StartupWindowState> {
    if arguments.fullscreen {
        Some(StartupWindowState::Fullscreen)
    } else if arguments.maximized {
        Some(StartupWindowState::Maximized)
    } else {
        None
    }
}

/// What a command line without faults asks for.
pub open spec fn asks(cli: Cli, arguments: ParsedArguments) -> bool {
    &&& match arguments.execute {
        None => cli.command is None,
        Some(values) => {
            let place = program_place(values@);
            &&& cli.command is Some
            &&& cli.command->0.program == values@[place]
            &&& cli.command->0.args@ == values@.skip(place + 1)
        },
    }
    &&& cli.verbosity == verbosity_of(arguments.verbose)
    &&& cli.terminal_identity == match arguments.term {
        Some(term) => identity_of(term@),
        None => None,
    }
    &&& cli.operation == operation_of(arguments.subcommand)
    &&& cli.window == (WindowOverrides {
        geometry: arguments.geometry,
        startup_state: state_of(arguments),
        new_window: arguments.new_window,
    })
}

fn command_of(values: Vec<Vec<u8>>) -> (result: Option<CommandSpec>)
    ensures
        match result {
            Some(command) => {
                let place = program_place(values@);
                &&& place < values@.len()
                &&& command.program == values@[place]
                &&& command.args@ == values@.skip(place + 1)
            },
            None => values@.len() <= program_place(values@),
        },
{
    let ghost all = values@;
    let mut rest = values;
    if rest.len() > 0 && bytes_eq(rest[0].as_slice(), string_bytes("--").as_slice()) {
        rest.remove(0);
        assert(rest@ =~= all.skip(1));
    }
    assert(rest@ =~= all.skip(program_place(all)));
    if rest.len() == 0 {
        return None;
    }
    let program = rest.remove(0);
    assert(rest@ =~= all.skip(program_place(all) + 1));
    Some(CommandSpec { program, args: rest })
}

/// What a command line asks for. A program that is asked for has to be named, and a management
/// command takes nothing that only a window can give.
pub fn interpret(arguments: ParsedArguments) -> (result: ParseOutcome)
    requires
        arguments.subcommand is Some ==> is_known(arguments.subcommand->0),
    ensures
        match result {
            ParseOutcome::Print { text, success } => {
                &&& !success
                &&& if lacks_program(arguments) {
                    text@
                        == "error: the argument '-e <PROGRAM [ARG]...>' requires a program\n\nUsage: leyline -e <PROGRAM [ARG]...>\n"@
                } else {
                    &&& arguments.subcommand is Some && asks_for_window(arguments)
                    &&& text@
                        == "error: launch options cannot be combined with a management subcommand\n"@
                }
            },
            ParseOutcome::Run(cli) => {
                &&& !lacks_program(arguments)
                &&& !(arguments.subcommand is Some && asks_for_window(arguments))
                &&& asks(cli, arguments)
            },
        },
{
    let verbosity = if arguments.verbose == 0 {
        Verbosity::Warn
    } else if arguments.verbose == 1 {
        Verbosity::Info
    } else if arguments.verbose == 2 {
        Verbosity::Debug
    } else {
        Verbosity::Trace
    };
    let command = match arguments.execute {
        None => None,
        Some(values) => match command_of(values) {
            Some(command) => Some(command),
            None => {
                return ParseOutcome::Print {
                    success: false,
                    text: String::from_str(
                        "error: the argument '-e <PROGRAM [ARG]...>' requires a program\n\nUsage: leyline -e <PROGRAM [ARG]...>\n",
                    ),
                };
            },
        },
    };
    let terminal_identity = match &arguments.term {
        Some(term) => TerminalIdentity::parse(term.as_str()),
        None => None,
    };
    if arguments.subcommand.is_some() && (command.is_some() || arguments.geometry.is_some()
        || arguments.maximized || arguments.fullscreen || arguments.new_window) {
        return ParseOutcome::Print {
            success: false,
            text: String::from_str(
                "error: launch options cannot be combined with a management subcommand\n",
            ),
        };
    }
    let startup_state = if arguments.fullscreen {
        Some(StartupWindowState::Fullscreen)
    } else if arguments.maximized {
        Some(StartupWindowState::Maximized)
    } else {
        None
    };
    let operation = parse_operation(arguments.subcommand);
    ParseOutcome::Run(
        Cli {
            command,
            verbosity,
            terminal_identity,
            operation,
            window: WindowOverrides {
                geometry: arguments.geometry,
                startup_state,
                new_window: arguments.new_window,
            },
        },
    )
}

/// The configuration that the command line leaves of another.
pub open spec fn overridden(cli: Cli, config: EffectiveModel) -> EffectiveModel {
    EffectiveModel {
        terminal: TerminalConfig {
            identity: match cli.terminal_identity {
                Some(identity) => identity,
                None => config.terminal.identity,
            },
        },
        window: WindowConfig {
            columns: match cli.window.geometry {
                Some(geometry) => Some(geometry.columns),
                None => config.window.columns,
            },
            lines: match cli.window.geometry {
                Some(geometry) => Some(geometry.lines),
                None => config.window.lines,
            },
            startup_state: match cli.window.startup_state {
                Some(state) => Some(state),
                None => config.window.startup_state,
            },
            ..config.window
        },
        ..config
    }
}

impl Cli {
    /// What is to be launched.
    pub fn launch_request(&self) -> (result: LaunchRequest)
        ensures
            match result {
                LaunchRequest::DefaultShell => self.command is None,
                LaunchRequest::Command(command) => {
                    &&& self.command is Some
                    &&& command.program@ == self.command->0.program@
                    &&& command.args@.len() == self.command->0.args@.len()
                    &&& forall|i: int|
                        0 <= i < command.args@.len() ==> (#[trigger] command.args@[i])@
                            == self.command->0.args@[i]@
                },
            },
    {
        match &self.command {
            None => LaunchRequest::DefaultShell,
            Some(command) => {
                let mut args: Vec<Vec<u8>> = Vec::new();
                let mut i: usize = 0;
                while i < command.args.len()
                    invariant
                        i <= command.args@.len(),
                        args@.len() == i,
                        forall|k: int|
                            0 <= k < i ==> (#[trigger] args@[k])@ == command.args@[k]@,
                    decreases command.args@.len() - i,
                {
                    args.push(slice_to_vec(command.args[i].as_slice()));
                    i += 1;
                }
                LaunchRequest::Command(
                    CommandSpec { program: slice_to_vec(command.program.as_slice()), args },
                )
            },
        }
    }

    /// Whether errors are shown with their causes.
    pub fn is_verbose(&self) -> (result: bool)
        ensures
            result == (self.verbosity != Verbosity::Warn),
    {
        self.verbosity != Verbosity::Warn
    }

    /// Puts what the command line asks for in the place of what is configured.
    pub fn apply(&self, config: &mut EffectiveConfig)
        ensures
            final(config)@ == overridden(*self, old(config)@),
    {
        if let Some(identity) = self.terminal_identity {
            config.terminal.identity = identity;
        }
        if let Some(geometry) = self.window.geometry {
            config.window.columns = Some(geometry.columns);
            config.window.lines = Some(geometry.lines);
        }
        if let Some(state) = self.window.startup_state {
            config.window.startup_state = Some(state);
        }
    }
}

/// A value in quotes, so that it can be shown on a terminal.
pub fn display_os(value: &[u8]) -> (result: String)
    ensures
        result@ == "\""@ + escaped(utf8_lossy(value@)) + "\""@,
{
    display_text(lossy_text(value).as_str())
}

/// A text in quotes, so that it can be shown on a terminal.
pub fn display_text(value: &str) -> (result: String)
    ensures
        result@ == "\""@ + escaped(value@) + "\""@,
{
    let mut out = String::from_str("\"");
    out.append(escape_diagnostic(value).as_str());
    out.append("\"");
    out
}

/// A separator before the program makes no difference.
pub proof fn a_separator_is_not_a_program(values: Seq<Vec<u8>>, separator: Vec<u8>)
    requires
        separator@ == encode_utf8("--"@),
        values.len() > 0,
        values[0]@ != encode_utf8("--"@),
    ensures
        ({
            let separated = seq![separator] + values;
            &&& separated[program_place(separated)] == values[program_place(values)]
            &&& separated.skip(program_place(separated) + 1) == values.skip(
                program_place(values) + 1,
            )
        }),
{
    let separated = seq![separator] + values;
    assert(separated.skip(2) =~= values.skip(1));
}

/// Whether a text is written in digits alone.
pub open spec fn is_digits(s: Seq<char>) -> bool {
    s.len() > 0 && forall|i: int| 0 <= i < s.len() ==> 48 <= (#[trigger] s[i]) as u32 <= 57
}

/// Two numbers with an `x` between them ask for so many columns and so many lines, in this order, if
/// there are 20 to 500 columns and 5 to 300 lines. Other numbers are refused.
pub proof fn columns_come_before_lines(columns: Seq<char>, lines: Seq<char>)
    requires
        is_digits(columns),
        is_digits(lines),
        number_of(columns) is Some,
        number_of(lines) is Some,
        number_of(columns)->0 <= u32::MAX,
        number_of(lines)->0 <= u32::MAX,
    ensures
        ({
            let asked = geometry_of(columns + seq!['x'] + lines);
            let c = number_of(columns)->0;
            let l = number_of(lines)->0;
            &&& asked is Ok <==> 20 <= c <= 500 && 5 <= l <= 300
            &&& asked is Ok ==> (asked->Ok_0).columns == c && (asked->Ok_0).lines == l
        }),
{
    let value = columns + seq!['x'] + lines;
    let n = columns.len() as int;
    assert forall|i: int| 0 <= i < value.len() implies (#[trigger] value[i]) as u32 <= 0x7f
        && !is_ascii_space(value[i]) && (i != n ==> value[i] != 'x') by {
        if i < n {
            assert(value[i] == columns[i]);
        } else if i > n {
            assert(value[i] == lines[i - n - 1]);
        }
    }
    assert(value[n] == 'x');
    found_at(value, 'x', 0, n);
    not_found(value, 'x', n + 1);
    assert(value.take(n) =~= columns);
    assert(value.skip(n + 1) =~= lines);
}

proof fn found_at(s: Seq<char>, c: char, i: int, n: int)
    requires
        0 <= i <= n < s.len(),
        s[n] == c,
        forall|k: int| i <= k < n ==> #[trigger] s[k] != c,
    ensures
        place_of(s, c, i) == Some(n),
    decreases n - i,
{
    if i < n {
        assert(s[i] != c);
        found_at(s, c, i + 1, n);
    }
}

proof fn not_found(s: Seq<char>, c: char, i: int)
    requires
        0 <= i,
        forall|k: int| i <= k < s.len() ==> #[trigger] s[k] != c,
    ensures
        place_of(s, c, i) is None,
    decreases s.len() - i,
{
    if i < s.len() {
        assert(s[i] != c);
        not_found(s, c, i + 1);
    }
}

/// A command line that asks for more says more, and one that does not ask says only what is wrong.
/// A full screen takes precedence over a maximized window.
pub proof fn options_mean_what_they_say(arguments: ParsedArguments)
    ensures
        verbosity_of(0) is Warn,
        verbosity_of(1) is Info,
        verbosity_of(2) is Debug,
        forall|count: u8| count >= 3 ==> #[trigger] verbosity_of(count) is Trace,
        arguments.fullscreen ==> state_of(arguments) == Some(StartupWindowState::Fullscreen),
        arguments.maximized && !arguments.fullscreen ==> state_of(arguments) == Some(
            StartupWindowState::Maximized,
        ),
        !arguments.maximized && !arguments.fullscreen ==> state_of(arguments) is None,
{
}

/// What the command line asks for takes the place of what the configuration says, each for itself;
/// what it does not ask for stays as it is.
pub proof fn the_command_line_takes_precedence(cli: Cli, config: EffectiveModel)
    ensures
        ({
            let used = overridden(cli, config);
            &&& cli.window.geometry is Some ==> used.window.columns == Some(
                cli.window.geometry->0.columns,
            ) && used.window.lines == Some(cli.window.geometry->0.lines)
            &&& cli.window.geometry is None ==> used.window.columns == config.window.columns
                && used.window.lines == config.window.lines
            &&& cli.window.startup_state is Some ==> used.window.startup_state
                == cli.window.startup_state
            &&& cli.window.startup_state is None ==> used.window.startup_state
                == config.window.startup_state
            &&& cli.terminal_identity is Some ==> used.terminal.identity
                == cli.terminal_identity->0
            &&& cli.terminal_identity is None ==> used.terminal == config.terminal
        }),
{
}

/// A management command does what its two words say, with the database or the host that it is given.
/// Without one the terminal is started.
pub proof fn commands_go_by_their_words(command: Subcommand)
    requires
        is_known(command),
    ensures
        operation_of(None) is Launch,
        match operation_of(Some(command)) {
            Operation::Launch => false,
            Operation::Terminfo(operation) => command.group@ == "terminfo"@ && match operation {
                TerminfoOperation::Print => command.name@ == "print"@,
                TerminfoOperation::Check { database } => command.name@ == "check"@ && database
                    == command.database,
                TerminfoOperation::Install { database } => command.name@ == "install"@ && database
                    == command.database,
                TerminfoOperation::Uninstall { database } => command.name@ == "uninstall"@
                    && database == command.database,
            },
            Operation::Doctor(operation) => command.group@ == "doctor"@ && match operation {
                DoctorOperation::Terminfo => command.name@ == "terminfo"@,
                DoctorOperation::Ssh { host, json } => command.name@ == "ssh"@ && command.host
                    == Some(host) && json == command.json,
            },
        },
{
    reveal_strlit("terminfo");
    reveal_strlit("doctor");
    assert("terminfo"@.len() != "doctor"@.len());
    if command.group@ == "terminfo"@ {
        assert(command.name@ == "print"@ || command.name@ == "check"@ || command.name@ == "install"@
            || command.name@ == "uninstall"@);
    }
}

/// What follows on the command line is run: the first word is the program, the others are what it is
/// given, in their order. Without it there is no program.
pub proof fn the_first_word_is_the_program(cli: Cli, arguments: ParsedArguments, i: int)
    requires
        asks(cli, arguments),
    ensures
        arguments.execute is None ==> cli.command is None,
        arguments.execute is Some && arguments.execute->0@.len() > 0 && arguments.execute->0@[0]@
            != encode_utf8("--"@) ==> {
            let values = arguments.execute->0@;
            &&& cli.command is Some
            &&& cli.command->0.program == values[0]
            &&& cli.command->0.args@.len() == values.len() - 1
            &&& 0 < i < values.len() ==> cli.command->0.args@[i - 1] == values[i]
        },
        cli.window.geometry == arguments.geometry,
        cli.window.new_window == arguments.new_window,
{
}

} // verus!
