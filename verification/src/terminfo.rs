//! The terminfo entry: what it must declare, and whose it is.
use vstd::prelude::*;
use std::collections::hash_map::DefaultHasher;
use std::hash::{BuildHasher, BuildHasherDefault};
use vstd::slice::{slice_subrange, slice_to_vec};
use vstd::string::StringExecFns;
use vstd::utf8::encode_utf8;
use crate::diagnostics::{texts, ErrorCategory};
use crate::text::{
    bytes_eq, chars_of, dec, drop_leading, has_part, has_prefix, hex_padded, is_text, lines_of,
    lossy_text, occurs_in, push_all, push_dec, push_hex, split_lines, starts_with, string_bytes, string_of, texts_view,
    trim_chars, trim_start, trimmed, utf8_lossy,
};
use crate::time::Instant;

verus! {

/// The name of the terminal's own entry.
pub const TERM_NAME: &'static str = "leyline-256color";

/// The most output of a tool that is read, in bytes.
pub const MAX_TOOL_OUTPUT: usize = 1_048_576;

/// How long a tool may run, in nanoseconds.
pub const TOOL_TIMEOUT: u64 = 10_000_000_000;

/// How long the end of a tool is waited for at a time, in nanoseconds.
pub const TOOL_POLL: u64 = 10_000_000;

/// The most characters of a tool's complaint that are shown.
pub const MAX_COMPLAINT: usize = 4096;

/// What the terminal says it is.
#[derive(Clone, Copy, Debug, PartialEq, Eq, Structural)]
pub enum TerminalIdentity {
    Leyline,
    Xterm256Color,
}

impl Default for TerminalIdentity {
    fn default() -> (result: TerminalIdentity)
        ensures
            result == TerminalIdentity::Leyline,
    {
        TerminalIdentity::Leyline
    }
}

/// The identity that a text names.
pub open spec fn identity_of(value: Seq<char>) -> Option<TerminalIdentity> {
    if value == "leyline"@ {
        Some(TerminalIdentity::Leyline)
    } else if value == "xterm-256color"@ {
        Some(TerminalIdentity::Xterm256Color)
    } else {
        None
    }
}

impl TerminalIdentity {
    pub fn parse(value: &str) -> (result: Option<TerminalIdentity>)
        ensures
            result == identity_of(value@),
    {
        let value = value.to_owned();
        if is_text(&value, "leyline") {
            Some(TerminalIdentity::Leyline)
        } else if is_text(&value, "xterm-256color") {
            Some(TerminalIdentity::Xterm256Color)
        } else {
            None
        }
    }

    /// The name of the entry for an identity.
    pub open spec fn spec_term(self) -> Seq<char> {
        match self {
            TerminalIdentity::Leyline => TERM_NAME@,
            TerminalIdentity::Xterm256Color => "xterm-256color"@,
        }
    }

    pub fn term(self) -> (result: &'static str)
        ensures
            result@ == self.spec_term(),
    {
        match self {
            TerminalIdentity::Leyline => TERM_NAME,
            TerminalIdentity::Xterm256Color => "xterm-256color",
        }
    }

    /// What to do where the entry is missing.
    pub open spec fn spec_hint(self) -> Seq<char> {
        match self {
            TerminalIdentity::Leyline =>
                "run `leyline terminfo install --user` or select `--term xterm-256color`"@,
            TerminalIdentity::Xterm256Color => "install the system xterm-256color entry"@,
        }
    }

    fn hint(self) -> (result: &'static str)
        ensures
            result@ == self.spec_hint(),
    {
        match self {
            TerminalIdentity::Leyline =>
                "run `leyline terminfo install --user` or select `--term xterm-256color`",
            TerminalIdentity::Xterm256Color => "install the system xterm-256color entry",
        }
    }
}

/// A program that is run.
#[derive(Clone, Copy, Debug, PartialEq, Eq, Structural)]
pub enum Tool {
    Infocmp,
    Tic,
    Ssh,
}

impl Tool {
    pub open spec fn spec_name(self) -> Seq<char> {
        match self {
            Tool::Infocmp => "infocmp"@,
            Tool::Tic => "tic"@,
            Tool::Ssh => "ssh"@,
        }
    }

    pub fn name(self) -> (result: &'static str)
        ensures
            result@ == self.spec_name(),
    {
        match self {
            Tool::Infocmp => "infocmp",
            Tool::Tic => "tic",
            Tool::Ssh => "ssh",
        }
    }
}

#[derive(Debug)]
pub enum TerminfoError {
    ToolMissing(Tool),
    EntryMissing(TerminalIdentity),
    EntryMismatch { reason: String },
    InvalidDatabase,
    Io(String),
    ToolFailed(Tool, String),
    OutputTooLarge,
    ToolTimeout(Tool),
    Busy,
    NotOwned,
    InvalidCompiledOutput,
    Ssh(String),
}

/// The view of an error.
pub enum ErrorModel {
    ToolMissing(Tool),
    EntryMissing(TerminalIdentity),
    EntryMismatch { reason: Seq<char> },
    InvalidDatabase,
    Io(Seq<char>),
    ToolFailed(Tool, Seq<char>),
    OutputTooLarge,
    ToolTimeout(Tool),
    Busy,
    NotOwned,
    InvalidCompiledOutput,
    Ssh(Seq<char>),
}

impl View for TerminfoError {
    type V = ErrorModel;

    open spec fn view(&self) -> ErrorModel {
        match *self {
            TerminfoError::ToolMissing(tool) => ErrorModel::ToolMissing(tool),
            TerminfoError::EntryMissing(identity) => ErrorModel::EntryMissing(identity),
            TerminfoError::EntryMismatch { reason } => ErrorModel::EntryMismatch {
                reason: reason@,
            },
            TerminfoError::InvalidDatabase => ErrorModel::InvalidDatabase,
            TerminfoError::Io(message) => ErrorModel::Io(message@),
            TerminfoError::ToolFailed(tool, message) => ErrorModel::ToolFailed(tool, message@),
            TerminfoError::OutputTooLarge => ErrorModel::OutputTooLarge,
            TerminfoError::ToolTimeout(tool) => ErrorModel::ToolTimeout(tool),
            TerminfoError::Busy => ErrorModel::Busy,
            TerminfoError::NotOwned => ErrorModel::NotOwned,
            TerminfoError::InvalidCompiledOutput => ErrorModel::InvalidCompiledOutput,
            TerminfoError::Ssh(message) => ErrorModel::Ssh(message@),
        }
    }
}

impl ErrorModel {
    pub open spec fn causes(self) -> Seq<Seq<char>> {
        match self {
            ErrorModel::Io(error) => seq![error],
            _ => Seq::empty(),
        }
    }

    pub open spec fn category(self) -> ErrorCategory {
        match self {
            ErrorModel::EntryMismatch { .. } | ErrorModel::NotOwned => ErrorCategory::Platform,
            ErrorModel::ToolMissing(_) | ErrorModel::EntryMissing(_)
            | ErrorModel::InvalidDatabase => ErrorCategory::Environment,
            ErrorModel::Ssh(_) => ErrorCategory::Remote,
            _ => ErrorCategory::Internal,
        }
    }

    pub open spec fn text(self) -> Seq<char> {
        match self {
            ErrorModel::ToolMissing(tool) => "required tool "@ + tool.spec_name()
                + " is unavailable; install ncurses-bin (>= 6.4)"@,
            ErrorModel::EntryMissing(identity) => "terminfo entry "@ + identity.spec_term()
                + " is missing from the effective database; "@ + identity.spec_hint(),
            ErrorModel::EntryMismatch { reason } => "terminfo entry "@ + TERM_NAME@
                + " does not match Leyline epoch 1: "@ + reason,
            ErrorModel::InvalidDatabase => "invalid terminfo database path"@,
            ErrorModel::Io(message) => "terminfo database operation failed: "@ + message,
            ErrorModel::ToolFailed(tool, message) => tool.spec_name() + " failed: "@ + message,
            ErrorModel::OutputTooLarge => "terminfo tool output exceeded the 1 MiB limit"@,
            ErrorModel::ToolTimeout(tool) => tool.spec_name()
                + " exceeded the 10 second timeout"@,
            ErrorModel::Busy => "another Leyline terminfo install or uninstall is in progress"@,
            ErrorModel::NotOwned =>
                "refusing to overwrite or remove an entry not owned by this Leyline installation"@,
            ErrorModel::InvalidCompiledOutput =>
                "compiled terminfo did not contain exactly one regular entry"@,
            ErrorModel::Ssh(message) => "SSH probe failed: "@ + message,
        }
    }
}

impl TerminfoError {
    pub fn category(&self) -> (result: ErrorCategory)
        ensures
            result == self@.category(),
    {
        match self {
            TerminfoError::EntryMismatch { .. } => ErrorCategory::Platform,
            TerminfoError::NotOwned => ErrorCategory::Platform,
            TerminfoError::ToolMissing(_) => ErrorCategory::Environment,
            TerminfoError::EntryMissing(_) => ErrorCategory::Environment,
            TerminfoError::InvalidDatabase => ErrorCategory::Environment,
            TerminfoError::Ssh(_) => ErrorCategory::Remote,
            _ => ErrorCategory::Internal,
        }
    }

    /// What has caused the error.
    pub fn causes(&self) -> (result: Vec<String>)
        ensures
            texts(result@) == self@.causes(),
    {
        let mut causes: Vec<String> = Vec::new();
        if let TerminfoError::Io(error) = self {
            causes.push(error.as_str().to_owned());
        }
        assert(texts(causes@) =~= self@.causes());
        causes
    }

    /// What the error says.
    pub fn message(&self) -> (result: String)
        ensures
            result@ == self@.text(),
    {
        match self {
            TerminfoError::ToolMissing(tool) => {
                let mut out = String::from_str("required tool ");
                out.append(tool.name());
                out.append(" is unavailable; install ncurses-bin (>= 6.4)");
                out
            },
            TerminfoError::EntryMissing(identity) => {
                let mut out = String::from_str("terminfo entry ");
                out.append(identity.term());
                out.append(" is missing from the effective database; ");
                out.append(identity.hint());
                out
            },
            TerminfoError::EntryMismatch { reason } => {
                let mut out = String::from_str("terminfo entry ");
                out.append(TERM_NAME);
                out.append(" does not match Leyline epoch 1: ");
                out.append(reason.as_str());
                out
            },
            TerminfoError::InvalidDatabase => String::from_str("invalid terminfo database path"),
            TerminfoError::Io(message) => {
                let mut out = String::from_str("terminfo database operation failed: ");
                out.append(message.as_str());
                out
            },
            TerminfoError::ToolFailed(tool, message) => {
                let mut out = String::from_str(tool.name());
                out.append(" failed: ");
                out.append(message.as_str());
                out
            },
            TerminfoError::OutputTooLarge => String::from_str(
                "terminfo tool output exceeded the 1 MiB limit",
            ),
            TerminfoError::ToolTimeout(tool) => {
                let mut out = String::from_str(tool.name());
                out.append(" exceeded the 10 second timeout");
                out
            },
            TerminfoError::Busy => String::from_str(
                "another Leyline terminfo install or uninstall is in progress",
            ),
            TerminfoError::NotOwned => String::from_str(
                "refusing to overwrite or remove an entry not owned by this Leyline installation",
            ),
            TerminfoError::InvalidCompiledOutput => String::from_str(
                "compiled terminfo did not contain exactly one regular entry",
            ),
            TerminfoError::Ssh(message) => {
                let mut out = String::from_str("SSH probe failed: ");
                out.append(message.as_str());
                out
            },
        }
    }
}

/// What a tool left behind.
#[derive(Clone, Debug, PartialEq, Eq)]
pub struct ToolOutput {
    pub success: bool,
    pub stdout: Vec<u8>,
    pub stderr: Vec<u8>,
}

/// What to do while a tool runs.
#[derive(Clone, Copy, Debug, PartialEq, Eq, Structural)]
pub enum ToolStep {
    /// It has ended.
    Done,
    /// It has taken too long and is to be killed.
    TimedOut,
    /// It is to be looked at again a little later.
    Wait,
}

/// What to do with a tool that was started at `started`.
pub fn poll_tool(exited: bool, started: Instant, now: Instant) -> (result: ToolStep)
    ensures
        result == (if exited {
            ToolStep::Done
        } else if now.nanos - started.nanos >= TOOL_TIMEOUT {
            ToolStep::TimedOut
        } else {
            ToolStep::Wait
        }),
{
    if exited {
        ToolStep::Done
    } else if now.saturating_duration_since(started).nanos >= TOOL_TIMEOUT {
        ToolStep::TimedOut
    } else {
        ToolStep::Wait
    }
}

/// Takes what a tool left behind, unless it is too much.
pub fn bounded_output(output: ToolOutput) -> (result: Result<ToolOutput, TerminfoError>)
    ensures
        match result {
            Ok(kept) => kept == output && output.stdout@.len() + output.stderr@.len()
                <= MAX_TOOL_OUTPUT,
            Err(error) => error@ == ErrorModel::OutputTooLarge && output.stdout@.len()
                + output.stderr@.len() > MAX_TOOL_OUTPUT,
        },
{
    let out: usize = output.stdout.len();
    let err: usize = output.stderr.len();
    if out.saturating_add(err) > MAX_TOOL_OUTPUT {
        Err(TerminfoError::OutputTooLarge)
    } else {
        Ok(output)
    }
}

/// A tool that could not be started.
pub fn spawn_error(tool: Tool, not_found: bool, message: String) -> (result: TerminfoError)
    ensures
        result@ == (if not_found {
            ErrorModel::ToolMissing(tool)
        } else {
            ErrorModel::Io(message@)
        }),
{
    if not_found {
        TerminfoError::ToolMissing(tool)
    } else {
        TerminfoError::Io(message)
    }
}

/// The first characters of a text without the white space around it.
pub open spec fn bounded(text: Seq<char>) -> Seq<char> {
    if trimmed(text).len() > MAX_COMPLAINT {
        trimmed(text).take(MAX_COMPLAINT as int)
    } else {
        trimmed(text)
    }
}

/// A tool's complaint, cut short.
pub fn bounded_text(bytes: &[u8]) -> (result: String)
    ensures
        result@ == bounded(utf8_lossy(bytes@)),
{
    bounded_complaint(lossy_text(bytes).as_str())
}

/// A complaint, cut short.
pub fn bounded_complaint(text: &str) -> (result: String)
    ensures
        result@ == bounded(text@),
{
    let chars = chars_of(text);
    let mut kept = trim_chars(&chars);
    if kept.len() > MAX_COMPLAINT {
        let ghost all = kept@;
        kept.truncate(MAX_COMPLAINT);
        assert(kept@ =~= all.take(MAX_COMPLAINT as int));
    }
    string_of(&kept)
}

/// The capabilities that the entry must not have.
pub open spec fn rejected_capabilities() -> Seq<Seq<char>> {
    seq![
        "Ms="@,
        "Cs="@,
        "Cr="@,
        "Ss="@,
        "Se="@,
        "initc="@,
        "mc0="@,
        "mc4="@,
        "mc5="@,
    ]
}

/// Whether a line of the entry gives a capability.
pub open spec fn gives(lines: Seq<Seq<char>>, capability: Seq<char>) -> bool {
    exists|i: int| 0 <= i < lines.len() && has_prefix(trim_start(#[trigger] lines[i]), capability)
}

/// Whether a line of the entry is a given one, apart from white space around it.
pub open spec fn has_line(lines: Seq<Seq<char>>, line: Seq<char>) -> bool {
    exists|i: int| 0 <= i < lines.len() && trimmed(#[trigger] lines[i]) == line
}

/// The first rejected capability that the entry gives, from one on.
pub open spec fn first_rejected(lines: Seq<Seq<char>>, i: int) -> Option<Seq<char>>
    decreases rejected_capabilities().len() - i,
{
    if i < 0 || i >= rejected_capabilities().len() {
        None
    } else if gives(lines, rejected_capabilities()[i]) {
        Some(rejected_capabilities()[i])
    } else {
        first_rejected(lines, i + 1)
    }
}

/// What is wrong with the text of an entry.
pub open spec fn entry_fault(text: Seq<char>) -> Option<Seq<char>> {
    let lines = lines_of(text);
    if !has_line(lines, "RGB,"@) {
        Some("RGB is not declared"@)
    } else {
        match first_rejected(lines, 0) {
            Some(capability) => Some("rejected capability "@ + capability + " is present"@),
            None => None,
        }
    }
}

/// Checks that an entry is the terminal's own: it declares direct color and none of the
/// capabilities that the terminal refuses.
pub fn validate_leyline(output: &[u8]) -> (result: Result<(), TerminfoError>)
    ensures
        match result {
            Ok(_) => entry_fault(utf8_lossy(output@)) is None,
            Err(error) => entry_fault(utf8_lossy(output@)) is Some && error@
                == (ErrorModel::EntryMismatch { reason: entry_fault(utf8_lossy(output@))->0 }),
        },
{
    match entry_text_fault(lossy_text(output).as_str()) {
        Some(reason) => Err(TerminfoError::EntryMismatch { reason }),
        None => Ok(()),
    }
}

/// What is wrong with the text of an entry.
pub fn entry_text_fault(text: &str) -> (result: Option<String>)
    ensures
        match result {
            Some(reason) => entry_fault(text@) == Some(reason@),
            None => entry_fault(text@) is None,
        },
{
    let chars = chars_of(text);
    let lines = split_lines(&chars);
    let ghost all = texts_view(lines@);
    let mut declared = false;
    let mut i: usize = 0;
    while i < lines.len()
        invariant
            i <= lines@.len(),
            all == texts_view(lines@),
            declared == exists|k: int| 0 <= k < i && trimmed(#[trigger] all[k]) == "RGB,"@,
        decreases lines@.len() - i,
    {
        let line = string_of(&trim_chars(&lines[i]));
        assert(all[i as int] == lines@[i as int]@);
        if is_text(&line, "RGB,") {
            declared = true;
        }
        i += 1;
    }
    if !declared {
        return Some(String::from_str("RGB is not declared"));
    }
    let rejected: Vec<&'static str> = vec![
        "Ms=",
        "Cs=",
        "Cr=",
        "Ss=",
        "Se=",
        "initc=",
        "mc0=",
        "mc4=",
        "mc5=",
    ];
    let ghost names = rejected_capabilities();
    assert(rejected@.len() == names.len());
    assert(forall|k: int| 0 <= k < names.len() ==> (#[trigger] rejected@[k])@ == names[k]);
    let mut k: usize = 0;
    while k < rejected.len()
        invariant
            k <= rejected@.len(),
            names == rejected_capabilities(),
            rejected@.len() == names.len(),
            forall|k: int| 0 <= k < names.len() ==> (#[trigger] rejected@[k])@ == names[k],
            all == texts_view(lines@),
            all == lines_of(text@),
            has_line(all, "RGB,"@),
            first_rejected(all, 0) == first_rejected(all, k as int),
        decreases rejected@.len() - k,
    {
        let capability = rejected[k];
        if some_line_gives(&lines, capability) {
            let mut out = String::from_str("rejected capability ");
            out.append(capability);
            out.append(" is present");
            return Some(out);
        }
        k += 1;
    }
    None
}

fn some_line_gives(lines: &Vec<Vec<char>>, capability: &str) -> (result: bool)
    ensures
        result == gives(texts_view(lines@), capability@),
{
    let ghost all = texts_view(lines@);
    let mut i: usize = 0;
    while i < lines.len()
        invariant
            i <= lines@.len(),
            all == texts_view(lines@),
            forall|k: int|
                0 <= k < i ==> !has_prefix(trim_start(#[trigger] all[k]), capability@),
        decreases lines@.len() - i,
    {
        assert(all[i as int] == lines@[i as int]@);
        let rest = drop_leading(&lines[i]);
        if starts_with(&rest, capability) {
            return true;
        }
        i += 1;
    }
    false
}

/// An entry that passes declares direct color, and no line of it gives a rejected capability.
pub proof fn a_valid_entry_has_no_rejected_capability(text: Seq<char>, k: int)
    requires
        entry_fault(text) is None,
        0 <= k < rejected_capabilities().len(),
    ensures
        has_line(lines_of(text), "RGB,"@),
        !gives(lines_of(text), rejected_capabilities()[k]),
{
    none_rejected_from(lines_of(text), 0, k);
}

proof fn none_rejected_from(lines: Seq<Seq<char>>, i: int, k: int)
    requires
        first_rejected(lines, i) is None,
        0 <= i <= k < rejected_capabilities().len(),
    ensures
        !gives(lines, rejected_capabilities()[k]),
    decreases k - i,
{
    if i < k {
        none_rejected_from(lines, i + 1, k);
    }
}

/// The arguments with which an entry is shown, from a database or from wherever it is found.
pub fn infocmp_arguments(identity: TerminalIdentity, database: Option<Vec<u8>>) -> (result: Vec<
    Vec<u8>,
>)
    ensures
        result@.len() == (if database is Some {
            5int
        } else {
            3
        }),
        result@[0]@ == encode_utf8("-x"@),
        result@[1]@ == encode_utf8("-1"@),
        database is Some ==> result@[2]@ == encode_utf8("-A"@) && result@[3] == database->0,
        result@.last()@ == encode_utf8(identity.spec_term()),
{
    let mut arguments: Vec<Vec<u8>> = Vec::new();
    arguments.push(string_bytes("-x"));
    arguments.push(string_bytes("-1"));
    if let Some(database) = database {
        arguments.push(string_bytes("-A"));
        arguments.push(database);
    }
    arguments.push(string_bytes(identity.term()));
    arguments
}

/// Whether a complaint says that the entry is missing.
pub open spec fn says_missing(complaint: Seq<char>) -> bool {
    occurs_in(complaint, "couldn't open terminfo file"@) || occurs_in(
        complaint,
        "unknown terminal"@,
    )
}

/// The entry that was shown, or why there is none.
pub fn infocmp_result(identity: TerminalIdentity, output: ToolOutput) -> (result: Result<
    Vec<u8>,
    TerminfoError,
>)
    ensures
        match result {
            Ok(entry) => output.success && entry == output.stdout,
            Err(error) => !output.success && error@ == infocmp_failure(
                identity,
                utf8_lossy(output.stderr@),
            ),
        },
{
    if output.success {
        return Ok(output.stdout);
    }
    let complaint = lossy_text(output.stderr.as_slice());
    Err(infocmp_error(identity, complaint.as_str()))
}

/// Why an entry was not shown, by what was complained of.
pub open spec fn infocmp_failure(identity: TerminalIdentity, complaint: Seq<char>) -> ErrorModel {
    if says_missing(complaint) {
        ErrorModel::EntryMissing(identity)
    } else {
        ErrorModel::ToolFailed(Tool::Infocmp, bounded(complaint))
    }
}

/// Why an entry was not shown.
pub fn infocmp_error(identity: TerminalIdentity, complaint: &str) -> (result: TerminfoError)
    ensures
        result@ == infocmp_failure(identity, complaint@),
{
    let chars = chars_of(complaint);
    if has_part(&chars, "couldn't open terminfo file") || has_part(&chars, "unknown terminal") {
        TerminfoError::EntryMissing(identity)
    } else {
        TerminfoError::ToolFailed(Tool::Infocmp, bounded_complaint(complaint))
    }
}

/// Whether an entry was compiled.
pub fn tic_result(output: &ToolOutput) -> (result: Result<(), TerminfoError>)
    ensures
        match result {
            Ok(_) => output.success,
            Err(error) => !output.success && error@ == ErrorModel::ToolFailed(
                Tool::Tic,
                bounded(utf8_lossy(output.stderr@)),
            ),
        },
{
    if output.success {
        Ok(())
    } else {
        Err(TerminfoError::ToolFailed(Tool::Tic, bounded_text(output.stderr.as_slice())))
    }
}

/// Whether the terminal may start with an entry. Only its own is looked into.
pub fn preflight(identity: TerminalIdentity, entry: &[u8]) -> (result: Result<(), TerminfoError>)
    ensures
        match result {
            Ok(_) => identity is Xterm256Color || entry_fault(utf8_lossy(entry@)) is None,
            Err(error) => identity is Leyline && entry_fault(utf8_lossy(entry@)) is Some && error@
                == (ErrorModel::EntryMismatch { reason: entry_fault(utf8_lossy(entry@))->0 }),
        },
{
    match identity {
        TerminalIdentity::Leyline => validate_leyline(entry),
        TerminalIdentity::Xterm256Color => Ok(()),
    }
}

/// The report on an entry that is looked for in a database.
pub fn check(entry: &[u8]) -> (result: Result<String, TerminfoError>)
    ensures
        match result {
            Ok(report) => entry_fault(utf8_lossy(entry@)) is None && report@ == "status=ok term="@
                + TERM_NAME@ + " epoch=1 rgb=declared\n"@,
            Err(error) => entry_fault(utf8_lossy(entry@)) is Some && error@
                == (ErrorModel::EntryMismatch { reason: entry_fault(utf8_lossy(entry@))->0 }),
        },
{
    match validate_leyline(entry) {
        Ok(_) => {
            let mut out = String::from_str("status=ok term=");
            out.append(TERM_NAME);
            out.append(" epoch=1 rgb=declared\n");
            Ok(out)
        },
        Err(error) => Err(error),
    }
}

/// The report on the entry that programs see.
pub fn doctor(entry: &[u8]) -> (result: Result<String, TerminfoError>)
    ensures
        match result {
            Ok(report) => entry_fault(utf8_lossy(entry@)) is None && report@
                == "schema_version=1\nstatus=ok\nterm="@ + TERM_NAME@
                + "\nepoch=1\nrgb=declared\n"@,
            Err(error) => entry_fault(utf8_lossy(entry@)) is Some && error@
                == (ErrorModel::EntryMismatch { reason: entry_fault(utf8_lossy(entry@))->0 }),
        },
{
    match validate_leyline(entry) {
        Ok(_) => {
            let mut out = String::from_str("schema_version=1\nstatus=ok\nterm=");
            out.append(TERM_NAME);
            out.append("\nepoch=1\nrgb=declared\n");
            Ok(out)
        },
        Err(error) => Err(error),
    }
}

/// The arguments with which another host is asked.
pub fn ssh_arguments(host: Vec<u8>) -> (result: Result<Vec<Vec<u8>>, TerminfoError>)
    ensures
        match result {
            Ok(arguments) => {
                &&& !host@.contains(0u8)
                &&& arguments@.len() == 6
                &&& arguments@[0]@ == encode_utf8("-o"@)
                &&& arguments@[1]@ == encode_utf8("ConnectTimeout=10"@)
                &&& arguments@[2]@ == encode_utf8("--"@)
                &&& arguments@[3] == host
                &&& arguments@[4]@ == encode_utf8("sh"@)
                &&& arguments@[5]@ == encode_utf8("-s"@)
            },
            Err(error) => host@.contains(0u8) && error@ == ErrorModel::InvalidDatabase,
        },
{
    if holds_zero(host.as_slice()) {
        return Err(TerminfoError::InvalidDatabase);
    }
    let mut arguments: Vec<Vec<u8>> = Vec::new();
    arguments.push(string_bytes("-o"));
    arguments.push(string_bytes("ConnectTimeout=10"));
    arguments.push(string_bytes("--"));
    arguments.push(host);
    arguments.push(string_bytes("sh"));
    arguments.push(string_bytes("-s"));
    Ok(arguments)
}

/// What the other host is asked.
pub const SSH_PROBE_SCRIPT: &'static str = "set -eu\nprintf 'term=%s\\n' \"${TERM-unknown}\"\nif infocmp -x -1 leyline-256color >/dev/null 2>&1; then printf 'entry=present\\n'; else printf 'entry=missing\\n'; fi\nprintf 'ncurses='; infocmp -V 2>/dev/null || printf 'unavailable\\n'\nif command -v tmux >/dev/null 2>&1; then printf 'tmux='; tmux -V; else printf 'tmux=unavailable\\n'; fi\n";

fn holds_zero(bytes: &[u8]) -> (result: bool)
    ensures
        result == bytes@.contains(0u8),
{
    let mut i: usize = 0;
    while i < bytes.len()
        invariant
            i <= bytes@.len(),
            forall|k: int| 0 <= k < i ==> bytes@[k] != 0,
        decreases bytes@.len() - i,
    {
        if bytes[i] == 0 {
            assert(bytes@[i as int] == 0);
            return true;
        }
        i += 1;
    }
    false
}

/// An error of the program that asks another host counts as one of the host.
pub fn ssh_failure(error: TerminfoError) -> (result: TerminfoError)
    ensures
        result@ == match error@ {
            ErrorModel::ToolTimeout(_) | ErrorModel::OutputTooLarge | ErrorModel::ToolFailed(_, _) =>
                ErrorModel::Ssh(error@.text()),
            _ => error@,
        },
{
    match &error {
        TerminfoError::ToolTimeout(_) => TerminfoError::Ssh(error.message()),
        TerminfoError::OutputTooLarge => TerminfoError::Ssh(error.message()),
        TerminfoError::ToolFailed(_, _) => TerminfoError::Ssh(error.message()),
        _ => error,
    }
}

/// The report on another host.
pub open spec fn host_report(host_id: Seq<char>, observed: Seq<char>, json: bool) -> Seq<char> {
    if json {
        "{\"schema_version\":1,\"host_id\":\""@ + host_id + "\",\"term\":\""@ + TERM_NAME@
            + "\",\"entry\":\""@ + (if lines_of(observed).contains("entry=present"@) {
            "present"@
        } else {
            "missing"@
        }) + "\"}\n"@
    } else {
        "schema_version=1\nhost_id="@ + host_id + "\n"@ + observed
    }
}

/// The name under which a host with such a number is known.
pub open spec fn host_name(number: u64) -> Seq<char> {
    hex_padded(number as nat, 16, false)
}

/// `BuildHasher::hash_one`, with the standard hasher: a number made from bytes. Which number it is,
/// the standard library leaves open, so nothing is stated of it.
#[verifier::external_body]
fn number_of(bytes: &[u8]) -> (result: u64) {
    BuildHasherDefault::<DefaultHasher>::default().hash_one(bytes)
}

/// The name under which a host is known: one that does not tell which it is.
pub fn anonymous_host_id(number: u64) -> (result: String)
    ensures
        result@ == host_name(number),
{
    let mut out = String::new();
    push_hex(&mut out, number, 16, false);
    assert(out@ =~= host_name(number));
    out
}

/// The report on another host, which is known by a name that does not tell which it is.
pub fn doctor_ssh(host: &[u8], output: &ToolOutput, json: bool) -> (result: Result<
    String,
    TerminfoError,
>)
    ensures
        match result {
            Ok(report) => output.success && exists|number: u64|
                report@ == host_report(
                    #[trigger] host_name(number),
                    utf8_lossy(output.stdout@),
                    json,
                ),
            Err(error) => !output.success && error@ == ErrorModel::Ssh(
                bounded(utf8_lossy(output.stderr@)),
            ),
        },
{
    let host_id = anonymous_host_id(number_of(host));
    answer_of_host(host_id.as_str(), output, json)
}

/// The report on another host by the name under which it is known, and what it answered.
pub fn answer_of_host(host_id: &str, output: &ToolOutput, json: bool) -> (result: Result<
    String,
    TerminfoError,
>)
    ensures
        match result {
            Ok(report) => output.success && report@ == host_report(
                host_id@,
                utf8_lossy(output.stdout@),
                json,
            ),
            Err(error) => !output.success && error@ == ErrorModel::Ssh(
                bounded(utf8_lossy(output.stderr@)),
            ),
        },
{
    if !output.success {
        return Err(TerminfoError::Ssh(bounded_text(output.stderr.as_slice())));
    }
    let observed = lossy_text(output.stdout.as_slice());
    Ok(report_host(host_id, observed.as_str(), json))
}

/// The report on another host, by what it answered.
pub fn report_host(host_id: &str, observed: &str, json: bool) -> (result: String)
    ensures
        result@ == host_report(host_id@, observed@, json),
{
    if json {
        let chars = chars_of(observed);
        let lines = split_lines(&chars);
        let ghost all = texts_view(lines@);
        let mut present = false;
        let mut i: usize = 0;
        while i < lines.len()
            invariant
                i <= lines@.len(),
                all == texts_view(lines@),
                present == exists|k: int| 0 <= k < i && #[trigger] all[k] == "entry=present"@,
            decreases lines@.len() - i,
        {
            let line = string_of(&lines[i]);
            assert(all[i as int] == lines@[i as int]@);
            if is_text(&line, "entry=present") {
                present = true;
            }
            i += 1;
        }
        assert(present == all.contains("entry=present"@));
        let mut out = String::from_str("{\"schema_version\":1,\"host_id\":\"");
        out.append(host_id);
        out.append("\",\"term\":\"");
        out.append(TERM_NAME);
        out.append("\",\"entry\":\"");
        if present {
            out.append("present");
        } else {
            out.append("missing");
        }
        out.append("\"}\n");
        out
    } else {
        let mut out = String::from_str("schema_version=1\nhost_id=");
        out.append(host_id);
        out.append("\n");
        out.append(observed);
        out
    }
}

/// A path below a directory. A path that starts at the root stands for itself.
pub open spec fn joined(base: Seq<u8>, path: Seq<u8>) -> Seq<u8> {
    if path.len() > 0 && path[0] == 47 {
        path
    } else if base.len() > 0 && base.last() != 47 {
        base.push(47) + path
    } else {
        base + path
    }
}

/// Makes a path below a directory.
pub fn join_path(base: &[u8], path: &[u8]) -> (result: Vec<u8>)
    ensures
        result@ == joined(base@, path@),
{
    if path.len() > 0 && path[0] == 47 {
        return slice_to_vec(path);
    }
    let mut out = slice_to_vec(base);
    let n: usize = base.len();
    if n > 0 && base[n - 1] != 47 {
        out.push(47);
    }
    push_all(&mut out, path);
    out
}

/// Where entries are kept: in a given database, or below the home directory.
pub open spec fn database_path(database: Option<Seq<u8>>, home: Option<Seq<u8>>) -> Option<Seq<u8>> {
    match database {
        Some(path) => Some(path),
        None => match home {
            Some(home) => Some(joined(home, encode_utf8(".terminfo"@))),
            None => None,
        },
    }
}

/// Whether a path can be that of a database: it starts at the root and holds no zero byte.
pub open spec fn database_is_valid(path: Seq<u8>) -> bool {
    path.len() > 0 && path[0] == 47 && !path.contains(0u8)
}

pub open spec fn bytes_of(path: Option<Vec<u8>>) -> Option<Seq<u8>> {
    match path {
        Some(path) => Some(path@),
        None => None,
    }
}

/// The database that is written to.
pub fn user_database(database: Option<Vec<u8>>, home: Option<Vec<u8>>) -> (result: Result<
    Vec<u8>,
    TerminfoError,
>)
    ensures
        ({
            let path = database_path(bytes_of(database), bytes_of(home));
            match result {
                Ok(found) => path is Some && found@ == path->0 && database_is_valid(path->0),
                Err(error) => (path is None || !database_is_valid(path->0)) && error@
                    == ErrorModel::InvalidDatabase,
            }
        }),
{
    let path = match database {
        Some(path) => path,
        None => match home {
            Some(home) => join_path(home.as_slice(), string_bytes(".terminfo").as_slice()),
            None => {
                return Err(TerminfoError::InvalidDatabase);
            },
        },
    };
    if path.len() == 0 || path[0] != 47 || holds_zero(path.as_slice()) {
        return Err(TerminfoError::InvalidDatabase);
    }
    Ok(path)
}

/// What stands at a path.
#[derive(Clone, Copy, Debug, PartialEq, Eq, Structural)]
pub enum FileKind {
    Directory,
    File,
    Symlink,
    Other,
}

/// Whether entries may be written below a path: it is a directory, or nothing is there that could
/// be looked at.
pub fn ensure_safe_directory(found: Option<FileKind>) -> (result: Result<(), TerminfoError>)
    ensures
        match result {
            Ok(_) => found is None || found->0 is Directory,
            Err(error) => found is Some && !(found->0 is Directory) && error@
                == ErrorModel::InvalidDatabase,
        },
{
    match found {
        None => Ok(()),
        Some(FileKind::Directory) => Ok(()),
        Some(_) => Err(TerminfoError::InvalidDatabase),
    }
}

/// A directory some steps below another.
pub open spec fn below(base: Seq<u8>, names: Seq<Vec<u8>>) -> Seq<u8>
    decreases names.len(),
{
    if names.len() == 0 {
        base
    } else {
        joined(below(base, names.drop_last()), names.last()@)
    }
}

/// The directories on the way down from a database, each of which has to be a safe one.
pub fn child_directories(database: &[u8], names: &Vec<Vec<u8>>) -> (result: Vec<Vec<u8>>)
    ensures
        result@.len() == names@.len(),
        forall|i: int|
            0 <= i < names@.len() ==> (#[trigger] result@[i])@ == below(
                database@,
                names@.take(i + 1),
            ),
{
    let mut out: Vec<Vec<u8>> = Vec::new();
    let mut current: Vec<u8> = slice_to_vec(database);
    let mut i: usize = 0;
    assert(names@.take(0) =~= Seq::empty());
    while i < names.len()
        invariant
            i <= names@.len(),
            out@.len() == i,
            current@ == below(database@, names@.take(i as int)),
            forall|k: int|
                0 <= k < i ==> (#[trigger] out@[k])@ == below(database@, names@.take(k + 1)),
        decreases names@.len() - i,
    {
        assert(names@.take(i + 1).drop_last() =~= names@.take(i as int));
        current = join_path(current.as_slice(), names[i].as_slice());
        out.push(slice_to_vec(current.as_slice()));
        i += 1;
    }
    out
}

/// The record that tells that an entry is the terminal's own.
pub fn ownership_path(database: &[u8]) -> (result: Vec<u8>)
    ensures
        result@ == joined(database@, encode_utf8(".leyline/leyline-256color.owner"@)),
{
    join_path(database, string_bytes(".leyline/leyline-256color.owner").as_slice())
}

/// What to do with something in a directory.
#[derive(Clone, Copy, Debug, PartialEq, Eq, Structural)]
pub enum CollectStep {
    Descend,
    Take,
    Skip,
}

/// What to do with something in a directory: a link is not followed.
pub fn collect_step(kind: FileKind) -> (result: Result<CollectStep, TerminfoError>)
    ensures
        match result {
            Ok(CollectStep::Descend) => kind is Directory,
            Ok(CollectStep::Take) => kind is File,
            Ok(CollectStep::Skip) => kind is Other,
            Err(error) => kind is Symlink && error@ == ErrorModel::InvalidDatabase,
        },
{
    match kind {
        FileKind::Directory => Ok(CollectStep::Descend),
        FileKind::File => Ok(CollectStep::Take),
        FileKind::Other => Ok(CollectStep::Skip),
        FileKind::Symlink => Err(TerminfoError::InvalidDatabase),
    }
}

/// The paths that are not a given one.
pub open spec fn others(entries: Seq<Vec<u8>>, source: Seq<u8>) -> Seq<Seq<u8>>
    decreases entries.len(),
{
    if entries.len() == 0 {
        Seq::empty()
    } else if entries.last()@ == source {
        others(entries.drop_last(), source)
    } else {
        others(entries.drop_last(), source).push(entries.last()@)
    }
}

/// The one file that was compiled, beside its source.
pub fn find_compiled_entry(entries: &Vec<Vec<u8>>, source: &[u8]) -> (result: Result<
    Vec<u8>,
    TerminfoError,
>)
    ensures
        match result {
            Ok(entry) => others(entries@, source@) == seq![entry@],
            Err(error) => others(entries@, source@).len() != 1 && error@
                == ErrorModel::InvalidCompiledOutput,
        },
{
    let mut found: Option<usize> = None;
    let mut many = false;
    let mut i: usize = 0;
    assert(entries@.take(0) =~= Seq::empty());
    while i < entries.len()
        invariant
            i <= entries@.len(),
            found is None ==> !many && others(entries@.take(i as int), source@).len() == 0,
            found is Some ==> found->0 < entries@.len(),
            found is Some && !many ==> others(entries@.take(i as int), source@)
                == seq![entries@[found->0 as int]@],
            many ==> others(entries@.take(i as int), source@).len() > 1,
        decreases entries@.len() - i,
    {
        let ghost before = others(entries@.take(i as int), source@);
        assert(entries@.take(i + 1).drop_last() =~= entries@.take(i as int));
        if !bytes_eq(entries[i].as_slice(), source) {
            if found.is_some() {
                many = true;
            } else {
                found = Some(i);
                assert(before.push(entries@[i as int]@) =~= seq![entries@[i as int]@]);
            }
        }
        i += 1;
    }
    assert(entries@.take(i as int) =~= entries@);
    match found {
        Some(k) if !many => Ok(slice_to_vec(entries[k].as_slice())),
        _ => Err(TerminfoError::InvalidCompiledOutput),
    }
}

/// What follows the last slash of a path.
pub open spec fn file_name(path: Seq<u8>) -> Seq<u8>
    decreases path.len(),
{
    if path.len() == 0 || path.last() == 47 {
        Seq::empty()
    } else {
        file_name(path.drop_last()).push(path.last())
    }
}

/// Whether a path is a directory or lies below it.
pub open spec fn lies_in(path: Seq<u8>, directory: Seq<u8>) -> bool {
    path == directory || (path.len() > directory.len() && path.take(directory.len() as int)
        == directory && path[directory.len() as int] == 47)
}

/// Whether a file is the terminal's entry.
pub open spec fn is_own_entry(path: Seq<u8>, root: Seq<u8>) -> bool {
    file_name(path) == encode_utf8(TERM_NAME@) && !lies_in(
        path,
        joined(root, encode_utf8(".leyline"@)),
    )
}

/// The first of some files that is the terminal's entry.
pub open spec fn first_own_entry(entries: Seq<Vec<u8>>, root: Seq<u8>) -> Option<Seq<u8>>
    decreases entries.len(),
{
    if entries.len() == 0 {
        None
    } else if is_own_entry(entries[0]@, root) {
        Some(entries[0]@)
    } else {
        first_own_entry(entries.skip(1), root)
    }
}

/// The start of the file name in a path.
fn name_start(path: &[u8]) -> (result: usize)
    ensures
        result <= path@.len(),
        path@.skip(result as int) == file_name(path@),
{
    let mut i: usize = path.len();
    assert(path@.take(i as int) =~= path@);
    assert(path@.skip(i as int) =~= Seq::empty());
    assert(file_name(path@) =~= file_name(path@.take(i as int)) + path@.skip(i as int));
    while i > 0 && path[i - 1] != 47
        invariant
            i <= path@.len(),
            file_name(path@) == file_name(path@.take(i as int)) + path@.skip(i as int),
        decreases i,
    {
        assert(path@.take(i as int).drop_last() =~= path@.take(i - 1));
        assert(file_name(path@.take(i as int)) + path@.skip(i as int) =~= file_name(
            path@.take(i - 1),
        ) + path@.skip(i - 1));
        i -= 1;
    }
    assert(path@.skip(i as int) =~= file_name(path@));
    i
}

fn is_inside(path: &[u8], directory: &[u8]) -> (result: bool)
    ensures
        result == lies_in(path@, directory@),
{
    if path.len() < directory.len() {
        return false;
    }
    let head = slice_subrange(path, 0, directory.len());
    assert(head@ =~= path@.take(directory@.len() as int));
    if !bytes_eq(head, directory) {
        assert(path@.len() == directory@.len() ==> path@ =~= head@);
        return false;
    }
    if path.len() == directory.len() {
        assert(path@ =~= directory@);
        return true;
    }
    path[directory.len()] == 47
}

/// The terminal's entry among the files of a database.
pub fn find_named_entry(entries: &Vec<Vec<u8>>, root: &[u8]) -> (result: Option<Vec<u8>>)
    ensures
        match result {
            Some(entry) => first_own_entry(entries@, root@) == Some(entry@),
            None => first_own_entry(entries@, root@) is None,
        },
{
    let state = join_path(root, string_bytes(".leyline").as_slice());
    let name = string_bytes(TERM_NAME);
    let mut i: usize = 0;
    assert(entries@.skip(0) =~= entries@);
    while i < entries.len()
        invariant
            i <= entries@.len(),
            state@ == joined(root@, encode_utf8(".leyline"@)),
            name@ == encode_utf8(TERM_NAME@),
            first_own_entry(entries@, root@) == first_own_entry(entries@.skip(i as int), root@),
        decreases entries@.len() - i,
    {
        let path = entries[i].as_slice();
        assert(entries@.skip(i as int)[0] == entries@[i as int]);
        assert(entries@.skip(i as int).skip(1) =~= entries@.skip(i + 1));
        let start: usize = name_start(path);
        let last = slice_subrange(path, start, path.len());
        assert(last@ =~= path@.skip(start as int));
        if bytes_eq(last, name.as_slice()) && !is_inside(path, state.as_slice()) {
            return Some(slice_to_vec(path));
        }
        i += 1;
    }
    None
}

/// Whether an entry may be replaced: there is none yet, or the record says that it is the
/// terminal's own. `record` is what the record holds, if it can be read.
pub fn may_install(present: bool, record: Option<&[u8]>, current: &[u8]) -> (result: Result<
    (),
    TerminfoError,
>)
    ensures
        match result {
            Ok(_) => !present || owns(record, current@),
            Err(error) => present && !owns(record, current@) && error@ == ErrorModel::NotOwned,
        },
{
    if !present {
        return Ok(());
    }
    match record {
        Some(record) => if bytes_eq(record, current) {
            Ok(())
        } else {
            Err(TerminfoError::NotOwned)
        },
        None => Err(TerminfoError::NotOwned),
    }
}

/// Whether the record says that an entry is the terminal's own.
pub open spec fn owns(record: Option<&[u8]>, current: Seq<u8>) -> bool {
    record is Some && (record->0)@ == current
}

/// An entry is the terminal's own as long as it is what the record holds, and no longer: what was
/// installed can be replaced and removed, what was changed since cannot.
pub proof fn only_what_was_recorded_is_owned(record: &[u8], current: Seq<u8>)
    ensures
        owns(Some(record), current) <==> current == record@,
        !owns(None, current),
{
}

/// Whether an entry may be removed, and which file it is.
pub fn may_uninstall(record: Option<&[u8]>, current: &[u8], entry: Option<Vec<u8>>) -> (result:
    Result<Vec<u8>, TerminfoError>)
    ensures
        match result {
            Ok(path) => owns(record, current@) && entry == Some(path),
            Err(error) => (!owns(record, current@) || entry is None) && error@
                == ErrorModel::NotOwned,
        },
{
    match record {
        Some(record) => if bytes_eq(record, current) {
            match entry {
                Some(path) => Ok(path),
                None => Err(TerminfoError::NotOwned),
            }
        } else {
            Err(TerminfoError::NotOwned)
        },
        None => Err(TerminfoError::NotOwned),
    }
}

/// The name of the directory in which an entry is compiled.
pub fn staging_name(process: u32) -> (result: String)
    ensures
        result@ == ".leyline-staging-"@ + dec(process as nat),
{
    let mut out = String::from_str(".leyline-staging-");
    push_dec(&mut out, process as u64);
    out
}

/// What is written into the lock.
pub fn lock_text(process: u32) -> (result: String)
    ensures
        result@ == "pid="@ + dec(process as nat) + "\n"@,
{
    let mut out = String::from_str("pid=");
    push_dec(&mut out, process as u64);
    out.append("\n");
    out
}

/// Why the lock was not taken.
pub fn lock_error(held: bool, message: String) -> (result: TerminfoError)
    ensures
        result@ == (if held {
            ErrorModel::Busy
        } else {
            ErrorModel::Io(message@)
        }),
{
    if held {
        TerminfoError::Busy
    } else {
        TerminfoError::Io(message)
    }
}

/// What happened to an entry.
#[derive(Clone, Copy, Debug, PartialEq, Eq, Structural)]
pub enum EntryChange {
    Installed,
    Uninstalled,
}

pub open spec fn change_text(change: EntryChange, path: Seq<char>) -> Seq<char> {
    "status="@ + (match change {
        EntryChange::Installed => "installed"@,
        EntryChange::Uninstalled => "uninstalled"@,
    }) + " term="@ + TERM_NAME@ + " path="@ + path + "\n"@
}

/// The report on an entry that was installed or removed.
pub fn report_change(change: EntryChange, path: &[u8]) -> (result: String)
    ensures
        result@ == change_text(change, utf8_lossy(path@)),
{
    let mut out = String::from_str("status=");
    match change {
        EntryChange::Installed => {
            out.append("installed");
        },
        EntryChange::Uninstalled => {
            out.append("uninstalled");
        },
    }
    out.append(" term=");
    out.append(TERM_NAME);
    out.append(" path=");
    out.append(lossy_text(path).as_str());
    out.append("\n");
    out
}

/// A terminal is asked for by its name, and tells programs the name of its entry.
pub proof fn terminals_go_by_their_names(identity: TerminalIdentity, name: Seq<char>)
    ensures
        identity_of(name) == Some(TerminalIdentity::Leyline) ==> name == "leyline"@,
        identity_of(name) == Some(TerminalIdentity::Xterm256Color) ==> name == "xterm-256color"@,
        identity_of("leyline"@) is Some,
        identity_of("xterm-256color"@) is Some,
        identity is Leyline ==> identity.spec_term() == "leyline-256color"@,
        identity is Xterm256Color ==> identity.spec_term() == "xterm-256color"@,
{
    reveal_strlit("leyline");
    reveal_strlit("xterm-256color");
}

/// A path is put below a directory with one slash between them; one that starts at the root stays as
/// it is.
pub proof fn paths_are_put_below_directories(base: Seq<u8>, path: Seq<u8>)
    requires
        path.len() > 0,
        path[0] != 47,
        base.len() > 0,
        base.last() != 47,
    ensures
        joined(base, path) == base + seq![47u8] + path,
        joined(base.push(47), path) == base + seq![47u8] + path,
        joined(base, seq![47u8] + path) == seq![47u8] + path,
{
    assert(base.push(47) + path =~= base + seq![47u8] + path);
}

/// The database is the one that is named, or the one in the home directory.
pub proof fn the_database_that_is_named_counts(
    database: Seq<u8>,
    home: Option<Seq<u8>>,
    directory: Seq<u8>,
)
    requires
        directory.len() > 0,
        directory.last() != 47,
    ensures
        database_path(Some(database), home) == Some(database),
        database_path(None, None) is None,
        database_path(None, Some(directory)) is Some,
        database_path(None, Some(directory))->0.take(directory.len() as int) == directory,
        database_path(None, Some(directory))->0.len() == directory.len() + 10,
{
    reveal_strlit(".terminfo");
    vstd::utf8::is_ascii_chars_encode_utf8(".terminfo"@);
    let path = database_path(None, Some(directory))->0;
    let name = encode_utf8(".terminfo"@);
    assert(name[0] == 46);
    assert(path.take(directory.len() as int) =~= directory);
}

} // verus!
