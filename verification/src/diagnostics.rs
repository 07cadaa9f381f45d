//! How errors are classified and shown.
use vstd::prelude::*;
use vstd::string::StringExecFns;
use crate::text::{hex_padded, push_hex};

verus! {

#[derive(Clone, Copy, Debug, PartialEq, Eq, Structural)]
pub enum ErrorCategory {
    Cli,
    Configuration,
    Environment,
    Platform,
    Pty,
    Terminal,
    Text,
    Renderer,
    Internal,
    Remote,
}

/// The name of a category.
pub open spec fn category_name(category: ErrorCategory) -> Seq<char> {
    match category {
        ErrorCategory::Cli => "cli"@,
        ErrorCategory::Configuration => "configuration"@,
        ErrorCategory::Environment => "environment"@,
        ErrorCategory::Platform => "platform"@,
        ErrorCategory::Pty => "pty"@,
        ErrorCategory::Terminal => "terminal"@,
        ErrorCategory::Text => "text"@,
        ErrorCategory::Renderer => "renderer"@,
        ErrorCategory::Internal => "internal"@,
        ErrorCategory::Remote => "ssh"@,
    }
}

impl ErrorCategory {
    /// The exit code of a process that ends on such an error.
    pub fn exit_code(self) -> (result: u8)
        ensures
            result == match self {
                ErrorCategory::Platform | ErrorCategory::Renderer => 3u8,
                ErrorCategory::Internal => 4,
                ErrorCategory::Remote => 5,
                _ => 2,
            },
    {
        match self {
            ErrorCategory::Platform => 3,
            ErrorCategory::Renderer => 3,
            ErrorCategory::Internal => 4,
            ErrorCategory::Remote => 5,
            _ => 2,
        }
    }

    pub fn label(self) -> (result: &'static str)
        ensures
            result@ == category_name(self),
    {
        match self {
            ErrorCategory::Cli => "cli",
            ErrorCategory::Configuration => "configuration",
            ErrorCategory::Environment => "environment",
            ErrorCategory::Platform => "platform",
            ErrorCategory::Pty => "pty",
            ErrorCategory::Terminal => "terminal",
            ErrorCategory::Text => "text",
            ErrorCategory::Renderer => "renderer",
            ErrorCategory::Internal => "internal",
            ErrorCategory::Remote => "ssh",
        }
    }
}

/// What some strings hold.
pub open spec fn texts(strings: Seq<String>) -> Seq<Seq<char>> {
    strings.map_values(|s: String| s@)
}

/// The first `n` causes, each on a line of its own.
pub open spec fn causes_text(causes: Seq<Seq<char>>, n: int) -> Seq<char>
    decreases n,
{
    if n <= 0 {
        Seq::empty()
    } else {
        causes_text(causes, n - 1) + ("\n  caused by: "@ + causes[n - 1])
    }
}

/// The report of an error, with its causes where more is asked for.
pub open spec fn error_report(
    category: ErrorCategory,
    message: Seq<char>,
    causes: Seq<Seq<char>>,
    verbose: bool,
) -> Seq<char> {
    let report = "leyline: "@ + category_name(category) + " error: "@ + message;
    (if verbose {
        report + causes_text(causes, causes.len() as int)
    } else {
        report
    }).push('\n')
}

/// Renders an error: its category, its message and, where more is asked for, its causes from the
/// nearest to the furthest.
pub fn render_error(
    category: ErrorCategory,
    message: &str,
    causes: &Vec<String>,
    verbose: bool,
) -> (result: String)
    ensures
        result@ == error_report(category, message@, texts(causes@), verbose),
{
    let mut report: String = "leyline: ".to_owned();
    report.append(category.label());
    report.append(" error: ");
    report.append(message);
    let ghost start = report@;
    if verbose {
        let mut i: usize = 0;
        assert(start + Seq::<char>::empty() =~= start);
        while i < causes.len()
            invariant
                i <= causes@.len(),
                report@ == start + causes_text(texts(causes@), i as int),
            decreases causes@.len() - i,
        {
            let mut line: String = "\n  caused by: ".to_owned();
            line.append(causes[i].as_str());
            report.append(line.as_str());
            i += 1;
            assert(report@ =~= start + causes_text(texts(causes@), i as int));
        }
    }
    report.push('\n');
    report
}

/// What stands for a character in a diagnostic: printable ASCII as it is, with a backslash before
/// quotes and backslashes, a short escape for tabs and line ends, and the code of all others.
pub open spec fn escaped_char(c: char) -> Seq<char> {
    if c == '\t' {
        seq!['\\', 't']
    } else if c == '\r' {
        seq!['\\', 'r']
    } else if c == '\n' {
        seq!['\\', 'n']
    } else if c == '\'' || c == '"' || c == '\\' {
        seq!['\\', c]
    } else if 0x20 <= c as u32 <= 0x7e {
        seq![c]
    } else {
        seq!['\\', 'u', '{'] + hex_padded(c as u32 as nat, 1, false) + seq!['}']
    }
}

/// What stands for a text in a diagnostic.
pub open spec fn escaped(text: Seq<char>) -> Seq<char>
    decreases text.len(),
{
    if text.len() == 0 {
        Seq::empty()
    } else {
        escaped(text.drop_last()) + escaped_char(text.last())
    }
}

fn push_escaped(out: &mut String, c: char)
    ensures
        final(out)@ == old(out)@ + escaped_char(c),
{
    let code: u32 = c as u32;
    if c == '\t' {
        out.push('\\');
        out.push('t');
    } else if c == '\r' {
        out.push('\\');
        out.push('r');
    } else if c == '\n' {
        out.push('\\');
        out.push('n');
    } else if c == '\'' || c == '"' || c == '\\' {
        out.push('\\');
        out.push(c);
    } else if 0x20 <= code && code <= 0x7e {
        out.push(c);
    } else {
        out.push('\\');
        out.push('u');
        out.push('{');
        push_hex(out, code as u64, 1, false);
        out.push('}');
    }
    assert(out@ =~= old(out)@ + escaped_char(c));
}

/// Escapes a text so that it can be shown on a terminal.
pub fn escape_diagnostic(value: &str) -> (result: String)
    ensures
        result@ == escaped(value@),
{
    let mut out: String = String::new();
    for c in it: value.chars()
        invariant
            it.seq() == value@,
            out@ == escaped(value@.take(it.index() as int)),
    {
        assert(value@.take(it.index() as int + 1).drop_last() =~= value@.take(it.index() as int));
        push_escaped(&mut out, c);
    }
    assert(value@.take(value@.len() as int) =~= value@);
    out
}

proof fn hex_is_printable(n: nat, width: nat)
    ensures
        forall|i: int|
            0 <= i < hex_padded(n, width, false).len() ==> 0x20 <= (#[trigger] hex_padded(
                n,
                width,
                false,
            )[i]) as u32 <= 0x7e,
    decreases n + width,
{
    if n < 16 && width <= 1 {
    } else {
        let w = if width > 0 {
            (width - 1) as nat
        } else {
            0
        };
        hex_is_printable(n / 16, w);
        let before = hex_padded(n / 16, w, false);
        let all = hex_padded(n, width, false);
        assert forall|i: int| 0 <= i < all.len() implies 0x20 <= (#[trigger] all[i]) as u32
            <= 0x7e by {
            if i < before.len() {
                assert(all[i] == before[i]);
            }
        }
    }
}

/// A diagnostic holds printable ASCII only, whatever the text is.
pub proof fn escaped_is_printable(text: Seq<char>, i: int)
    requires
        0 <= i < escaped(text).len(),
    ensures
        0x20 <= escaped(text)[i] as u32 <= 0x7e,
    decreases text.len(),
{
    let before = escaped(text.drop_last());
    if i < before.len() {
        escaped_is_printable(text.drop_last(), i);
    } else {
        let c = text.last();
        hex_is_printable(c as u32 as nat, 1);
        let shown = escaped_char(c);
        assert(escaped(text)[i] == shown[i - before.len()]);
        let hex = hex_padded(c as u32 as nat, 1, false);
        let k = i - before.len();
        if shown.len() == hex.len() + 4 && 3 <= k < 3 + hex.len() && !(0x20 <= c as u32 <= 0x7e) {
            if c != '\t' && c != '\r' && c != '\n' {
                assert(shown[k] == hex[k - 3]);
            }
        }
    }
}

/// A report tells the kind of the error and then what it says, and ends its line. Its causes follow
/// only where more is asked for, each after the one that it caused.
pub proof fn a_report_tells_what_went_wrong(
    category: ErrorCategory,
    message: Seq<char>,
    causes: Seq<Seq<char>>,
    cause: Seq<char>,
)
    ensures
        ({
            let brief = error_report(category, message, causes, false);
            let full = error_report(category, message, causes, true);
            let more = error_report(category, message, causes.push(cause), true);
            let head = "leyline: "@ + category_name(category) + " error: "@ + message;
            &&& brief == head.push('\n')
            &&& full.take(head.len() as int) == head
            &&& full.last() == '\n'
            &&& causes.len() == 0 ==> full == brief
            &&& more == full.drop_last() + ("\n  caused by: "@ + cause).push('\n')
        }),
{
    let full = error_report(category, message, causes, true);
    let more = error_report(category, message, causes.push(cause), true);
    let head = "leyline: "@ + category_name(category) + " error: "@ + message;
    assert(full.take(head.len() as int) =~= head);
    same_causes(causes, cause, causes.len() as int);
    assert(full.drop_last() =~= head + causes_text(causes, causes.len() as int));
    assert(more =~= full.drop_last() + ("\n  caused by: "@ + cause).push('\n'));
    if causes.len() == 0 {
        assert(head + causes_text(causes, 0) =~= head);
    }
}

proof fn same_causes(causes: Seq<Seq<char>>, cause: Seq<char>, n: int)
    requires
        0 <= n <= causes.len(),
    ensures
        causes_text(causes.push(cause), n) == causes_text(causes, n),
    decreases n,
{
    if n > 0 {
        same_causes(causes, cause, n - 1);
    }
}

} // verus!
