//! What may be pasted, and how transfers of the clipboard proceed.
use vstd::prelude::*;
use vstd::string::StringExecFns;
use crate::app::runtime::{nothing_waits, try_receive, Received};
use vstd::utf8::{encode_utf8, valid_utf8};
use crate::keys::LogicalKey;
use crate::security::MAX_CLIPBOARD_BYTES;
use crate::terminal::input::MAX_PASTE_BODY_BYTES;
use crate::text::{chars_of, is_control, is_control_char, push_all, string_of, utf8_str};
use crate::time::Instant;

pub mod laws;

verus! {

/// How long a transfer may go without progress, in nanoseconds.
pub const NO_PROGRESS_TIMEOUT: u64 = 5_000_000_000;

/// How long a transfer may take, in nanoseconds.
pub const ABSOLUTE_TIMEOUT: u64 = 30_000_000_000;

#[derive(Clone, Copy, Debug, PartialEq, Eq, Structural)]
pub enum TransferTarget {
    Clipboard,
    Primary,
}

#[derive(Clone, Debug, PartialEq, Eq)]
pub enum TransferError {
    TooLarge,
    InvalidUtf8,
    Cancelled,
    Timeout,
    Io(String),
}

impl TransferError {
    pub open spec fn text(self) -> Seq<char> {
        match self {
            TransferError::TooLarge => "clipboard transfer exceeds 8 MiB"@,
            TransferError::InvalidUtf8 => "clipboard transfer is not UTF-8"@,
            TransferError::Cancelled => "clipboard transfer was cancelled"@,
            TransferError::Timeout => "clipboard transfer timed out"@,
            TransferError::Io(error) => "clipboard I/O failed: "@ + error@,
        }
    }

    /// What the error says.
    pub fn message(&self) -> (result: String)
        ensures
            result@ == self.text(),
    {
        match self {
            TransferError::TooLarge => String::from_str("clipboard transfer exceeds 8 MiB"),
            TransferError::InvalidUtf8 => String::from_str("clipboard transfer is not UTF-8"),
            TransferError::Cancelled => String::from_str("clipboard transfer was cancelled"),
            TransferError::Timeout => String::from_str("clipboard transfer timed out"),
            TransferError::Io(error) => {
                let mut out = String::from_str("clipboard I/O failed: ");
                out.append(error.as_str());
                out
            },
        }
    }
}

#[derive(Clone, Copy, Debug, PartialEq, Eq, Structural)]
pub enum TransferQueueError {
    Full,
    Closed,
}

impl TransferQueueError {
    /// What the error says.
    pub fn message(&self) -> (result: &'static str)
        ensures
            result@ == match *self {
                TransferQueueError::Full => "clipboard transfer queue is full"@,
                TransferQueueError::Closed => "clipboard transfer workers have stopped"@,
            },
    {
        match self {
            TransferQueueError::Full => "clipboard transfer queue is full",
            TransferQueueError::Closed => "clipboard transfer workers have stopped",
        }
    }
}

/// What became of a transfer.
#[derive(Debug)]
pub enum TransferResult {
    Received { request: u64, target: TransferTarget, result: Result<String, TransferError> },
    WriteFailed { target: TransferTarget, source: u64, error: TransferError },
}

/// Whether a transfer may go on at `now`: it was not cancelled and has not run out of time.
pub fn check_transfer_state(
    cancelled: bool,
    started: Instant,
    progressed: Instant,
    now: Instant,
) -> (result: Result<(), TransferError>)
    ensures
        match result {
            Ok(_) => !cancelled && now.nanos - progressed.nanos < NO_PROGRESS_TIMEOUT && now.nanos
                - started.nanos < ABSOLUTE_TIMEOUT,
            Err(TransferError::Cancelled) => cancelled,
            Err(TransferError::Timeout) => !cancelled && (now.nanos - progressed.nanos
                >= NO_PROGRESS_TIMEOUT || now.nanos - started.nanos >= ABSOLUTE_TIMEOUT),
            Err(_) => false,
        },
{
    if cancelled {
        return Err(TransferError::Cancelled);
    }
    if now.saturating_duration_since(progressed).nanos >= NO_PROGRESS_TIMEOUT
        || now.saturating_duration_since(started).nanos >= ABSOLUTE_TIMEOUT {
        return Err(TransferError::Timeout);
    }
    Ok(())
}

/// Text that is being read from another client.
#[derive(Debug)]
pub struct ReadTransfer {
    bytes: Vec<u8>,
}

impl View for ReadTransfer {
    type V = Seq<u8>;

    closed spec fn view(&self) -> Seq<u8> {
        self.bytes@
    }
}

impl ReadTransfer {
    pub fn new() -> (result: ReadTransfer)
        ensures
            result@ == Seq::<u8>::empty(),
    {
        let result = ReadTransfer { bytes: Vec::new() };
        assert(result@ =~= Seq::empty());
        result
    }

    /// Takes a chunk. The transfer is refused once it is too large.
    pub fn take_chunk(&mut self, chunk: &[u8]) -> (result: Result<(), TransferError>)
        ensures
            final(self)@ == old(self)@ + chunk@,
            if old(self)@.len() + chunk@.len() > MAX_CLIPBOARD_BYTES {
                result is Err && result->Err_0 is TooLarge
            } else {
                result is Ok
            },
    {
        push_all(&mut self.bytes, chunk);
        if self.bytes.len() > MAX_CLIPBOARD_BYTES {
            return Err(TransferError::TooLarge);
        }
        Ok(())
    }

    /// The text that was read, once the other client has closed its end.
    pub fn finish(self) -> (result: Result<String, TransferError>)
        ensures
            match result {
                Ok(text) => encode_utf8(text@) == self@,
                Err(error) => error is InvalidUtf8 && !valid_utf8(self@),
            },
    {
        match utf8_str(self.bytes.as_slice()) {
            Some(text) => Ok(text.to_owned()),
            None => Err(TransferError::InvalidUtf8),
        }
    }
}

#[derive(Clone, Copy, Debug, PartialEq, Eq, Structural)]
pub enum PasteRisk {
    Multiline,
    ControlCharacters,
}

#[derive(Clone, Copy, Debug, PartialEq, Eq, Structural)]
pub struct PasteConfirmationOverlay {
    pub revision: u64,
    pub source: TransferTarget,
    pub bytes: usize,
    pub lines: usize,
    pub risk: PasteRisk,
}

#[derive(Clone, Copy, Debug, PartialEq, Eq, Structural)]
pub enum PasteConfirmationDecision {
    Accept,
    Reject,
    Consume,
}

/// What a key says to the question whether to paste.
pub open spec fn decision_of(key: LogicalKey) -> PasteConfirmationDecision {
    match key {
        LogicalKey::Enter => PasteConfirmationDecision::Accept,
        LogicalKey::Escape => PasteConfirmationDecision::Reject,
        LogicalKey::Character(c) => if c == 'y' || c == 'Y' {
            PasteConfirmationDecision::Accept
        } else if c == 'n' || c == 'N' {
            PasteConfirmationDecision::Reject
        } else {
            PasteConfirmationDecision::Consume
        },
        _ => PasteConfirmationDecision::Consume,
    }
}

/// Computes [`decision_of`].
pub fn confirmation_key(key: LogicalKey) -> (result: PasteConfirmationDecision)
    ensures
        result == decision_of(key),
{
    match key {
        LogicalKey::Enter => PasteConfirmationDecision::Accept,
        LogicalKey::Escape => PasteConfirmationDecision::Reject,
        LogicalKey::Character(c) => if c == 'y' || c == 'Y' {
            PasteConfirmationDecision::Accept
        } else if c == 'n' || c == 'N' {
            PasteConfirmationDecision::Reject
        } else {
            PasteConfirmationDecision::Consume
        },
        _ => PasteConfirmationDecision::Consume,
    }
}

/// What becomes of a paste.
#[derive(Clone, Debug, PartialEq, Eq)]
pub enum PastePolicy {
    Allowed(String),
    NeedsConfirmation { text: String, bytes: usize, lines: usize, risk: PasteRisk },
    Rejected,
}

/// What becomes of a paste, over its text.
pub enum PolicyModel {
    Allowed(Seq<char>),
    NeedsConfirmation { text: Seq<char>, bytes: usize, lines: usize, risk: PasteRisk },
    Rejected,
}

impl View for PastePolicy {
    type V = PolicyModel;

    open spec fn view(&self) -> PolicyModel {
        match *self {
            PastePolicy::Allowed(text) => PolicyModel::Allowed(text@),
            PastePolicy::NeedsConfirmation { text, bytes, lines, risk } =>
                PolicyModel::NeedsConfirmation { text: text@, bytes, lines, risk },
            PastePolicy::Rejected => PolicyModel::Rejected,
        }
    }
}

/// Line endings of two characters become one newline.
pub open spec fn unix_lines(text: Seq<char>) -> Seq<char>
    decreases text.len(),
{
    if text.len() == 0 {
        Seq::empty()
    } else if text.len() >= 2 && text[0] == '\r' && text[1] == '\n' {
        seq!['\n'] + unix_lines(text.skip(2))
    } else {
        seq![text[0]] + unix_lines(text.skip(1))
    }
}

/// How many newlines a text has.
pub open spec fn newlines(text: Seq<char>) -> nat
    decreases text.len(),
{
    if text.len() == 0 {
        0
    } else {
        newlines(text.drop_last()) + if text.last() == '\n' {
            1nat
        } else {
            0
        }
    }
}

/// How many lines a text has. One newline at its end does not begin another.
pub open spec fn line_count(text: Seq<char>) -> nat {
    if text.len() > 0 && text.last() == '\n' {
        newlines(text.drop_last()) + 1
    } else {
        newlines(text) + 1
    }
}

/// Whether a character can do harm in a paste: a control that is neither a tab nor a line end.
pub open spec fn is_risky(c: char) -> bool {
    is_control(c) && c != '\n' && c != '\r' && c != '\t'
}

/// What becomes of a paste: one that is too long or holds a NUL is refused, one that holds
/// controls or several lines may have to be confirmed.
pub open spec fn paste_policy(text: Seq<char>, confirm_multiline: bool) -> PolicyModel {
    let normalized = unix_lines(text);
    let bytes = encode_utf8(normalized).len();
    let lines = line_count(normalized);
    let controls = exists|i: int|
        0 <= i < normalized.len() && is_risky(#[trigger] normalized[i]);
    if encode_utf8(text).len() > MAX_CLIPBOARD_BYTES || text.contains('\0') {
        PolicyModel::Rejected
    } else if bytes > MAX_PASTE_BODY_BYTES {
        PolicyModel::Rejected
    } else if controls || (confirm_multiline && lines > 1) {
        PolicyModel::NeedsConfirmation {
            text: normalized,
            bytes: bytes as usize,
            lines: lines as usize,
            risk: if controls {
                PasteRisk::ControlCharacters
            } else {
                PasteRisk::Multiline
            },
        }
    } else {
        PolicyModel::Allowed(normalized)
    }
}

fn to_unix_lines(chars: &Vec<char>) -> (result: Vec<char>)
    ensures
        result@ == unix_lines(chars@),
{
    let mut out: Vec<char> = Vec::new();
    let mut i: usize = 0;
    assert(chars@.skip(0) =~= chars@);
    assert(out@ + unix_lines(chars@) =~= unix_lines(chars@));
    while i < chars.len()
        invariant
            i <= chars@.len(),
            out@ + unix_lines(chars@.skip(i as int)) == unix_lines(chars@),
        decreases chars@.len() - i,
    {
        let ghost here = chars@.skip(i as int);
        let ghost before = out@;
        if chars[i] == '\r' && chars.len() - i >= 2 && chars[i + 1] == '\n' {
            out.push('\n');
            proof {
                assert(here.skip(2) =~= chars@.skip(i + 2));
                let rest = unix_lines(here.skip(2));
                assert(before + (seq!['\n'] + rest) =~= out@ + rest);
            }
            i += 2;
        } else {
            out.push(chars[i]);
            proof {
                assert(here.skip(1) =~= chars@.skip(i + 1));
                let rest = unix_lines(here.skip(1));
                assert(before + (seq![here[0]] + rest) =~= out@ + rest);
            }
            i += 1;
        }
    }
    assert(out@ + unix_lines(chars@.skip(i as int)) =~= out@);
    out
}

fn count_newlines(chars: &Vec<char>, end: usize) -> (result: usize)
    requires
        end <= chars@.len(),
    ensures
        result == newlines(chars@.take(end as int)),
        result <= end,
{
    let mut count: usize = 0;
    let mut i: usize = 0;
    assert(chars@.take(0) =~= Seq::empty());
    while i < end
        invariant
            i <= end <= chars@.len(),
            count == newlines(chars@.take(i as int)),
            count <= i,
        decreases end - i,
    {
        assert(chars@.take(i + 1).drop_last() =~= chars@.take(i as int));
        if chars[i] == '\n' {
            count += 1;
        }
        i += 1;
    }
    count
}

fn any_risky(chars: &Vec<char>) -> (result: bool)
    ensures
        result == exists|i: int| 0 <= i < chars@.len() && is_risky(#[trigger] chars@[i]),
{
    let mut i: usize = 0;
    while i < chars.len()
        invariant
            i <= chars@.len(),
            forall|k: int| 0 <= k < i ==> !is_risky(#[trigger] chars@[k]),
        decreases chars@.len() - i,
    {
        let c = chars[i];
        if is_control_char(c) && c != '\n' && c != '\r' && c != '\t' {
            assert(is_risky(chars@[i as int]));
            return true;
        }
        i += 1;
    }
    false
}

fn has_nul(chars: &Vec<char>) -> (result: bool)
    ensures
        result == chars@.contains('\0'),
{
    let mut i: usize = 0;
    while i < chars.len()
        invariant
            i <= chars@.len(),
            forall|k: int| 0 <= k < i ==> chars@[k] != '\0',
        decreases chars@.len() - i,
    {
        if chars[i] == '\0' {
            return true;
        }
        i += 1;
    }
    false
}

/// Decides what becomes of a paste.
pub fn evaluate_paste(text: &str, confirm_multiline: bool) -> (result: PastePolicy)
    ensures
        result@ == paste_policy(text@, confirm_multiline),
{
    if text.as_bytes().len() > MAX_CLIPBOARD_BYTES {
        return PastePolicy::Rejected;
    }
    let chars = chars_of(text);
    if has_nul(&chars) {
        return PastePolicy::Rejected;
    }
    let normalized = to_unix_lines(&chars);
    let shown = string_of(&normalized);
    let bytes: usize = shown.as_str().as_bytes().len();
    if bytes > MAX_PASTE_BODY_BYTES {
        return PastePolicy::Rejected;
    }
    let count: usize = normalized.len();
    let end: usize = if count > 0 && normalized[count - 1] == '\n' {
        count - 1
    } else {
        count
    };
    proof {
        assert(normalized@.take(count as int) =~= normalized@);
        if count > 0 {
            assert(normalized@.take(count - 1) =~= normalized@.drop_last());
        }
    }
    let found: usize = count_newlines(&normalized, end);
    proof {
        lengths_fit(normalized@);
    }
    let lines: usize = found + 1;
    let controls = any_risky(&normalized);
    if controls || (confirm_multiline && lines > 1) {
        let risk = if controls {
            PasteRisk::ControlCharacters
        } else {
            PasteRisk::Multiline
        };
        PastePolicy::NeedsConfirmation { text: shown, bytes, lines, risk }
    } else {
        PastePolicy::Allowed(shown)
    }
}

/// A text has no more characters than bytes.
proof fn lengths_fit(text: Seq<char>)
    ensures
        text.len() <= encode_utf8(text).len(),
    decreases text.len(),
{
    if text.len() > 0 {
        lengths_fit(text.drop_first());
    }
}

/// One line ending at the end of a text does not make it a text of several lines.
pub proof fn one_line_ending_is_one_line(text: Seq<char>)
    requires
        newlines(text) == 0,
    ensures
        line_count(text) == 1,
        line_count(text.push('\n')) == 1,
{
    assert(text.push('\n').drop_last() =~= text);
    if text.len() > 0 && text.last() == '\n' {
        assert(false);
    }
}

/// A paste that is let through without a question holds no harmful control, is one line if
/// several are to be confirmed, and fits a transaction together with its brackets.
pub proof fn allowed_pastes_are_harmless(text: Seq<char>, confirm_multiline: bool)
    requires
        paste_policy(text, confirm_multiline) is Allowed,
    ensures
        ({
            let allowed = paste_policy(text, confirm_multiline)->Allowed_0;
            &&& allowed == unix_lines(text)
            &&& forall|i: int| 0 <= i < allowed.len() ==> !is_risky(#[trigger] allowed[i])
            &&& confirm_multiline ==> line_count(allowed) == 1
            &&& encode_utf8(allowed).len() <= MAX_PASTE_BODY_BYTES
        }),
{
}

/// What one round has taken of the results that wait.
#[derive(Debug)]
pub struct ResultRound<T> {
    pub taken: Vec<T>,
    pub more: bool,
}

impl<T> ResultRound<T> {
    /// Takes what the channel gave. Tells whether it may be asked once more in this round.
    pub fn take(&mut self, budget: usize, received: Received<T>) -> (again: bool)
        requires
            old(self).taken@.len() < budget,
        ensures
            final(self).more == old(self).more,
            match received {
                Received::Event(event) => {
                    &&& final(self).taken@ == old(self).taken@.push(event)
                    &&& again == (old(self).taken@.len() + 1 < budget)
                },
                _ => final(self).taken@ == old(self).taken@ && !again,
            },
    {
        match received {
            Received::Event(event) => {
                self.taken.push(event);
                self.taken.len() < budget
            },
            Received::Empty => false,
            Received::Disconnected => false,
        }
    }
}

/// Takes at most so many of the results that wait, and tells whether more are left.
pub fn drain_round<T>(results: &crossbeam_channel::Receiver<T>, budget: usize) -> (round:
    ResultRound<T>)
    ensures
        round.taken@.len() <= budget,
{
    let mut round = ResultRound { taken: Vec::new(), more: false };
    let mut again = budget > 0;
    while again
        invariant
            again ==> round.taken@.len() < budget,
            round.taken@.len() <= budget,
        decreases
            budget - round.taken@.len(),
            if again {
                1int
            } else {
                0
            },
    {
        again = round.take(budget, try_receive(results));
    }
    round.more = !nothing_waits(results);
    round
}

} // verus!
