//! What holds of pastes.
use vstd::prelude::*;
use vstd::utf8::encode_utf8;
use crate::keys::LogicalKey;
use super::{
    decision_of, line_count, newlines, paste_policy, unix_lines, PasteRisk, PolicyModel,
};

verus! {

/// Whether a text has no line ending of two characters.
pub open spec fn has_no_pair(text: Seq<char>) -> bool {
    forall|i: int|
        0 <= i && i + 1 < text.len() && #[trigger] text[i] == '\r' ==> text[i + 1] != '\n'
}

/// A text without line endings of two characters is pasted as it is.
pub proof fn other_texts_stay_as_they_are(text: Seq<char>)
    requires
        has_no_pair(text),
    ensures
        unix_lines(text) == text,
    decreases text.len(),
{
    if text.len() > 0 {
        let rest = text.skip(1);
        assert forall|i: int|
            0 <= i && i + 1 < rest.len() && #[trigger] rest[i] == '\r' implies rest[i + 1] != '\n' by {
            assert(text[i + 1] == '\r');
        }
        other_texts_stay_as_they_are(rest);
        assert(!(text.len() >= 2 && text[0] == '\r' && text[1] == '\n'));
        assert(seq![text[0]] + rest =~= text);
    }
}

/// A line ending of two characters becomes one newline, wherever it stands: what is before it and
/// what is after it are pasted as they would be alone.
pub proof fn a_pair_becomes_a_newline(before: Seq<char>, after: Seq<char>)
    requires
        has_no_pair(before),
        before.len() > 0 ==> before.last() != '\r',
    ensures
        unix_lines(before + seq!['\r', '\n'] + after) == before + seq!['\n'] + unix_lines(after),
    decreases before.len(),
{
    let text = before + seq!['\r', '\n'] + after;
    if before.len() == 0 {
        assert(text.skip(2) =~= after);
        assert(before + seq!['\n'] + unix_lines(after) =~= seq!['\n'] + unix_lines(after));
    } else {
        let rest = before.skip(1);
        assert forall|i: int|
            0 <= i && i + 1 < rest.len() && #[trigger] rest[i] == '\r' implies rest[i + 1] != '\n' by {
            assert(before[i + 1] == '\r');
        }
        a_pair_becomes_a_newline(rest, after);
        assert(text.skip(1) =~= rest + seq!['\r', '\n'] + after);
        assert(text[0] == before[0]);
        if before.len() > 1 {
            assert(text[1] == before[1]);
        }
        assert(!(text[0] == '\r' && text[1] == '\n'));
        assert(seq![text[0]] + (rest + seq!['\n'] + unix_lines(after)) =~= before + seq!['\n']
            + unix_lines(after));
    }
}

/// Lines are counted as they are read: a text without newlines is one line, and a newline
/// followed by more text begins another line.
pub proof fn lines_are_counted_as_they_are_read(text: Seq<char>, line: Seq<char>)
    requires
        line.len() > 0,
        !line.contains('\n'),
    ensures
        line_count(line) == 1,
        line_count(line.push('\n')) == 1,
        line_count(text + seq!['\n'] + line) == newlines(text) + 2,
        !text.contains('\n') ==> line_count(text + seq!['\n'] + line) == 2,
        text.len() > 0 && text.last() != '\n' ==> line_count(text + seq!['\n'] + line) == line_count(
            text,
        ) + 1,
{
    assert(line.last() != '\n') by {
        assert(line.contains(line.last()));
    }
    no_newlines(line);
    assert(line.push('\n').drop_last() =~= line);
    newlines_add_up(text + seq!['\n'], line);
    newlines_add_up(text, seq!['\n']);
    assert(seq!['\n'].drop_last() =~= Seq::<char>::empty());
    assert(newlines(seq!['\n']) == newlines(seq!['\n'].drop_last()) + 1);
    assert((text + seq!['\n'] + line).last() == line.last());
    if !text.contains('\n') {
        no_newlines(text);
    }
}

proof fn no_newlines(text: Seq<char>)
    requires
        !text.contains('\n'),
    ensures
        newlines(text) == 0,
    decreases text.len(),
{
    if text.len() > 0 {
        assert(text.contains(text.last()));
        assert forall|i: int| 0 <= i < text.len() - 1 implies text.drop_last()[i] != '\n' by {
            assert(text.contains(text[i]));
        }
        no_newlines(text.drop_last());
    }
}

proof fn newlines_add_up(a: Seq<char>, b: Seq<char>)
    ensures
        newlines(a + b) == newlines(a) + newlines(b),
    decreases b.len(),
{
    if b.len() == 0 {
        assert(a + b =~= a);
    } else {
        newlines_add_up(a, b.drop_last());
        assert((a + b).drop_last() =~= a + b.drop_last());
    }
}

/// Whether a character can be pasted without a question: it is no control but a tab.
pub open spec fn is_plain(c: char) -> bool {
    c == '\t' || 0x20 <= c as u32 <= 0x7e || c as u32 >= 0xa0
}

/// A line of plain characters is pasted as it is, without a question.
pub proof fn a_plain_line_is_pasted(line: Seq<char>, confirm_multiline: bool)
    requires
        forall|i: int| 0 <= i < line.len() ==> is_plain(#[trigger] line[i]),
        encode_utf8(line).len() <= 1024 * 1024 - 12,
    ensures
        paste_policy(line, confirm_multiline) == PolicyModel::Allowed(line),
{
    assert(has_no_pair(line));
    other_texts_stay_as_they_are(line);
    assert(!line.contains('\n'));
    no_newlines(line);
    assert(!line.contains('\0'));
    assert(forall|i: int| 0 <= i < line.len() ==> !super::is_risky(#[trigger] line[i]));
}

/// Several lines of plain characters are pasted without a question only where they need not be
/// confirmed. The question tells how many there are.
pub proof fn several_lines_are_asked_about(first: Seq<char>, second: Seq<char>)
    requires
        second.len() > 0,
        forall|i: int| 0 <= i < first.len() ==> is_plain(#[trigger] first[i]),
        forall|i: int| 0 <= i < second.len() ==> is_plain(#[trigger] second[i]),
        encode_utf8(first + seq!['\n'] + second).len() <= 1024 * 1024 - 12,
    ensures
        ({
            let text = first + seq!['\n'] + second;
            &&& paste_policy(text, false) == PolicyModel::Allowed(text)
            &&& paste_policy(text, true) == (PolicyModel::NeedsConfirmation {
                text,
                bytes: encode_utf8(text).len() as usize,
                lines: 2,
                risk: PasteRisk::Multiline,
            })
        }),
{
    let text = first + seq!['\n'] + second;
    assert forall|i: int| 0 <= i < text.len() implies (#[trigger] text[i] == '\n' || is_plain(
        text[i],
    )) by {
        if i < first.len() {
            assert(text[i] == first[i]);
        } else if i > first.len() {
            assert(text[i] == second[i - first.len() - 1]);
        }
    }
    assert(has_no_pair(text));
    other_texts_stay_as_they_are(text);
    assert(!text.contains('\0'));
    assert(forall|i: int| 0 <= i < text.len() ==> !super::is_risky(#[trigger] text[i]));
    assert(!second.contains('\n'));
    assert(!first.contains('\n'));
    lines_are_counted_as_they_are_read(first, second);
}

/// A text that holds an escape, or another control that is neither a tab nor a line ending, is
/// never pasted without a question, and one that holds a NUL never at all.
pub proof fn controls_are_asked_about(text: Seq<char>, confirm_multiline: bool, i: int)
    requires
        0 <= i < text.len(),
        has_no_pair(text),
    ensures
        text[i] == '\0' ==> paste_policy(text, confirm_multiline) is Rejected,
        text[i] == '\x1b' || text[i] == '\x7f' || ('\x01' <= text[i] <= '\x08') || ('\u{80}'
            <= text[i] <= '\u{9f}') ==> {
            let policy = paste_policy(text, confirm_multiline);
            ||| policy is Rejected
            ||| policy is NeedsConfirmation && policy->risk is ControlCharacters && policy->text
                == text
        },
{
    other_texts_stay_as_they_are(text);
    if text[i] == '\0' {
        assert(text.contains('\0'));
    }
}

/// A text is pasted only if it fits into 1 MiB together with the brackets around it.
pub proof fn what_is_too_long_is_refused(text: Seq<char>, confirm_multiline: bool)
    requires
        has_no_pair(text),
        encode_utf8(text).len() > 1024 * 1024 - 12,
    ensures
        paste_policy(text, confirm_multiline) is Rejected,
{
    other_texts_stay_as_they_are(text);
}

/// The question is answered with yes by the Enter key and by `y`, with no by the Escape key and by
/// `n`, in either case. Any other key is swallowed.
pub proof fn questions_are_answered_by_name(key: LogicalKey)
    ensures
        decision_of(LogicalKey::Enter) is Accept,
        decision_of(LogicalKey::Escape) is Reject,
        key == LogicalKey::Character('y') || key == LogicalKey::Character('Y') ==> decision_of(
            key,
        ) is Accept,
        key == LogicalKey::Character('n') || key == LogicalKey::Character('N') ==> decision_of(
            key,
        ) is Reject,
        decision_of(key) is Accept ==> key is Enter || key == LogicalKey::Character('y') || key
            == LogicalKey::Character('Y'),
        decision_of(key) is Reject ==> key is Escape || key == LogicalKey::Character('n') || key
            == LogicalKey::Character('N'),
{
}

} // verus!
