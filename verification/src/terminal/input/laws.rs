//! What programs on the terminal rely on in the bytes of keys and pointer events.
use vstd::prelude::*;
use vstd::utf8::{encode_utf8, is_scalar};
use crate::keys::{KeyIdentity, KeySide, KeypadKey, LogicalKey, ModifierKind};
use crate::terminal::input::{
    alternate_keys, associated_text, codepoints, collapse_crlf, cursor_seq, event_model,
    event_number, focus_seq, key_of, key_seq, kitty_code, kitty_csi, kitty_modifier_code,
    legacy_parts, mouse_code, mouse_seq, newline_as_return, paste_body, paste_seq, repeated,
    scroll_seq, ButtonState, EncodedModel, IgnoreReason, InputError, KeyboardEventKind, Modifiers,
    MouseButton, TerminalKey, TerminalKeyboardEvent,
};
use crate::terminal::snapshot::TerminalModes;
use crate::text::{decimal, is_control};

verus! {

proof fn one_digit(n: nat)
    requires
        n < 10,
    ensures
        decimal(n) == seq![(48 + n) as u8],
{
}

proof fn two_digits(n: nat)
    requires
        10 <= n < 100,
    ensures
        decimal(n) == seq![(48 + n / 10) as u8, (48 + n % 10) as u8],
{
    reveal_with_fuel(decimal, 2);
    assert(decimal(n) =~= seq![(48 + n / 10) as u8, (48 + n % 10) as u8]);
}

/// With alt held, a character key sends one escape byte and then what it sends without alt, so
/// that the two are never the same. So do backspace, tab, enter and escape.
pub proof fn alt_puts_an_escape_first(
    key: TerminalKey,
    m: Modifiers,
    without: Modifiers,
    modes: TerminalModes,
)
    requires
        m.alt,
        without == (Modifiers { alt: false, ..m }),
        key is Char || key is Backspace || key is Tab || key is Enter || key is Escape,
    ensures
        ({
            let held = key_seq(key, m, modes);
            let plain = key_seq(key, without, modes);
            &&& held is Ok && plain is Ok
            &&& held->Ok_0.len() == plain->Ok_0.len() + 1
            &&& held->Ok_0[0] == 0x1b
            &&& held->Ok_0.skip(1) == plain->Ok_0
            &&& held->Ok_0 != plain->Ok_0
        }),
{
    let held = key_seq(key, m, modes)->Ok_0;
    let plain = key_seq(key, without, modes)->Ok_0;
    assert(held.skip(1) =~= plain);
}

/// Without control and alt, a character key sends the character in UTF-8. Shift and super make no
/// difference to any character key, nor do the modes.
pub proof fn characters_are_sent_as_they_are(
    ch: char,
    m: Modifiers,
    other: Modifiers,
    modes: TerminalModes,
    others: TerminalModes,
)
    requires
        m.control == other.control,
        m.alt == other.alt,
    ensures
        !m.control && !m.alt ==> key_seq(TerminalKey::Char(ch), m, modes) == Ok::<
            Seq<u8>,
            InputError,
        >(encode_utf8(seq![ch])),
        key_seq(TerminalKey::Char(ch), m, modes) == key_seq(TerminalKey::Char(ch), other, others),
{
}

/// Control turns a letter, whatever its case, into its place in the alphabet, and the signs that
/// stand around the capital letters in ASCII into the codes around those; a question mark becomes
/// DEL. Any other character is sent as without control.
pub proof fn control_makes_control_codes(ch: char, m: Modifiers, modes: TerminalModes)
    requires
        m.control,
        !m.alt,
    ensures
        ({
            let code = ch as u32;
            let sent = key_seq(TerminalKey::Char(ch), m, modes);
            &&& sent is Ok
            &&& 'a' <= ch <= 'z' ==> sent->Ok_0 == seq![(1 + (code - 'a' as u32)) as u8]
            &&& 'A' <= ch <= 'Z' ==> sent->Ok_0 == seq![(1 + (code - 'A' as u32)) as u8]
            &&& ch == '@' ==> sent->Ok_0 == seq![0u8]
            &&& ch == '[' ==> sent->Ok_0 == seq![0x1bu8]
            &&& ch == '\\' ==> sent->Ok_0 == seq![0x1cu8]
            &&& ch == ']' ==> sent->Ok_0 == seq![0x1du8]
            &&& ch == '^' ==> sent->Ok_0 == seq![0x1eu8]
            &&& ch == '_' ==> sent->Ok_0 == seq![0x1fu8]
            &&& ch == '?' ==> sent->Ok_0 == seq![0x7fu8]
            &&& ch > 'z' || ch == '`' || ch < '?' || ch == '\u{7f}' ==> sent->Ok_0 == encode_utf8(
                seq![ch],
            )
        }),
{
}

/// Backspace sends DEL, enter a carriage return, escape its own byte, and tab its own byte or,
/// with shift, `CSI Z`.
pub proof fn simple_keys_send_their_bytes(m: Modifiers, modes: TerminalModes)
    requires
        !m.alt,
    ensures
        key_seq(TerminalKey::Backspace, m, modes) == Ok::<Seq<u8>, InputError>(seq![0x7fu8]),
        key_seq(TerminalKey::Enter, m, modes) == Ok::<Seq<u8>, InputError>(seq![0x0du8]),
        key_seq(TerminalKey::Escape, m, modes) == Ok::<Seq<u8>, InputError>(seq![0x1bu8]),
        key_seq(TerminalKey::Tab, m, modes) == Ok::<Seq<u8>, InputError>(
            if m.shift {
                seq![0x1bu8, 0x5b, 0x5a]
            } else {
                seq![0x09u8]
            },
        ),
{
}

/// The cursor keys end in `A` for up, `B` for down, `C` for right and `D` for left, home in `H` and
/// end in `F`. Alone they are `CSI` or, in application mode, `SS3` and that letter; with shift, alt
/// or control they are `CSI 1 ;`, a digit from 2 to 8 and the letter, in either mode. The digit is
/// one more than the sum of 1 for shift, 2 for alt and 4 for control.
pub proof fn cursor_keys_are_those_of_xterm(key: TerminalKey, m: Modifiers, modes: TerminalModes)
    requires
        key is Up || key is Down || key is Right || key is Left || key is Home || key is End,
    ensures
        ({
            let sent = key_seq(key, m, modes);
            let bytes = sent->Ok_0;
            let digit = 0x31 + (if m.shift { 1int } else { 0 }) + (if m.alt { 2int } else { 0 }) + (
            if m.control { 4int } else { 0 });
            &&& sent is Ok
            &&& bytes.len() >= 3
            &&& bytes[0] == 0x1b
            &&& match key {
                TerminalKey::Up => bytes.last() == 0x41,
                TerminalKey::Down => bytes.last() == 0x42,
                TerminalKey::Right => bytes.last() == 0x43,
                TerminalKey::Left => bytes.last() == 0x44,
                TerminalKey::Home => bytes.last() == 0x48,
                _ => bytes.last() == 0x46,
            }
            &&& if m.shift || m.alt || m.control {
                &&& bytes.len() == 6
                &&& bytes.take(5) == seq![0x1bu8, 0x5b, 0x31, 0x3b, digit as u8]
            } else {
                &&& bytes.len() == 3
                &&& bytes[1] == if modes.application_cursor {
                    0x4fu8
                } else {
                    0x5bu8
                }
            }
        }),
{
    let n = (1 + (if m.shift { 1int } else { 0 }) + (if m.alt { 2int } else { 0 }) + (
    if m.control { 4int } else { 0 })) as nat;
    one_digit(n);
    let bytes = key_seq(key, m, modes)->Ok_0;
    if m.shift || m.alt || m.control {
        assert(bytes.take(5) =~= seq![0x1bu8, 0x5b, 0x31, 0x3b, (0x30 + n) as u8]);
    }
}

/// Insert is `CSI 2 ~`, delete `CSI 3 ~`, page up `CSI 5 ~` and page down `CSI 6 ~`. With shift,
/// alt or control, a semicolon and a digit from 2 to 8 come before the tilde, as for the cursor
/// keys. The modes make no difference.
pub proof fn editing_keys_are_those_of_xterm(key: TerminalKey, m: Modifiers, modes: TerminalModes)
    requires
        key is Insert || key is Delete || key is PageUp || key is PageDown,
    ensures
        ({
            let number: u8 = match key {
                TerminalKey::Insert => 0x32,
                TerminalKey::Delete => 0x33,
                TerminalKey::PageUp => 0x35,
                _ => 0x36,
            };
            let digit = 0x31 + (if m.shift { 1int } else { 0 }) + (if m.alt { 2int } else { 0 }) + (
            if m.control { 4int } else { 0 });
            key_seq(key, m, modes) == Ok::<Seq<u8>, InputError>(
                if m.shift || m.alt || m.control {
                    seq![0x1bu8, 0x5b, number, 0x3b, digit as u8, 0x7e]
                } else {
                    seq![0x1bu8, 0x5b, number, 0x7e]
                },
            )
        }),
{
    let n = (1 + (if m.shift { 1int } else { 0 }) + (if m.alt { 2int } else { 0 }) + (
    if m.control { 4int } else { 0 })) as nat;
    one_digit(n);
    one_digit(2);
    one_digit(3);
    one_digit(5);
    one_digit(6);
    let bytes = key_seq(key, m, modes)->Ok_0;
    if m.shift || m.alt || m.control {
        assert(bytes =~= seq![0x1bu8, 0x5b, bytes[2], 0x3b, (0x30 + n) as u8, 0x7e]);
    } else {
        assert(bytes =~= seq![0x1bu8, 0x5b, bytes[2], 0x7e]);
    }
}

/// F1 to F4 are `SS3` and `P` to `S`, F5 to F12 are `CSI` and the numbers 15, 17 to 21, 23 and 24
/// with a tilde; there are no others. Modifiers are told as for the cursor and the editing keys.
pub proof fn function_keys_are_those_of_xterm(number: u8, m: Modifiers, modes: TerminalModes)
    ensures
        ({
            let sent = key_seq(TerminalKey::Function(number), m, modes);
            let digit = (0x31 + (if m.shift { 1int } else { 0 }) + (if m.alt { 2int } else { 0 })
                + (if m.control { 4int } else { 0 })) as u8;
            let held = m.shift || m.alt || m.control;
            let code: (u8, u8) = if number == 5 {
                (0x31, 0x35)
            } else if number == 6 {
                (0x31, 0x37)
            } else if number == 7 {
                (0x31, 0x38)
            } else if number == 8 {
                (0x31, 0x39)
            } else if number == 9 {
                (0x32, 0x30)
            } else if number == 10 {
                (0x32, 0x31)
            } else if number == 11 {
                (0x32, 0x33)
            } else {
                (0x32, 0x34)
            };
            &&& sent is Ok <==> 1 <= number <= 12
            &&& sent is Err ==> sent->Err_0 == InputError::UnsupportedFunction(number)
            &&& 1 <= number <= 4 ==> sent->Ok_0 == if held {
                seq![0x1bu8, 0x5b, 0x31, 0x3b, digit, (0x50 + (number - 1)) as u8]
            } else {
                seq![0x1bu8, 0x4f, (0x50 + (number - 1)) as u8]
            }
            &&& 5 <= number <= 12 ==> sent->Ok_0 == if held {
                seq![0x1bu8, 0x5b, code.0, code.1, 0x3b, digit, 0x7e]
            } else {
                seq![0x1bu8, 0x5b, code.0, code.1, 0x7e]
            }
        }),
{
    let n = (1 + (if m.shift { 1int } else { 0 }) + (if m.alt { 2int } else { 0 }) + (
    if m.control { 4int } else { 0 })) as nat;
    let digit = (0x30 + n) as u8;
    one_digit(n);
    two_digits(15);
    two_digits(17);
    two_digits(18);
    two_digits(19);
    two_digits(20);
    two_digits(21);
    two_digits(23);
    two_digits(24);
    let sent = key_seq(TerminalKey::Function(number), m, modes);
    let bytes = sent->Ok_0;
    if 1 <= number <= 4 && (m.shift || m.alt || m.control) {
        assert(bytes =~= seq![0x1bu8, 0x5b, 0x31, 0x3b, digit, (0x50 + (number - 1)) as u8]);
    } else if 5 <= number <= 12 {
        if m.shift || m.alt || m.control {
            assert(bytes =~= seq![0x1bu8, 0x5b, bytes[2], bytes[3], 0x3b, digit, 0x7e]);
        } else {
            assert(bytes =~= seq![0x1bu8, 0x5b, bytes[2], bytes[3], 0x7e]);
        }
    }
}

/// Without a keyboard protocol, a key that is pressed or held sends the bytes of the key of its
/// name. A character without control and alt is left to the text that the key types, and so is
/// every key that has no name here but a text; one without a text sends nothing.
pub proof fn events_send_the_key_of_their_name(event: &TerminalKeyboardEvent, modes: TerminalModes)
    requires
        modes.keyboard.kitty.bits == 0,
        modes.keyboard.modify_other_keys is Disabled,
        !(event.kind is Release),
        event.identity.location is Standard,
    ensures
        ({
            let sent = event_model(event, modes);
            let m = event.modifiers;
            let key = match event.identity.logical {
                LogicalKey::Enter => Some(TerminalKey::Enter),
                LogicalKey::Tab => Some(TerminalKey::Tab),
                LogicalKey::Backspace => Some(TerminalKey::Backspace),
                LogicalKey::Escape => Some(TerminalKey::Escape),
                LogicalKey::Insert => Some(TerminalKey::Insert),
                LogicalKey::Delete => Some(TerminalKey::Delete),
                LogicalKey::Home => Some(TerminalKey::Home),
                LogicalKey::End => Some(TerminalKey::End),
                LogicalKey::PageUp => Some(TerminalKey::PageUp),
                LogicalKey::PageDown => Some(TerminalKey::PageDown),
                LogicalKey::ArrowUp => Some(TerminalKey::Up),
                LogicalKey::ArrowDown => Some(TerminalKey::Down),
                LogicalKey::ArrowLeft => Some(TerminalKey::Left),
                LogicalKey::ArrowRight => Some(TerminalKey::Right),
                LogicalKey::Function(n) => if n < 13 {
                    Some(TerminalKey::Function(n))
                } else {
                    None
                },
                LogicalKey::Character(ch) => if m.control || m.alt {
                    Some(TerminalKey::Char(ch))
                } else {
                    None
                },
                _ => None,
            };
            &&& key is Some ==> match key_seq(key->0, m, modes) {
                Ok(bytes) => sent == Ok::<EncodedModel, InputError>(EncodedModel::Bytes(bytes)),
                Err(error) => sent == Err::<EncodedModel, InputError>(error),
            }
            &&& event.identity.logical is Character && !m.control && !m.alt ==> sent == Ok::<
                EncodedModel,
                InputError,
            >(EncodedModel::TextFallback)
            &&& event.identity.logical is Unidentified || event.identity.logical is Menu
                || event.identity.logical is CapsLock || event.identity.logical is NumLock
                || event.identity.logical is Modifier ==> sent == Ok::<EncodedModel, InputError>(
                if event.text is Some {
                    EncodedModel::TextFallback
                } else {
                    EncodedModel::Ignored(IgnoreReason::UnknownKey)
                },
            )
        }),
{
}

/// With all of `modifyOtherKeys`, a character with shift, alt or control is `CSI 27 ;`, the digit
/// of its modifiers, a semicolon, its code and a tilde. At the first level this holds with alt, but
/// not for shift alone nor for control with a letter.
pub proof fn modified_characters_are_told_by_their_codes(
    event: &TerminalKeyboardEvent,
    modes: TerminalModes,
    ch: char,
)
    requires
        modes.keyboard.kitty.bits == 0,
        !(event.kind is Release),
        event.identity.logical == LogicalKey::Character(ch),
    ensures
        ({
            let sent = event_model(event, modes);
            let m = event.modifiers;
            let digit = 0x31 + (if m.shift { 1int } else { 0 }) + (if m.alt { 2int } else { 0 }) + (
            if m.control { 4int } else { 0 });
            let told = seq![0x1bu8, 0x5b, 0x32, 0x37, 0x3b, digit as u8, 0x3b] + decimal(
                ch as u32 as nat,
            ) + seq![0x7eu8];
            let level = modes.keyboard.modify_other_keys;
            &&& level is All && (m.shift || m.alt || m.control) ==> sent == Ok::<
                EncodedModel,
                InputError,
            >(EncodedModel::Bytes(told))
            &&& level is ExceptWellDefined && m.alt ==> sent == Ok::<EncodedModel, InputError>(
                EncodedModel::Bytes(told),
            )
            &&& level is ExceptWellDefined && m.shift && !m.alt && !m.control
                && event.identity.location is Standard ==> sent == Ok::<EncodedModel, InputError>(
                EncodedModel::TextFallback,
            )
            &&& level is ExceptWellDefined && m.control && !m.alt && 'a' <= ch <= 'z'
                && event.identity.location is Standard ==> sent == Ok::<EncodedModel, InputError>(
                EncodedModel::Bytes(seq![(1 + (ch as u32 - 'a' as u32)) as u8]),
            )
        }),
{
    let m = event.modifiers;
    let n = (1 + (if m.shift { 1int } else { 0 }) + (if m.alt { 2int } else { 0 }) + (
    if m.control { 4int } else { 0 })) as nat;
    one_digit(n);
    let digit = (0x30 + n) as u8;
    let code = decimal(ch as u32 as nat);
    assert(seq![27u8, 91, 50, 55, 59] + decimal(n) + seq![59u8] + code + seq![126u8] =~= seq![
        0x1bu8,
        0x5b,
        0x32,
        0x37,
        0x3b,
        digit,
        0x3b,
    ] + code + seq![0x7eu8]);
    if m.control && !m.alt && 'a' <= ch <= 'z' {
        control_makes_control_codes(ch, m, modes);
    }
}

/// In application mode a digit of the keypad is `SS3` and `p` to `y`, and its signs are `SS3` and
/// the letters of a VT100; with modifiers `CSI 1 ;`, their digit and the same letter. Its cursor
/// and editing keys are those of the keyboard. Without application mode a key that types a text is
/// left to it.
pub proof fn the_keypad_is_that_of_a_vt100(
    event: &TerminalKeyboardEvent,
    modes: TerminalModes,
    key: KeypadKey,
)
    requires
        modes.keyboard.kitty.bits == 0,
        modes.keyboard.modify_other_keys is Disabled,
        !(event.kind is Release),
        event.identity.location is Numpad,
        event.identity.keypad == Some(key),
        !(event.identity.logical is Function),
    ensures
        ({
            let sent = event_model(event, modes);
            let m = event.modifiers;
            let digit = 0x31 + (if m.shift { 1int } else { 0 }) + (if m.alt { 2int } else { 0 }) + (
            if m.control { 4int } else { 0 });
            let letter: u8 = match key {
                KeypadKey::Digit(d) => (0x70 + d) as u8,
                KeypadKey::Decimal => 0x6e,
                KeypadKey::Divide => 0x6f,
                KeypadKey::Multiply => 0x6a,
                KeypadKey::Subtract => 0x6d,
                KeypadKey::Add => 0x6b,
                KeypadKey::Separator => 0x6c,
                KeypadKey::Equal => 0x58,
                _ => 0x4d,
            };
            let named = match key {
                KeypadKey::Home => Some(TerminalKey::Home),
                KeypadKey::End => Some(TerminalKey::End),
                KeypadKey::PageUp => Some(TerminalKey::PageUp),
                KeypadKey::PageDown => Some(TerminalKey::PageDown),
                KeypadKey::Insert => Some(TerminalKey::Insert),
                KeypadKey::Delete => Some(TerminalKey::Delete),
                KeypadKey::ArrowUp => Some(TerminalKey::Up),
                KeypadKey::ArrowDown => Some(TerminalKey::Down),
                KeypadKey::ArrowLeft => Some(TerminalKey::Left),
                KeypadKey::ArrowRight => Some(TerminalKey::Right),
                _ => None,
            };
            let typed = match key {
                KeypadKey::Digit(d) => d <= 9,
                _ => named is None,
            };
            &&& modes.application_keypad && typed ==> sent == Ok::<EncodedModel, InputError>(
                EncodedModel::Bytes(
                    if m.shift || m.alt || m.control {
                        seq![0x1bu8, 0x5b, 0x31, 0x3b, digit as u8, letter]
                    } else {
                        seq![0x1bu8, 0x4f, letter]
                    },
                ),
            )
            &&& modes.application_keypad && named is Some ==> sent == Ok::<
                EncodedModel,
                InputError,
            >(EncodedModel::Bytes(key_seq(named->0, m, modes)->Ok_0))
            &&& !modes.application_keypad && event.text is Some ==> sent == Ok::<
                EncodedModel,
                InputError,
            >(EncodedModel::TextFallback)
            &&& !modes.application_keypad && event.text is None && named is Some
                && event.identity.logical is Unidentified ==> sent == Ok::<
                EncodedModel,
                InputError,
            >(EncodedModel::Bytes(key_seq(named->0, m, modes)->Ok_0))
        }),
{
    let m = event.modifiers;
    let n = (1 + (if m.shift { 1int } else { 0 }) + (if m.alt { 2int } else { 0 }) + (
    if m.control { 4int } else { 0 })) as nat;
    one_digit(n);
    let digit = (0x30 + n) as u8;
    assert forall|last: u8|
        seq![27u8, 91, 49, 59] + decimal(n) + seq![last] == #[trigger] seq![
            0x1bu8,
            0x5b,
            0x31,
            0x3b,
            digit,
            last,
        ] by {
        assert(seq![27u8, 91, 49, 59] + decimal(n) + seq![last] =~= seq![
            0x1bu8,
            0x5b,
            0x31,
            0x3b,
            digit,
            last,
        ]);
    }
}

proof fn short_numbers(n: nat)
    requires
        n < 10_000_000_000,
    ensures
        decimal(n).len() <= 10,
{
    reveal_with_fuel(decimal, 11);
}

/// The number by which the kitty protocol tells a key.
pub open spec fn kitty_number(identity: KeyIdentity) -> Option<nat> {
    match (identity.keypad, identity.logical) {
        (Some(KeypadKey::Digit(d)), _) => if d < 10 {
            Some((57_399 + d) as nat)
        } else {
            None
        },
        (Some(KeypadKey::Decimal), _) => Some(57_409),
        (Some(KeypadKey::Divide), _) => Some(57_410),
        (Some(KeypadKey::Multiply), _) => Some(57_411),
        (Some(KeypadKey::Subtract), _) => Some(57_412),
        (Some(KeypadKey::Add), _) => Some(57_413),
        (Some(KeypadKey::Enter), _) => Some(57_414),
        (Some(KeypadKey::Equal), _) => Some(57_415),
        (Some(KeypadKey::Separator), _) => Some(57_416),
        (Some(KeypadKey::ArrowLeft), _) => Some(57_417),
        (Some(KeypadKey::ArrowRight), _) => Some(57_418),
        (Some(KeypadKey::ArrowUp), _) => Some(57_419),
        (Some(KeypadKey::ArrowDown), _) => Some(57_420),
        (Some(KeypadKey::PageUp), _) => Some(57_421),
        (Some(KeypadKey::PageDown), _) => Some(57_422),
        (Some(KeypadKey::Home), _) => Some(57_423),
        (Some(KeypadKey::End), _) => Some(57_424),
        (Some(KeypadKey::Insert), _) => Some(57_425),
        (Some(KeypadKey::Delete), _) => Some(57_426),
        (None, LogicalKey::Character(ch)) => match identity.base_codepoint {
            Some(base) => Some(base as u32 as nat),
            None => Some(ch as u32 as nat),
        },
        (None, LogicalKey::Tab) => Some(9),
        (None, LogicalKey::Enter) => Some(13),
        (None, LogicalKey::Escape) => Some(27),
        (None, LogicalKey::Backspace) => Some(127),
        (None, LogicalKey::CapsLock) => Some(57_358),
        (None, LogicalKey::NumLock) => Some(57_360),
        (None, LogicalKey::Menu) => Some(57_363),
        (None, LogicalKey::Function(n)) => if 13 <= n <= 35 {
            Some((57_376 + (n - 13)) as nat)
        } else {
            None
        },
        (None, LogicalKey::Modifier { kind: ModifierKind::Shift, side: KeySide::Left }) => Some(
            57_441,
        ),
        (None, LogicalKey::Modifier { kind: ModifierKind::Control, side: KeySide::Left }) => Some(
            57_442,
        ),
        (None, LogicalKey::Modifier { kind: ModifierKind::Alt, side: KeySide::Left }) => Some(
            57_443,
        ),
        (None, LogicalKey::Modifier { kind: ModifierKind::Super, side: KeySide::Left }) => Some(
            57_444,
        ),
        (None, LogicalKey::Modifier { kind: ModifierKind::Shift, side: KeySide::Right }) => Some(
            57_447,
        ),
        (None, LogicalKey::Modifier { kind: ModifierKind::Control, side: KeySide::Right }) => Some(
            57_448,
        ),
        (None, LogicalKey::Modifier { kind: ModifierKind::Alt, side: KeySide::Right }) => Some(
            57_449,
        ),
        (None, LogicalKey::Modifier { kind: ModifierKind::Super, side: KeySide::Right }) => Some(
            57_450,
        ),
        _ => None,
    }
}

/// Where a program asked for all keys in the kitty protocol, a key is `CSI`, its number, a
/// semicolon, one more than the sum of its modifiers and locks, and `u`. The sum counts 1 for shift,
/// 2 for alt, 4 for control, 8 for super, 64 for caps lock and 128 for num lock. With reports of
/// events, a colon and 1, 2 or 3 tell a press, a repeat and a release; without them a release is
/// not told.
#[verifier::rlimit(60)]
pub proof fn kitty_tells_keys_by_their_numbers(event: &TerminalKeyboardEvent, modes: TerminalModes)
    requires
        modes.keyboard.kitty.bits & 8 == 8,
        modes.keyboard.kitty.bits & 4 != 4,
        modes.keyboard.kitty.bits & 16 != 16,
        kitty_number(event.identity) is Some,
        event.identity.location is Numpad || event.identity.keypad is None,
    ensures
        ({
            let sent = event_model(event, modes);
            let m = event.modifiers;
            let held = 1 + (if m.shift { 1int } else { 0 }) + (if m.alt { 2int } else { 0 }) + (
            if m.control { 4int } else { 0 }) + (if m.super_key { 8int } else { 0 }) + (
            if event.caps_lock { 64int } else { 0 }) + (if event.num_lock { 128int } else { 0 });
            let reports = modes.keyboard.kitty.bits & 2 == 2;
            let kind = match event.kind {
                KeyboardEventKind::Press => seq![0x3au8, 0x31],
                KeyboardEventKind::Repeat => seq![0x3au8, 0x32],
                KeyboardEventKind::Release => seq![0x3au8, 0x33],
            };
            &&& reports || !(event.kind is Release) ==> sent == Ok::<EncodedModel, InputError>(
                EncodedModel::Bytes(
                    seq![0x1bu8, 0x5b] + decimal(kitty_number(event.identity)->0) + seq![0x3bu8]
                        + decimal(held as nat) + (if reports {
                        kind
                    } else {
                        Seq::empty()
                    }) + seq![0x75u8],
                ),
            )
            &&& !reports && event.kind is Release ==> sent == Ok::<EncodedModel, InputError>(
                EncodedModel::Ignored(IgnoreReason::ReleaseNotReported),
            )
        }),
{
    let bits = modes.keyboard.kitty.bits;
    assert(bits & 8 == 8 ==> bits != 0) by (bit_vector);
    let m = event.modifiers;
    let held = (1 + (if m.shift { 1int } else { 0 }) + (if m.alt { 2int } else { 0 }) + (
    if m.control { 4int } else { 0 }) + (if m.super_key { 8int } else { 0 }) + (
    if event.caps_lock { 64int } else { 0 }) + (if event.num_lock { 128int } else { 0 })) as nat;
    let code = kitty_number(event.identity)->0;
    let reports = bits & 2 == 2;
    one_digit(1);
    one_digit(2);
    one_digit(3);
    short_numbers(held);
    short_numbers(code);
    let kind = match event.kind {
        KeyboardEventKind::Press => seq![0x3au8, 0x31],
        KeyboardEventKind::Repeat => seq![0x3au8, 0x32],
        KeyboardEventKind::Release => seq![0x3au8, 0x33],
    };
    let told = if reports {
        kind
    } else {
        Seq::<u8>::empty()
    };
    let head = seq![27u8, 91] + decimal(code);
    assert(head + Seq::<u8>::empty() =~= head);
    let number = event_number(event.kind);
    assert(seq![58u8] + decimal(number) =~= kind);
    let body = head + seq![59u8] + decimal(held) + told;
    assert(body + Seq::<u8>::empty() =~= body);
    assert(kitty_modifier_code(event) == held);
    assert(kitty_code(event.identity) == Some(code as u32));
    assert(kitty_csi(
        code,
        event,
        modes.keyboard.kitty,
        Seq::empty(),
    ) == body + seq![117u8]);
}

/// With reports of events in the kitty protocol, a cursor, editing or function key keeps its last
/// byte and its number, and tells its modifiers and the kind of the event between them.
#[verifier::rlimit(60)]
pub proof fn kitty_tells_the_events_of_old_keys(
    event: &TerminalKeyboardEvent,
    modes: TerminalModes,
)
    requires
        modes.keyboard.kitty.bits & 2 == 2,
        event.identity.location is Standard,
        event.identity.logical is ArrowUp || event.identity.logical is ArrowDown
            || event.identity.logical is ArrowRight || event.identity.logical is ArrowLeft
            || event.identity.logical is Home || event.identity.logical is End
            || event.identity.logical is Insert || event.identity.logical is Delete
            || event.identity.logical is PageUp || event.identity.logical is PageDown,
    ensures
        ({
            let m = event.modifiers;
            let held = 1 + (if m.shift { 1int } else { 0 }) + (if m.alt { 2int } else { 0 }) + (
            if m.control { 4int } else { 0 }) + (if m.super_key { 8int } else { 0 }) + (
            if event.caps_lock { 64int } else { 0 }) + (if event.num_lock { 128int } else { 0 });
            let kind: u8 = match event.kind {
                KeyboardEventKind::Press => 0x31,
                KeyboardEventKind::Repeat => 0x32,
                KeyboardEventKind::Release => 0x33,
            };
            let (number, last): (u8, u8) = match event.identity.logical {
                LogicalKey::ArrowUp => (0x31, 0x41),
                LogicalKey::ArrowDown => (0x31, 0x42),
                LogicalKey::ArrowRight => (0x31, 0x43),
                LogicalKey::ArrowLeft => (0x31, 0x44),
                LogicalKey::Home => (0x31, 0x48),
                LogicalKey::End => (0x31, 0x46),
                LogicalKey::Insert => (0x32, 0x7e),
                LogicalKey::Delete => (0x33, 0x7e),
                LogicalKey::PageUp => (0x35, 0x7e),
                _ => (0x36, 0x7e),
            };
            event_model(event, modes) == Ok::<EncodedModel, InputError>(
                EncodedModel::Bytes(
                    seq![0x1bu8, 0x5b, number, 0x3b] + decimal(held as nat) + seq![
                        0x3au8,
                        kind,
                        last,
                    ],
                ),
            )
        }),
{
    let bits = modes.keyboard.kitty.bits;
    assert(bits & 2 == 2 ==> bits != 0) by (bit_vector);
    let m = event.modifiers;
    let held = (1 + (if m.shift { 1int } else { 0 }) + (if m.alt { 2int } else { 0 }) + (
    if m.control { 4int } else { 0 }) + (if m.super_key { 8int } else { 0 }) + (
    if event.caps_lock { 64int } else { 0 }) + (if event.num_lock { 128int } else { 0 })) as nat;
    let number = event_number(event.kind);
    assert(kitty_modifier_code(event) == held);
    let key = key_of(event.identity.logical)->0;
    let (code, last) = legacy_parts(key)->0;
    old_form(code, held, number, last);
}

proof fn old_form(code: nat, held: nat, number: nat, last: u8)
    requires
        code < 10,
        number < 10,
    ensures
        seq![27u8, 91] + decimal(code) + seq![59u8] + decimal(held) + seq![58u8] + decimal(number)
            + seq![last] == seq![0x1bu8, 0x5b, (0x30 + code) as u8, 0x3b] + decimal(held) + seq![
            0x3au8,
            (0x30 + number) as u8,
            last,
        ],
{
    assert(seq![27u8, 91] + decimal(code) + seq![59u8] + decimal(held) + seq![58u8] + decimal(number)
        + seq![last] =~= seq![0x1bu8, 0x5b, (0x30 + code) as u8, 0x3b] + decimal(held) + seq![
        0x3au8,
        (0x30 + number) as u8,
        last,
    ]);
}

/// A report in SGR encoding is `CSI <`, a number, the column and the line from one on, and `M`, or
/// `m` for a release. The number of the left, the middle and the right button is 0, 1 and 2, that of
/// the wheel 64 up and 65 down, and that of any release 3; alt adds 8, control 16 and motion 32.
pub proof fn pointer_reports_in_sgr(
    button: MouseButton,
    state: ButtonState,
    column: u16,
    line: u16,
    m: Modifiers,
    modes: TerminalModes,
)
    requires
        !(modes.mouse_protocol is Off),
        modes.mouse_encoding is Sgr,
        !m.shift,
    ensures
        ({
            let sent = mouse_seq(button, state, column, line, m, modes);
            let place = seq![0x3bu8] + decimal((column + 1) as nat) + seq![0x3bu8] + decimal(
                (line + 1) as nat,
            );
            let extra = (if m.alt { 8int } else { 0 }) + (if m.control { 16int } else { 0 });
            &&& sent is Ok && sent->Ok_0 is Some
            &&& state is Pressed && !m.alt && !m.control ==> {
                &&& button is Left ==> sent->Ok_0->0 == seq![0x1bu8, 0x5b, 0x3c, 0x30] + place
                    + seq![0x4du8]
                &&& button is Middle ==> sent->Ok_0->0 == seq![0x1bu8, 0x5b, 0x3c, 0x31] + place
                    + seq![0x4du8]
                &&& button is Right ==> sent->Ok_0->0 == seq![0x1bu8, 0x5b, 0x3c, 0x32] + place
                    + seq![0x4du8]
                &&& button is WheelUp ==> sent->Ok_0->0 == seq![0x1bu8, 0x5b, 0x3c, 0x36, 0x34]
                    + place + seq![0x4du8]
                &&& button is WheelDown ==> sent->Ok_0->0 == seq![0x1bu8, 0x5b, 0x3c, 0x36, 0x35]
                    + place + seq![0x4du8]
            }
            &&& state is Released ==> sent->Ok_0->0 == seq![0x1bu8, 0x5b, 0x3c] + decimal(
                (3 + extra) as nat,
            ) + place + seq![0x6du8]
            &&& !(state is Released) ==> sent->Ok_0->0 == seq![0x1bu8, 0x5b, 0x3c] + decimal(
                ((match button {
                    MouseButton::Left => 0int,
                    MouseButton::Middle => 1,
                    MouseButton::Right => 2,
                    MouseButton::WheelUp => 64,
                    MouseButton::WheelDown => 65,
                }) + extra + (if state is Motion { 32int } else { 0 })) as nat,
            ) + place + seq![0x4du8]
        }),
{
    one_digit(0);
    one_digit(1);
    one_digit(2);
    two_digits(64);
    two_digits(65);
    let bytes = mouse_seq(button, state, column, line, m, modes)->Ok_0->0;
    let place = seq![0x3bu8] + decimal((column + 1) as nat) + seq![0x3bu8] + decimal(
        (line + 1) as nat,
    );
    let code = mouse_code(button, state, m);
    let last: u8 = if state is Released {
        0x6d
    } else {
        0x4d
    };
    assert(bytes =~= seq![0x1bu8, 0x5b, 0x3c] + decimal(code) + place + seq![last]);
    assert(seq![0x1bu8, 0x5b, 0x3c] + seq![0x30u8] =~= seq![0x1bu8, 0x5b, 0x3c, 0x30]);
    assert(seq![0x1bu8, 0x5b, 0x3c] + seq![0x31u8] =~= seq![0x1bu8, 0x5b, 0x3c, 0x31]);
    assert(seq![0x1bu8, 0x5b, 0x3c] + seq![0x32u8] =~= seq![0x1bu8, 0x5b, 0x3c, 0x32]);
    assert(seq![0x1bu8, 0x5b, 0x3c] + seq![0x36u8, 0x34] =~= seq![0x1bu8, 0x5b, 0x3c, 0x36, 0x34]);
    assert(seq![0x1bu8, 0x5b, 0x3c] + seq![0x36u8, 0x35] =~= seq![0x1bu8, 0x5b, 0x3c, 0x36, 0x35]);
}

/// In the two older encodings a report is `CSI M`, then the number of SGR, the column and the line
/// from one on, each 32 more: as one byte each, where column and line are below 223, or as one
/// character each in UTF-8. Past the range of the encoding there is no report.
pub proof fn pointer_reports_in_older_encodings(
    button: MouseButton,
    state: ButtonState,
    column: u16,
    line: u16,
    m: Modifiers,
    modes: TerminalModes,
)
    requires
        !(modes.mouse_protocol is Off),
        !m.shift,
    ensures
        ({
            let sent = mouse_seq(button, state, column, line, m, modes);
            let number = (if state is Released {
                3int
            } else {
                (match button {
                    MouseButton::Left => 0int,
                    MouseButton::Middle => 1,
                    MouseButton::Right => 2,
                    MouseButton::WheelUp => 64,
                    MouseButton::WheelDown => 65,
                }) + (if state is Motion { 32int } else { 0 })
            }) + (if m.alt { 8int } else { 0 }) + (if m.control { 16int } else { 0 });
            &&& modes.mouse_encoding is Legacy && column < 223 && line < 223 ==> sent == Ok::<
                Option<Seq<u8>>,
                InputError,
            >(
                Some(
                    seq![
                        0x1bu8,
                        0x5b,
                        0x4d,
                        (32 + number) as u8,
                        (33 + column) as u8,
                        (33 + line) as u8,
                    ],
                ),
            )
            &&& modes.mouse_encoding is Legacy && (column >= 223 || line >= 223) ==> sent == Err::<
                Option<Seq<u8>>,
                InputError,
            >(InputError::MouseCoordinate)
            &&& modes.mouse_encoding is Utf8 && is_scalar((33 + column) as u32) && is_scalar(
                (33 + line) as u32,
            ) ==> sent == Ok::<Option<Seq<u8>>, InputError>(
                Some(
                    seq![0x1bu8, 0x5b, 0x4d] + encode_utf8(seq![(32 + number) as u8 as char])
                        + encode_utf8(seq![(33 + column) as u32 as char]) + encode_utf8(
                        seq![(33 + line) as u32 as char],
                    ),
                ),
            )
        }),
{
}

/// A program that did not ask for the pointer gets no report of it, in any encoding; nor does one
/// get a report of what happens with shift held.
pub proof fn unasked_pointers_are_silent(
    button: MouseButton,
    state: ButtonState,
    column: u16,
    line: u16,
    m: Modifiers,
    modes: TerminalModes,
)
    ensures
        mouse_seq(button, state, column, line, m, modes) == Ok::<Option<Seq<u8>>, InputError>(None)
            <==> modes.mouse_protocol is Off || m.shift,
{
}

/// A program that asked for it is told `CSI I` when the terminal gains the focus and `CSI O` when
/// it loses it; no other program is told.
pub proof fn focus_reports_are_those_of_xterm(modes: TerminalModes)
    ensures
        modes.focus_reporting ==> focus_seq(true, modes) == Some(seq![0x1bu8, 0x5b, 0x49])
            && focus_seq(false, modes) == Some(seq![0x1bu8, 0x5b, 0x4f]),
        !modes.focus_reporting ==> focus_seq(true, modes) is None && focus_seq(false, modes)
            is None,
{
}

/// On the alternate screen the wheel sends one cursor key a line, up for lines above zero and down
/// for lines below, twelve at most; where the program reads the pointer itself it sends none.
pub proof fn the_wheel_sends_cursor_keys(lines: i32, modes: TerminalModes)
    ensures
        ({
            let up = key_seq(TerminalKey::Up, Modifiers::none(), modes)->Ok_0;
            let down = key_seq(TerminalKey::Down, Modifiers::none(), modes)->Ok_0;
            let on = modes.alternate_screen && modes.alternate_scroll
                && modes.mouse_protocol is Off;
            &&& scroll_seq(lines, modes) is Some <==> on && lines != 0
            &&& on ==> scroll_seq(1, modes) == Some(up) && scroll_seq((-1) as i32, modes) == Some(down)
            &&& on && 1 <= lines < 12 ==> scroll_seq((lines + 1) as i32, modes) == Some(
                scroll_seq(lines, modes)->0 + up,
            )
            &&& on && -12 < lines <= -1 ==> scroll_seq((lines - 1) as i32, modes) == Some(
                scroll_seq(lines, modes)->0 + down,
            )
            &&& on && lines > 12 ==> scroll_seq(lines, modes) == scroll_seq(12, modes)
            &&& on && lines < -12 ==> scroll_seq(lines, modes) == scroll_seq((-12) as i32, modes)
        }),
{
    let app = modes.application_cursor;
    let up = cursor_seq(65, app, Modifiers::none());
    let down = cursor_seq(66, app, Modifiers::none());
    reveal_with_fuel(repeated, 2);
    assert(repeated(up, 1) =~= up);
    assert(repeated(down, 1) =~= down);
    if 1 <= lines < 12 {
        assert(repeated(up, (lines + 1) as nat) == repeated(up, lines as nat) + up);
    }
    if -12 < lines <= -1 {
        assert(repeated(down, (-lines + 1) as nat) == repeated(down, (-lines) as nat) + down);
    }
}

/// Where a program asked for other codes of a key, they follow its number: after a colon the code
/// with shift, if shift is held and there is one, and after another colon that of the base layout,
/// if there is one. Where it asked for text, the code of the character that a press types comes
/// last, after a semicolon.
#[verifier::rlimit(80)]
pub proof fn kitty_tells_other_codes_and_text(
    event: &TerminalKeyboardEvent,
    modes: TerminalModes,
    ch: char,
    typed: char,
)
    requires
        modes.keyboard.kitty.bits & 8 == 8,
        modes.keyboard.kitty.bits & 2 != 2,
        event.kind is Press,
        event.identity.logical == LogicalKey::Character(ch),
        event.identity.keypad is None,
        event.associated_text_allowed,
        event.text is Some,
        event.text->0@ == seq![typed],
        !is_control(typed),
    ensures
        ({
            let m = event.modifiers;
            let held = 1 + (if m.shift { 1int } else { 0 }) + (if m.alt { 2int } else { 0 }) + (
            if m.control { 4int } else { 0 }) + (if m.super_key { 8int } else { 0 }) + (
            if event.caps_lock { 64int } else { 0 }) + (if event.num_lock { 128int } else { 0 });
            let code = match event.identity.base_codepoint {
                Some(base) => base as u32 as nat,
                None => ch as u32 as nat,
            };
            let asked = modes.keyboard.kitty.bits & 4 == 4;
            let others = match (event.identity.shifted_codepoint, event.identity.base_codepoint) {
                (Some(shifted), Some(base)) => if m.shift {
                    seq![0x3au8] + decimal(shifted as u32 as nat) + seq![0x3au8] + decimal(
                        base as u32 as nat,
                    )
                } else {
                    seq![0x3au8, 0x3a] + decimal(base as u32 as nat)
                },
                (Some(shifted), None) => if m.shift {
                    seq![0x3au8] + decimal(shifted as u32 as nat)
                } else {
                    Seq::empty()
                },
                (None, Some(base)) => seq![0x3au8, 0x3a] + decimal(base as u32 as nat),
                (None, None) => Seq::empty(),
            };
            event_model(event, modes) == Ok::<EncodedModel, InputError>(
                EncodedModel::Bytes(
                    seq![0x1bu8, 0x5b] + decimal(code) + (if asked {
                        others
                    } else {
                        Seq::empty()
                    }) + seq![0x3bu8] + decimal(held as nat) + (if modes.keyboard.kitty.bits & 16
                        == 16 {
                        seq![0x3bu8] + decimal(typed as u32 as nat)
                    } else {
                        Seq::empty()
                    }) + seq![0x75u8],
                ),
            )
        }),
{
    let flags = modes.keyboard.kitty;
    let bits = flags.bits;
    assert(bits & 8 == 8 ==> bits != 0) by (bit_vector);
    let m = event.modifiers;
    let held = (1 + (if m.shift { 1int } else { 0 }) + (if m.alt { 2int } else { 0 }) + (
    if m.control { 4int } else { 0 }) + (if m.super_key { 8int } else { 0 }) + (
    if event.caps_lock { 64int } else { 0 }) + (if event.num_lock { 128int } else { 0 })) as nat;
    let code = kitty_code(event.identity)->0;
    let text = event.text->0@;
    assert(kitty_modifier_code(event) == held);
    short_numbers(held);
    short_numbers(code as nat);
    short_numbers(typed as u32 as nat);
    assert(text[0] == typed);
    reveal_with_fuel(encode_utf8, 2);
    assert(encode_utf8(text).len() <= 4);
    assert(codepoints(text) == decimal(typed as u32 as nat));
    let shown = if bits & 16 == 16 {
        seq![0x3bu8] + decimal(typed as u32 as nat)
    } else {
        Seq::<u8>::empty()
    };
    assert(associated_text(event, flags) == Ok::<Seq<u8>, InputError>(shown));
    let listed = alternate_keys(event, flags);
    match event.identity.shifted_codepoint {
        Some(shifted) => short_numbers(shifted as u32 as nat),
        None => {},
    }
    match event.identity.base_codepoint {
        Some(base) => {
            short_numbers(base as u32 as nat);
            assert(seq![58u8] + Seq::<u8>::empty() + (seq![58u8] + decimal(base as u32 as nat))
                =~= seq![0x3au8, 0x3a] + decimal(base as u32 as nat));
            match event.identity.shifted_codepoint {
                Some(shifted) => {
                    assert(seq![58u8] + decimal(shifted as u32 as nat) + (seq![58u8] + decimal(
                        base as u32 as nat,
                    )) =~= seq![0x3au8] + decimal(shifted as u32 as nat) + seq![0x3au8] + decimal(
                        base as u32 as nat,
                    ));
                },
                None => {},
            }
        },
        None => {
            match event.identity.shifted_codepoint {
                Some(shifted) => {
                    assert(seq![58u8] + decimal(shifted as u32 as nat) + Seq::<u8>::empty()
                        =~= seq![0x3au8] + decimal(shifted as u32 as nat));
                },
                None => {},
            }
        },
    }
    let head = seq![27u8, 91] + decimal(code as nat) + listed + seq![59u8] + decimal(held);
    assert(head + Seq::<u8>::empty() =~= head);
    assert(kitty_csi(code as nat, event, flags, shown) == head + shown + seq![117u8]);
    assert(listed.len() <= 22);
}

/// Pieces are collapsed one by one, where no line ending is cut in two.
proof fn collapse_in_pieces(a: Seq<u8>, b: Seq<u8>)
    requires
        !(a.len() > 0 && a.last() == 13 && b.len() > 0 && b[0] == 10),
    ensures
        collapse_crlf(a + b) == collapse_crlf(a) + collapse_crlf(b),
    decreases a.len(),
{
    if a.len() == 0 {
        assert(a + b =~= b);
        assert(collapse_crlf(a) + collapse_crlf(b) =~= collapse_crlf(b));
    } else {
        let n: int = if a.len() >= 2 && a[0] == 13 && a[1] == 10 {
            2
        } else {
            1
        };
        let rest = a.skip(n);
        if rest.len() > 0 {
            assert(rest.last() == a.last());
        }
        collapse_in_pieces(rest, b);
        assert((a + b).skip(n) =~= rest + b);
        if a.len() == 1 && b.len() > 0 {
            assert((a + b)[1] == b[0]);
        }
        assert(collapse_crlf(a + b) =~= collapse_crlf(a) + collapse_crlf(b));
    }
}

proof fn nothing_to_collapse(bytes: Seq<u8>)
    requires
        !bytes.contains(13),
    ensures
        collapse_crlf(bytes) == bytes,
    decreases bytes.len(),
{
    if bytes.len() > 0 {
        assert(bytes.contains(bytes[0]));
        assert forall|i: int| 0 <= i < bytes.skip(1).len() implies bytes.skip(1)[i] != 13 by {
            assert(bytes.contains(bytes[i + 1]));
        }
        nothing_to_collapse(bytes.skip(1));
        assert(collapse_crlf(bytes) =~= bytes);
    } else {
        assert(collapse_crlf(bytes) =~= bytes);
    }
}

/// A text without line endings is pasted as it is.
pub proof fn a_line_is_pasted_as_it_is(bytes: Seq<u8>)
    requires
        !bytes.contains(10),
        !bytes.contains(13),
    ensures
        paste_body(bytes) == bytes,
{
    nothing_to_collapse(bytes);
    assert forall|i: int| 0 <= i < bytes.len() implies newline_as_return(#[trigger] bytes[i])
        == bytes[i] by {
        assert(bytes.contains(bytes[i]));
    }
    assert(paste_body(bytes) =~= bytes);
}

/// Between two texts, a newline, a carriage return and the two together are each pasted as one
/// carriage return, and the texts around them as they would be alone.
pub proof fn each_line_ending_is_pasted_as_one_return(a: Seq<u8>, b: Seq<u8>)
    requires
        a.len() > 0 ==> a.last() != 13,
    ensures
        paste_body(a + seq![10u8] + b) == paste_body(a) + seq![13u8] + paste_body(b),
        paste_body(a + seq![13u8, 10] + b) == paste_body(a) + seq![13u8] + paste_body(b),
        b.len() > 0 && b[0] != 10 ==> paste_body(a + seq![13u8] + b) == paste_body(a) + seq![13u8]
            + paste_body(b),
{
    let f = |x: u8| newline_as_return(x);
    let ca = collapse_crlf(a);
    let cb = collapse_crlf(b);
    collapse_in_pieces(a, seq![10u8]);
    collapse_in_pieces(a + seq![10u8], b);
    nothing_to_collapse(seq![10u8]);
    assert((ca + seq![10u8] + cb).map_values(f) =~= ca.map_values(f) + seq![13u8] + cb.map_values(
        f,
    ));
    let crlf = seq![13u8, 10];
    collapse_in_pieces(a, crlf);
    collapse_in_pieces(a + crlf, b);
    let none = Seq::<u8>::empty();
    assert(crlf[0] == 13 && crlf[1] == 10);
    assert(crlf.skip(2) =~= none);
    assert(collapse_crlf(none) == none);
    assert(collapse_crlf(crlf) == seq![10u8] + none);
    assert(seq![10u8] + none =~= seq![10u8]);
    let cr = seq![13u8];
    if b.len() > 0 && b[0] != 10 {
        collapse_in_pieces(a, cr);
        collapse_in_pieces(a + cr, b);
        assert(cr.skip(1) =~= Seq::<u8>::empty());
        assert(collapse_crlf(cr) =~= cr);
        assert((ca + cr + cb).map_values(f) =~= ca.map_values(f) + cr + cb.map_values(f));
    }
}

/// A paste is refused only for a NUL, or where it would not fit into a mebibyte together with the
/// brackets that the program asked for.
pub proof fn pastes_that_fit_are_taken(bytes: Seq<u8>, bracketed: bool)
    ensures
        ({
            let sent = paste_seq(bytes, bracketed);
            let room = if bracketed {
                1_048_576 - 12
            } else {
                1_048_576int
            };
            &&& sent is Ok <==> !bytes.contains(0) && paste_body(bytes).len() <= room
            &&& bytes.contains(0) ==> sent == Err::<Seq<u8>, InputError>(InputError::Nul)
            &&& !bytes.contains(0) && paste_body(bytes).len() > room ==> sent == Err::<
                Seq<u8>,
                InputError,
            >(InputError::Capacity)
            &&& sent is Ok && !bracketed ==> sent->Ok_0 == paste_body(bytes)
            &&& sent is Ok && bracketed ==> sent->Ok_0 == seq![
                0x1bu8,
                0x5b,
                0x32,
                0x30,
                0x30,
                0x7e,
            ] + paste_body(bytes) + seq![0x1bu8, 0x5b, 0x32, 0x30, 0x31, 0x7e]
        }),
{
}

} // verus!
