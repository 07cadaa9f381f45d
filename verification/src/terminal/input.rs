//! Turns keys, pointer events and text into the bytes that a program on the terminal reads.
pub mod laws;

use vstd::prelude::*;
use vstd::utf8::{encode_utf8, is_scalar};
use crate::keys::{KeyIdentity, KeyLocation, KeySide, KeypadKey, LogicalKey, ModifierKind};
use crate::terminal::snapshot::{
    KittyKeyboardFlags, ModifyOtherKeysLevel, MouseEncoding, MouseProtocol, TerminalModes,
};
use crate::text::{
    char_bytes, chars_of, decimal, is_control, is_control_char, push_all, push_decimal,
    string_bytes,
};

verus! {

/// The most bytes of text that one commit may carry.
pub const MAX_COMMIT_BYTES: usize = 65536;

/// The most bytes that one input transaction may carry.
pub const MAX_TRANSACTION_BYTES: usize = 1048576;

/// The most bytes of a paste that fit a transaction together with the paste brackets.
pub const MAX_PASTE_BODY_BYTES: usize = 1048564;

/// The longest encoding of one keyboard event.
pub const MAX_ENCODED_KEY_BYTES: usize = 256;

/// The longest associated text of a keyboard event, in bytes.
pub const MAX_ASSOCIATED_TEXT_BYTES: usize = 64;

/// The longest associated text of a keyboard event, in characters.
pub const MAX_ASSOCIATED_TEXT_SCALARS: usize = 16;

#[derive(Clone, Copy, Debug, PartialEq, Eq, Structural)]
pub struct Modifiers {
    pub shift: bool,
    pub control: bool,
    pub alt: bool,
    pub super_key: bool,
}

impl Modifiers {
    /// No modifier is held.
    pub open spec fn none() -> Modifiers {
        Modifiers { shift: false, control: false, alt: false, super_key: false }
    }
}

impl Default for Modifiers {
    fn default() -> (result: Modifiers)
        ensures
            result == Modifiers::none(),
    {
        Modifiers { shift: false, control: false, alt: false, super_key: false }
    }
}

#[derive(Clone, Copy, Debug, PartialEq, Eq, Structural)]
pub enum TerminalKey {
    Backspace,
    Tab,
    Enter,
    Escape,
    Up,
    Down,
    Left,
    Right,
    Home,
    End,
    Insert,
    Delete,
    PageUp,
    PageDown,
    Function(u8),
    Char(char),
}

#[derive(Clone, Copy, Debug, PartialEq, Eq, Structural)]
pub enum KeyboardEventKind {
    Press,
    Repeat,
    Release,
}

#[derive(Clone, Debug, PartialEq, Eq)]
pub struct TerminalKeyboardEvent {
    pub identity: KeyIdentity,
    pub text: Option<String>,
    pub modifiers: Modifiers,
    pub caps_lock: bool,
    pub num_lock: bool,
    pub kind: KeyboardEventKind,
    pub associated_text_allowed: bool,
}

#[derive(Clone, Copy, Debug, PartialEq, Eq, Structural)]
pub enum IgnoreReason {
    ReleaseNotReported,
    UnknownKey,
}

/// What a keyboard event becomes: bytes to send, its text as it is, or nothing.
#[derive(Clone, Debug, PartialEq, Eq)]
pub enum EncodedKey {
    Bytes(Vec<u8>),
    TextFallback,
    Ignored(IgnoreReason),
}

/// An encoded key over its bytes.
pub enum EncodedModel {
    Bytes(Seq<u8>),
    TextFallback,
    Ignored(IgnoreReason),
}

impl View for EncodedKey {
    type V = EncodedModel;

    open spec fn view(&self) -> EncodedModel {
        match *self {
            EncodedKey::Bytes(bytes) => EncodedModel::Bytes(bytes@),
            EncodedKey::TextFallback => EncodedModel::TextFallback,
            EncodedKey::Ignored(reason) => EncodedModel::Ignored(reason),
        }
    }
}

#[derive(Clone, Copy, Debug, PartialEq, Eq, Structural)]
pub enum InputError {
    UnsupportedFunction(u8),
    MouseCoordinate,
    Nul,
    Capacity,
    UnknownKey,
    AssociatedTextCapacity,
    AssociatedTextControl,
    EncodedKeyCapacity,
}

impl InputError {
    pub open spec fn text(self) -> Seq<char> {
        match self {
            InputError::UnsupportedFunction(_) => "only F1 through F12 are supported"@,
            InputError::MouseCoordinate =>
                "mouse coordinate is outside the selected encoding range"@,
            InputError::Nul => "input contains NUL"@,
            InputError::Capacity => "input transaction exceeds its capacity"@,
            InputError::UnknownKey => "keyboard event has no protocol key code"@,
            InputError::AssociatedTextCapacity =>
                "associated text exceeds keyboard protocol limits"@,
            InputError::AssociatedTextControl =>
                "associated text contains a control codepoint"@,
            InputError::EncodedKeyCapacity => "encoded keyboard event exceeds 256 bytes"@,
        }
    }

    /// The message shown for the error.
    pub fn message(&self) -> (result: &'static str)
        ensures
            result@ == self.text(),
    {
        match self {
            InputError::UnsupportedFunction(_) => "only F1 through F12 are supported",
            InputError::MouseCoordinate =>
                "mouse coordinate is outside the selected encoding range",
            InputError::Nul => "input contains NUL",
            InputError::Capacity => "input transaction exceeds its capacity",
            InputError::UnknownKey => "keyboard event has no protocol key code",
            InputError::AssociatedTextCapacity =>
                "associated text exceeds keyboard protocol limits",
            InputError::AssociatedTextControl => "associated text contains a control codepoint",
            InputError::EncodedKeyCapacity => "encoded keyboard event exceeds 256 bytes",
        }
    }
}

#[derive(Clone, Copy, Debug, PartialEq, Eq, Structural)]
pub enum MouseButton {
    Left,
    Middle,
    Right,
    WheelUp,
    WheelDown,
}

#[derive(Clone, Copy, Debug, PartialEq, Eq, Structural)]
pub enum ButtonState {
    Pressed,
    Released,
    Motion,
}

/// A result holds the bytes, or the error, of a model.
pub open spec fn agrees(result: Result<Vec<u8>, InputError>, model: Result<Seq<u8>, InputError>) -> bool {
    match model {
        Ok(bytes) => result is Ok && result->Ok_0@ == bytes,
        Err(error) => result == Err::<Vec<u8>, InputError>(error),
    }
}

/// A result holds the encoded key, or the error, of a model.
pub open spec fn key_agrees(
    result: Result<EncodedKey, InputError>,
    model: Result<EncodedModel, InputError>,
) -> bool {
    match model {
        Ok(key) => result is Ok && result->Ok_0@ == key,
        Err(error) => result == Err::<EncodedKey, InputError>(error),
    }
}

pub open spec fn one_if(b: bool) -> nat {
    if b {
        1
    } else {
        0
    }
}

/// The modifier parameter of xterm: one more than the sum of 1 for shift, 2 for alt and 4 for
/// control.
pub open spec fn modifier_code(m: Modifiers) -> nat {
    1 + one_if(m.shift) + 2 * one_if(m.alt) + 4 * one_if(m.control)
}

/// The modifier parameter of the kitty protocol, which also counts 8 for super, 64 for caps lock
/// and 128 for num lock.
pub open spec fn kitty_modifier_code(event: &TerminalKeyboardEvent) -> nat {
    modifier_code(event.modifiers) + 8 * one_if(event.modifiers.super_key) + 64 * one_if(
        event.caps_lock,
    ) + 128 * one_if(event.num_lock)
}

/// `CSI 1 ; code final`.
pub open spec fn modified_final(code: nat, last: u8) -> Seq<u8> {
    seq![27u8, 91, 49, 59] + decimal(code) + seq![last]
}

/// The sequence of a cursor key.
pub open spec fn cursor_seq(last: u8, application: bool, m: Modifiers) -> Seq<u8> {
    if modifier_code(m) == 1 {
        seq![27u8, if application { 79u8 } else { 91u8 }, last]
    } else {
        modified_final(modifier_code(m), last)
    }
}

/// The sequence of a key that ends in a tilde.
pub open spec fn tilde_seq(code: nat, m: Modifiers) -> Seq<u8> {
    if modifier_code(m) == 1 {
        seq![27u8, 91] + decimal(code) + seq![126u8]
    } else {
        seq![27u8, 91] + decimal(code) + seq![59u8] + decimal(modifier_code(m)) + seq![126u8]
    }
}

/// The number by which xterm reports F5 to F12.
pub open spec fn function_code(number: u8) -> nat {
    if number == 5 {
        15
    } else if number <= 10 {
        (number + 11) as nat
    } else {
        (number + 12) as nat
    }
}

/// The sequence of a function key.
pub open spec fn function_seq(number: u8, m: Modifiers) -> Result<Seq<u8>, InputError> {
    if 1 <= number <= 4 {
        if modifier_code(m) == 1 {
            Ok(seq![27u8, 79, (79 + number) as u8])
        } else {
            Ok(modified_final(modifier_code(m), (79 + number) as u8))
        }
    } else if 5 <= number <= 12 {
        Ok(tilde_seq(function_code(number), m))
    } else {
        Err(InputError::UnsupportedFunction(number))
    }
}

/// The bytes of `b`, after an escape byte if alt is held.
pub open spec fn with_alt(m: Modifiers, b: Seq<u8>) -> Seq<u8> {
    if m.alt {
        seq![27u8] + b
    } else {
        b
    }
}

/// The ASCII upper-case code of a character.
pub open spec fn upper_code(ch: char) -> u32 {
    if 97 <= ch as u32 <= 122 {
        (ch as u32 - 32) as u32
    } else {
        ch as u32
    }
}

/// The bytes of a character key. Control turns `@` to `_` into the control codes and `?` into
/// DEL, and leaves other characters alone.
pub open spec fn char_seq(ch: char, m: Modifiers) -> Seq<u8> {
    with_alt(
        m,
        if m.control && 64 <= upper_code(ch) <= 95 {
            seq![(upper_code(ch) - 64) as u8]
        } else if m.control && upper_code(ch) == 63 {
            seq![127u8]
        } else {
            encode_utf8(seq![ch])
        },
    )
}

/// The bytes of a key.
pub open spec fn key_seq(key: TerminalKey, m: Modifiers, modes: TerminalModes) -> Result<
    Seq<u8>,
    InputError,
> {
    let app = modes.application_cursor;
    match key {
        TerminalKey::Char(ch) => Ok(char_seq(ch, m)),
        TerminalKey::Backspace => Ok(with_alt(m, seq![127u8])),
        TerminalKey::Tab => Ok(
            with_alt(
                m,
                if m.shift {
                    seq![27u8, 91, 90]
                } else {
                    seq![9u8]
                },
            ),
        ),
        TerminalKey::Enter => Ok(with_alt(m, seq![13u8])),
        TerminalKey::Escape => Ok(with_alt(m, seq![27u8])),
        TerminalKey::Up => Ok(cursor_seq(65, app, m)),
        TerminalKey::Down => Ok(cursor_seq(66, app, m)),
        TerminalKey::Right => Ok(cursor_seq(67, app, m)),
        TerminalKey::Left => Ok(cursor_seq(68, app, m)),
        TerminalKey::Home => Ok(cursor_seq(72, app, m)),
        TerminalKey::End => Ok(cursor_seq(70, app, m)),
        TerminalKey::Insert => Ok(tilde_seq(2, m)),
        TerminalKey::Delete => Ok(tilde_seq(3, m)),
        TerminalKey::PageUp => Ok(tilde_seq(5, m)),
        TerminalKey::PageDown => Ok(tilde_seq(6, m)),
        TerminalKey::Function(number) => function_seq(number, m),
    }
}

fn modifier_parameter(m: Modifiers) -> (result: u8)
    ensures
        result == modifier_code(m),
        1 <= result <= 8,
{
    let mut code: u8 = 1;
    if m.shift {
        code += 1;
    }
    if m.alt {
        code += 2;
    }
    if m.control {
        code += 4;
    }
    code
}

fn modified(code: u64, last: u8) -> (result: Vec<u8>)
    ensures
        result@ == modified_final(code as nat, last),
{
    let mut out: Vec<u8> = vec![27, 91, 49, 59];
    push_decimal(&mut out, code);
    out.push(last);
    assert(out@ =~= modified_final(code as nat, last));
    out
}

fn cursor(last: u8, application: bool, m: Modifiers) -> (result: Vec<u8>)
    ensures
        result@ == cursor_seq(last, application, m),
{
    let parameter: u8 = modifier_parameter(m);
    if parameter == 1 {
        let second: u8 = if application { 79 } else { 91 };
        vec![27, second, last]
    } else {
        modified(parameter as u64, last)
    }
}

fn tilde(code: u8, m: Modifiers) -> (result: Vec<u8>)
    ensures
        result@ == tilde_seq(code as nat, m),
{
    let parameter: u8 = modifier_parameter(m);
    let mut out: Vec<u8> = vec![27, 91];
    push_decimal(&mut out, code as u64);
    if parameter != 1 {
        out.push(59);
        push_decimal(&mut out, parameter as u64);
    }
    out.push(126);
    assert(out@ =~= tilde_seq(code as nat, m));
    out
}

fn function(number: u8, m: Modifiers) -> (result: Result<Vec<u8>, InputError>)
    ensures
        agrees(result, function_seq(number, m)),
{
    let parameter: u8 = modifier_parameter(m);
    if 1 <= number && number <= 4 {
        if parameter == 1 {
            Ok(vec![27, 79, 79 + number])
        } else {
            Ok(modified(parameter as u64, 79 + number))
        }
    } else if 5 <= number && number <= 12 {
        let code: u8 = if number == 5 {
            15
        } else if number <= 10 {
            number + 11
        } else {
            number + 12
        };
        Ok(tilde(code, m))
    } else {
        Err(InputError::UnsupportedFunction(number))
    }
}

fn after_alt(m: Modifiers, bytes: Vec<u8>) -> (result: Vec<u8>)
    ensures
        result@ == with_alt(m, bytes@),
{
    let mut bytes = bytes;
    if m.alt {
        let ghost before = bytes@;
        bytes.insert(0, 27);
        assert(bytes@ =~= seq![27u8] + before);
    }
    bytes
}

fn encode_char(ch: char, m: Modifiers) -> (result: Vec<u8>)
    ensures
        result@ == char_seq(ch, m),
{
    let code: u32 = ch as u32;
    let upper: u32 = if 97 <= code && code <= 122 {
        code - 32
    } else {
        code
    };
    let bytes = if m.control && 64 <= upper && upper <= 95 {
        vec![(upper - 64) as u8]
    } else if m.control && upper == 63 {
        vec![127u8]
    } else {
        char_bytes(ch)
    };
    after_alt(m, bytes)
}

fn single(byte: u8) -> (result: Vec<u8>)
    ensures
        result@ == seq![byte],
{
    let out: Vec<u8> = vec![byte];
    assert(out@ =~= seq![byte]);
    out
}

/// Encodes one key as xterm does.
pub fn encode_key(key: TerminalKey, modifiers: Modifiers, modes: TerminalModes) -> (result: Result<
    Vec<u8>,
    InputError,
>)
    ensures
        agrees(result, key_seq(key, modifiers, modes)),
{
    let m = modifiers;
    let app = modes.application_cursor;
    match key {
        TerminalKey::Char(ch) => Ok(encode_char(ch, m)),
        TerminalKey::Backspace => Ok(after_alt(m, single(127))),
        TerminalKey::Tab => if m.shift {
            let back: Vec<u8> = vec![27, 91, 90];
            assert(back@ =~= seq![27u8, 91, 90]);
            Ok(after_alt(m, back))
        } else {
            Ok(after_alt(m, single(9)))
        },
        TerminalKey::Enter => Ok(after_alt(m, single(13))),
        TerminalKey::Escape => Ok(after_alt(m, single(27))),
        TerminalKey::Up => Ok(cursor(65, app, m)),
        TerminalKey::Down => Ok(cursor(66, app, m)),
        TerminalKey::Right => Ok(cursor(67, app, m)),
        TerminalKey::Left => Ok(cursor(68, app, m)),
        TerminalKey::Home => Ok(cursor(72, app, m)),
        TerminalKey::End => Ok(cursor(70, app, m)),
        TerminalKey::Insert => Ok(tilde(2, m)),
        TerminalKey::Delete => Ok(tilde(3, m)),
        TerminalKey::PageUp => Ok(tilde(5, m)),
        TerminalKey::PageDown => Ok(tilde(6, m)),
        TerminalKey::Function(number) => function(number, m),
    }
}

/// The key that a logical key is for the terminal.
pub open spec fn key_of(key: LogicalKey) -> Option<TerminalKey> {
    match key {
        LogicalKey::Backspace => Some(TerminalKey::Backspace),
        LogicalKey::Tab => Some(TerminalKey::Tab),
        LogicalKey::Enter => Some(TerminalKey::Enter),
        LogicalKey::Escape => Some(TerminalKey::Escape),
        LogicalKey::Insert => Some(TerminalKey::Insert),
        LogicalKey::Delete => Some(TerminalKey::Delete),
        LogicalKey::Home => Some(TerminalKey::Home),
        LogicalKey::End => Some(TerminalKey::End),
        LogicalKey::PageUp => Some(TerminalKey::PageUp),
        LogicalKey::PageDown => Some(TerminalKey::PageDown),
        LogicalKey::ArrowUp => Some(TerminalKey::Up),
        LogicalKey::ArrowDown => Some(TerminalKey::Down),
        LogicalKey::ArrowLeft => Some(TerminalKey::Left),
        LogicalKey::ArrowRight => Some(TerminalKey::Right),
        LogicalKey::Function(number) => Some(TerminalKey::Function(number)),
        LogicalKey::Character(ch) => Some(TerminalKey::Char(ch)),
        _ => None,
    }
}

fn terminal_key(key: LogicalKey) -> (result: Option<TerminalKey>)
    ensures
        result == key_of(key),
{
    match key {
        LogicalKey::Backspace => Some(TerminalKey::Backspace),
        LogicalKey::Tab => Some(TerminalKey::Tab),
        LogicalKey::Enter => Some(TerminalKey::Enter),
        LogicalKey::Escape => Some(TerminalKey::Escape),
        LogicalKey::Insert => Some(TerminalKey::Insert),
        LogicalKey::Delete => Some(TerminalKey::Delete),
        LogicalKey::Home => Some(TerminalKey::Home),
        LogicalKey::End => Some(TerminalKey::End),
        LogicalKey::PageUp => Some(TerminalKey::PageUp),
        LogicalKey::PageDown => Some(TerminalKey::PageDown),
        LogicalKey::ArrowUp => Some(TerminalKey::Up),
        LogicalKey::ArrowDown => Some(TerminalKey::Down),
        LogicalKey::ArrowLeft => Some(TerminalKey::Left),
        LogicalKey::ArrowRight => Some(TerminalKey::Right),
        LogicalKey::Function(number) => Some(TerminalKey::Function(number)),
        LogicalKey::Character(ch) => Some(TerminalKey::Char(ch)),
        _ => None,
    }
}

/// The navigation key that a keypad key is without num lock.
pub open spec fn navigation_of(key: KeypadKey) -> Option<TerminalKey> {
    match key {
        KeypadKey::Home => Some(TerminalKey::Home),
        KeypadKey::End => Some(TerminalKey::End),
        KeypadKey::PageUp => Some(TerminalKey::PageUp),
        KeypadKey::PageDown => Some(TerminalKey::PageDown),
        KeypadKey::Insert => Some(TerminalKey::Insert),
        KeypadKey::Delete => Some(TerminalKey::Delete),
        KeypadKey::ArrowUp => Some(TerminalKey::Up),
        KeypadKey::ArrowDown => Some(TerminalKey::Down),
        KeypadKey::ArrowLeft => Some(TerminalKey::Left),
        KeypadKey::ArrowRight => Some(TerminalKey::Right),
        _ => None,
    }
}

fn keypad_navigation(key: KeypadKey) -> (result: Option<TerminalKey>)
    ensures
        result == navigation_of(key),
{
    match key {
        KeypadKey::Home => Some(TerminalKey::Home),
        KeypadKey::End => Some(TerminalKey::End),
        KeypadKey::PageUp => Some(TerminalKey::PageUp),
        KeypadKey::PageDown => Some(TerminalKey::PageDown),
        KeypadKey::Insert => Some(TerminalKey::Insert),
        KeypadKey::Delete => Some(TerminalKey::Delete),
        KeypadKey::ArrowUp => Some(TerminalKey::Up),
        KeypadKey::ArrowDown => Some(TerminalKey::Down),
        KeypadKey::ArrowLeft => Some(TerminalKey::Left),
        KeypadKey::ArrowRight => Some(TerminalKey::Right),
        _ => None,
    }
}

/// The final byte of a keypad key in application mode.
pub open spec fn keypad_final(key: KeypadKey) -> Option<u8> {
    match key {
        KeypadKey::Digit(digit) => if digit <= 9 {
            Some((112 + digit) as u8)
        } else {
            None
        },
        KeypadKey::Decimal => Some(110),
        KeypadKey::Divide => Some(111),
        KeypadKey::Multiply => Some(106),
        KeypadKey::Subtract => Some(109),
        KeypadKey::Add => Some(107),
        KeypadKey::Separator => Some(108),
        KeypadKey::Equal => Some(88),
        KeypadKey::Enter => Some(77),
        _ => None,
    }
}

/// A key that was encoded, or its error.
pub open spec fn as_bytes(model: Result<Seq<u8>, InputError>) -> Result<EncodedModel, InputError> {
    match model {
        Ok(bytes) => Ok(EncodedModel::Bytes(bytes)),
        Err(error) => Err(error),
    }
}

/// What a key that is not known becomes: its text, if it has one.
pub open spec fn text_or_unknown(event: &TerminalKeyboardEvent) -> EncodedModel {
    if event.text is Some {
        EncodedModel::TextFallback
    } else {
        EncodedModel::Ignored(IgnoreReason::UnknownKey)
    }
}

/// What a key of the keypad becomes.
pub open spec fn keypad_model(event: &TerminalKeyboardEvent, modes: TerminalModes) -> Result<
    EncodedModel,
    InputError,
> {
    let m = event.modifiers;
    match event.identity.keypad {
        None => Ok(text_or_unknown(event)),
        Some(keypad) => if modes.application_keypad && keypad_final(keypad) is Some {
            let last = keypad_final(keypad)->0;
            if modifier_code(m) == 1 {
                Ok(EncodedModel::Bytes(seq![27u8, 79, last]))
            } else {
                Ok(EncodedModel::Bytes(modified_final(modifier_code(m), last)))
            }
        } else if !modes.application_keypad && event.text is Some {
            Ok(EncodedModel::TextFallback)
        } else {
            let logical = key_of(event.identity.logical);
            if !modes.application_keypad && logical is Some && !(logical->0 is Char)
                && !(logical->0 is Function) {
                as_bytes(key_seq(logical->0, m, modes))
            } else {
                match navigation_of(keypad) {
                    Some(key) => as_bytes(key_seq(key, m, modes)),
                    None => Ok(EncodedModel::Ignored(IgnoreReason::UnknownKey)),
                }
            }
        },
    }
}

fn into_bytes(result: Result<Vec<u8>, InputError>) -> (encoded: Result<EncodedKey, InputError>)
    ensures
        forall|model: Result<Seq<u8>, InputError>|
            agrees(result, model) ==> #[trigger] key_agrees(encoded, as_bytes(model)),
{
    match result {
        Ok(bytes) => Ok(EncodedKey::Bytes(bytes)),
        Err(error) => Err(error),
    }
}

fn encode_keypad(event: &TerminalKeyboardEvent, modes: TerminalModes) -> (result: Result<
    EncodedKey,
    InputError,
>)
    ensures
        key_agrees(result, keypad_model(event, modes)),
{
    let keypad = match event.identity.keypad {
        Some(keypad) => keypad,
        None => {
            return if event.text.is_some() {
                Ok(EncodedKey::TextFallback)
            } else {
                Ok(EncodedKey::Ignored(IgnoreReason::UnknownKey))
            };
        },
    };
    if !modes.application_keypad {
        if event.text.is_some() {
            return Ok(EncodedKey::TextFallback);
        }
        match terminal_key(event.identity.logical) {
            Some(TerminalKey::Char(_)) => {},
            Some(TerminalKey::Function(_)) => {},
            Some(key) => {
                let ghost model = key_seq(key, event.modifiers, modes);
                let result = into_bytes(encode_key(key, event.modifiers, modes));
                assert(key_agrees(result, as_bytes(model)));
                return result;
            },
            None => {},
        }
    } else {
        let last: Option<u8> = match keypad {
            KeypadKey::Digit(digit) => if digit <= 9 {
                Some(112 + digit)
            } else {
                None
            },
            KeypadKey::Decimal => Some(110),
            KeypadKey::Divide => Some(111),
            KeypadKey::Multiply => Some(106),
            KeypadKey::Subtract => Some(109),
            KeypadKey::Add => Some(107),
            KeypadKey::Separator => Some(108),
            KeypadKey::Equal => Some(88),
            KeypadKey::Enter => Some(77),
            _ => None,
        };
        if let Some(last) = last {
            let parameter: u8 = modifier_parameter(event.modifiers);
            return if parameter == 1 {
                Ok(EncodedKey::Bytes(vec![27, 79, last]))
            } else {
                Ok(EncodedKey::Bytes(modified(parameter as u64, last)))
            };
        }
    }
    match keypad_navigation(keypad) {
        Some(key) => {
            let ghost model = key_seq(key, event.modifiers, modes);
            let result = into_bytes(encode_key(key, event.modifiers, modes));
            assert(key_agrees(result, as_bytes(model)));
            result
        },
        None => Ok(EncodedKey::Ignored(IgnoreReason::UnknownKey)),
    }
}

/// Whether xterm has an encoding of its own for a modified character, which `modifyOtherKeys`
/// keeps at its first level.
pub open spec fn well_defined(event: &TerminalKeyboardEvent, ch: char) -> bool {
    let m = event.modifiers;
    let base = match event.identity.base_codepoint {
        Some(base) => base,
        None => ch,
    };
    !m.alt && ((m.shift && !m.control) || (m.control && (64 <= ch as u32 <= 126 || ch == ' ' || (
    !m.shift && 50 <= base as u32 <= 56))))
}

/// The `modifyOtherKeys` encoding of an event, where that protocol encodes it.
pub open spec fn modify_other_keys_model(
    event: &TerminalKeyboardEvent,
    level: ModifyOtherKeysLevel,
) -> Option<Seq<u8>> {
    let m = event.modifiers;
    match event.identity.logical {
        LogicalKey::Character(ch) => if level is Disabled || event.kind is Release || !(m.shift
            || m.alt || m.control) || (level is ExceptWellDefined && well_defined(event, ch)) {
            None
        } else {
            Some(
                seq![27u8, 91, 50, 55, 59] + decimal(modifier_code(m)) + seq![59u8] + decimal(
                    ch as u32 as nat,
                ) + seq![126u8],
            )
        },
        _ => None,
    }
}

fn encode_modify_other_keys(event: &TerminalKeyboardEvent, level: ModifyOtherKeysLevel) -> (result:
    Option<Vec<u8>>)
    ensures
        match modify_other_keys_model(event, level) {
            Some(bytes) => result is Some && result->0@ == bytes,
            None => result is None,
        },
{
    let m = event.modifiers;
    if level == ModifyOtherKeysLevel::Disabled || event.kind == KeyboardEventKind::Release {
        return None;
    }
    let ch = match event.identity.logical {
        LogicalKey::Character(ch) => ch,
        _ => {
            return None;
        },
    };
    if !(m.shift || m.alt || m.control) {
        return None;
    }
    let base = match event.identity.base_codepoint {
        Some(base) => base,
        None => ch,
    };
    let code: u32 = ch as u32;
    let base_code: u32 = base as u32;
    let defined = !m.alt && ((m.shift && !m.control) || (m.control && ((64 <= code && code <= 126)
        || ch == ' ' || (!m.shift && 50 <= base_code && base_code <= 56))));
    if level == ModifyOtherKeysLevel::ExceptWellDefined && defined {
        return None;
    }
    let mut out: Vec<u8> = vec![27, 91, 50, 55, 59];
    push_decimal(&mut out, modifier_parameter(m) as u64);
    out.push(59);
    push_decimal(&mut out, code as u64);
    out.push(126);
    assert(out@ =~= modify_other_keys_model(event, level)->0);
    Some(out)
}

/// The number of the kitty protocol for a key of the keypad.
pub open spec fn kitty_keypad_code(key: KeypadKey) -> Option<u32> {
    match key {
        KeypadKey::Digit(digit) => if digit <= 9 {
            Some((57_399 + digit) as u32)
        } else {
            None
        },
        KeypadKey::Decimal => Some(57_409),
        KeypadKey::Divide => Some(57_410),
        KeypadKey::Multiply => Some(57_411),
        KeypadKey::Subtract => Some(57_412),
        KeypadKey::Add => Some(57_413),
        KeypadKey::Enter => Some(57_414),
        KeypadKey::Equal => Some(57_415),
        KeypadKey::Separator => Some(57_416),
        KeypadKey::ArrowLeft => Some(57_417),
        KeypadKey::ArrowRight => Some(57_418),
        KeypadKey::ArrowUp => Some(57_419),
        KeypadKey::ArrowDown => Some(57_420),
        KeypadKey::PageUp => Some(57_421),
        KeypadKey::PageDown => Some(57_422),
        KeypadKey::Home => Some(57_423),
        KeypadKey::End => Some(57_424),
        KeypadKey::Insert => Some(57_425),
        KeypadKey::Delete => Some(57_426),
    }
}

/// The number of the kitty protocol for a modifier key.
pub open spec fn kitty_modifier_key_code(kind: ModifierKind, side: KeySide) -> u32 {
    let base: u32 = match kind {
        ModifierKind::Shift => 57_441,
        ModifierKind::Control => 57_442,
        ModifierKind::Alt => 57_443,
        ModifierKind::Super => 57_444,
    };
    if side is Left {
        base
    } else {
        (base + 6) as u32
    }
}

/// The number of the kitty protocol for a key.
pub open spec fn kitty_code(identity: KeyIdentity) -> Option<u32> {
    match identity.keypad {
        Some(keypad) => kitty_keypad_code(keypad),
        None => match identity.logical {
            LogicalKey::Character(ch) => Some(
                match identity.base_codepoint {
                    Some(base) => base as u32,
                    None => ch as u32,
                },
            ),
            LogicalKey::Escape => Some(27),
            LogicalKey::Enter => Some(13),
            LogicalKey::Tab => Some(9),
            LogicalKey::Backspace => Some(127),
            LogicalKey::Insert => Some(57_348),
            LogicalKey::Delete => Some(57_349),
            LogicalKey::ArrowLeft => Some(57_350),
            LogicalKey::ArrowRight => Some(57_351),
            LogicalKey::ArrowUp => Some(57_352),
            LogicalKey::ArrowDown => Some(57_353),
            LogicalKey::PageUp => Some(57_354),
            LogicalKey::PageDown => Some(57_355),
            LogicalKey::Home => Some(57_356),
            LogicalKey::End => Some(57_357),
            LogicalKey::CapsLock => Some(57_358),
            LogicalKey::NumLock => Some(57_360),
            LogicalKey::Menu => Some(57_363),
            LogicalKey::Function(number) => if 1 <= number <= 35 {
                Some((57_363 + number) as u32)
            } else {
                None
            },
            LogicalKey::Modifier { kind, side } => Some(kitty_modifier_key_code(kind, side)),
            LogicalKey::Unidentified(_) => None,
        },
    }
}

fn kitty_key_code(identity: &KeyIdentity) -> (result: Option<u32>)
    ensures
        result == kitty_code(*identity),
{
    if let Some(keypad) = identity.keypad {
        return match keypad {
            KeypadKey::Digit(digit) => if digit <= 9 {
                Some(57_399 + digit as u32)
            } else {
                None
            },
            KeypadKey::Decimal => Some(57_409),
            KeypadKey::Divide => Some(57_410),
            KeypadKey::Multiply => Some(57_411),
            KeypadKey::Subtract => Some(57_412),
            KeypadKey::Add => Some(57_413),
            KeypadKey::Enter => Some(57_414),
            KeypadKey::Equal => Some(57_415),
            KeypadKey::Separator => Some(57_416),
            KeypadKey::ArrowLeft => Some(57_417),
            KeypadKey::ArrowRight => Some(57_418),
            KeypadKey::ArrowUp => Some(57_419),
            KeypadKey::ArrowDown => Some(57_420),
            KeypadKey::PageUp => Some(57_421),
            KeypadKey::PageDown => Some(57_422),
            KeypadKey::Home => Some(57_423),
            KeypadKey::End => Some(57_424),
            KeypadKey::Insert => Some(57_425),
            KeypadKey::Delete => Some(57_426),
        };
    }
    match identity.logical {
        LogicalKey::Character(ch) => match identity.base_codepoint {
            Some(base) => Some(base as u32),
            None => Some(ch as u32),
        },
        LogicalKey::Escape => Some(27),
        LogicalKey::Enter => Some(13),
        LogicalKey::Tab => Some(9),
        LogicalKey::Backspace => Some(127),
        LogicalKey::Insert => Some(57_348),
        LogicalKey::Delete => Some(57_349),
        LogicalKey::ArrowLeft => Some(57_350),
        LogicalKey::ArrowRight => Some(57_351),
        LogicalKey::ArrowUp => Some(57_352),
        LogicalKey::ArrowDown => Some(57_353),
        LogicalKey::PageUp => Some(57_354),
        LogicalKey::PageDown => Some(57_355),
        LogicalKey::Home => Some(57_356),
        LogicalKey::End => Some(57_357),
        LogicalKey::CapsLock => Some(57_358),
        LogicalKey::NumLock => Some(57_360),
        LogicalKey::Menu => Some(57_363),
        LogicalKey::Function(number) => if 1 <= number && number <= 35 {
            Some(57_363 + number as u32)
        } else {
            None
        },
        LogicalKey::Modifier { kind, side } => {
            let base: u32 = match kind {
                ModifierKind::Shift => 57_441,
                ModifierKind::Control => 57_442,
                ModifierKind::Alt => 57_443,
                ModifierKind::Super => 57_444,
            };
            match side {
                KeySide::Left => Some(base),
                KeySide::Right => Some(base + 6),
            }
        },
        LogicalKey::Unidentified(_) => None,
    }
}

fn kitty_modifiers(event: &TerminalKeyboardEvent) -> (result: u16)
    ensures
        result == kitty_modifier_code(event),
{
    let mut code: u16 = modifier_parameter(event.modifiers) as u16;
    if event.modifiers.super_key {
        code += 8;
    }
    if event.caps_lock {
        code += 64;
    }
    if event.num_lock {
        code += 128;
    }
    code
}

/// The number of the kitty protocol for the kind of an event.
pub open spec fn event_number(kind: KeyboardEventKind) -> nat {
    match kind {
        KeyboardEventKind::Press => 1,
        KeyboardEventKind::Repeat => 2,
        KeyboardEventKind::Release => 3,
    }
}

fn kitty_event_type(kind: KeyboardEventKind) -> (result: u8)
    ensures
        result == event_number(kind),
        1 <= result <= 3,
{
    match kind {
        KeyboardEventKind::Press => 1,
        KeyboardEventKind::Repeat => 2,
        KeyboardEventKind::Release => 3,
    }
}

/// The keys that the kitty protocol reports in their old form.
pub open spec fn is_legacy_functional(key: TerminalKey) -> bool {
    match key {
        TerminalKey::Up
        | TerminalKey::Down
        | TerminalKey::Left
        | TerminalKey::Right
        | TerminalKey::Home
        | TerminalKey::End
        | TerminalKey::Insert
        | TerminalKey::Delete
        | TerminalKey::PageUp
        | TerminalKey::PageDown => true,
        TerminalKey::Function(number) => 1 <= number <= 12,
        _ => false,
    }
}

/// The number and the final byte of a key that the kitty protocol reports in its old form.
pub open spec fn legacy_parts(key: TerminalKey) -> Option<(nat, u8)> {
    match key {
        TerminalKey::Up => Some((1, 65)),
        TerminalKey::Down => Some((1, 66)),
        TerminalKey::Right => Some((1, 67)),
        TerminalKey::Left => Some((1, 68)),
        TerminalKey::Home => Some((1, 72)),
        TerminalKey::End => Some((1, 70)),
        TerminalKey::Insert => Some((2, 126)),
        TerminalKey::Delete => Some((3, 126)),
        TerminalKey::PageUp => Some((5, 126)),
        TerminalKey::PageDown => Some((6, 126)),
        TerminalKey::Function(number) => if 1 <= number <= 4 {
            Some((1, (79 + number) as u8))
        } else if 5 <= number <= 12 {
            Some((function_code(number), 126))
        } else {
            None
        },
        _ => None,
    }
}

/// The old form of a key with the number of its event.
pub open spec fn legacy_functional_seq(key: TerminalKey, event: &TerminalKeyboardEvent) -> Result<
    Seq<u8>,
    InputError,
> {
    match legacy_parts(key) {
        Some((code, last)) => Ok(
            seq![27u8, 91] + decimal(code) + seq![59u8] + decimal(kitty_modifier_code(event))
                + seq![58u8] + decimal(event_number(event.kind)) + seq![last],
        ),
        None => Err(InputError::UnknownKey),
    }
}

#[verifier::rlimit(60)]
fn encode_kitty_legacy_functional(key: TerminalKey, event: &TerminalKeyboardEvent) -> (result:
    Result<Vec<u8>, InputError>)
    ensures
        agrees(result, legacy_functional_seq(key, event)),
{
    let modifiers: u16 = kitty_modifiers(event);
    let kind: u8 = kitty_event_type(event.kind);
    let (code, last): (u8, u8) = match key {
        TerminalKey::Up => (1, 65),
        TerminalKey::Down => (1, 66),
        TerminalKey::Right => (1, 67),
        TerminalKey::Left => (1, 68),
        TerminalKey::Home => (1, 72),
        TerminalKey::End => (1, 70),
        TerminalKey::Insert => (2, 126),
        TerminalKey::Delete => (3, 126),
        TerminalKey::PageUp => (5, 126),
        TerminalKey::PageDown => (6, 126),
        TerminalKey::Function(number) => if 1 <= number && number <= 4 {
            (1, 79 + number)
        } else if number == 5 {
            (15, 126)
        } else if 6 <= number && number <= 10 {
            (number + 11, 126)
        } else if 11 <= number && number <= 12 {
            (number + 12, 126)
        } else {
            return Err(InputError::UnknownKey);
        },
        _ => {
            return Err(InputError::UnknownKey);
        },
    };
    let mut out: Vec<u8> = vec![27, 91];
    push_decimal(&mut out, code as u64);
    out.push(59);
    push_decimal(&mut out, modifiers as u64);
    out.push(58);
    push_decimal(&mut out, kind as u64);
    out.push(last);
    assert(legacy_parts(key) == Some((code as nat, last)));
    assert(out@ =~= seq![27u8, 91] + decimal(code as nat) + seq![59u8] + decimal(modifiers as nat)
        + seq![58u8] + decimal(kind as nat) + seq![last]);
    Ok(out)
}

/// The other codes of a key, where the program asked for them.
pub open spec fn alternate_keys(event: &TerminalKeyboardEvent, flags: KittyKeyboardFlags) -> Seq<u8> {
    let shifted = if event.modifiers.shift {
        event.identity.shifted_codepoint
    } else {
        None
    };
    let base = event.identity.base_codepoint;
    if !flags.has(KittyKeyboardFlags::ALTERNATE_KEYS) || (shifted is None && base is None) {
        Seq::empty()
    } else {
        seq![58u8] + (match shifted {
            Some(ch) => decimal(ch as u32 as nat),
            None => Seq::empty(),
        }) + (match base {
            Some(ch) => seq![58u8] + decimal(ch as u32 as nat),
            None => Seq::empty(),
        })
    }
}

fn append_kitty_alternate_keys(
    output: &mut Vec<u8>,
    event: &TerminalKeyboardEvent,
    flags: KittyKeyboardFlags,
)
    ensures
        final(output)@ == old(output)@ + alternate_keys(event, flags),
{
    let shifted = if event.modifiers.shift {
        event.identity.shifted_codepoint
    } else {
        None
    };
    let base = event.identity.base_codepoint;
    if flags.contains(KittyKeyboardFlags::ALTERNATE_KEYS) {
        if shifted.is_some() || base.is_some() {
            output.push(58);
        }
        if let Some(ch) = shifted {
            push_decimal(output, ch as u32 as u64);
        }
        if let Some(ch) = base {
            output.push(58);
            push_decimal(output, ch as u32 as u64);
        }
    }
    assert(output@ =~= old(output)@ + alternate_keys(event, flags));
}

/// The codes of characters, with colons between them.
pub open spec fn codepoints(chars: Seq<char>) -> Seq<u8>
    decreases chars.len(),
{
    if chars.len() == 0 {
        Seq::empty()
    } else if chars.len() == 1 {
        decimal(chars[0] as u32 as nat)
    } else {
        codepoints(chars.drop_last()) + seq![58u8] + decimal(chars.last() as u32 as nat)
    }
}

/// The text of a key press, where the program asked for it.
pub open spec fn associated_text(event: &TerminalKeyboardEvent, flags: KittyKeyboardFlags) -> Result<
    Seq<u8>,
    InputError,
> {
    if !flags.has(KittyKeyboardFlags::ASSOCIATED_TEXT) || !event.associated_text_allowed
        || event.kind is Release {
        Ok(Seq::empty())
    } else {
        match event.text {
            None => Ok(Seq::empty()),
            Some(text) => if encode_utf8(text@).len() > MAX_ASSOCIATED_TEXT_BYTES || text@.len()
                > MAX_ASSOCIATED_TEXT_SCALARS {
                Err(InputError::AssociatedTextCapacity)
            } else if exists|i: int| 0 <= i < text@.len() && is_control(#[trigger] text@[i]) {
                Err(InputError::AssociatedTextControl)
            } else if text@.len() == 0 {
                Ok(Seq::empty())
            } else {
                Ok(seq![59u8] + codepoints(text@))
            },
        }
    }
}

fn any_control(chars: &Vec<char>) -> (result: bool)
    ensures
        result == exists|i: int| 0 <= i < chars@.len() && is_control(#[trigger] chars@[i]),
{
    let mut i: usize = 0;
    while i < chars.len()
        invariant
            i <= chars@.len(),
            forall|k: int| 0 <= k < i ==> !is_control(#[trigger] chars@[k]),
        decreases chars@.len() - i,
    {
        if is_control_char(chars[i]) {
            assert(is_control(chars@[i as int]));
            return true;
        }
        i += 1;
    }
    false
}

fn append_kitty_associated_text(
    output: &mut Vec<u8>,
    event: &TerminalKeyboardEvent,
    flags: KittyKeyboardFlags,
) -> (result: Result<(), InputError>)
    ensures
        match associated_text(event, flags) {
            Ok(text) => result is Ok && final(output)@ == old(output)@ + text,
            Err(error) => result == Err::<(), InputError>(error),
        },
{
    assert(output@ + Seq::<u8>::empty() =~= output@);
    if !flags.contains(KittyKeyboardFlags::ASSOCIATED_TEXT) || !event.associated_text_allowed
        || event.kind == KeyboardEventKind::Release {
        return Ok(());
    }
    let text = match &event.text {
        Some(text) => text,
        None => {
            return Ok(());
        },
    };
    let chars = chars_of(text.as_str());
    if text.as_str().as_bytes().len() > MAX_ASSOCIATED_TEXT_BYTES || chars.len()
        > MAX_ASSOCIATED_TEXT_SCALARS {
        return Err(InputError::AssociatedTextCapacity);
    }
    if any_control(&chars) {
        return Err(InputError::AssociatedTextControl);
    }
    if chars.len() != 0 {
        output.push(59);
        let ghost start = output@;
        let mut k: usize = 0;
        assert(codepoints(chars@.take(0)) =~= Seq::empty());
        assert(start + Seq::<u8>::empty() =~= start);
        while k < chars.len()
            invariant
                k <= chars@.len(),
                output@ == start + codepoints(chars@.take(k as int)),
            decreases chars@.len() - k,
        {
            let ghost before = chars@.take(k as int);
            if k != 0 {
                output.push(58);
            }
            push_decimal(output, chars[k] as u32 as u64);
            assert(chars@.take(k + 1).drop_last() =~= before);
            assert(output@ =~= start + codepoints(chars@.take(k + 1)));
            k += 1;
        }
        assert(chars@.take(k as int) =~= chars@);
        assert(output@ =~= old(output)@ + (seq![59u8] + codepoints(chars@)));
    }
    Ok(())
}

/// The bytes of `CSI code : alternates ; modifiers : event ; text u`.
pub open spec fn kitty_csi(
    code: nat,
    event: &TerminalKeyboardEvent,
    flags: KittyKeyboardFlags,
    text: Seq<u8>,
) -> Seq<u8> {
    let kind = if flags.has(KittyKeyboardFlags::REPORT_EVENTS) {
        seq![58u8] + decimal(event_number(event.kind))
    } else {
        Seq::empty()
    };
    seq![27u8, 91] + decimal(code) + alternate_keys(event, flags) + seq![59u8] + decimal(
        kitty_modifier_code(event),
    ) + kind + text + seq![117u8]
}

/// What an event becomes that the kitty protocol reports by the number of its key.
pub open spec fn kitty_csi_model(event: &TerminalKeyboardEvent, flags: KittyKeyboardFlags) -> Result<
    EncodedModel,
    InputError,
> {
    match kitty_code(event.identity) {
        None => Ok(EncodedModel::Ignored(IgnoreReason::UnknownKey)),
        Some(code) => match associated_text(event, flags) {
            Err(error) => Err(error),
            Ok(text) => {
                let bytes = kitty_csi(code as nat, event, flags, text);
                if bytes.len() > MAX_ENCODED_KEY_BYTES {
                    Err(InputError::EncodedKeyCapacity)
                } else {
                    Ok(EncodedModel::Bytes(bytes))
                }
            },
        },
    }
}

fn encode_kitty_csi(event: &TerminalKeyboardEvent, flags: KittyKeyboardFlags) -> (result: Result<
    EncodedKey,
    InputError,
>)
    ensures
        key_agrees(result, kitty_csi_model(event, flags)),
{
    let code: u32 = match kitty_key_code(&event.identity) {
        Some(code) => code,
        None => {
            return Ok(EncodedKey::Ignored(IgnoreReason::UnknownKey));
        },
    };
    let mut output: Vec<u8> = vec![27, 91];
    push_decimal(&mut output, code as u64);
    append_kitty_alternate_keys(&mut output, event, flags);
    output.push(59);
    push_decimal(&mut output, kitty_modifiers(event) as u64);
    if flags.contains(KittyKeyboardFlags::REPORT_EVENTS) {
        output.push(58);
        push_decimal(&mut output, kitty_event_type(event.kind) as u64);
    }
    match append_kitty_associated_text(&mut output, event, flags) {
        Ok(_) => {},
        Err(error) => {
            return Err(error);
        },
    }
    output.push(117);
    assert(output@ =~= kitty_csi(code as nat, event, flags, associated_text(event, flags)->Ok_0));
    if output.len() > MAX_ENCODED_KEY_BYTES {
        return Err(InputError::EncodedKeyCapacity);
    }
    Ok(EncodedKey::Bytes(output))
}

/// What an event becomes under the kitty protocol.
pub open spec fn kitty_model(
    event: &TerminalKeyboardEvent,
    flags: KittyKeyboardFlags,
    modes: TerminalModes,
) -> Result<EncodedModel, InputError> {
    let logical = event.identity.logical;
    let m = event.modifiers;
    let release = event.kind is Release;
    let report = flags.has(KittyKeyboardFlags::REPORT_EVENTS);
    let all = flags.has(KittyKeyboardFlags::ALL_KEYS);
    let numpad = event.identity.location is Numpad;
    let text_key = logical is Character;
    let reset_key = logical is Backspace || logical is Tab || logical is Enter;
    let silent = Ok(EncodedModel::Ignored(IgnoreReason::ReleaseNotReported));
    let unknown = Ok(EncodedModel::Ignored(IgnoreReason::UnknownKey));
    let disambiguated = reset_key || logical is Escape || (text_key && (m.alt || m.control));
    let high_function = logical is Function && 13 <= logical->Function_0 <= 35;
    let use_csi = all || numpad || high_function || (!reset_key && !text_key && report) || (
    flags.has(KittyKeyboardFlags::DISAMBIGUATE) && disambiguated);
    let key = key_of(logical);
    if !numpad && key is Some && is_legacy_functional(key->0) {
        if report {
            as_bytes(legacy_functional_seq(key->0, event))
        } else if release {
            silent
        } else {
            as_bytes(key_seq(key->0, m, modes))
        }
    } else if reset_key && release && !all {
        silent
    } else if !use_csi {
        if release {
            silent
        } else if text_key && !m.alt && !m.control {
            Ok(EncodedModel::TextFallback)
        } else {
            match key {
                Some(key) => as_bytes(key_seq(key, m, modes)),
                None => unknown,
            }
        }
    } else if release && !report {
        silent
    } else {
        kitty_csi_model(event, flags)
    }
}

fn encode_kitty(
    event: &TerminalKeyboardEvent,
    flags: KittyKeyboardFlags,
    modes: TerminalModes,
) -> (result: Result<EncodedKey, InputError>)
    ensures
        key_agrees(result, kitty_model(event, flags, modes)),
{
    let logical = event.identity.logical;
    let m = event.modifiers;
    let release = event.kind == KeyboardEventKind::Release;
    let report = flags.contains(KittyKeyboardFlags::REPORT_EVENTS);
    let all = flags.contains(KittyKeyboardFlags::ALL_KEYS);
    let numpad = event.identity.location == KeyLocation::Numpad;
    let key = terminal_key(logical);
    if !numpad {
        if let Some(key) = key {
            let legacy = match key {
                TerminalKey::Up
                | TerminalKey::Down
                | TerminalKey::Left
                | TerminalKey::Right
                | TerminalKey::Home
                | TerminalKey::End
                | TerminalKey::Insert
                | TerminalKey::Delete
                | TerminalKey::PageUp
                | TerminalKey::PageDown => true,
                TerminalKey::Function(number) => 1 <= number && number <= 12,
                _ => false,
            };
            if legacy {
                if report {
                    let ghost model = legacy_functional_seq(key, event);
                    let result = into_bytes(encode_kitty_legacy_functional(key, event));
                    assert(key_agrees(result, as_bytes(model)));
                    return result;
                }
                if release {
                    return Ok(EncodedKey::Ignored(IgnoreReason::ReleaseNotReported));
                }
                let ghost model = key_seq(key, m, modes);
                let result = into_bytes(encode_key(key, m, modes));
                assert(key_agrees(result, as_bytes(model)));
                return result;
            }
        }
    }
    let text_key = matches!(logical, LogicalKey::Character(_));
    let reset_key = matches!(logical, LogicalKey::Backspace | LogicalKey::Tab | LogicalKey::Enter);
    if reset_key && release && !all {
        return Ok(EncodedKey::Ignored(IgnoreReason::ReleaseNotReported));
    }
    let disambiguated = reset_key || matches!(logical, LogicalKey::Escape) || (text_key && (m.alt
        || m.control));
    let high_function = match logical {
        LogicalKey::Function(number) => 13 <= number && number <= 35,
        _ => false,
    };
    let use_csi = all || numpad || high_function || (!reset_key && !text_key && report) || (
    flags.contains(KittyKeyboardFlags::DISAMBIGUATE) && disambiguated);
    if !use_csi {
        if release {
            return Ok(EncodedKey::Ignored(IgnoreReason::ReleaseNotReported));
        }
        if text_key && !m.alt && !m.control {
            return Ok(EncodedKey::TextFallback);
        }
        return match key {
            Some(key) => {
                let ghost model = key_seq(key, m, modes);
                let result = into_bytes(encode_key(key, m, modes));
                assert(key_agrees(result, as_bytes(model)));
                result
            },
            None => Ok(EncodedKey::Ignored(IgnoreReason::UnknownKey)),
        };
    }
    if release && !report {
        return Ok(EncodedKey::Ignored(IgnoreReason::ReleaseNotReported));
    }
    encode_kitty_csi(event, flags)
}

/// What a keyboard event becomes under the protocols that are on.
pub open spec fn event_model(event: &TerminalKeyboardEvent, modes: TerminalModes) -> Result<
    EncodedModel,
    InputError,
> {
    let logical = event.identity.logical;
    let level = modes.keyboard.modify_other_keys;
    if modes.keyboard.kitty.bits != 0 || (logical is Function && 13 <= logical->Function_0 <= 35) {
        kitty_model(event, modes.keyboard.kitty, modes)
    } else if event.kind is Release {
        Ok(EncodedModel::Ignored(IgnoreReason::ReleaseNotReported))
    } else if modify_other_keys_model(event, level) is Some {
        Ok(EncodedModel::Bytes(modify_other_keys_model(event, level)->0))
    } else if event.identity.location is Numpad {
        keypad_model(event, modes)
    } else {
        match key_of(logical) {
            None => Ok(text_or_unknown(event)),
            Some(key) => if key is Char && !event.modifiers.control && !event.modifiers.alt {
                Ok(EncodedModel::TextFallback)
            } else {
                as_bytes(key_seq(key, event.modifiers, modes))
            },
        }
    }
}

/// Encodes a keyboard event under the protocols that are on.
pub fn encode_keyboard_event(event: &TerminalKeyboardEvent, modes: TerminalModes) -> (result: Result<
    EncodedKey,
    InputError,
>)
    ensures
        key_agrees(result, event_model(event, modes)),
{
    let kitty = modes.keyboard.kitty;
    let high_function = match event.identity.logical {
        LogicalKey::Function(number) => 13 <= number && number <= 35,
        _ => false,
    };
    if !kitty.is_empty() || high_function {
        return encode_kitty(event, kitty, modes);
    }
    if event.kind == KeyboardEventKind::Release {
        return Ok(EncodedKey::Ignored(IgnoreReason::ReleaseNotReported));
    }
    if let Some(encoded) = encode_modify_other_keys(event, modes.keyboard.modify_other_keys) {
        return Ok(EncodedKey::Bytes(encoded));
    }
    if event.identity.location == KeyLocation::Numpad {
        return encode_keypad(event, modes);
    }
    let key = match terminal_key(event.identity.logical) {
        Some(key) => key,
        None => {
            return if event.text.is_some() {
                Ok(EncodedKey::TextFallback)
            } else {
                Ok(EncodedKey::Ignored(IgnoreReason::UnknownKey))
            };
        },
    };
    if matches!(key, TerminalKey::Char(_)) && !event.modifiers.control && !event.modifiers.alt {
        return Ok(EncodedKey::TextFallback);
    }
    let ghost model = key_seq(key, event.modifiers, modes);
    let result = into_bytes(encode_key(key, event.modifiers, modes));
    assert(key_agrees(result, as_bytes(model)));
    result
}

/// The bytes of a focus change, where the program asked for them.
pub open spec fn focus_seq(focused: bool, modes: TerminalModes) -> Option<Seq<u8>> {
    if modes.focus_reporting {
        Some(seq![27u8, 91, if focused { 73u8 } else { 79u8 }])
    } else {
        None
    }
}

/// The report of a focus change, where the program asked for it.
pub fn encode_focus(focused: bool, modes: TerminalModes) -> (result: Option<Vec<u8>>)
    ensures
        match focus_seq(focused, modes) {
            Some(bytes) => result is Some && result->0@ == bytes,
            None => result is None,
        },
        result is Some <==> modes.focus_reporting,
        result is Some ==> result->0@ == seq![27u8, 91, if focused { 73u8 } else { 79u8 }],
{
    if modes.focus_reporting {
        let last: u8 = if focused { 73 } else { 79 };
        let out: Vec<u8> = vec![27, 91, last];
        assert(out@ =~= seq![27u8, 91, last]);
        Some(out)
    } else {
        None
    }
}

/// `unit`, `count` times over.
pub open spec fn repeated(unit: Seq<u8>, count: nat) -> Seq<u8>
    decreases count,
{
    if count == 0 {
        Seq::empty()
    } else {
        repeated(unit, (count - 1) as nat) + unit
    }
}

/// How many cursor keys a wheel movement of so many lines becomes: one a line, twelve at most.
pub open spec fn scroll_count(lines: i32) -> nat {
    let distance = if lines < 0 {
        -lines
    } else {
        lines as int
    };
    if distance > 12 {
        12
    } else {
        distance as nat
    }
}

/// The cursor keys that a wheel movement becomes, where it becomes some.
pub open spec fn scroll_seq(lines: i32, modes: TerminalModes) -> Option<Seq<u8>> {
    if lines != 0 && modes.mouse_protocol is Off && modes.alternate_screen
        && modes.alternate_scroll {
        Some(
            repeated(
                cursor_seq(
                    if lines > 0 {
                        65
                    } else {
                        66
                    },
                    modes.application_cursor,
                    Modifiers::none(),
                ),
                scroll_count(lines),
            ),
        )
    } else {
        None
    }
}

/// On the alternate screen a wheel movement becomes cursor keys, unless the program asked for
/// the pointer itself.
pub fn encode_alternate_scroll(lines: i32, modes: TerminalModes) -> (result: Option<Vec<u8>>)
    ensures
        match scroll_seq(lines, modes) {
            Some(bytes) => result is Some && result->0@ == bytes,
            None => result is None,
        },
        result is Some <==> lines != 0 && modes.mouse_protocol is Off && modes.alternate_screen
            && modes.alternate_scroll,
        result is Some ==> result->0@ == repeated(
            cursor_seq(
                if lines > 0 {
                    65
                } else {
                    66
                },
                modes.application_cursor,
                Modifiers::none(),
            ),
            scroll_count(lines),
        ),
{
    if lines == 0 || modes.mouse_protocol != MouseProtocol::Off || !modes.alternate_screen
        || !modes.alternate_scroll {
        return None;
    }
    let last: u8 = if lines > 0 { 65 } else { 66 };
    let unit = cursor(last, modes.application_cursor, Modifiers::default());
    let count: usize = if lines > 12 || lines < -12 {
        12
    } else if lines < 0 {
        (-lines) as usize
    } else {
        lines as usize
    };
    let mut out: Vec<u8> = Vec::new();
    let mut i: usize = 0;
    assert(out@ =~= repeated(unit@, 0));
    while i < count
        invariant
            i <= count,
            out@ == repeated(unit@, i as nat),
        decreases count - i,
    {
        push_all(&mut out, unit.as_slice());
        i += 1;
    }
    Some(out)
}

/// The button number of a pointer report, with its modifiers and motion.
pub open spec fn mouse_code(button: MouseButton, state: ButtonState, m: Modifiers) -> nat {
    let base: nat = match (button, state) {
        (_, ButtonState::Released) => 3,
        (MouseButton::Left, _) => 0,
        (MouseButton::Middle, _) => 1,
        (MouseButton::Right, _) => 2,
        (MouseButton::WheelUp, _) => 64,
        (MouseButton::WheelDown, _) => 65,
    };
    base + 4 * one_if(m.shift) + 8 * one_if(m.alt) + 16 * one_if(m.control) + 32 * one_if(
        state is Motion,
    )
}

/// The bytes of a pointer report, or nothing where pointer reports are off or shift keeps the
/// event for the terminal itself. Coordinates count from one.
pub open spec fn mouse_seq(
    button: MouseButton,
    state: ButtonState,
    column: u16,
    line: u16,
    m: Modifiers,
    modes: TerminalModes,
) -> Result<Option<Seq<u8>>, InputError> {
    let code = mouse_code(button, state, m);
    let x = column as nat + 1;
    let y = line as nat + 1;
    if modes.mouse_protocol is Off || m.shift {
        Ok(None)
    } else {
        match modes.mouse_encoding {
            MouseEncoding::Sgr => Ok(
                Some(
                    seq![27u8, 91, 60] + decimal(code) + seq![59u8] + decimal(x) + seq![59u8]
                        + decimal(y) + seq![
                        if state is Released {
                            109u8
                        } else {
                            77u8
                        },
                    ],
                ),
            ),
            MouseEncoding::Legacy => if x > 223 || y > 223 {
                Err(InputError::MouseCoordinate)
            } else {
                Ok(
                    Some(
                        seq![27u8, 91, 77, (code + 32) as u8, (x + 32) as u8, (y + 32) as u8],
                    ),
                )
            },
            MouseEncoding::Utf8 => if !is_scalar((x + 32) as u32) || !is_scalar((y + 32) as u32) {
                Err(InputError::MouseCoordinate)
            } else {
                Ok(
                    Some(
                        seq![27u8, 91, 77] + encode_utf8(seq![(code + 32) as u8 as char])
                            + encode_utf8(seq![(x + 32) as u32 as char]) + encode_utf8(
                            seq![(y + 32) as u32 as char],
                        ),
                    ),
                )
            },
        }
    }
}

fn push_char_of(out: &mut Vec<u8>, code: u32) -> (result: bool)
    ensures
        result == is_scalar(code),
        result ==> final(out)@ == old(out)@ + encode_utf8(seq![code as char]),
{
    match core::char::from_u32(code) {
        Some(c) => {
            proof {
                vstd::utf8::char_u32_cast(c, code);
            }
            let bytes = char_bytes(c);
            push_all(out, bytes.as_slice());
            true
        },
        None => false,
    }
}

/// Encodes a pointer event in the encoding that the program chose.
pub fn encode_mouse(
    button: MouseButton,
    state: ButtonState,
    column: u16,
    line: u16,
    modifiers: Modifiers,
    modes: TerminalModes,
) -> (result: Result<Option<Vec<u8>>, InputError>)
    ensures
        match mouse_seq(button, state, column, line, modifiers, modes) {
            Ok(Some(bytes)) => result is Ok && result->Ok_0 is Some && result->Ok_0->0@ == bytes,
            Ok(None) => result is Ok && result->Ok_0 is None,
            Err(error) => result == Err::<Option<Vec<u8>>, InputError>(error),
        },
{
    if modes.mouse_protocol == MouseProtocol::Off || modifiers.shift {
        return Ok(None);
    }
    let x: u32 = column as u32 + 1;
    let y: u32 = line as u32 + 1;
    let mut code: u8 = match (button, state) {
        (_, ButtonState::Released) => 3,
        (MouseButton::Left, _) => 0,
        (MouseButton::Middle, _) => 1,
        (MouseButton::Right, _) => 2,
        (MouseButton::WheelUp, _) => 64,
        (MouseButton::WheelDown, _) => 65,
    };
    if modifiers.alt {
        code += 8;
    }
    if modifiers.control {
        code += 16;
    }
    if state == ButtonState::Motion {
        code += 32;
    }
    match modes.mouse_encoding {
        MouseEncoding::Sgr => {
            let last: u8 = if state == ButtonState::Released { 109 } else { 77 };
            let mut out: Vec<u8> = vec![27, 91, 60];
            push_decimal(&mut out, code as u64);
            out.push(59);
            push_decimal(&mut out, x as u64);
            out.push(59);
            push_decimal(&mut out, y as u64);
            out.push(last);
            assert(out@ =~= seq![27u8, 91, 60] + decimal(code as nat) + seq![59u8] + decimal(
                x as nat,
            ) + seq![59u8] + decimal(y as nat) + seq![last]);
            Ok(Some(out))
        },
        MouseEncoding::Legacy => {
            if x > 223 || y > 223 {
                return Err(InputError::MouseCoordinate);
            }
            let out: Vec<u8> = vec![27, 91, 77, code + 32, (x + 32) as u8, (y + 32) as u8];
            assert(out@ =~= seq![27u8, 91, 77, (code + 32) as u8, (x + 32) as u8, (y + 32) as u8]);
            Ok(Some(out))
        },
        MouseEncoding::Utf8 => {
            let mut out: Vec<u8> = vec![27, 91, 77];
            let first = char_bytes((code + 32) as char);
            push_all(&mut out, first.as_slice());
            if !push_char_of(&mut out, x + 32) {
                return Err(InputError::MouseCoordinate);
            }
            if !push_char_of(&mut out, y + 32) {
                return Err(InputError::MouseCoordinate);
            }
            assert(out@ =~= seq![27u8, 91, 77] + encode_utf8(seq![(code + 32) as u8 as char])
                + encode_utf8(seq![(x + 32) as u32 as char]) + encode_utf8(
                seq![(y + 32) as u32 as char],
            ));
            Ok(Some(out))
        },
    }
}

/// Line endings of two bytes become one newline.
pub open spec fn collapse_crlf(bytes: Seq<u8>) -> Seq<u8>
    decreases bytes.len(),
{
    if bytes.len() == 0 {
        Seq::empty()
    } else if bytes.len() >= 2 && bytes[0] == 13 && bytes[1] == 10 {
        seq![10u8] + collapse_crlf(bytes.skip(2))
    } else {
        seq![bytes[0]] + collapse_crlf(bytes.skip(1))
    }
}

/// A newline becomes a carriage return, as the enter key sends it.
pub open spec fn newline_as_return(byte: u8) -> u8 {
    if byte == 10 {
        13
    } else {
        byte
    }
}

/// The bytes of a paste: every line ending is one carriage return.
pub open spec fn paste_body(bytes: Seq<u8>) -> Seq<u8> {
    collapse_crlf(bytes).map_values(|b: u8| newline_as_return(b))
}

/// `CSI 200 ~`, which opens a bracketed paste.
pub open spec fn paste_open() -> Seq<u8> {
    seq![27u8, 91, 50, 48, 48, 126]
}

/// `CSI 201 ~`, which closes a bracketed paste.
pub open spec fn paste_close() -> Seq<u8> {
    seq![27u8, 91, 50, 48, 49, 126]
}

/// The transaction of a paste.
pub open spec fn paste_seq(bytes: Seq<u8>, bracketed: bool) -> Result<Seq<u8>, InputError> {
    let body = paste_body(bytes);
    if bytes.contains(0) {
        Err(InputError::Nul)
    } else if bracketed {
        if body.len() > MAX_PASTE_BODY_BYTES {
            Err(InputError::Capacity)
        } else {
            Ok(paste_open() + body + paste_close())
        }
    } else if body.len() > MAX_TRANSACTION_BYTES {
        Err(InputError::Capacity)
    } else {
        Ok(body)
    }
}

fn paste_bytes(bytes: &[u8]) -> (result: Vec<u8>)
    ensures
        result@ == paste_body(bytes@),
{
    let mut out: Vec<u8> = Vec::new();
    let mut i: usize = 0;
    let ghost f = |b: u8| newline_as_return(b);
    assert(bytes@.skip(0) =~= bytes@);
    assert(out@ + collapse_crlf(bytes@).map_values(f) =~= collapse_crlf(bytes@).map_values(f));
    while i < bytes.len()
        invariant
            i <= bytes@.len(),
            f == |b: u8| newline_as_return(b),
            out@ + collapse_crlf(bytes@.skip(i as int)).map_values(f) == paste_body(bytes@),
        decreases bytes@.len() - i,
    {
        let ghost here = bytes@.skip(i as int);
        let ghost before = out@;
        if bytes[i] == 13 && bytes.len() - i >= 2 && bytes[i + 1] == 10 {
            out.push(13);
            proof {
                let rest = collapse_crlf(here.skip(2));
                assert(here.skip(2) =~= bytes@.skip(i + 2));
                assert(before + (seq![10u8] + rest).map_values(f) =~= out@ + rest.map_values(f));
            }
            i += 2;
        } else {
            let byte: u8 = if bytes[i] == 10 { 13 } else { bytes[i] };
            out.push(byte);
            proof {
                let rest = collapse_crlf(here.skip(1));
                assert(here.skip(1) =~= bytes@.skip(i + 1));
                assert(before + (seq![here[0]] + rest).map_values(f) =~= out@ + rest.map_values(
                    f,
                ));
            }
            i += 1;
        }
    }
    assert(out@ + collapse_crlf(bytes@.skip(i as int)).map_values(f) =~= out@);
    out
}

fn has_nul(bytes: &[u8]) -> (result: bool)
    ensures
        result == bytes@.contains(0),
{
    let mut i: usize = 0;
    while i < bytes.len()
        invariant
            i <= bytes@.len(),
            forall|k: int| 0 <= k < i ==> bytes@[k] != 0,
        decreases bytes@.len() - i,
    {
        if bytes[i] == 0 {
            return true;
        }
        i += 1;
    }
    false
}

/// The transaction that pastes `text`.
pub fn paste_transaction(text: &str, bracketed: bool) -> (result: Result<Vec<u8>, InputError>)
    ensures
        agrees(result, paste_seq(encode_utf8(text@), bracketed)),
{
    let bytes = text.as_bytes();
    if has_nul(bytes) {
        return Err(InputError::Nul);
    }
    let body = paste_bytes(bytes);
    if body.len() > MAX_TRANSACTION_BYTES || (bracketed && body.len() > MAX_PASTE_BODY_BYTES) {
        return Err(InputError::Capacity);
    }
    if !bracketed {
        return Ok(body);
    }
    let mut out: Vec<u8> = vec![27, 91, 50, 48, 48, 126];
    push_all(&mut out, body.as_slice());
    let close: Vec<u8> = vec![27, 91, 50, 48, 49, 126];
    push_all(&mut out, close.as_slice());
    assert(out@ =~= paste_open() + body@ + paste_close());
    Ok(out)
}

/// The bytes of committed text.
pub fn commit_text(text: &str) -> (result: Result<Vec<u8>, InputError>)
    ensures
        agrees(
            result,
            if encode_utf8(text@).len() > MAX_COMMIT_BYTES || encode_utf8(text@).contains(0) {
                Err(InputError::Capacity)
            } else {
                Ok(encode_utf8(text@))
            },
        ),
{
    let bytes = text.as_bytes();
    if bytes.len() > MAX_COMMIT_BYTES || has_nul(bytes) {
        return Err(InputError::Capacity);
    }
    Ok(string_bytes(text))
}

/// With shift held, a pointer event is never reported to the program.
pub proof fn shift_keeps_the_pointer(
    button: MouseButton,
    state: ButtonState,
    column: u16,
    line: u16,
    m: Modifiers,
    modes: TerminalModes,
)
    requires
        m.shift,
    ensures
        mouse_seq(button, state, column, line, m, modes) == Ok::<Option<Seq<u8>>, InputError>(None),
{
}

/// Without any protocol switched on, the release of a key below F13 is never reported.
pub proof fn plain_release_is_silent(event: &TerminalKeyboardEvent, modes: TerminalModes)
    requires
        event.kind is Release,
        modes.keyboard.kitty.bits == 0,
        !(event.identity.logical is Function) || event.identity.logical->Function_0 < 13,
    ensures
        event_model(event, modes) == Ok::<EncodedModel, InputError>(
            EncodedModel::Ignored(IgnoreReason::ReleaseNotReported),
        ),
{
}

/// While a kitty flag is on, `modifyOtherKeys` has no say.
pub proof fn kitty_precedes_modify_other_keys(
    event: &TerminalKeyboardEvent,
    modes: TerminalModes,
    level: ModifyOtherKeysLevel,
)
    requires
        modes.keyboard.kitty.bits != 0,
    ensures
        ({
            let keyboard = crate::terminal::snapshot::KeyboardProtocolState {
                modify_other_keys: level,
                ..modes.keyboard
            };
            event_model(event, TerminalModes { keyboard, ..modes }) == event_model(event, modes)
        }),
{
    let keyboard = crate::terminal::snapshot::KeyboardProtocolState {
        modify_other_keys: level,
        ..modes.keyboard
    };
    let other = TerminalModes { keyboard, ..modes };
    assert(forall|key: TerminalKey|
        #![trigger key_seq(key, event.modifiers, other)]
        key_seq(key, event.modifiers, other) == key_seq(key, event.modifiers, modes));
}

/// Alternate scrolling sends twelve cursor keys at most.
pub proof fn alternate_scroll_is_bounded(lines: i32, unit: Seq<u8>)
    ensures
        repeated(unit, scroll_count(lines)).len() <= 12 * unit.len(),
{
    repeated_len(unit, scroll_count(lines));
    assert(scroll_count(lines) * unit.len() <= 12 * unit.len()) by (nonlinear_arith)
        requires
            scroll_count(lines) <= 12,
    ;
}

proof fn repeated_len(unit: Seq<u8>, count: nat)
    ensures
        repeated(unit, count).len() == count * unit.len(),
    decreases count,
{
    assert(0 * unit.len() == 0);
    if count > 0 {
        repeated_len(unit, (count - 1) as nat);
        assert(count * unit.len() == (count - 1) * unit.len() + unit.len()) by (nonlinear_arith)
            requires
                count > 0,
        ;
    }
}

proof fn collapse_keeps_bytes(bytes: Seq<u8>)
    ensures
        collapse_crlf(bytes).len() <= bytes.len(),
        forall|i: int| 0 <= i < collapse_crlf(bytes).len() ==> bytes.contains(#[trigger] collapse_crlf(bytes)[i]),
    decreases bytes.len(),
{
    if bytes.len() > 0 {
        let n: int = if bytes.len() >= 2 && bytes[0] == 13 && bytes[1] == 10 { 2 } else { 1 };
        collapse_keeps_bytes(bytes.skip(n));
        let rest = collapse_crlf(bytes.skip(n));
        assert forall|i: int| 0 <= i < collapse_crlf(bytes).len() implies bytes.contains(
            #[trigger] collapse_crlf(bytes)[i],
        ) by {
            if i == 0 {
                assert(bytes.contains(bytes[n - 1]));
            } else {
                let b = rest[i - 1];
                let k = choose|k: int| 0 <= k < bytes.skip(n).len() && bytes.skip(n)[k] == b;
                assert(bytes[k + n] == b);
            }
        }
    }
}

/// A paste is one transaction within its limit. It holds neither a newline nor a NUL, and the
/// bracketed form is the plain body between the two brackets.
pub proof fn paste_is_one_bounded_transaction(bytes: Seq<u8>, bracketed: bool)
    ensures
        match paste_seq(bytes, bracketed) {
            Ok(out) => {
                let body = paste_body(bytes);
                &&& out.len() <= MAX_TRANSACTION_BYTES
                &&& out == (if bracketed {
                    paste_open() + body + paste_close()
                } else {
                    body
                })
                &&& !body.contains(10)
                &&& !body.contains(0)
            },
            Err(_) => true,
        },
{
    collapse_keeps_bytes(bytes);
    let lines = collapse_crlf(bytes);
    let body = paste_body(bytes);
    if !bytes.contains(0) {
        assert forall|i: int| 0 <= i < body.len() implies body[i] != 10 && body[i] != 0 by {
            assert(bytes.contains(lines[i]));
        }
    }
}

} // verus!
