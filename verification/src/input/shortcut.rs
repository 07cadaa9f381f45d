//! Key bindings: which action a key event stands for.
use vstd::prelude::*;
use crate::config::{Action, KeyBinding};
use crate::keys::{KeyInput, KeyState, LogicalKey, ModifierMask};
use crate::text::{
    chars_of, dec, is_control, is_control_char, is_text, lower_char, lower_text, lowered, to_lower,
};

verus! {

#[derive(Clone, Copy, Debug, PartialEq, Eq, Structural)]
pub enum LogicalKeyPattern {
    Character(char),
    Backspace,
    Tab,
    Enter,
    Escape,
    Insert,
    Delete,
    Home,
    End,
    PageUp,
    PageDown,
    ArrowUp,
    ArrowDown,
    ArrowLeft,
    ArrowRight,
    Function(u8),
}

impl LogicalKeyPattern {
    /// Whether a key is the one that is meant. ASCII letters count without their case.
    pub open spec fn means(self, key: LogicalKey) -> bool {
        match (self, key) {
            (LogicalKeyPattern::Character(expected), LogicalKey::Character(actual)) => lower_char(
                expected,
            ) == lower_char(actual),
            (LogicalKeyPattern::Backspace, LogicalKey::Backspace) => true,
            (LogicalKeyPattern::Tab, LogicalKey::Tab) => true,
            (LogicalKeyPattern::Enter, LogicalKey::Enter) => true,
            (LogicalKeyPattern::Escape, LogicalKey::Escape) => true,
            (LogicalKeyPattern::Insert, LogicalKey::Insert) => true,
            (LogicalKeyPattern::Delete, LogicalKey::Delete) => true,
            (LogicalKeyPattern::Home, LogicalKey::Home) => true,
            (LogicalKeyPattern::End, LogicalKey::End) => true,
            (LogicalKeyPattern::PageUp, LogicalKey::PageUp) => true,
            (LogicalKeyPattern::PageDown, LogicalKey::PageDown) => true,
            (LogicalKeyPattern::ArrowUp, LogicalKey::ArrowUp) => true,
            (LogicalKeyPattern::ArrowDown, LogicalKey::ArrowDown) => true,
            (LogicalKeyPattern::ArrowLeft, LogicalKey::ArrowLeft) => true,
            (LogicalKeyPattern::ArrowRight, LogicalKey::ArrowRight) => true,
            (LogicalKeyPattern::Function(expected), LogicalKey::Function(actual)) => expected
                == actual,
            _ => false,
        }
    }

    /// Decides [`LogicalKeyPattern::means`].
    pub fn matches(self, key: LogicalKey) -> (result: bool)
        ensures
            result == self.means(key),
    {
        match (self, key) {
            (LogicalKeyPattern::Character(expected), LogicalKey::Character(actual)) => to_lower(
                expected,
            ) == to_lower(actual),
            (LogicalKeyPattern::Backspace, LogicalKey::Backspace) => true,
            (LogicalKeyPattern::Tab, LogicalKey::Tab) => true,
            (LogicalKeyPattern::Enter, LogicalKey::Enter) => true,
            (LogicalKeyPattern::Escape, LogicalKey::Escape) => true,
            (LogicalKeyPattern::Insert, LogicalKey::Insert) => true,
            (LogicalKeyPattern::Delete, LogicalKey::Delete) => true,
            (LogicalKeyPattern::Home, LogicalKey::Home) => true,
            (LogicalKeyPattern::End, LogicalKey::End) => true,
            (LogicalKeyPattern::PageUp, LogicalKey::PageUp) => true,
            (LogicalKeyPattern::PageDown, LogicalKey::PageDown) => true,
            (LogicalKeyPattern::ArrowUp, LogicalKey::ArrowUp) => true,
            (LogicalKeyPattern::ArrowDown, LogicalKey::ArrowDown) => true,
            (LogicalKeyPattern::ArrowLeft, LogicalKey::ArrowLeft) => true,
            (LogicalKeyPattern::ArrowRight, LogicalKey::ArrowRight) => true,
            (LogicalKeyPattern::Function(expected), LogicalKey::Function(actual)) => expected
                == actual,
            _ => false,
        }
    }
}

#[derive(Clone, Copy, Debug, PartialEq, Eq, Structural)]
pub struct KeyChord {
    pub key: LogicalKeyPattern,
    pub modifiers: ModifierMask,
}

#[derive(Clone, Copy, Debug, PartialEq, Eq, Structural)]
pub enum BindingOrigin {
    Default,
    User { index: usize },
}

#[derive(Clone, Copy, Debug, PartialEq, Eq, Structural)]
pub enum ShortcutResult {
    Matched(Action),
    NotMatched,
}

/// Whether a binding is for a key event.
pub open spec fn binds(binding: KeyBinding, key: KeyInput) -> bool {
    binding.chord.modifiers == key.shortcut_modifiers && binding.chord.key.means(key.logical_key)
}

/// The last binding for a key event.
pub open spec fn last_binding(bindings: Seq<KeyBinding>, key: KeyInput) -> Option<KeyBinding>
    decreases bindings.len(),
{
    if bindings.len() == 0 {
        None
    } else if binds(bindings.last(), key) {
        Some(bindings.last())
    } else {
        last_binding(bindings.drop_last(), key)
    }
}

/// The action of a key event, if it has one.
pub open spec fn resolved(bindings: Seq<KeyBinding>, key: KeyInput) -> ShortcutResult {
    if key.state is Released {
        ShortcutResult::NotMatched
    } else {
        match last_binding(bindings, key) {
            Some(binding) => ShortcutResult::Matched(binding.action),
            None => ShortcutResult::NotMatched,
        }
    }
}

/// The action of a key event: that of the last binding for it. The release of a key has none.
pub fn resolve(bindings: &Vec<KeyBinding>, key: &KeyInput) -> (result: ShortcutResult)
    ensures
        result == resolved(bindings@, *key),
        result == (if key.state is Released {
            ShortcutResult::NotMatched
        } else {
            match last_binding(bindings@, *key) {
                Some(binding) => ShortcutResult::Matched(binding.action),
                None => ShortcutResult::NotMatched,
            }
        }),
{
    if key.state == KeyState::Released {
        return ShortcutResult::NotMatched;
    }
    let mut i: usize = bindings.len();
    assert(bindings@.take(i as int) =~= bindings@);
    while i > 0
        invariant
            i <= bindings@.len(),
            !(key.state is Released),
            last_binding(bindings@, *key) == last_binding(bindings@.take(i as int), *key),
        decreases i,
    {
        i -= 1;
        assert(bindings@.take(i + 1).drop_last() =~= bindings@.take(i as int));
        let binding = bindings[i];
        if binding.chord.modifiers == key.shortcut_modifiers && binding.chord.key.matches(
            key.logical_key,
        ) {
            return ShortcutResult::Matched(binding.action);
        }
    }
    ShortcutResult::NotMatched
}

/// A binding that is added later takes precedence over all others for the same key.
pub proof fn the_last_binding_wins(bindings: Seq<KeyBinding>, added: KeyBinding, key: KeyInput)
    ensures
        binds(added, key) ==> last_binding(bindings.push(added), key) == Some(added),
        !binds(added, key) ==> last_binding(bindings.push(added), key) == last_binding(
            bindings,
            key,
        ),
{
    assert(bindings.push(added).drop_last() =~= bindings);
}

#[derive(Clone, Copy, Debug, PartialEq, Eq, Structural)]
pub struct ParseKeyError;

/// The key that a name stands for, in any case.
pub open spec fn named_key(name: Seq<char>) -> Option<LogicalKeyPattern> {
    if name == "backspace"@ {
        Some(LogicalKeyPattern::Backspace)
    } else if name == "tab"@ {
        Some(LogicalKeyPattern::Tab)
    } else if name == "enter"@ || name == "return"@ {
        Some(LogicalKeyPattern::Enter)
    } else if name == "escape"@ || name == "esc"@ {
        Some(LogicalKeyPattern::Escape)
    } else if name == "insert"@ {
        Some(LogicalKeyPattern::Insert)
    } else if name == "delete"@ {
        Some(LogicalKeyPattern::Delete)
    } else if name == "home"@ {
        Some(LogicalKeyPattern::Home)
    } else if name == "end"@ {
        Some(LogicalKeyPattern::End)
    } else if name == "pageup"@ || name == "page_up"@ {
        Some(LogicalKeyPattern::PageUp)
    } else if name == "pagedown"@ || name == "page_down"@ {
        Some(LogicalKeyPattern::PageDown)
    } else if name == "up"@ {
        Some(LogicalKeyPattern::ArrowUp)
    } else if name == "down"@ {
        Some(LogicalKeyPattern::ArrowDown)
    } else if name == "left"@ {
        Some(LogicalKeyPattern::ArrowLeft)
    } else if name == "right"@ {
        Some(LogicalKeyPattern::ArrowRight)
    } else if name == "plus"@ {
        Some(LogicalKeyPattern::Character('+'))
    } else if name == "minus"@ {
        Some(LogicalKeyPattern::Character('-'))
    } else {
        None
    }
}

fn find_named(name: &String) -> (result: Option<LogicalKeyPattern>)
    ensures
        result == named_key(name@),
{
    if is_text(name, "backspace") {
        Some(LogicalKeyPattern::Backspace)
    } else if is_text(name, "tab") {
        Some(LogicalKeyPattern::Tab)
    } else if is_text(name, "enter") || is_text(name, "return") {
        Some(LogicalKeyPattern::Enter)
    } else if is_text(name, "escape") || is_text(name, "esc") {
        Some(LogicalKeyPattern::Escape)
    } else if is_text(name, "insert") {
        Some(LogicalKeyPattern::Insert)
    } else if is_text(name, "delete") {
        Some(LogicalKeyPattern::Delete)
    } else if is_text(name, "home") {
        Some(LogicalKeyPattern::Home)
    } else if is_text(name, "end") {
        Some(LogicalKeyPattern::End)
    } else if is_text(name, "pageup") || is_text(name, "page_up") {
        Some(LogicalKeyPattern::PageUp)
    } else if is_text(name, "pagedown") || is_text(name, "page_down") {
        Some(LogicalKeyPattern::PageDown)
    } else if is_text(name, "up") {
        Some(LogicalKeyPattern::ArrowUp)
    } else if is_text(name, "down") {
        Some(LogicalKeyPattern::ArrowDown)
    } else if is_text(name, "left") {
        Some(LogicalKeyPattern::ArrowLeft)
    } else if is_text(name, "right") {
        Some(LogicalKeyPattern::ArrowRight)
    } else if is_text(name, "plus") {
        Some(LogicalKeyPattern::Character('+'))
    } else if is_text(name, "minus") {
        Some(LogicalKeyPattern::Character('-'))
    } else {
        None
    }
}

/// The function key that a text names: `F` and a number from 1 to 12 in plain digits.
pub open spec fn function_key(value: Seq<char>) -> Option<u8> {
    if value.len() == 0 || !(value[0] == 'F' || value[0] == 'f') {
        None
    } else if value.len() == 2 && 49 <= value[1] as u32 <= 57 {
        Some((value[1] as u32 - 48) as u8)
    } else if value.len() == 3 && value[1] == '1' && 48 <= value[2] as u32 <= 50 {
        Some((value[2] as u32 - 38) as u8)
    } else {
        None
    }
}

fn find_function_key(value: &Vec<char>) -> (result: Option<u8>)
    ensures
        result == function_key(value@),
{
    if value.len() == 0 || !(value[0] == 'F' || value[0] == 'f') {
        return None;
    }
    if value.len() == 2 {
        let code: u32 = value[1] as u32;
        if 49 <= code && code <= 57 {
            return Some((code - 48) as u8);
        }
    }
    if value.len() == 3 && value[1] == '1' {
        let code: u32 = value[2] as u32;
        if 48 <= code && code <= 50 {
            return Some((code - 38) as u8);
        }
    }
    None
}

/// The function keys that texts name are those with the numbers from 1 to 12, and each of them is
/// named by its number and by nothing else, after either letter.
pub proof fn function_keys_have_one_spelling(value: Seq<char>)
    ensures
        match function_key(value) {
            Some(n) => {
                let number = dec(n as nat);
                &&& 1 <= n <= 12
                &&& value[0] == 'F' || value[0] == 'f'
                &&& value.len() == number.len() + 1
                &&& forall|i: int|
                    0 <= i < number.len() ==> value[i + 1] as u32 == #[trigger] number[i] as u32
            },
            None => true,
        },
        forall|n: nat|
            1 <= n <= 12 && value.len() > 0 && (value[0] == 'F' || value[0] == 'f') && value.skip(1)
                == #[trigger] dec(n) ==> function_key(value) == Some(n as u8),
{
    if function_key(value) is Some {
        let n = function_key(value)->0 as nat;
        short_numbers(n);
    }
    assert forall|n: nat|
        1 <= n <= 12 && value.len() > 0 && (value[0] == 'F' || value[0] == 'f') && value.skip(1)
            == #[trigger] dec(n) implies function_key(value) == Some(n as u8) by {
        short_numbers(n);
        assert(value.len() == dec(n).len() + 1);
        assert(value[1] == value.skip(1)[0]);
        if n >= 10 {
            assert(value[2] == value.skip(1)[1]);
        }
    }
}

proof fn short_numbers(n: nat)
    requires
        1 <= n <= 12,
    ensures
        n < 10 ==> dec(n).len() == 1 && dec(n)[0] as u32 == 48 + n,
        n >= 10 ==> dec(n).len() == 2 && dec(n)[0] == '1' && dec(n)[1] as u32 == 38 + n,
{
    reveal_with_fuel(dec, 2);
    if n >= 10 {
        assert(n / 10 == 1);
        assert(dec(1).len() == 1);
    }
}

/// The key that a text of the configuration stands for: a name, a function key, or one character
/// that is no control.
pub open spec fn key_of_text(value: Seq<char>) -> Result<LogicalKeyPattern, ParseKeyError> {
    if named_key(lower_text(value)) is Some {
        Ok(named_key(lower_text(value))->0)
    } else if function_key(value) is Some {
        Ok(LogicalKeyPattern::Function(function_key(value)->0))
    } else if value.len() == 1 && !is_control(value[0]) {
        Ok(LogicalKeyPattern::Character(value[0]))
    } else {
        Err(ParseKeyError)
    }
}

/// Parses the finite configuration key vocabulary or one Unicode scalar.
pub fn parse_key(value: &str) -> (result: Result<LogicalKeyPattern, ParseKeyError>)
    ensures
        result == key_of_text(value@),
{
    let name = lowered(value);
    if let Some(key) = find_named(&name) {
        return Ok(key);
    }
    let chars = chars_of(value);
    if let Some(number) = find_function_key(&chars) {
        return Ok(LogicalKeyPattern::Function(number));
    }
    if chars.len() == 1 && !is_control_char(chars[0]) {
        return Ok(LogicalKeyPattern::Character(chars[0]));
    }
    Err(ParseKeyError)
}

/// A name that stands for a key is its own; Enter and Escape have two, and the page keys may be
/// written in two words.
pub proof fn keys_go_by_their_names(name: Seq<char>)
    ensures
        match named_key(name) {
            None => true,
            Some(LogicalKeyPattern::Backspace) => name == "backspace"@,
            Some(LogicalKeyPattern::Tab) => name == "tab"@,
            Some(LogicalKeyPattern::Enter) => name == "enter"@ || name == "return"@,
            Some(LogicalKeyPattern::Escape) => name == "escape"@ || name == "esc"@,
            Some(LogicalKeyPattern::Insert) => name == "insert"@,
            Some(LogicalKeyPattern::Delete) => name == "delete"@,
            Some(LogicalKeyPattern::Home) => name == "home"@,
            Some(LogicalKeyPattern::End) => name == "end"@,
            Some(LogicalKeyPattern::PageUp) => name == "pageup"@ || name == "page_up"@,
            Some(LogicalKeyPattern::PageDown) => name == "pagedown"@ || name == "page_down"@,
            Some(LogicalKeyPattern::ArrowUp) => name == "up"@,
            Some(LogicalKeyPattern::ArrowDown) => name == "down"@,
            Some(LogicalKeyPattern::ArrowLeft) => name == "left"@,
            Some(LogicalKeyPattern::ArrowRight) => name == "right"@,
            Some(LogicalKeyPattern::Character(c)) => (c == '+' && name == "plus"@) || (c == '-'
                && name == "minus"@),
            Some(LogicalKeyPattern::Function(_)) => false,
        },
        named_key("backspace"@) is Some,
        named_key("tab"@) is Some,
        named_key("enter"@) is Some,
        named_key("return"@) is Some,
        named_key("escape"@) is Some,
        named_key("esc"@) is Some,
        named_key("insert"@) is Some,
        named_key("delete"@) is Some,
        named_key("home"@) is Some,
        named_key("end"@) is Some,
        named_key("pageup"@) is Some,
        named_key("page_up"@) is Some,
        named_key("pagedown"@) is Some,
        named_key("page_down"@) is Some,
        named_key("up"@) is Some,
        named_key("down"@) is Some,
        named_key("left"@) is Some,
        named_key("right"@) is Some,
        named_key("plus"@) is Some,
        named_key("minus"@) is Some,
{
}

/// A key of the configuration means the key of the same name and no other. A letter means itself in
/// either case, and any other character itself alone.
pub proof fn keys_mean_themselves(pattern: LogicalKeyPattern, a: char, b: char, n: u8)
    ensures
        pattern.means(LogicalKey::Backspace) <==> pattern is Backspace,
        pattern.means(LogicalKey::Tab) <==> pattern is Tab,
        pattern.means(LogicalKey::Enter) <==> pattern is Enter,
        pattern.means(LogicalKey::Escape) <==> pattern is Escape,
        pattern.means(LogicalKey::Insert) <==> pattern is Insert,
        pattern.means(LogicalKey::Delete) <==> pattern is Delete,
        pattern.means(LogicalKey::Home) <==> pattern is Home,
        pattern.means(LogicalKey::End) <==> pattern is End,
        pattern.means(LogicalKey::PageUp) <==> pattern is PageUp,
        pattern.means(LogicalKey::PageDown) <==> pattern is PageDown,
        pattern.means(LogicalKey::ArrowUp) <==> pattern is ArrowUp,
        pattern.means(LogicalKey::ArrowDown) <==> pattern is ArrowDown,
        pattern.means(LogicalKey::ArrowLeft) <==> pattern is ArrowLeft,
        pattern.means(LogicalKey::ArrowRight) <==> pattern is ArrowRight,
        pattern.means(LogicalKey::Function(n)) <==> pattern == LogicalKeyPattern::Function(n),
        LogicalKeyPattern::Character(a).means(LogicalKey::Character(a)),
        65 <= a as u32 <= 90 && b as u32 == a as u32 + 32 ==> LogicalKeyPattern::Character(a).means(
            LogicalKey::Character(b),
        ) && LogicalKeyPattern::Character(b).means(LogicalKey::Character(a)),
        a != b && !(65 <= a as u32 <= 90) && !(65 <= b as u32 <= 90)
            ==> !LogicalKeyPattern::Character(a).means(LogicalKey::Character(b)),
        pattern.means(LogicalKey::Character(a)) ==> pattern is Character,
{
}

/// A key that is pressed with the modifiers of its binding does what the binding says, unless a later
/// one is for it too; with other modifiers the binding is not for it. The release of a key does
/// nothing.
pub proof fn a_key_does_what_its_binding_says(
    bindings: Seq<KeyBinding>,
    binding: KeyBinding,
    later: Seq<KeyBinding>,
    key: KeyInput,
)
    requires
        forall|i: int| 0 <= i < later.len() ==> !binds(#[trigger] later[i], key),
    ensures
        ({
            let all = bindings.push(binding) + later;
            &&& key.state is Released ==> resolved(all, key) is NotMatched
            &&& !(key.state is Released) && binding.chord.modifiers == key.shortcut_modifiers
                && binding.chord.key.means(key.logical_key) ==> resolved(all, key)
                == ShortcutResult::Matched(binding.action)
            &&& binding.chord.modifiers != key.shortcut_modifiers ==> resolved(all, key) == resolved(
                bindings + later,
                key,
            )
        }),
{
    later_ones_are_not_for_it(bindings.push(binding), later, key);
    later_ones_are_not_for_it(bindings, later, key);
    the_last_binding_wins(bindings, binding, key);
}

proof fn later_ones_are_not_for_it(
    bindings: Seq<KeyBinding>,
    later: Seq<KeyBinding>,
    key: KeyInput,
)
    requires
        forall|i: int| 0 <= i < later.len() ==> !binds(#[trigger] later[i], key),
    ensures
        last_binding(bindings + later, key) == last_binding(bindings, key),
    decreases later.len(),
{
    if later.len() == 0 {
        assert(bindings + later =~= bindings);
    } else {
        later_ones_are_not_for_it(bindings, later.drop_last(), key);
        assert((bindings + later).drop_last() =~= bindings + later.drop_last());
        assert((bindings + later).last() == later[later.len() - 1]);
    }
}

} // verus!
