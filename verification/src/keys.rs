//! Keys and modifiers as the window system reports them.
use vstd::prelude::*;

verus! {

#[derive(Clone, Copy, Debug, PartialEq, Eq, Structural)]
pub enum ModifierKind {
    Shift,
    Control,
    Alt,
    Super,
}

#[derive(Clone, Copy, Debug, PartialEq, Eq, Structural)]
pub enum KeySide {
    Left,
    Right,
}

/// What a key stands for in the current layout.
#[derive(Clone, Copy, Debug, PartialEq, Eq, Structural)]
pub enum LogicalKey {
    Character(char),
    Function(u8),
    Enter,
    Tab,
    Backspace,
    Escape,
    Insert,
    Delete,
    Home,
    End,
    PageUp,
    PageDown,
    ArrowUp,
    ArrowDown,
    ArrowLeft,
    ArrowRight,
    CapsLock,
    NumLock,
    Menu,
    Modifier { kind: ModifierKind, side: KeySide },
    Unidentified(u32),
}

#[derive(Clone, Copy, Debug, PartialEq, Eq, Structural)]
pub enum KeyLocation {
    Standard,
    Numpad,
}

#[derive(Clone, Copy, Debug, PartialEq, Eq, Structural)]
pub enum KeypadKey {
    Digit(u8),
    Decimal,
    Divide,
    Multiply,
    Subtract,
    Add,
    Separator,
    Equal,
    Enter,
    Home,
    End,
    PageUp,
    PageDown,
    Insert,
    Delete,
    ArrowUp,
    ArrowDown,
    ArrowLeft,
    ArrowRight,
}

#[derive(Clone, Copy, Debug, PartialEq, Eq, Structural)]
pub struct KeyIdentity {
    pub logical: LogicalKey,
    pub location: KeyLocation,
    pub keypad: Option<KeypadKey>,
    pub base_codepoint: Option<char>,
    pub shifted_codepoint: Option<char>,
}

#[derive(Clone, Copy, Debug, PartialEq, Eq, Structural)]
pub enum KeyState {
    Pressed,
    Repeated,
    Released,
}

/// The modifiers held while a key event was made.
#[derive(Clone, Copy, Debug, PartialEq, Eq, Structural)]
pub struct ModifierMask {
    pub shift: bool,
    pub control: bool,
    pub alt: bool,
    pub super_key: bool,
}

/// A key event.
#[derive(Clone, Copy, Debug, PartialEq, Eq, Structural)]
pub struct KeyInput {
    pub state: KeyState,
    pub logical_key: LogicalKey,
    pub shortcut_modifiers: ModifierMask,
}

} // verus!
