//! The configuration.
pub mod laws;
pub mod merge;
pub mod suggest;

use vstd::prelude::*;
use vstd::string::StringExecFns;
use vstd::utf8::encode_utf8;
use crate::diagnostics::ErrorCategory;
use crate::input::shortcut::{BindingOrigin, KeyChord, LogicalKeyPattern};
use crate::keys::ModifierMask;
use crate::terminfo::{bytes_of, join_path, joined, TerminalIdentity};
use crate::text::{lossy_text, string_bytes, utf8_lossy, utf8_str};
use crate::time::Duration;

verus! {

/// The largest configuration file that is read, in bytes.
pub const MAX_CONFIG_BYTES: u64 = 1_048_576;

/// The smallest and the largest grid that can be asked for.
pub const MIN_COLUMNS: u16 = 20;

pub const MAX_COLUMNS: u16 = 500;

pub const MIN_LINES: u16 = 5;

pub const MAX_LINES: u16 = 300;

/// A number with a fraction, as the bits of its 64-bit floating-point form.
#[derive(Clone, Copy, Debug, PartialEq, Eq, Structural)]
pub struct Number {
    pub bits: u64,
}

/// Whether a number lies between two others that are finite and not negative. Such numbers are
/// ordered as their bits are; a negative zero is no less than zero, and what is not a number, or
/// is infinite, lies past all of them.
pub open spec fn in_range(number: Number, low: u64, high: u64) -> bool {
    low <= number.bits <= high || (low == 0 && number.bits == 0x8000_0000_0000_0000)
}

impl Number {
    /// Decides [`in_range`].
    pub fn within(self, low: u64, high: u64) -> (result: bool)
        ensures
            result == in_range(self, low, high),
    {
        (low <= self.bits && self.bits <= high) || (low == 0 && self.bits == 0x8000_0000_0000_0000)
    }

    /// Whether a number is more than zero: its bits are those of a positive number or of positive
    /// infinity.
    pub open spec fn positive(self) -> bool {
        0 < self.bits <= 0x7ff0_0000_0000_0000
    }

    pub fn is_positive(self) -> (result: bool)
        ensures
            result == self.positive(),
    {
        0 < self.bits && self.bits <= 0x7ff0_0000_0000_0000
    }
}

/// 0, 1, 2, 4, 6, 8, 12, 13, 24, 32 and 72 as such bits.
pub const ZERO: u64 = 0;

pub const ONE: u64 = 0x3ff0_0000_0000_0000;

pub const TWO: u64 = 0x4000_0000_0000_0000;

pub const FOUR: u64 = 0x4010_0000_0000_0000;

pub const SIX: u64 = 0x4018_0000_0000_0000;

pub const EIGHT: u64 = 0x4020_0000_0000_0000;

pub const TWELVE: u64 = 0x4028_0000_0000_0000;

pub const THIRTEEN: u64 = 0x402a_0000_0000_0000;

pub const TWENTY_FOUR: u64 = 0x4038_0000_0000_0000;

pub const THIRTY_TWO: u64 = 0x4040_0000_0000_0000;

pub const SEVENTY_TWO: u64 = 0x4052_0000_0000_0000;

/// What the terminal says it is.
#[derive(Clone, Copy, Debug, PartialEq, Eq, Structural)]
pub struct TerminalConfig {
    pub identity: TerminalIdentity,
}

#[derive(Clone, Copy, Debug, PartialEq, Eq, Structural)]
pub enum HintingPreference {
    Off,
    Slight,
    Full,
    System,
}

#[derive(Clone, Copy, Debug, PartialEq, Eq, Structural)]
pub enum AntialiasPreference {
    Grayscale,
    System,
}

#[derive(Clone, Debug, PartialEq, Eq)]
pub struct FontConfig {
    pub family: String,
    pub size: Number,
    pub ligatures: bool,
    pub hinting: HintingPreference,
    pub antialiasing: AntialiasPreference,
    pub line_spacing: Number,
}

/// The view of the font's settings.
pub struct FontModel {
    pub family: Seq<char>,
    pub size: Number,
    pub ligatures: bool,
    pub hinting: HintingPreference,
    pub antialiasing: AntialiasPreference,
    pub line_spacing: Number,
}

impl View for FontConfig {
    type V = FontModel;

    open spec fn view(&self) -> FontModel {
        FontModel {
            family: self.family@,
            size: self.size,
            ligatures: self.ligatures,
            hinting: self.hinting,
            antialiasing: self.antialiasing,
            line_spacing: self.line_spacing,
        }
    }
}

/// Red, green, blue and opacity, a byte each, from the highest byte down.
#[derive(Clone, Copy, Debug, PartialEq, Eq, Structural)]
pub struct Color(pub u32);

#[derive(Clone, Debug, PartialEq, Eq)]
pub struct ColorsConfig {
    pub foreground: Color,
    pub background: Color,
    pub cursor: Color,
    pub selection_foreground: Color,
    pub selection_background: Color,
    pub ansi: [Color; 16],
}

/// The view of the colors.
pub struct ColorsModel {
    pub foreground: Color,
    pub background: Color,
    pub cursor: Color,
    pub selection_foreground: Color,
    pub selection_background: Color,
    pub ansi: Seq<Color>,
}

impl View for ColorsConfig {
    type V = ColorsModel;

    open spec fn view(&self) -> ColorsModel {
        ColorsModel {
            foreground: self.foreground,
            background: self.background,
            cursor: self.cursor,
            selection_foreground: self.selection_foreground,
            selection_background: self.selection_background,
            ansi: self.ansi@,
        }
    }
}

/// The state that a window starts in.
#[derive(Clone, Copy, Debug, PartialEq, Eq, Structural)]
pub enum StartupWindowState {
    Maximized,
    Fullscreen,
}

/// The window. What is not asked for is left to the window system.
#[derive(Clone, Copy, Debug, PartialEq, Eq, Structural)]
pub struct WindowConfig {
    pub padding_x: u16,
    pub padding_y: u16,
    pub columns: Option<u16>,
    pub lines: Option<u16>,
    pub startup_state: Option<StartupWindowState>,
}

#[derive(Clone, Copy, Debug, PartialEq, Eq, Structural)]
pub struct ScrollingConfig {
    pub history_lines: u32,
}

#[derive(Clone, Copy, Debug, PartialEq, Eq, Structural)]
pub struct ScrollbarConfig {
    pub mode: ScrollbarMode,
    pub width: Number,
    pub hit_width: Number,
    pub min_thumb_size: Number,
    pub thumb: Color,
    pub thumb_hover: Color,
    pub track: Color,
}

#[derive(Clone, Copy, Debug, PartialEq, Eq, Structural)]
pub enum CursorStyle {
    Block,
    Beam,
    Underline,
}

#[derive(Clone, Copy, Debug, PartialEq, Eq, Structural)]
pub struct CursorConfig {
    pub style: CursorStyle,
}

#[derive(Clone, Copy, Debug, PartialEq, Eq, Structural)]
pub struct BehaviorConfig {
    pub hold_after_exit: bool,
    pub confirm_multiline_paste: bool,
}

#[derive(Clone, Copy, Debug, PartialEq, Eq, Structural)]
pub struct UnicodeConfig {
    pub bidi: bool,
    pub color_glyphs: bool,
}

/// The most tabs that a window may have.
pub const MAX_TABS: u8 = 32;

/// Where a new tab starts.
#[derive(Clone, Debug, PartialEq, Eq)]
pub enum NewTabCwdPolicy {
    Inherit,
    Fixed(Vec<u8>),
    Home,
}

/// When the tab bar is shown.
#[derive(Clone, Copy, Debug, PartialEq, Eq, Structural)]
pub enum TabBarVisibility {
    Always,
    Multiple,
    Never,
}

#[derive(Clone, Debug, PartialEq, Eq)]
pub struct TabsConfig {
    pub max_count: u8,
    pub bar_height: u16,
    pub min_width: u16,
    pub max_width: u16,
    pub show_close_button: bool,
    pub new_tab_cwd: NewTabCwdPolicy,
    pub visibility: TabBarVisibility,
}

#[derive(Clone, Copy, Debug, PartialEq, Eq, Structural)]
pub enum ScrollbarMode {
    Auto,
    Always,
    Hidden,
}

/// What the bell does.
#[derive(Clone, Copy, Debug, PartialEq, Eq, Structural)]
pub struct BellConfig {
    pub enabled: bool,
    pub visual: bool,
    pub visual_duration: Duration,
    pub audible: bool,
    pub audible_when_unfocused: bool,
    pub attention: bool,
    pub desktop_notifications: bool,
    pub notification_cooldown: Duration,
    pub notification_burst_per_minute: u8,
}

impl BellConfig {
    pub open spec fn standard() -> BellConfig {
        BellConfig {
            enabled: true,
            visual: true,
            visual_duration: Duration { nanos: 120_000_000 },
            audible: false,
            audible_when_unfocused: true,
            attention: true,
            desktop_notifications: true,
            notification_cooldown: Duration { nanos: 10_000_000_000 },
            notification_burst_per_minute: 6,
        }
    }
}

impl Default for BellConfig {
    fn default() -> (result: BellConfig)
        ensures
            result == BellConfig::standard(),
    {
        BellConfig {
            enabled: true,
            visual: true,
            visual_duration: Duration { nanos: 120_000_000 },
            audible: false,
            audible_when_unfocused: true,
            attention: true,
            desktop_notifications: true,
            notification_cooldown: Duration { nanos: 10_000_000_000 },
            notification_burst_per_minute: 6,
        }
    }
}

/// What a key does.
#[derive(Clone, Copy, Debug, PartialEq, Eq, Structural)]
pub enum Action {
    CopyClipboard,
    PasteClipboard,
    PastePrimary,
    IncreaseFontSize,
    DecreaseFontSize,
    ResetFontSize,
    ScrollPageUp,
    ScrollPageDown,
    NewTab,
    CloseTab,
    PreviousTab,
    NextTab,
    ActivateTab(u8),
    ToggleBellMute,
}

#[derive(Clone, Copy, Debug, PartialEq, Eq, Structural)]
pub struct KeyBinding {
    pub chord: KeyChord,
    pub action: Action,
    pub origin: BindingOrigin,
}

#[derive(Clone, Copy, Debug, PartialEq, Eq, Structural)]
pub enum Modifier {
    Control,
    Shift,
    Alt,
    Super,
}

/// The view of the policy for new tabs.
pub enum CwdModel {
    Inherit,
    Fixed(Seq<u8>),
    Home,
}

impl View for NewTabCwdPolicy {
    type V = CwdModel;

    open spec fn view(&self) -> CwdModel {
        match *self {
            NewTabCwdPolicy::Inherit => CwdModel::Inherit,
            NewTabCwdPolicy::Fixed(path) => CwdModel::Fixed(path@),
            NewTabCwdPolicy::Home => CwdModel::Home,
        }
    }
}

/// The view of the settings for tabs.
pub struct TabsModel {
    pub max_count: u8,
    pub bar_height: u16,
    pub min_width: u16,
    pub max_width: u16,
    pub show_close_button: bool,
    pub new_tab_cwd: CwdModel,
    pub visibility: TabBarVisibility,
}

impl View for TabsConfig {
    type V = TabsModel;

    open spec fn view(&self) -> TabsModel {
        TabsModel {
            max_count: self.max_count,
            bar_height: self.bar_height,
            min_width: self.min_width,
            max_width: self.max_width,
            show_close_button: self.show_close_button,
            new_tab_cwd: self.new_tab_cwd@,
            visibility: self.visibility,
        }
    }
}

/// The configuration that is in effect.
#[derive(Clone, Debug, PartialEq, Eq)]
pub struct EffectiveConfig {
    pub terminal: TerminalConfig,
    pub font: FontConfig,
    pub colors: ColorsConfig,
    pub window: WindowConfig,
    pub scrolling: ScrollingConfig,
    pub scrollbar: ScrollbarConfig,
    pub cursor: CursorConfig,
    pub behavior: BehaviorConfig,
    pub unicode: UnicodeConfig,
    pub tabs: TabsConfig,
    pub bell: BellConfig,
    pub keybindings: Vec<KeyBinding>,
}

/// The view of a configuration.
pub struct EffectiveModel {
    pub terminal: TerminalConfig,
    pub font: FontModel,
    pub colors: ColorsModel,
    pub window: WindowConfig,
    pub scrolling: ScrollingConfig,
    pub scrollbar: ScrollbarConfig,
    pub cursor: CursorConfig,
    pub behavior: BehaviorConfig,
    pub unicode: UnicodeConfig,
    pub tabs: TabsModel,
    pub bell: BellConfig,
    pub keybindings: Seq<KeyBinding>,
}

impl View for EffectiveConfig {
    type V = EffectiveModel;

    open spec fn view(&self) -> EffectiveModel {
        EffectiveModel {
            terminal: self.terminal,
            font: self.font@,
            colors: self.colors@,
            window: self.window,
            scrolling: self.scrolling,
            scrollbar: self.scrollbar,
            cursor: self.cursor,
            behavior: self.behavior,
            unicode: self.unicode,
            tabs: self.tabs@,
            bell: self.bell,
            keybindings: self.keybindings@,
        }
    }
}

/// The sixteen named colors, unless others are configured.
pub open spec fn standard_palette() -> Seq<Color> {
    seq![
        Color(0x2e34_36ff),
        Color(0xcc66_66ff),
        Color(0x6fa6_6fff),
        Color(0xc8a8_5fff),
        Color(0x5f87_afff),
        Color(0xa27a_a8ff),
        Color(0x5f9e_a0ff),
        Color(0xd3d7_cfff),
        Color(0x6c73_75ff),
        Color(0xe07a_7aff),
        Color(0x87bd_87ff),
        Color(0xd8bd_73ff),
        Color(0x7aa2_c8ff),
        Color(0xb58a_bbff),
        Color(0x72b2_b4ff),
        Color(0xeeee_ecff),
    ]
}

/// The sixteen named colors, unless others are configured.
pub fn default_ansi_palette() -> (result: [Color; 16])
    ensures
        result@ == standard_palette(),
{
    let palette = [
        Color(0x2e34_36ff),
        Color(0xcc66_66ff),
        Color(0x6fa6_6fff),
        Color(0xc8a8_5fff),
        Color(0x5f87_afff),
        Color(0xa27a_a8ff),
        Color(0x5f9e_a0ff),
        Color(0xd3d7_cfff),
        Color(0x6c73_75ff),
        Color(0xe07a_7aff),
        Color(0x87bd_87ff),
        Color(0xd8bd_73ff),
        Color(0x7aa2_c8ff),
        Color(0xb58a_bbff),
        Color(0x72b2_b4ff),
        Color(0xeeee_ecff),
    ];
    assert(palette@ =~= standard_palette());
    palette
}

pub open spec fn control_shift() -> ModifierMask {
    ModifierMask { shift: true, control: true, alt: false, super_key: false }
}

pub open spec fn control_alone() -> ModifierMask {
    ModifierMask { shift: false, control: true, alt: false, super_key: false }
}

pub open spec fn shift_alone() -> ModifierMask {
    ModifierMask { shift: true, control: false, alt: false, super_key: false }
}

/// How many bindings there are before any is configured.
pub const DEFAULT_BINDINGS: usize = 22;

/// The chord of a binding that is there before any is configured.
pub open spec fn standard_chord(i: int) -> KeyChord {
    let (key, modifiers) = if i == 0 {
        (LogicalKeyPattern::Character('c'), control_shift())
    } else if i == 1 {
        (LogicalKeyPattern::Character('v'), control_shift())
    } else if i == 2 {
        (LogicalKeyPattern::Insert, shift_alone())
    } else if i == 3 {
        (LogicalKeyPattern::Character('+'), control_shift())
    } else if i == 4 {
        (LogicalKeyPattern::Character('='), control_alone())
    } else if i == 5 {
        (LogicalKeyPattern::Character('-'), control_alone())
    } else if i == 6 {
        (LogicalKeyPattern::Character('0'), control_alone())
    } else if i == 7 {
        (LogicalKeyPattern::PageUp, shift_alone())
    } else if i == 8 {
        (LogicalKeyPattern::PageDown, shift_alone())
    } else if i == 9 {
        (LogicalKeyPattern::Character('N'), control_shift())
    } else if i == 10 {
        (LogicalKeyPattern::Character('W'), control_shift())
    } else if i == 11 {
        (LogicalKeyPattern::ArrowLeft, control_shift())
    } else if i == 12 {
        (LogicalKeyPattern::ArrowRight, control_shift())
    } else {
        (LogicalKeyPattern::Character((48 + i - 12) as u8 as char), control_shift())
    };
    KeyChord { key, modifiers }
}

/// The action of a binding that is there before any is configured.
pub open spec fn standard_action(i: int) -> Action {
    if i == 0 {
        Action::CopyClipboard
    } else if i == 1 {
        Action::PasteClipboard
    } else if i == 2 {
        Action::PastePrimary
    } else if i == 3 || i == 4 {
        Action::IncreaseFontSize
    } else if i == 5 {
        Action::DecreaseFontSize
    } else if i == 6 {
        Action::ResetFontSize
    } else if i == 7 {
        Action::ScrollPageUp
    } else if i == 8 {
        Action::ScrollPageDown
    } else if i == 9 {
        Action::NewTab
    } else if i == 10 {
        Action::CloseTab
    } else if i == 11 {
        Action::PreviousTab
    } else if i == 12 {
        Action::NextTab
    } else {
        Action::ActivateTab((i - 12) as u8)
    }
}

/// The bindings that are there before any is configured.
pub open spec fn standard_bindings() -> Seq<KeyBinding> {
    Seq::new(
        DEFAULT_BINDINGS as nat,
        |i: int|
            KeyBinding {
                chord: standard_chord(i),
                action: standard_action(i),
                origin: BindingOrigin::Default,
            },
    )
}

fn default_chord(i: usize) -> (result: KeyChord)
    requires
        i < DEFAULT_BINDINGS,
    ensures
        result == standard_chord(i as int),
{
    let both = ModifierMask { shift: true, control: true, alt: false, super_key: false };
    let control = ModifierMask { shift: false, control: true, alt: false, super_key: false };
    let shift = ModifierMask { shift: true, control: false, alt: false, super_key: false };
    let (key, modifiers) = match i {
        0 => (LogicalKeyPattern::Character('c'), both),
        1 => (LogicalKeyPattern::Character('v'), both),
        2 => (LogicalKeyPattern::Insert, shift),
        3 => (LogicalKeyPattern::Character('+'), both),
        4 => (LogicalKeyPattern::Character('='), control),
        5 => (LogicalKeyPattern::Character('-'), control),
        6 => (LogicalKeyPattern::Character('0'), control),
        7 => (LogicalKeyPattern::PageUp, shift),
        8 => (LogicalKeyPattern::PageDown, shift),
        9 => (LogicalKeyPattern::Character('N'), both),
        10 => (LogicalKeyPattern::Character('W'), both),
        11 => (LogicalKeyPattern::ArrowLeft, both),
        12 => (LogicalKeyPattern::ArrowRight, both),
        _ => (LogicalKeyPattern::Character((48 + i - 12) as u8 as char), both),
    };
    KeyChord { key, modifiers }
}

fn default_action(i: usize) -> (result: Action)
    requires
        i < DEFAULT_BINDINGS,
    ensures
        result == standard_action(i as int),
{
    match i {
        0 => Action::CopyClipboard,
        1 => Action::PasteClipboard,
        2 => Action::PastePrimary,
        3 => Action::IncreaseFontSize,
        4 => Action::IncreaseFontSize,
        5 => Action::DecreaseFontSize,
        6 => Action::ResetFontSize,
        7 => Action::ScrollPageUp,
        8 => Action::ScrollPageDown,
        9 => Action::NewTab,
        10 => Action::CloseTab,
        11 => Action::PreviousTab,
        12 => Action::NextTab,
        _ => Action::ActivateTab((i - 12) as u8),
    }
}

/// The bindings that are there before any is configured.
pub fn default_keybindings() -> (result: Vec<KeyBinding>)
    ensures
        result@ == standard_bindings(),
{
    let mut bindings: Vec<KeyBinding> = Vec::new();
    let mut i: usize = 0;
    while i < DEFAULT_BINDINGS
        invariant
            i <= DEFAULT_BINDINGS,
            bindings@ == standard_bindings().take(i as int),
        decreases DEFAULT_BINDINGS - i,
    {
        bindings.push(
            KeyBinding {
                chord: default_chord(i),
                action: default_action(i),
                origin: BindingOrigin::Default,
            },
        );
        assert(bindings@ =~= standard_bindings().take(i + 1));
        i += 1;
    }
    assert(bindings@ =~= standard_bindings());
    bindings
}

/// No two of the bindings that are there before any is configured are for the same chord.
pub proof fn standard_chords_are_distinct(i: int, j: int)
    requires
        0 <= i < j < DEFAULT_BINDINGS,
    ensures
        standard_bindings()[i].chord != standard_bindings()[j].chord,
{
    assert(standard_bindings()[i].chord == standard_chord(i));
    assert(standard_bindings()[j].chord == standard_chord(j));
}

impl EffectiveModel {
    /// The configuration where nothing is configured.
    pub open spec fn standard() -> EffectiveModel {
        EffectiveModel {
            terminal: TerminalConfig { identity: TerminalIdentity::Leyline },
            font: FontModel {
                family: "monospace"@,
                size: Number { bits: THIRTEEN },
                ligatures: false,
                hinting: HintingPreference::Slight,
                antialiasing: AntialiasPreference::Grayscale,
                line_spacing: Number { bits: ONE },
            },
            colors: ColorsModel {
                foreground: Color(0xd8dc_d8ff),
                background: Color(0x2e34_36f2),
                cursor: Color(0xd8dc_d8ff),
                selection_foreground: Color(0xf4f6_f4ff),
                selection_background: Color(0x5865_6dcc),
                ansi: standard_palette(),
            },
            window: WindowConfig {
                padding_x: 0,
                padding_y: 5,
                columns: None,
                lines: None,
                startup_state: None,
            },
            scrolling: ScrollingConfig { history_lines: 10_000 },
            scrollbar: ScrollbarConfig {
                mode: ScrollbarMode::Auto,
                width: Number { bits: FOUR },
                hit_width: Number { bits: TWELVE },
                min_thumb_size: Number { bits: TWENTY_FOUR },
                thumb: Color(0x9aa2_a680),
                thumb_hover: Color(0xc1c7_caff),
                track: Color(0),
            },
            cursor: CursorConfig { style: CursorStyle::Block },
            behavior: BehaviorConfig { hold_after_exit: false, confirm_multiline_paste: true },
            unicode: UnicodeConfig { bidi: false, color_glyphs: true },
            tabs: TabsModel {
                max_count: MAX_TABS,
                bar_height: 32,
                min_width: 80,
                max_width: 240,
                show_close_button: true,
                new_tab_cwd: CwdModel::Inherit,
                visibility: TabBarVisibility::Multiple,
            },
            bell: BellConfig::standard(),
            keybindings: standard_bindings(),
        }
    }

    /// What holds of every configuration that is in effect.
    pub open spec fn within_limits(self) -> bool {
        &&& in_range(self.font.size, SIX, SEVENTY_TWO)
        &&& in_range(self.font.line_spacing, ZERO, EIGHT)
        &&& self.colors.ansi.len() == 16
        &&& self.window.padding_x <= 256
        &&& self.window.padding_y <= 256
        &&& self.scrolling.history_lines <= 100_000
        &&& in_range(self.scrollbar.width, TWO, THIRTY_TWO)
        &&& in_range(self.scrollbar.hit_width, TWO, THIRTY_TWO)
        &&& in_range(self.scrollbar.min_thumb_size, TWO, THIRTY_TWO)
        &&& self.scrollbar.width.bits <= self.scrollbar.hit_width.bits
        &&& 40_000_000 <= self.bell.visual_duration.nanos <= 1_000_000_000
        &&& 1_000_000_000 <= self.bell.notification_cooldown.nanos <= 3_600_000_000_000
        &&& 1 <= self.bell.notification_burst_per_minute <= 30
        &&& 1 <= self.tabs.max_count <= MAX_TABS
        &&& 24 <= self.tabs.bar_height <= 64
        &&& 48 <= self.tabs.min_width <= self.tabs.max_width <= 400
        &&& self.tabs.min_width <= 240
        &&& match self.tabs.new_tab_cwd {
            CwdModel::Fixed(path) => path.len() > 0 && path[0] == 47,
            _ => true,
        }
    }
}

impl Default for EffectiveConfig {
    fn default() -> (result: EffectiveConfig)
        ensures
            result@ == EffectiveModel::standard(),
    {
        EffectiveConfig {
            terminal: TerminalConfig { identity: TerminalIdentity::Leyline },
            font: FontConfig {
                family: String::from_str("monospace"),
                size: Number { bits: THIRTEEN },
                ligatures: false,
                hinting: HintingPreference::Slight,
                antialiasing: AntialiasPreference::Grayscale,
                line_spacing: Number { bits: ONE },
            },
            colors: ColorsConfig {
                foreground: Color(0xd8dc_d8ff),
                background: Color(0x2e34_36f2),
                cursor: Color(0xd8dc_d8ff),
                selection_foreground: Color(0xf4f6_f4ff),
                selection_background: Color(0x5865_6dcc),
                ansi: default_ansi_palette(),
            },
            window: WindowConfig {
                padding_x: 0,
                padding_y: 5,
                columns: None,
                lines: None,
                startup_state: None,
            },
            scrolling: ScrollingConfig { history_lines: 10_000 },
            scrollbar: ScrollbarConfig {
                mode: ScrollbarMode::Auto,
                width: Number { bits: FOUR },
                hit_width: Number { bits: TWELVE },
                min_thumb_size: Number { bits: TWENTY_FOUR },
                thumb: Color(0x9aa2_a680),
                thumb_hover: Color(0xc1c7_caff),
                track: Color(0),
            },
            cursor: CursorConfig { style: CursorStyle::Block },
            behavior: BehaviorConfig { hold_after_exit: false, confirm_multiline_paste: true },
            unicode: UnicodeConfig { bidi: false, color_glyphs: true },
            tabs: TabsConfig {
                max_count: MAX_TABS,
                bar_height: 32,
                min_width: 80,
                max_width: 240,
                show_close_button: true,
                new_tab_cwd: NewTabCwdPolicy::Inherit,
                visibility: TabBarVisibility::Multiple,
            },
            bell: BellConfig::default(),
            keybindings: default_keybindings(),
        }
    }
}

/// Where a configuration comes from.
#[derive(Clone, Debug, PartialEq, Eq)]
pub enum ConfigOrigin {
    Default,
    File(Vec<u8>),
}

#[derive(Clone, Debug, PartialEq, Eq)]
pub struct ConfigWarning {
    pub message: String,
}

/// What the warnings say.
pub open spec fn messages(warnings: Seq<ConfigWarning>) -> Seq<Seq<char>> {
    warnings.map_values(|w: ConfigWarning| w.message@)
}

/// A configuration with what was noticed about it.
#[derive(Clone, Debug)]
pub struct LoadedConfig {
    pub effective: EffectiveConfig,
    pub warnings: Vec<ConfigWarning>,
    pub source: ConfigOrigin,
}

impl LoadedConfig {
    /// The configuration where there is no file.
    pub fn without_file() -> (result: LoadedConfig)
        ensures
            result.effective@ == EffectiveModel::standard(),
            result.warnings@.len() == 0,
            result.source is Default,
    {
        LoadedConfig {
            effective: EffectiveConfig::default(),
            warnings: Vec::new(),
            source: ConfigOrigin::Default,
        }
    }
}

#[derive(Clone, Debug, PartialEq, Eq)]
pub enum ConfigLocation {
    Missing(Vec<u8>),
    File(Vec<u8>),
}

/// The directories that the environment names.
#[derive(Clone, Debug, PartialEq, Eq)]
pub struct ConfigEnvironment {
    pub xdg_config_home: Option<Vec<u8>>,
    pub home: Option<Vec<u8>>,
}

/// A configuration file in the user's directory.
#[derive(Clone, Debug)]
pub struct FileConfigSource {
    environment: ConfigEnvironment,
}

/// A path that starts at the root.
pub open spec fn absolute_path(path: Option<Seq<u8>>) -> Option<Seq<u8>> {
    match path {
        Some(path) => if path.len() > 0 && path[0] == 47 {
            Some(path)
        } else {
            None
        },
        None => None,
    }
}

/// The file in the directory for configurations, or below the home directory where there is none
/// for configurations. Directories that do not start at the root do not count.
pub open spec fn config_file(xdg: Option<Seq<u8>>, home: Option<Seq<u8>>) -> Option<Seq<u8>> {
    let name = encode_utf8("leyline/config.toml"@);
    match absolute_path(xdg) {
        Some(base) => Some(joined(base, name)),
        None => match absolute_path(home) {
            Some(home) => Some(joined(joined(home, encode_utf8(".config"@)), name)),
            None => None,
        },
    }
}

impl View for FileConfigSource {
    type V = ConfigEnvironment;

    closed spec fn view(&self) -> ConfigEnvironment {
        self.environment
    }
}

fn is_absolute_path(path: &Option<Vec<u8>>) -> (result: bool)
    ensures
        result == (absolute_path(bytes_of(*path)) is Some),
{
    match path {
        Some(path) => path.len() > 0 && path[0] == 47,
        None => false,
    }
}

impl FileConfigSource {
    pub fn new(environment: ConfigEnvironment) -> (result: FileConfigSource)
        ensures
            result@ == environment,
    {
        FileConfigSource { environment }
    }

    /// The path of the file.
    pub fn path(&self) -> (result: Result<Vec<u8>, ConfigError>)
        ensures
            ({
                let path = config_file(bytes_of(self@.xdg_config_home), bytes_of(self@.home));
                match result {
                    Ok(found) => path == Some(found@),
                    Err(error) => path is None && error is PathUnavailable,
                }
            }),
    {
        let name = string_bytes("leyline/config.toml");
        if is_absolute_path(&self.environment.xdg_config_home) {
            if let Some(base) = &self.environment.xdg_config_home {
                return Ok(join_path(base.as_slice(), name.as_slice()));
            }
        }
        if is_absolute_path(&self.environment.home) {
            if let Some(home) = &self.environment.home {
                let base = join_path(home.as_slice(), string_bytes(".config").as_slice());
                return Ok(join_path(base.as_slice(), name.as_slice()));
            }
        }
        Err(ConfigError::PathUnavailable)
    }

    /// Where the configuration is. `found` tells whether there is a file at the path, or why that
    /// could not be told.
    pub fn locate(&self, found: Result<bool, String>) -> (result: Result<
        ConfigLocation,
        ConfigError,
    >)
        ensures
            ({
                let path = config_file(bytes_of(self@.xdg_config_home), bytes_of(self@.home));
                match path {
                    None => result is Err && result->Err_0 is PathUnavailable,
                    Some(path) => match found {
                        Ok(true) => result is Ok && result->Ok_0 is File && (result->Ok_0)->File_0@
                            == path,
                        Ok(false) => result is Ok && result->Ok_0 is Missing && (
                        result->Ok_0)->Missing_0@ == path,
                        Err(reason) => result is Err && result->Err_0 is Read && (
                        result->Err_0)->Read_path@ == path && (result->Err_0)->Read_source@
                            == reason@,
                    },
                }
            }),
    {
        let path = match self.path() {
            Ok(path) => path,
            Err(error) => {
                return Err(error);
            },
        };
        match found {
            Ok(true) => Ok(ConfigLocation::File(path)),
            Ok(false) => Ok(ConfigLocation::Missing(path)),
            Err(source) => Err(ConfigError::Read { path, source }),
        }
    }
}

/// A directory for configurations that starts at the root takes precedence over the home
/// directory, and one that does not counts as if it were not named.
pub proof fn the_first_absolute_directory_is_used(xdg: Seq<u8>, home: Option<Seq<u8>>)
    ensures
        absolute_path(Some(xdg)) is Some ==> config_file(Some(xdg), home) == Some(
            joined(xdg, encode_utf8("leyline/config.toml"@)),
        ),
        absolute_path(Some(xdg)) is None ==> config_file(Some(xdg), home) == config_file(
            None,
            home,
        ),
{
}

/// Whether a file may be read, by what stands at its path and how long it is.
pub fn admit_file(path: Vec<u8>, is_file: bool, length: u64) -> (result: Result<
    Vec<u8>,
    ConfigError,
>)
    ensures
        if !is_file {
            result is Err && result->Err_0 is NotRegularFile && (
            result->Err_0)->NotRegularFile_0 == path
        } else if length > MAX_CONFIG_BYTES {
            result is Err && result->Err_0 is TooLarge && (result->Err_0)->TooLarge_0 == path
        } else {
            result is Ok && result->Ok_0 == path
        },
{
    if !is_file {
        Err(ConfigError::NotRegularFile(path))
    } else if length > MAX_CONFIG_BYTES {
        Err(ConfigError::TooLarge(path))
    } else {
        Ok(path)
    }
}

/// What is wrong with bytes that are no UTF-8.
pub uninterp spec fn utf8_fault(bytes: Seq<u8>) -> Seq<char>;

/// `core::str::from_utf8`, for the text of its error. Bytes that are UTF-8 have none.
#[verifier::external_body]
fn utf8_fault_text(bytes: &[u8]) -> (result: String)
    ensures
        result@ == utf8_fault(bytes@),
{
    match core::str::from_utf8(bytes) {
        Ok(_) => String::new(),
        Err(error) => error.to_string(),
    }
}

/// The text of a file that was read. It may have grown in the meantime.
pub fn admit_text(path: Vec<u8>, bytes: &[u8]) -> (result: Result<String, ConfigError>)
    ensures
        if bytes@.len() > MAX_CONFIG_BYTES {
            result is Err && result->Err_0 is TooLarge && (result->Err_0)->TooLarge_0 == path
        } else if vstd::utf8::valid_utf8(bytes@) {
            result is Ok && encode_utf8((result->Ok_0)@) == bytes@
        } else {
            result is Err && result->Err_0 is Utf8 && (result->Err_0)->Utf8_path == path && (
            result->Err_0)->Utf8_source@ == utf8_fault(bytes@)
        },
{
    if bytes.len() as u64 > MAX_CONFIG_BYTES {
        return Err(ConfigError::TooLarge(path));
    }
    match utf8_str(bytes) {
        Some(text) => Ok(text.to_owned()),
        None => Err(ConfigError::Utf8 { path, source: utf8_fault_text(bytes) }),
    }
}

#[derive(Debug)]
#[allow(inconsistent_fields)]
pub enum ConfigError {
    PathUnavailable,
    Read { path: Vec<u8>, source: String },
    NotRegularFile(Vec<u8>),
    TooLarge(Vec<u8>),
    Utf8 { path: Vec<u8>, source: String },
    Parse { path: Vec<u8>, source: String },
    Semantic { path: Vec<u8>, field: String, reason: String },
}

/// What an error says.
pub open spec fn config_error_text(error: ConfigError) -> Seq<char> {
    match error {
        ConfigError::PathUnavailable =>
            "no absolute configuration directory is available; set XDG_CONFIG_HOME to an absolute path"@,
        ConfigError::Read { path, source } => "cannot read configuration file "@ + utf8_lossy(
            path@,
        ) + ": "@ + source@,
        ConfigError::NotRegularFile(path) => "configuration path "@ + utf8_lossy(path@)
            + " does not resolve to a regular file"@,
        ConfigError::TooLarge(path) => "configuration file "@ + utf8_lossy(path@)
            + " exceeds the 1 MiB limit"@,
        ConfigError::Utf8 { path, source } => "configuration file "@ + utf8_lossy(path@)
            + " is not valid UTF-8: "@ + source@,
        ConfigError::Parse { path, source } => "invalid TOML in "@ + utf8_lossy(path@) + ": "@
            + source@,
        ConfigError::Semantic { path, field, reason } => "invalid configuration field "@ + field@
            + " in "@ + utf8_lossy(path@) + ": "@ + reason@,
    }
}

impl ConfigError {
    pub fn category(&self) -> (result: ErrorCategory)
        ensures
            result == (if *self is PathUnavailable {
                ErrorCategory::Environment
            } else {
                ErrorCategory::Configuration
            }),
    {
        match self {
            ConfigError::PathUnavailable => ErrorCategory::Environment,
            _ => ErrorCategory::Configuration,
        }
    }

    /// What the error says.
    pub fn message(&self) -> (result: String)
        ensures
            result@ == config_error_text(*self),
    {
        match self {
            ConfigError::PathUnavailable => String::from_str(
                "no absolute configuration directory is available; set XDG_CONFIG_HOME to an absolute path",
            ),
            ConfigError::Read { path, source } => {
                let mut out = String::from_str("cannot read configuration file ");
                out.append(lossy_text(path.as_slice()).as_str());
                out.append(": ");
                out.append(source.as_str());
                out
            },
            ConfigError::NotRegularFile(path) => {
                let mut out = String::from_str("configuration path ");
                out.append(lossy_text(path.as_slice()).as_str());
                out.append(" does not resolve to a regular file");
                out
            },
            ConfigError::TooLarge(path) => {
                let mut out = String::from_str("configuration file ");
                out.append(lossy_text(path.as_slice()).as_str());
                out.append(" exceeds the 1 MiB limit");
                out
            },
            ConfigError::Utf8 { path, source } => {
                let mut out = String::from_str("configuration file ");
                out.append(lossy_text(path.as_slice()).as_str());
                out.append(" is not valid UTF-8: ");
                out.append(source.as_str());
                out
            },
            ConfigError::Parse { path, source } => {
                let mut out = String::from_str("invalid TOML in ");
                out.append(lossy_text(path.as_slice()).as_str());
                out.append(": ");
                out.append(source.as_str());
                out
            },
            ConfigError::Semantic { path, field, reason } => {
                let mut out = String::from_str("invalid configuration field ");
                out.append(field.as_str());
                out.append(" in ");
                out.append(lossy_text(path.as_slice()).as_str());
                out.append(": ");
                out.append(reason.as_str());
                out
            },
        }
    }
}

} // verus!
