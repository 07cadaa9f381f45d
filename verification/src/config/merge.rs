//! How what is configured comes to be in effect.
use vstd::array::ArrayAdditionalExecFns;
use vstd::prelude::*;
use vstd::string::StringExecFns;
use vstd::utf8::encode_utf8;
use crate::config::suggest::{suggestion, unique_suggestion};
use crate::config::{
    default_ansi_palette, in_range, messages, standard_bindings, standard_palette, Action,
    AntialiasPreference, BehaviorConfig, BellConfig, Color, ColorsConfig, ColorsModel, ConfigError,
    ConfigOrigin, ConfigWarning, CursorConfig, CursorStyle, CwdModel, EffectiveConfig,
    EffectiveModel, FontConfig, FontModel, HintingPreference, KeyBinding, LoadedConfig, Modifier,
    NewTabCwdPolicy, Number, ScrollbarConfig, ScrollbarMode, ScrollingConfig, TabBarVisibility,
    TabsConfig, TabsModel, TerminalConfig, UnicodeConfig, WindowConfig, EIGHT, MAX_TABS,
    SEVENTY_TWO, SIX, THIRTY_TWO, TWO, ZERO,
};
use crate::diagnostics::{escape_diagnostic, escaped};
use crate::input::shortcut::{
    key_of_text, parse_key, BindingOrigin, KeyChord, LogicalKeyPattern,
};
use crate::keys::ModifierMask;
use crate::terminfo::{identity_of, TerminalIdentity};
use crate::text::{
    chars_of, dec, drop_leading, has_prefix, is_text, lines_of, push_dec, split_lines, starts_with,
    string_bytes, texts_view, trim_start,
};
use crate::time::Duration;

verus! {

/// A number as it was written, with its value.
#[derive(Clone, Debug, PartialEq, Eq)]
pub struct RawNumber {
    pub value: Number,
    pub text: String,
}

#[derive(Clone, Debug, PartialEq, Eq)]
pub struct RawBell {
    pub enabled: Option<bool>,
    pub visual: Option<bool>,
    pub visual_duration_ms: Option<i64>,
    pub audible: Option<bool>,
    pub audible_when_unfocused: Option<bool>,
    pub attention: Option<bool>,
    pub desktop_notifications: Option<bool>,
    pub notification_cooldown_seconds: Option<i64>,
    pub notification_burst_per_minute: Option<i64>,
    pub unknown: Vec<String>,
}

#[derive(Clone, Debug, PartialEq, Eq)]
pub struct RawTerminal {
    pub identity: Option<String>,
    pub unknown: Vec<String>,
}

#[derive(Clone, Debug, PartialEq, Eq)]
pub struct RawTabs {
    pub max_count: Option<i64>,
    pub bar_height: Option<i64>,
    pub min_width: Option<i64>,
    pub max_width: Option<i64>,
    pub show_close_button: Option<bool>,
    pub new_tab_cwd: Option<String>,
    pub new_tab_fixed_cwd: Option<String>,
    pub unknown: Vec<String>,
}

#[derive(Clone, Debug, PartialEq, Eq)]
pub struct RawFont {
    pub family: Option<String>,
    pub size: Option<RawNumber>,
    pub ligatures: Option<bool>,
    pub hinting: Option<String>,
    pub antialiasing: Option<String>,
    pub line_spacing: Option<RawNumber>,
    pub unknown: Vec<String>,
}

#[derive(Clone, Debug, PartialEq, Eq)]
pub struct RawColors {
    pub foreground: Option<String>,
    pub background: Option<String>,
    pub cursor: Option<String>,
    pub selection_foreground: Option<String>,
    pub selection_background: Option<String>,
    pub ansi: Option<Vec<String>>,
    pub unknown: Vec<String>,
}

#[derive(Clone, Debug, PartialEq, Eq)]
pub struct RawWindow {
    pub padding_x: Option<i64>,
    pub padding_y: Option<i64>,
    pub unknown: Vec<String>,
}

#[derive(Clone, Debug, PartialEq, Eq)]
pub struct RawScrolling {
    pub history_lines: Option<i64>,
    pub unknown: Vec<String>,
}

#[derive(Clone, Debug, PartialEq, Eq)]
pub struct RawScrollbar {
    pub mode: Option<String>,
    pub width: Option<RawNumber>,
    pub hit_width: Option<RawNumber>,
    pub min_thumb_size: Option<RawNumber>,
    pub thumb: Option<String>,
    pub thumb_hover: Option<String>,
    pub track: Option<String>,
    pub unknown: Vec<String>,
}

#[derive(Clone, Debug, PartialEq, Eq)]
pub struct RawCursor {
    pub style: Option<String>,
    pub unknown: Vec<String>,
}

#[derive(Clone, Debug, PartialEq, Eq)]
pub struct RawBehavior {
    pub hold_after_exit: Option<bool>,
    pub confirm_multiline_paste: Option<bool>,
    pub unknown: Vec<String>,
}

#[derive(Clone, Debug, PartialEq, Eq)]
pub struct RawUnicode {
    pub bidi: Option<bool>,
    pub color_glyphs: Option<bool>,
    pub unknown: Vec<String>,
}

#[derive(Clone, Debug, PartialEq, Eq)]
pub struct RawKeyBinding {
    pub key: String,
    pub mods: Vec<String>,
    pub action: String,
    pub unknown: Vec<String>,
}

/// What a file configures. The names of each part that are not known are kept in their order.
#[derive(Clone, Debug, PartialEq, Eq)]
pub struct RawConfig {
    pub terminal: RawTerminal,
    pub font: RawFont,
    pub colors: RawColors,
    pub window: RawWindow,
    pub scrolling: RawScrolling,
    pub scrollbar: RawScrollbar,
    pub cursor: RawCursor,
    pub behavior: RawBehavior,
    pub unicode: RawUnicode,
    pub tabs: RawTabs,
    pub bell: RawBell,
    pub keybindings: Option<Vec<RawKeyBinding>>,
    pub unknown: Vec<String>,
}

/// What is wrong with a field.
#[derive(Debug)]
pub struct Fault {
    pub field: String,
    pub reason: String,
}

/// The view of what is wrong.
pub struct Problem {
    pub field: Seq<char>,
    pub reason: Seq<char>,
}

impl View for Fault {
    type V = Problem;

    open spec fn view(&self) -> Problem {
        Problem { field: self.field@, reason: self.reason@ }
    }
}

fn fault(field: &str, reason: String) -> (result: Fault)
    ensures
        result@ == (Problem { field: field@, reason: reason@ }),
{
    Fault { field: field.to_owned(), reason }
}

/// The first of two problems.
pub open spec fn first_of(a: Option<Problem>, b: Option<Problem>) -> Option<Problem> {
    if a is Some {
        a
    } else {
        b
    }
}

/// Whether a result is a value, or the problem where there is one.
pub open spec fn settles<T>(result: Result<T, Fault>, problem: Option<Problem>, value: T) -> bool {
    match problem {
        Some(problem) => result is Err && (result->Err_0)@ == problem,
        None => result is Ok && result->Ok_0 == value,
    }
}

/// A value, or another one where it is not given.
pub open spec fn chosen<T>(value: Option<T>, standard: T) -> T {
    match value {
        Some(value) => value,
        None => standard,
    }
}

fn flag(value: Option<bool>, standard: bool) -> (result: bool)
    ensures
        result == chosen(value, standard),
{
    match value {
        Some(value) => value,
        None => standard,
    }
}

/// A whole number in base ten.
pub open spec fn signed_dec(n: int) -> Seq<char> {
    if n < 0 {
        "-"@ + dec((-n) as nat)
    } else {
        dec(n as nat)
    }
}

fn push_signed(out: &mut String, n: i64)
    ensures
        final(out)@ == old(out)@ + signed_dec(n as int),
{
    if n < 0 {
        out.append("-");
        let magnitude: u64 = (-(n + 1)) as u64 + 1;
        push_dec(out, magnitude);
        assert(out@ =~= old(out)@ + ("-"@ + dec((-n) as nat)));
    } else {
        push_dec(out, n as u64);
    }
}

/// What is wrong with a whole number that is to lie between two others.
pub open spec fn bounded_problem(field: Seq<char>, raw: Option<i64>, min: i64, max: i64) -> Option<
    Problem,
> {
    if raw is Some && !(min <= raw->0 <= max) {
        Some(
            Problem {
                field,
                reason: signed_dec(raw->0 as int) + " is outside "@ + signed_dec(min as int)
                    + "..="@ + signed_dec(max as int),
            },
        )
    } else {
        None
    }
}

/// Takes a whole number that is to lie between two others.
fn set_bounded(field: &str, raw: Option<i64>, min: i64, max: i64, standard: i64) -> (result: Result<
    i64,
    Fault,
>)
    ensures
        settles(result, bounded_problem(field@, raw, min, max), chosen(raw, standard)),
{
    match raw {
        Some(value) => {
            if value < min || value > max {
                let mut reason = String::new();
                push_signed(&mut reason, value);
                reason.append(" is outside ");
                push_signed(&mut reason, min);
                reason.append("..=");
                push_signed(&mut reason, max);
                assert(reason@ =~= signed_dec(value as int) + " is outside "@ + signed_dec(
                    min as int,
                ) + "..="@ + signed_dec(max as int));
                return Err(fault(field, reason));
            }
            Ok(value)
        },
        None => Ok(standard),
    }
}

/// The value that a number has.
pub open spec fn number_value(raw: Option<RawNumber>, standard: Number) -> Number {
    match raw {
        Some(number) => number.value,
        None => standard,
    }
}

/// What is wrong with a number that is to lie between two others.
pub open spec fn number_problem(
    field: Seq<char>,
    raw: Option<RawNumber>,
    low: u64,
    high: u64,
    limits: Seq<char>,
) -> Option<Problem> {
    if raw is Some && !in_range(raw->0.value, low, high) {
        Some(Problem { field, reason: raw->0.text@ + " is outside "@ + limits })
    } else {
        None
    }
}

/// Takes a number that is to lie between two others.
fn set_number(
    field: &str,
    raw: &Option<RawNumber>,
    low: u64,
    high: u64,
    limits: &str,
    standard: Number,
) -> (result: Result<Number, Fault>)
    ensures
        settles(
            result,
            number_problem(field@, *raw, low, high, limits@),
            number_value(*raw, standard),
        ),
{
    match raw {
        Some(number) => {
            if !number.value.within(low, high) {
                let mut reason = number.text.as_str().to_owned();
                reason.append(" is outside ");
                reason.append(limits);
                return Err(fault(field, reason));
            }
            Ok(number.value)
        },
        None => Ok(standard),
    }
}

/// The value of a hexadecimal digit.
pub open spec fn hex_value(c: char) -> Option<nat> {
    let n = c as u32;
    if 48 <= n <= 57 {
        Some((n - 48) as nat)
    } else if 65 <= n <= 70 {
        Some((n - 55) as nat)
    } else if 97 <= n <= 102 {
        Some((n - 87) as nat)
    } else {
        None
    }
}

fn hex_digit_value(c: char) -> (result: Option<u32>)
    ensures
        match result {
            Some(n) => hex_value(c) == Some(n as nat) && n < 16,
            None => hex_value(c) is None,
        },
{
    let n: u32 = c as u32;
    if 48 <= n && n <= 57 {
        Some(n - 48)
    } else if 65 <= n && n <= 70 {
        Some(n - 55)
    } else if 97 <= n && n <= 102 {
        Some(n - 87)
    } else {
        None
    }
}

/// The number that hexadecimal digits write.
pub open spec fn hex_number(s: Seq<char>) -> Option<nat>
    decreases s.len(),
{
    if s.len() == 0 {
        Some(0)
    } else {
        match (hex_number(s.drop_last()), hex_value(s.last())) {
            (Some(before), Some(digit)) => Some(before * 16 + digit),
            _ => None,
        }
    }
}

/// The color that a text stands for: `#` and six or eight hexadecimal digits, with full opacity
/// where none is given.
pub open spec fn color_of(raw: Seq<char>) -> Option<Color> {
    if raw.len() > 0 && raw[0] == '#' && (raw.len() == 7 || raw.len() == 9) {
        match hex_number(raw.skip(1)) {
            Some(n) => if raw.len() == 7 {
                Some(Color((n * 256 + 255) as u32))
            } else {
                Some(Color(n as u32))
            },
            None => None,
        }
    } else {
        None
    }
}

/// The color that a text stands for, where no opacity is given.
pub open spec fn opaque_color_of(raw: Seq<char>) -> Option<Color> {
    if raw.len() == 7 {
        color_of(raw)
    } else {
        None
    }
}

/// A power of sixteen.
spec fn sixteen(n: nat) -> nat
    decreases n,
{
    if n == 0 {
        1
    } else {
        16 * sixteen((n - 1) as nat)
    }
}

proof fn powers_of_sixteen(n: nat)
    requires
        n <= 8,
    ensures
        sixteen(n) <= 0x1_0000_0000,
        sixteen(6) == 0x100_0000,
        sixteen(8) == 0x1_0000_0000,
{
    reveal_with_fuel(sixteen, 9);
}

proof fn no_number_after(s: Seq<char>, n: int)
    requires
        0 <= n <= s.len(),
        hex_number(s.take(n)) is None,
    ensures
        hex_number(s) is None,
    decreases s.len() - n,
{
    if n < s.len() {
        assert(s.take(n + 1).drop_last() =~= s.take(n));
        no_number_after(s, n + 1);
    } else {
        assert(s.take(n) =~= s);
    }
}

/// Reads a color.
pub fn parse_color(raw: &str) -> (result: Option<Color>)
    ensures
        result == color_of(raw@),
{
    let chars = chars_of(raw);
    let n: usize = chars.len();
    if n == 0 || chars[0] != '#' || !(n == 7 || n == 9) {
        return None;
    }
    let ghost hex = raw@.skip(1);
    let mut value: u64 = 0;
    let mut i: usize = 1;
    assert(hex.take(0) =~= Seq::empty());
    while i < n
        invariant
            1 <= i <= n,
            n == chars@.len(),
            n == 7 || n == 9,
            chars@ == raw@,
            chars@[0] == '#',
            hex == raw@.skip(1),
            hex_number(hex.take(i - 1)) == Some(value as nat),
            value < sixteen((i - 1) as nat),
        decreases n - i,
    {
        let ghost here = hex.take(i as int);
        assert(here.drop_last() =~= hex.take(i - 1));
        assert(here.last() == chars@[i as int]);
        match hex_digit_value(chars[i]) {
            Some(digit) => {
                proof {
                    powers_of_sixteen((i - 1) as nat);
                }
                value = value * 16 + digit as u64;
            },
            None => {
                proof {
                    no_number_after(hex, i as int);
                }
                return None;
            },
        }
        i += 1;
    }
    assert(hex.take(i - 1) =~= hex);
    proof {
        powers_of_sixteen(8);
    }
    if n == 7 {
        Some(Color((value * 256 + 255) as u32))
    } else {
        Some(Color(value as u32))
    }
}

/// Reads a color without opacity.
pub fn parse_opaque_color(raw: &str) -> (result: Option<Color>)
    ensures
        result == opaque_color_of(raw@),
{
    let chars = chars_of(raw);
    if chars.len() == 7 {
        parse_color(raw)
    } else {
        None
    }
}

/// What is wrong with a color.
pub open spec fn color_problem(field: Seq<char>, raw: Option<String>) -> Option<Problem> {
    if raw is Some && color_of(raw->0@) is None {
        Some(
            Problem { field, reason: escaped(raw->0@) + " must be #RRGGBB or #RRGGBBAA"@ },
        )
    } else {
        None
    }
}

/// The color that is given, or another one.
pub open spec fn color_value(raw: Option<String>, standard: Color) -> Color {
    match raw {
        Some(raw) => color_of(raw@)->0,
        None => standard,
    }
}

fn set_color(field: &str, raw: &Option<String>, standard: Color) -> (result: Result<Color, Fault>)
    ensures
        settles(result, color_problem(field@, *raw), color_value(*raw, standard)),
{
    match raw {
        Some(raw) => match parse_color(raw.as_str()) {
            Some(color) => Ok(color),
            None => {
                let mut reason = escape_diagnostic(raw.as_str());
                reason.append(" must be #RRGGBB or #RRGGBBAA");
                Err(fault(field, reason))
            },
        },
        None => Ok(standard),
    }
}

/// What is wrong with a word that is to be one of some.
pub open spec fn choice_problem(
    field: Seq<char>,
    raw: Option<String>,
    known: bool,
    choices: Seq<char>,
) -> Option<Problem> {
    if raw is Some && !known {
        Some(Problem { field, reason: escaped(raw->0@) + choices })
    } else {
        None
    }
}

fn choice_fault(field: &str, raw: &str, choices: &str) -> (result: Fault)
    ensures
        result@ == (Problem { field: field@, reason: escaped(raw@) + choices@ }),
{
    let mut reason = escape_diagnostic(raw);
    reason.append(choices);
    fault(field, reason)
}

/// The word for an identity.
pub open spec fn identity_value(raw: Option<String>) -> Option<TerminalIdentity> {
    match raw {
        Some(raw) => identity_of(raw@),
        None => Some(TerminalIdentity::Leyline),
    }
}

pub open spec fn terminal_problem(raw: RawTerminal) -> Option<Problem> {
    choice_problem(
        "terminal.identity"@,
        raw.identity,
        identity_value(raw.identity) is Some,
        " is not one of leyline, xterm-256color"@,
    )
}

fn merge_terminal(raw: &RawTerminal) -> (result: Result<TerminalConfig, Fault>)
    ensures
        settles(
            result,
            terminal_problem(*raw),
            TerminalConfig { identity: identity_value(raw.identity)->0 },
        ),
{
    match &raw.identity {
        Some(value) => match TerminalIdentity::parse(value.as_str()) {
            Some(identity) => Ok(TerminalConfig { identity }),
            None => Err(
                choice_fault(
                    "terminal.identity",
                    value.as_str(),
                    " is not one of leyline, xterm-256color",
                ),
            ),
        },
        None => Ok(TerminalConfig { identity: TerminalIdentity::Leyline }),
    }
}

pub open spec fn hinting_value(raw: Option<String>) -> Option<HintingPreference> {
    match raw {
        None => Some(HintingPreference::Slight),
        Some(raw) => if raw@ == "none"@ {
            Some(HintingPreference::Off)
        } else if raw@ == "slight"@ {
            Some(HintingPreference::Slight)
        } else if raw@ == "full"@ {
            Some(HintingPreference::Full)
        } else if raw@ == "system"@ {
            Some(HintingPreference::System)
        } else {
            None
        },
    }
}

fn read_hinting(raw: &Option<String>) -> (result: Option<HintingPreference>)
    ensures
        result == hinting_value(*raw),
{
    match raw {
        None => Some(HintingPreference::Slight),
        Some(raw) => if is_text(raw, "none") {
            Some(HintingPreference::Off)
        } else if is_text(raw, "slight") {
            Some(HintingPreference::Slight)
        } else if is_text(raw, "full") {
            Some(HintingPreference::Full)
        } else if is_text(raw, "system") {
            Some(HintingPreference::System)
        } else {
            None
        },
    }
}

pub open spec fn antialiasing_value(raw: Option<String>) -> Option<AntialiasPreference> {
    match raw {
        None => Some(AntialiasPreference::Grayscale),
        Some(raw) => if raw@ == "grayscale"@ {
            Some(AntialiasPreference::Grayscale)
        } else if raw@ == "system"@ {
            Some(AntialiasPreference::System)
        } else {
            None
        },
    }
}

fn read_antialiasing(raw: &Option<String>) -> (result: Option<AntialiasPreference>)
    ensures
        result == antialiasing_value(*raw),
{
    match raw {
        None => Some(AntialiasPreference::Grayscale),
        Some(raw) => if is_text(raw, "grayscale") {
            Some(AntialiasPreference::Grayscale)
        } else if is_text(raw, "system") {
            Some(AntialiasPreference::System)
        } else {
            None
        },
    }
}

/// The first thing that is wrong with the font's settings.
pub open spec fn font_problem(raw: RawFont) -> Option<Problem> {
    first_of(
        number_problem("font.size"@, raw.size, SIX, SEVENTY_TWO, "6.0..=72.0"@),
        first_of(
            choice_problem(
                "font.hinting"@,
                raw.hinting,
                hinting_value(raw.hinting) is Some,
                " is not one of none, slight, full, system"@,
            ),
            first_of(
                choice_problem(
                    "font.antialiasing"@,
                    raw.antialiasing,
                    antialiasing_value(raw.antialiasing) is Some,
                    " is not one of grayscale, system"@,
                ),
                number_problem("font.line_spacing"@, raw.line_spacing, ZERO, EIGHT, "0..=8"@),
            ),
        ),
    )
}

pub open spec fn font_value(raw: RawFont) -> FontModel {
    let standard = EffectiveModel::standard().font;
    FontModel {
        family: match raw.family {
            Some(family) => family@,
            None => standard.family,
        },
        size: number_value(raw.size, standard.size),
        ligatures: chosen(raw.ligatures, standard.ligatures),
        hinting: hinting_value(raw.hinting)->0,
        antialiasing: antialiasing_value(raw.antialiasing)->0,
        line_spacing: number_value(raw.line_spacing, standard.line_spacing),
    }
}

fn merge_font(raw: &RawFont, standard: FontConfig) -> (result: Result<FontConfig, Fault>)
    requires
        standard@ == EffectiveModel::standard().font,
    ensures
        match font_problem(*raw) {
            Some(problem) => result is Err && (result->Err_0)@ == problem,
            None => result is Ok && (result->Ok_0)@ == font_value(*raw),
        },
{
    let mut font = standard;
    if let Some(family) = &raw.family {
        font.family = family.as_str().to_owned();
    }
    match set_number("font.size", &raw.size, SIX, SEVENTY_TWO, "6.0..=72.0", font.size) {
        Ok(size) => {
            font.size = size;
        },
        Err(problem) => {
            return Err(problem);
        },
    }
    font.ligatures = flag(raw.ligatures, font.ligatures);
    match read_hinting(&raw.hinting) {
        Some(hinting) => {
            font.hinting = hinting;
        },
        None => {
            if let Some(value) = &raw.hinting {
                return Err(
                    choice_fault(
                        "font.hinting",
                        value.as_str(),
                        " is not one of none, slight, full, system",
                    ),
                );
            }
        },
    }
    match read_antialiasing(&raw.antialiasing) {
        Some(antialiasing) => {
            font.antialiasing = antialiasing;
        },
        None => {
            if let Some(value) = &raw.antialiasing {
                return Err(
                    choice_fault(
                        "font.antialiasing",
                        value.as_str(),
                        " is not one of grayscale, system",
                    ),
                );
            }
        },
    }
    match set_number(
        "font.line_spacing",
        &raw.line_spacing,
        ZERO,
        EIGHT,
        "0..=8",
        font.line_spacing,
    ) {
        Ok(spacing) => {
            font.line_spacing = spacing;
        },
        Err(problem) => {
            return Err(problem);
        },
    }
    Ok(font)
}

/// What is wrong with the named colors, from one on.
pub open spec fn ansi_problem_from(values: Seq<String>, i: int) -> Option<Problem>
    decreases values.len() - i,
{
    if i < 0 || i >= values.len() {
        None
    } else if opaque_color_of(values[i]@) is None {
        Some(
            Problem {
                field: "colors.ansi["@ + dec(i as nat) + "]"@,
                reason: escaped(values[i]@) + " must be #RRGGBB"@,
            },
        )
    } else {
        ansi_problem_from(values, i + 1)
    }
}

/// What is wrong with the named colors: there are sixteen, without opacity.
pub open spec fn ansi_problem(raw: Option<Vec<String>>) -> Option<Problem> {
    match raw {
        None => None,
        Some(values) => if values@.len() != 16 {
            Some(
                Problem {
                    field: "colors.ansi"@,
                    reason: "must contain exactly 16 colors, got "@ + dec(values@.len()),
                },
            )
        } else {
            ansi_problem_from(values@, 0)
        },
    }
}

pub open spec fn ansi_value(raw: Option<Vec<String>>) -> Seq<Color> {
    match raw {
        None => standard_palette(),
        Some(values) => Seq::new(16, |i: int| opaque_color_of(values@[i]@)->0),
    }
}

fn merge_ansi(raw: &Option<Vec<String>>) -> (result: Result<[Color; 16], Fault>)
    ensures
        match ansi_problem(*raw) {
            Some(problem) => result is Err && (result->Err_0)@ == problem,
            None => result is Ok && (result->Ok_0)@ == ansi_value(*raw),
        },
{
    let mut palette = default_ansi_palette();
    let values = match raw {
        Some(values) => values,
        None => {
            return Ok(palette);
        },
    };
    if values.len() != 16 {
        let mut reason = String::from_str("must contain exactly 16 colors, got ");
        push_dec(&mut reason, values.len() as u64);
        return Err(fault("colors.ansi", reason));
    }
    let mut i: usize = 0;
    while i < 16
        invariant
            i <= 16,
            values@.len() == 16,
            palette@.len() == 16,
            *raw == Some(*values),
            ansi_problem(*raw) == ansi_problem_from(values@, i as int),
            forall|k: int|
                0 <= k < i ==> Some(#[trigger] palette@[k]) == opaque_color_of(values@[k]@),
        decreases 16 - i,
    {
        match parse_opaque_color(values[i].as_str()) {
            Some(color) => {
                palette.set(i, color);
            },
            None => {
                let mut field = String::from_str("colors.ansi[");
                push_dec(&mut field, i as u64);
                field.append("]");
                let mut reason = escape_diagnostic(values[i].as_str());
                reason.append(" must be #RRGGBB");
                return Err(Fault { field, reason });
            },
        }
        i += 1;
    }
    assert(palette@ =~= ansi_value(*raw));
    Ok(palette)
}

/// The first thing that is wrong with the colors.
pub open spec fn colors_problem(raw: RawColors) -> Option<Problem> {
    first_of(
        color_problem("colors.foreground"@, raw.foreground),
        first_of(
            ansi_problem(raw.ansi),
            first_of(
                color_problem("colors.background"@, raw.background),
                first_of(
                    color_problem("colors.cursor"@, raw.cursor),
                    first_of(
                        color_problem("colors.selection_foreground"@, raw.selection_foreground),
                        color_problem("colors.selection_background"@, raw.selection_background),
                    ),
                ),
            ),
        ),
    )
}

pub open spec fn colors_value(raw: RawColors) -> ColorsModel {
    let standard = EffectiveModel::standard().colors;
    ColorsModel {
        foreground: color_value(raw.foreground, standard.foreground),
        background: color_value(raw.background, standard.background),
        cursor: color_value(raw.cursor, standard.cursor),
        selection_foreground: color_value(raw.selection_foreground, standard.selection_foreground),
        selection_background: color_value(raw.selection_background, standard.selection_background),
        ansi: ansi_value(raw.ansi),
    }
}

fn merge_colors(raw: &RawColors, standard: ColorsConfig) -> (result: Result<ColorsConfig, Fault>)
    requires
        standard@ == EffectiveModel::standard().colors,
    ensures
        match colors_problem(*raw) {
            Some(problem) => result is Err && (result->Err_0)@ == problem,
            None => result is Ok && (result->Ok_0)@ == colors_value(*raw),
        },
{
    let foreground = match set_color("colors.foreground", &raw.foreground, standard.foreground) {
        Ok(color) => color,
        Err(problem) => {
            return Err(problem);
        },
    };
    let ansi = match merge_ansi(&raw.ansi) {
        Ok(palette) => palette,
        Err(problem) => {
            return Err(problem);
        },
    };
    let background = match set_color("colors.background", &raw.background, standard.background) {
        Ok(color) => color,
        Err(problem) => {
            return Err(problem);
        },
    };
    let cursor = match set_color("colors.cursor", &raw.cursor, standard.cursor) {
        Ok(color) => color,
        Err(problem) => {
            return Err(problem);
        },
    };
    let selection_foreground = match set_color(
        "colors.selection_foreground",
        &raw.selection_foreground,
        standard.selection_foreground,
    ) {
        Ok(color) => color,
        Err(problem) => {
            return Err(problem);
        },
    };
    let selection_background = match set_color(
        "colors.selection_background",
        &raw.selection_background,
        standard.selection_background,
    ) {
        Ok(color) => color,
        Err(problem) => {
            return Err(problem);
        },
    };
    Ok(
        ColorsConfig {
            foreground,
            background,
            cursor,
            selection_foreground,
            selection_background,
            ansi,
        },
    )
}

pub open spec fn scrollbar_mode_value(raw: Option<String>) -> Option<ScrollbarMode> {
    match raw {
        None => Some(ScrollbarMode::Auto),
        Some(raw) => if raw@ == "auto"@ {
            Some(ScrollbarMode::Auto)
        } else if raw@ == "always"@ {
            Some(ScrollbarMode::Always)
        } else if raw@ == "hidden"@ {
            Some(ScrollbarMode::Hidden)
        } else {
            None
        },
    }
}

fn read_scrollbar_mode(raw: &Option<String>) -> (result: Option<ScrollbarMode>)
    ensures
        result == scrollbar_mode_value(*raw),
{
    match raw {
        None => Some(ScrollbarMode::Auto),
        Some(raw) => if is_text(raw, "auto") {
            Some(ScrollbarMode::Auto)
        } else if is_text(raw, "always") {
            Some(ScrollbarMode::Always)
        } else if is_text(raw, "hidden") {
            Some(ScrollbarMode::Hidden)
        } else {
            None
        },
    }
}

/// What is wrong with the area in which the scrollbar can be taken: it is no narrower than the bar.
pub open spec fn hit_width_problem(raw: RawScrollbar) -> Option<Problem> {
    let standard = EffectiveModel::standard().scrollbar;
    if number_value(raw.hit_width, standard.hit_width).bits < number_value(
        raw.width,
        standard.width,
    ).bits {
        Some(
            Problem {
                field: "scrollbar.hit_width"@,
                reason: "must be greater than or equal to scrollbar.width"@,
            },
        )
    } else {
        None
    }
}

/// The first thing that is wrong with the scrollbar's settings.
pub open spec fn scrollbar_problem(raw: RawScrollbar) -> Option<Problem> {
    first_of(
        choice_problem(
            "scrollbar.mode"@,
            raw.mode,
            scrollbar_mode_value(raw.mode) is Some,
            " is not one of auto, always, hidden"@,
        ),
        first_of(
            number_problem("scrollbar.width"@, raw.width, TWO, THIRTY_TWO, "2..=32"@),
            first_of(
                number_problem("scrollbar.hit_width"@, raw.hit_width, TWO, THIRTY_TWO, "2..=32"@),
                first_of(
                    number_problem(
                        "scrollbar.min_thumb_size"@,
                        raw.min_thumb_size,
                        TWO,
                        THIRTY_TWO,
                        "2..=32"@,
                    ),
                    first_of(
                        hit_width_problem(raw),
                        first_of(
                            color_problem("scrollbar.thumb"@, raw.thumb),
                            first_of(
                                color_problem("scrollbar.thumb_hover"@, raw.thumb_hover),
                                color_problem("scrollbar.track"@, raw.track),
                            ),
                        ),
                    ),
                ),
            ),
        ),
    )
}

pub open spec fn scrollbar_value(raw: RawScrollbar) -> ScrollbarConfig {
    let standard = EffectiveModel::standard().scrollbar;
    ScrollbarConfig {
        mode: scrollbar_mode_value(raw.mode)->0,
        width: number_value(raw.width, standard.width),
        hit_width: number_value(raw.hit_width, standard.hit_width),
        min_thumb_size: number_value(raw.min_thumb_size, standard.min_thumb_size),
        thumb: color_value(raw.thumb, standard.thumb),
        thumb_hover: color_value(raw.thumb_hover, standard.thumb_hover),
        track: color_value(raw.track, standard.track),
    }
}

fn merge_scrollbar(raw: &RawScrollbar, standard: ScrollbarConfig) -> (result: Result<
    ScrollbarConfig,
    Fault,
>)
    requires
        standard == EffectiveModel::standard().scrollbar,
    ensures
        settles(result, scrollbar_problem(*raw), scrollbar_value(*raw)),
{
    let mode = match read_scrollbar_mode(&raw.mode) {
        Some(mode) => mode,
        None => match &raw.mode {
            Some(value) => {
                return Err(
                    choice_fault(
                        "scrollbar.mode",
                        value.as_str(),
                        " is not one of auto, always, hidden",
                    ),
                );
            },
            None => ScrollbarMode::Auto,
        },
    };
    let width = match set_number(
        "scrollbar.width",
        &raw.width,
        TWO,
        THIRTY_TWO,
        "2..=32",
        standard.width,
    ) {
        Ok(number) => number,
        Err(problem) => {
            return Err(problem);
        },
    };
    let hit_width = match set_number(
        "scrollbar.hit_width",
        &raw.hit_width,
        TWO,
        THIRTY_TWO,
        "2..=32",
        standard.hit_width,
    ) {
        Ok(number) => number,
        Err(problem) => {
            return Err(problem);
        },
    };
    let min_thumb_size = match set_number(
        "scrollbar.min_thumb_size",
        &raw.min_thumb_size,
        TWO,
        THIRTY_TWO,
        "2..=32",
        standard.min_thumb_size,
    ) {
        Ok(number) => number,
        Err(problem) => {
            return Err(problem);
        },
    };
    if hit_width.bits < width.bits {
        return Err(
            fault(
                "scrollbar.hit_width",
                String::from_str("must be greater than or equal to scrollbar.width"),
            ),
        );
    }
    let thumb = match set_color("scrollbar.thumb", &raw.thumb, standard.thumb) {
        Ok(color) => color,
        Err(problem) => {
            return Err(problem);
        },
    };
    let thumb_hover = match set_color(
        "scrollbar.thumb_hover",
        &raw.thumb_hover,
        standard.thumb_hover,
    ) {
        Ok(color) => color,
        Err(problem) => {
            return Err(problem);
        },
    };
    let track = match set_color("scrollbar.track", &raw.track, standard.track) {
        Ok(color) => color,
        Err(problem) => {
            return Err(problem);
        },
    };
    Ok(ScrollbarConfig { mode, width, hit_width, min_thumb_size, thumb, thumb_hover, track })
}

pub open spec fn cursor_value(raw: Option<String>) -> Option<CursorStyle> {
    match raw {
        None => Some(CursorStyle::Block),
        Some(raw) => if raw@ == "block"@ {
            Some(CursorStyle::Block)
        } else if raw@ == "beam"@ {
            Some(CursorStyle::Beam)
        } else if raw@ == "underline"@ {
            Some(CursorStyle::Underline)
        } else {
            None
        },
    }
}

pub open spec fn cursor_problem(raw: RawCursor) -> Option<Problem> {
    choice_problem(
        "cursor.style"@,
        raw.style,
        cursor_value(raw.style) is Some,
        " is not one of block, beam, underline"@,
    )
}

fn merge_cursor(raw: &RawCursor) -> (result: Result<CursorConfig, Fault>)
    ensures
        settles(result, cursor_problem(*raw), CursorConfig { style: cursor_value(raw.style)->0 }),
{
    match &raw.style {
        None => Ok(CursorConfig { style: CursorStyle::Block }),
        Some(value) => if is_text(value, "block") {
            Ok(CursorConfig { style: CursorStyle::Block })
        } else if is_text(value, "beam") {
            Ok(CursorConfig { style: CursorStyle::Beam })
        } else if is_text(value, "underline") {
            Ok(CursorConfig { style: CursorStyle::Underline })
        } else {
            Err(
                choice_fault(
                    "cursor.style",
                    value.as_str(),
                    " is not one of block, beam, underline",
                ),
            )
        },
    }
}

/// The first thing that is wrong with the bell's settings.
pub open spec fn bell_problem(raw: RawBell) -> Option<Problem> {
    first_of(
        bounded_problem("bell.visual_duration_ms"@, raw.visual_duration_ms, 40, 1000),
        first_of(
            bounded_problem(
                "bell.notification_cooldown_seconds"@,
                raw.notification_cooldown_seconds,
                1,
                3600,
            ),
            bounded_problem(
                "bell.notification_burst_per_minute"@,
                raw.notification_burst_per_minute,
                1,
                30,
            ),
        ),
    )
}

pub open spec fn bell_value(raw: RawBell) -> BellConfig {
    let standard = BellConfig::standard();
    BellConfig {
        enabled: chosen(raw.enabled, standard.enabled),
        visual: chosen(raw.visual, standard.visual),
        visual_duration: match raw.visual_duration_ms {
            Some(ms) => Duration { nanos: (ms * 1_000_000) as u64 },
            None => standard.visual_duration,
        },
        audible: chosen(raw.audible, standard.audible),
        audible_when_unfocused: chosen(raw.audible_when_unfocused, standard.audible_when_unfocused),
        attention: chosen(raw.attention, standard.attention),
        desktop_notifications: chosen(raw.desktop_notifications, standard.desktop_notifications),
        notification_cooldown: match raw.notification_cooldown_seconds {
            Some(seconds) => Duration { nanos: (seconds * 1_000_000_000) as u64 },
            None => standard.notification_cooldown,
        },
        notification_burst_per_minute: match raw.notification_burst_per_minute {
            Some(burst) => burst as u8,
            None => standard.notification_burst_per_minute,
        },
    }
}

fn merge_bell(raw: &RawBell) -> (result: Result<BellConfig, Fault>)
    ensures
        settles(result, bell_problem(*raw), bell_value(*raw)),
{
    let standard = BellConfig::default();
    let visual: i64 = match set_bounded(
        "bell.visual_duration_ms",
        raw.visual_duration_ms,
        40,
        1000,
        120,
    ) {
        Ok(ms) => ms,
        Err(problem) => {
            return Err(problem);
        },
    };
    let cooldown: i64 = match set_bounded(
        "bell.notification_cooldown_seconds",
        raw.notification_cooldown_seconds,
        1,
        3600,
        10,
    ) {
        Ok(seconds) => seconds,
        Err(problem) => {
            return Err(problem);
        },
    };
    let burst: i64 = match set_bounded(
        "bell.notification_burst_per_minute",
        raw.notification_burst_per_minute,
        1,
        30,
        6,
    ) {
        Ok(burst) => burst,
        Err(problem) => {
            return Err(problem);
        },
    };
    Ok(
        BellConfig {
            enabled: flag(raw.enabled, standard.enabled),
            visual: flag(raw.visual, standard.visual),
            visual_duration: Duration { nanos: visual as u64 * 1_000_000 },
            audible: flag(raw.audible, standard.audible),
            audible_when_unfocused: flag(
                raw.audible_when_unfocused,
                standard.audible_when_unfocused,
            ),
            attention: flag(raw.attention, standard.attention),
            desktop_notifications: flag(raw.desktop_notifications, standard.desktop_notifications),
            notification_cooldown: Duration { nanos: cooldown as u64 * 1_000_000_000 },
            notification_burst_per_minute: burst as u8,
        },
    )
}

/// What is wrong with where a new tab starts.
pub open spec fn cwd_problem(raw: RawTabs) -> Option<Problem> {
    match raw.new_tab_cwd {
        None => None,
        Some(policy) => if policy@ == "inherit"@ || policy@ == "home"@ {
            None
        } else if policy@ == "fixed"@ {
            match raw.new_tab_fixed_cwd {
                None => Some(
                    Problem {
                        field: "tabs.new_tab_fixed_cwd"@,
                        reason: "is required when tabs.new_tab_cwd is fixed"@,
                    },
                ),
                Some(path) => if path@.len() == 0 || path@[0] != '/' || path@.contains('\0') {
                    Some(
                        Problem {
                            field: "tabs.new_tab_fixed_cwd"@,
                            reason: "must be an absolute path without NUL"@,
                        },
                    )
                } else {
                    None
                },
            }
        } else {
            Some(
                Problem {
                    field: "tabs.new_tab_cwd"@,
                    reason: escaped(policy@) + " is not one of inherit, fixed, home"@,
                },
            )
        },
    }
}

/// Whether new tabs start in a fixed directory.
pub open spec fn starts_fixed(raw: RawTabs) -> bool {
    raw.new_tab_cwd is Some && raw.new_tab_cwd->0@ == "fixed"@
}

pub open spec fn cwd_value(raw: RawTabs) -> CwdModel {
    match raw.new_tab_cwd {
        None => CwdModel::Inherit,
        Some(policy) => if policy@ == "home"@ {
            CwdModel::Home
        } else if policy@ == "fixed"@ {
            CwdModel::Fixed(encode_utf8(raw.new_tab_fixed_cwd->0@))
        } else {
            CwdModel::Inherit
        },
    }
}

fn holds_nul(chars: &Vec<char>) -> (result: bool)
    ensures
        result == chars@.contains('\0'),
{
    let mut i: usize = 0;
    while i < chars.len()
        invariant
            i <= chars@.len(),
            forall|k: int| 0 <= k < i ==> chars@[k] != '\0',
        decreases chars@.len() - i,
    {
        if chars[i] == '\0' {
            assert(chars@[i as int] == '\0');
            return true;
        }
        i += 1;
    }
    false
}

fn merge_cwd(raw: &RawTabs) -> (result: Result<NewTabCwdPolicy, Fault>)
    ensures
        match cwd_problem(*raw) {
            Some(problem) => result is Err && (result->Err_0)@ == problem,
            None => result is Ok && (result->Ok_0)@ == cwd_value(*raw),
        },
{
    proof {
        reveal_strlit("inherit");
        reveal_strlit("home");
        reveal_strlit("fixed");
    }
    let policy = match &raw.new_tab_cwd {
        None => {
            return Ok(NewTabCwdPolicy::Inherit);
        },
        Some(policy) => policy,
    };
    if is_text(policy, "inherit") {
        assert(policy@.len() == 7);
        return Ok(NewTabCwdPolicy::Inherit);
    }
    if is_text(policy, "home") {
        return Ok(NewTabCwdPolicy::Home);
    }
    if !is_text(policy, "fixed") {
        return Err(
            choice_fault(
                "tabs.new_tab_cwd",
                policy.as_str(),
                " is not one of inherit, fixed, home",
            ),
        );
    }
    assert(policy@.len() == 5);
    match &raw.new_tab_fixed_cwd {
        None => Err(
            fault(
                "tabs.new_tab_fixed_cwd",
                String::from_str("is required when tabs.new_tab_cwd is fixed"),
            ),
        ),
        Some(path) => {
            let chars = chars_of(path.as_str());
            if chars.len() == 0 || chars[0] != '/' || holds_nul(&chars) {
                return Err(
                    fault(
                        "tabs.new_tab_fixed_cwd",
                        String::from_str("must be an absolute path without NUL"),
                    ),
                );
            }
            Ok(NewTabCwdPolicy::Fixed(string_bytes(path.as_str())))
        },
    }
}

/// What is wrong with the widths of tabs.
pub open spec fn tab_width_problem(raw: RawTabs) -> Option<Problem> {
    if chosen(raw.min_width, 80) > chosen(raw.max_width, 240) {
        Some(
            Problem {
                field: "tabs.min_width"@,
                reason: "must be less than or equal to tabs.max_width"@,
            },
        )
    } else {
        None
    }
}

/// The first thing that is wrong with the settings for tabs.
pub open spec fn tabs_problem(raw: RawTabs) -> Option<Problem> {
    first_of(
        bounded_problem("tabs.max_count"@, raw.max_count, 1, MAX_TABS as i64),
        first_of(
            bounded_problem("tabs.bar_height"@, raw.bar_height, 24, 64),
            first_of(
                bounded_problem("tabs.min_width"@, raw.min_width, 48, 240),
                first_of(
                    bounded_problem("tabs.max_width"@, raw.max_width, 48, 400),
                    first_of(tab_width_problem(raw), cwd_problem(raw)),
                ),
            ),
        ),
    )
}

pub open spec fn tabs_value(raw: RawTabs) -> TabsModel {
    TabsModel {
        max_count: chosen(raw.max_count, MAX_TABS as i64) as u8,
        bar_height: chosen(raw.bar_height, 32) as u16,
        min_width: chosen(raw.min_width, 80) as u16,
        max_width: chosen(raw.max_width, 240) as u16,
        show_close_button: chosen(raw.show_close_button, true),
        new_tab_cwd: cwd_value(raw),
        visibility: TabBarVisibility::Multiple,
    }
}

fn merge_tabs(raw: &RawTabs) -> (result: Result<TabsConfig, Fault>)
    ensures
        match tabs_problem(*raw) {
            Some(problem) => result is Err && (result->Err_0)@ == problem,
            None => result is Ok && (result->Ok_0)@ == tabs_value(*raw),
        },
{
    let max_count: i64 = match set_bounded("tabs.max_count", raw.max_count, 1, MAX_TABS as i64, 32) {
        Ok(value) => value,
        Err(problem) => {
            return Err(problem);
        },
    };
    let bar_height: i64 = match set_bounded("tabs.bar_height", raw.bar_height, 24, 64, 32) {
        Ok(value) => value,
        Err(problem) => {
            return Err(problem);
        },
    };
    let min_width: i64 = match set_bounded("tabs.min_width", raw.min_width, 48, 240, 80) {
        Ok(value) => value,
        Err(problem) => {
            return Err(problem);
        },
    };
    let max_width: i64 = match set_bounded("tabs.max_width", raw.max_width, 48, 400, 240) {
        Ok(value) => value,
        Err(problem) => {
            return Err(problem);
        },
    };
    if min_width > max_width {
        return Err(
            fault(
                "tabs.min_width",
                String::from_str("must be less than or equal to tabs.max_width"),
            ),
        );
    }
    let new_tab_cwd = match merge_cwd(raw) {
        Ok(policy) => policy,
        Err(problem) => {
            return Err(problem);
        },
    };
    Ok(
        TabsConfig {
            max_count: max_count as u8,
            bar_height: bar_height as u16,
            min_width: min_width as u16,
            max_width: max_width as u16,
            show_close_button: flag(raw.show_close_button, true),
            new_tab_cwd,
            visibility: TabBarVisibility::Multiple,
        },
    )
}

/// Whether a line gives a field a value.
pub open spec fn line_sets(line: Seq<char>, key: Seq<char>) -> bool {
    has_prefix(trim_start(line), key.push(' ')) || has_prefix(trim_start(line), key.push('='))
}

/// The first line, from one on, that gives a field a value.
pub open spec fn setting_line(lines: Seq<Seq<char>>, key: Seq<char>, i: int) -> Option<int>
    decreases lines.len() - i,
{
    if i < 0 || i >= lines.len() {
        None
    } else if line_sets(lines[i], key) {
        Some(i)
    } else {
        setting_line(lines, key, i + 1)
    }
}

/// The full name of a field.
pub open spec fn field_name(prefix: Seq<char>, key: Seq<char>) -> Seq<char> {
    if prefix.len() == 0 {
        key
    } else {
        prefix + "."@ + key
    }
}

/// What is said of a field that is not known: where it stands, and what may have been meant.
pub open spec fn unknown_text(
    source: Seq<char>,
    prefix: Seq<char>,
    key: Seq<char>,
    candidates: Seq<&'static str>,
) -> Seq<char> {
    "unknown configuration field "@ + field_name(prefix, key) + (match setting_line(
        lines_of(source),
        key,
        0,
    ) {
        Some(i) => " at line "@ + dec((i + 1) as nat),
        None => Seq::empty(),
    }) + (match suggestion(key, candidates) {
        Some(name) => "; did you mean "@ + name + "?"@,
        None => Seq::empty(),
    })
}

/// What is said of the fields of a part that are not known.
pub open spec fn unknown_texts(
    source: Seq<char>,
    prefix: Seq<char>,
    keys: Seq<String>,
    candidates: Seq<&'static str>,
) -> Seq<Seq<char>> {
    keys.map_values(|key: String| unknown_text(source, prefix, key@, candidates))
}

fn find_setting(lines: &Vec<Vec<char>>, key: &str) -> (result: Option<usize>)
    ensures
        match result {
            Some(i) => setting_line(texts_view(lines@), key@, 0) == Some(i as int) && i
                < lines@.len(),
            None => setting_line(texts_view(lines@), key@, 0) is None,
        },
{
    let mut spaced = key.to_owned();
    spaced.push(' ');
    let mut assigned = key.to_owned();
    assigned.push('=');
    let ghost all = texts_view(lines@);
    let mut i: usize = 0;
    while i < lines.len()
        invariant
            i <= lines@.len(),
            all == texts_view(lines@),
            spaced@ == key@.push(' '),
            assigned@ == key@.push('='),
            setting_line(all, key@, 0) == setting_line(all, key@, i as int),
        decreases lines@.len() - i,
    {
        assert(all[i as int] == lines@[i as int]@);
        let rest = drop_leading(&lines[i]);
        if starts_with(&rest, spaced.as_str()) || starts_with(&rest, assigned.as_str()) {
            return Some(i);
        }
        i += 1;
    }
    None
}

/// Adds what is to be said of the fields of a part that are not known.
fn collect_unknown(
    warnings: &mut Vec<ConfigWarning>,
    source: &str,
    lines: &Vec<Vec<char>>,
    prefix: &str,
    keys: &Vec<String>,
    candidates: &Vec<&'static str>,
)
    requires
        texts_view(lines@) == lines_of(source@),
    ensures
        messages(final(warnings)@) == messages(old(warnings)@) + unknown_texts(
            source@,
            prefix@,
            keys@,
            candidates@,
        ),
{
    let ghost texts = unknown_texts(source@, prefix@, keys@, candidates@);
    let mut i: usize = 0;
    assert(messages(warnings@) =~= messages(old(warnings)@) + texts.take(0));
    while i < keys.len()
        invariant
            i <= keys@.len(),
            texts_view(lines@) == lines_of(source@),
            texts == unknown_texts(source@, prefix@, keys@, candidates@),
            messages(warnings@) == messages(old(warnings)@) + texts.take(i as int),
        decreases keys@.len() - i,
    {
        let key = keys[i].as_str();
        let message = unknown_message(source, lines, prefix, key, candidates);
        let ghost before = warnings@;
        warnings.push(ConfigWarning { message });
        i += 1;
        assert(messages(warnings@) =~= messages(before).push(message@));
        assert(texts.take(i as int) =~= texts.take(i - 1).push(message@));
        assert(messages(warnings@) =~= messages(old(warnings)@) + texts.take(i as int));
    }
    assert(texts.take(i as int) =~= texts);
}

fn unknown_message(
    source: &str,
    lines: &Vec<Vec<char>>,
    prefix: &str,
    key: &str,
    candidates: &Vec<&'static str>,
) -> (result: String)
    requires
        texts_view(lines@) == lines_of(source@),
    ensures
        result@ == unknown_text(source@, prefix@, key@, candidates@),
{
    let count: usize = lines.len();
    assert(count <= usize::MAX);
    let mut out = String::from_str("unknown configuration field ");
    let ghost start = out@;
    let part = chars_of(prefix);
    if part.len() > 0 {
        out.append(prefix);
        out.append(".");
    }
    out.append(key);
    assert(out@ =~= start + field_name(prefix@, key@));
    let ghost named = out@;
    let ghost place: Seq<char> = match setting_line(lines_of(source@), key@, 0) {
        Some(i) => " at line "@ + dec((i + 1) as nat),
        None => Seq::empty(),
    };
    match find_setting(lines, key) {
        Some(i) => {
            out.append(" at line ");
            push_dec(&mut out, (i + 1) as u64);
        },
        None => {},
    }
    assert(out@ =~= named + place);
    let ghost placed = out@;
    let ghost hint: Seq<char> = match suggestion(key@, candidates@) {
        Some(name) => "; did you mean "@ + name + "?"@,
        None => Seq::empty(),
    };
    match unique_suggestion(key, candidates) {
        Some(name) => {
            out.append("; did you mean ");
            out.append(name);
            out.append("?");
        },
        None => {},
    }
    assert(out@ =~= placed + hint);
    out
}

/// The modifier that a name stands for.
pub open spec fn modifier_of(name: Seq<char>) -> Option<Modifier> {
    if name == "Control"@ {
        Some(Modifier::Control)
    } else if name == "Shift"@ {
        Some(Modifier::Shift)
    } else if name == "Alt"@ {
        Some(Modifier::Alt)
    } else if name == "Super"@ {
        Some(Modifier::Super)
    } else {
        None
    }
}

fn parse_modifier(name: &String) -> (result: Option<Modifier>)
    ensures
        result == modifier_of(name@),
{
    if is_text(name, "Control") {
        Some(Modifier::Control)
    } else if is_text(name, "Shift") {
        Some(Modifier::Shift)
    } else if is_text(name, "Alt") {
        Some(Modifier::Alt)
    } else if is_text(name, "Super") {
        Some(Modifier::Super)
    } else {
        None
    }
}

/// The modifiers that are held together.
pub open spec fn mask_of(modifiers: Seq<Modifier>) -> ModifierMask {
    ModifierMask {
        shift: modifiers.contains(Modifier::Shift),
        control: modifiers.contains(Modifier::Control),
        alt: modifiers.contains(Modifier::Alt),
        super_key: modifiers.contains(Modifier::Super),
    }
}

/// The modifiers that are held together, in any order and however often they are named.
pub fn modifier_mask(modifiers: &[Modifier]) -> (result: ModifierMask)
    ensures
        result == mask_of(modifiers@),
{
    let mut mask = ModifierMask { shift: false, control: false, alt: false, super_key: false };
    let mut i: usize = 0;
    while i < modifiers.len()
        invariant
            i <= modifiers@.len(),
            mask == mask_of(modifiers@.take(i as int)),
        decreases modifiers@.len() - i,
    {
        let ghost before = modifiers@.take(i as int);
        let ghost after = modifiers@.take(i + 1);
        let added = modifiers[i];
        assert(after =~= before.push(added));
        assert(forall|m: Modifier| after.contains(m) <==> before.contains(m) || m == added) by {
            assert forall|m: Modifier| before.contains(m) || m == added implies after.contains(
                m,
            ) by {
                if before.contains(m) {
                    let k = choose|k: int| 0 <= k < before.len() && before[k] == m;
                    assert(after[k] == m);
                } else {
                    assert(after[before.len() as int] == m);
                }
            }
        }
        match added {
            Modifier::Control => {
                mask.control = true;
            },
            Modifier::Shift => {
                mask.shift = true;
            },
            Modifier::Alt => {
                mask.alt = true;
            },
            Modifier::Super => {
                mask.super_key = true;
            },
        }
        i += 1;
    }
    assert(modifiers@.take(i as int) =~= modifiers@);
    mask
}

/// The first name, from one on, that stands for no modifier.
pub open spec fn unknown_modifier(names: Seq<String>, i: int) -> Option<Seq<char>>
    decreases names.len() - i,
{
    if i < 0 || i >= names.len() {
        None
    } else if modifier_of(names[i]@) is None {
        Some(names[i]@)
    } else {
        unknown_modifier(names, i + 1)
    }
}

/// The modifiers that names stand for.
pub open spec fn named_modifiers(names: Seq<String>) -> Seq<Modifier> {
    names.map_values(|name: String| modifier_of(name@)->0)
}

/// The action that a name stands for.
pub open spec fn action_of(name: Seq<char>) -> Option<Action> {
    if name == "CopyClipboard"@ {
        Some(Action::CopyClipboard)
    } else if name == "PasteClipboard"@ {
        Some(Action::PasteClipboard)
    } else if name == "PastePrimary"@ {
        Some(Action::PastePrimary)
    } else if name == "IncreaseFontSize"@ {
        Some(Action::IncreaseFontSize)
    } else if name == "DecreaseFontSize"@ {
        Some(Action::DecreaseFontSize)
    } else if name == "ResetFontSize"@ {
        Some(Action::ResetFontSize)
    } else if name == "ScrollPageUp"@ {
        Some(Action::ScrollPageUp)
    } else if name == "ScrollPageDown"@ {
        Some(Action::ScrollPageDown)
    } else if name == "NewTab"@ {
        Some(Action::NewTab)
    } else if name == "CloseTab"@ {
        Some(Action::CloseTab)
    } else if name == "PreviousTab"@ {
        Some(Action::PreviousTab)
    } else if name == "NextTab"@ {
        Some(Action::NextTab)
    } else if name == "ToggleBellMute"@ {
        Some(Action::ToggleBellMute)
    } else if name == "ActivateTab1"@ {
        Some(Action::ActivateTab(1))
    } else if name == "ActivateTab2"@ {
        Some(Action::ActivateTab(2))
    } else if name == "ActivateTab3"@ {
        Some(Action::ActivateTab(3))
    } else if name == "ActivateTab4"@ {
        Some(Action::ActivateTab(4))
    } else if name == "ActivateTab5"@ {
        Some(Action::ActivateTab(5))
    } else if name == "ActivateTab6"@ {
        Some(Action::ActivateTab(6))
    } else if name == "ActivateTab7"@ {
        Some(Action::ActivateTab(7))
    } else if name == "ActivateTab8"@ {
        Some(Action::ActivateTab(8))
    } else if name == "ActivateTab9"@ {
        Some(Action::ActivateTab(9))
    } else {
        None
    }
}

fn parse_action(name: &String) -> (result: Option<Action>)
    ensures
        result == action_of(name@),
{
    if is_text(name, "CopyClipboard") {
        Some(Action::CopyClipboard)
    } else if is_text(name, "PasteClipboard") {
        Some(Action::PasteClipboard)
    } else if is_text(name, "PastePrimary") {
        Some(Action::PastePrimary)
    } else if is_text(name, "IncreaseFontSize") {
        Some(Action::IncreaseFontSize)
    } else if is_text(name, "DecreaseFontSize") {
        Some(Action::DecreaseFontSize)
    } else if is_text(name, "ResetFontSize") {
        Some(Action::ResetFontSize)
    } else if is_text(name, "ScrollPageUp") {
        Some(Action::ScrollPageUp)
    } else if is_text(name, "ScrollPageDown") {
        Some(Action::ScrollPageDown)
    } else if is_text(name, "NewTab") {
        Some(Action::NewTab)
    } else if is_text(name, "CloseTab") {
        Some(Action::CloseTab)
    } else if is_text(name, "PreviousTab") {
        Some(Action::PreviousTab)
    } else if is_text(name, "NextTab") {
        Some(Action::NextTab)
    } else if is_text(name, "ToggleBellMute") {
        Some(Action::ToggleBellMute)
    } else if is_text(name, "ActivateTab1") {
        Some(Action::ActivateTab(1))
    } else if is_text(name, "ActivateTab2") {
        Some(Action::ActivateTab(2))
    } else if is_text(name, "ActivateTab3") {
        Some(Action::ActivateTab(3))
    } else if is_text(name, "ActivateTab4") {
        Some(Action::ActivateTab(4))
    } else if is_text(name, "ActivateTab5") {
        Some(Action::ActivateTab(5))
    } else if is_text(name, "ActivateTab6") {
        Some(Action::ActivateTab(6))
    } else if is_text(name, "ActivateTab7") {
        Some(Action::ActivateTab(7))
    } else if is_text(name, "ActivateTab8") {
        Some(Action::ActivateTab(8))
    } else if is_text(name, "ActivateTab9") {
        Some(Action::ActivateTab(9))
    } else {
        None
    }
}

/// The name of a binding, or of a part of it.
pub open spec fn binding_field(index: nat, part: Seq<char>) -> Seq<char> {
    "keybindings["@ + dec(index) + "]"@ + part
}

fn binding_name(index: usize, part: &str) -> (result: String)
    ensures
        result@ == binding_field(index as nat, part@),
{
    let mut out = String::from_str("keybindings[");
    push_dec(&mut out, index as u64);
    out.append("]");
    out.append(part);
    out
}

/// The binding that is configured at a place, or what is wrong with it.
pub open spec fn binding_of(raw: RawKeyBinding, index: usize) -> Result<KeyBinding, Problem> {
    match key_of_text(raw.key@) {
        Err(_) => Err(
            Problem {
                field: binding_field(index as nat, ".key"@),
                reason: "unknown logical key "@ + escaped(raw.key@),
            },
        ),
        Ok(key) => match unknown_modifier(raw.mods@, 0) {
            Some(name) => Err(
                Problem {
                    field: binding_field(index as nat, ".mods"@),
                    reason: "unknown modifier "@ + escaped(name),
                },
            ),
            None => match action_of(raw.action@) {
                None => Err(
                    Problem {
                        field: binding_field(index as nat, ".action"@),
                        reason: "unknown action "@ + escaped(raw.action@),
                    },
                ),
                Some(action) => Ok(
                    KeyBinding {
                        chord: KeyChord { key, modifiers: mask_of(named_modifiers(raw.mods@)) },
                        action,
                        origin: BindingOrigin::User { index },
                    },
                ),
            },
        },
    }
}

fn parse_binding(index: usize, raw: &RawKeyBinding) -> (result: Result<KeyBinding, Fault>)
    ensures
        match binding_of(*raw, index) {
            Ok(binding) => result is Ok && result->Ok_0 == binding,
            Err(problem) => result is Err && (result->Err_0)@ == problem,
        },
{
    let key = match parse_key(raw.key.as_str()) {
        Ok(key) => key,
        Err(_) => {
            let mut reason = String::from_str("unknown logical key ");
            reason.append(escape_diagnostic(raw.key.as_str()).as_str());
            return Err(Fault { field: binding_name(index, ".key"), reason });
        },
    };
    let mut modifiers: Vec<Modifier> = Vec::new();
    let mut i: usize = 0;
    while i < raw.mods.len()
        invariant
            i <= raw.mods@.len(),
            key_of_text(raw.key@) == Ok::<LogicalKeyPattern, crate::input::shortcut::ParseKeyError>(
                key,
            ),
            modifiers@ == named_modifiers(raw.mods@).take(i as int),
            unknown_modifier(raw.mods@, 0) == unknown_modifier(raw.mods@, i as int),
        decreases raw.mods@.len() - i,
    {
        match parse_modifier(&raw.mods[i]) {
            Some(modifier) => {
                modifiers.push(modifier);
                assert(modifiers@ =~= named_modifiers(raw.mods@).take(i + 1));
            },
            None => {
                let mut reason = String::from_str("unknown modifier ");
                reason.append(escape_diagnostic(raw.mods[i].as_str()).as_str());
                return Err(Fault { field: binding_name(index, ".mods"), reason });
            },
        }
        i += 1;
    }
    assert(modifiers@ =~= named_modifiers(raw.mods@));
    match parse_action(&raw.action) {
        Some(action) => Ok(
            KeyBinding {
                chord: KeyChord { key, modifiers: modifier_mask(modifiers.as_slice()) },
                action,
                origin: BindingOrigin::User { index },
            },
        ),
        None => {
            let mut reason = String::from_str("unknown action ");
            reason.append(escape_diagnostic(raw.action.as_str()).as_str());
            Err(Fault { field: binding_name(index, ".action"), reason })
        },
    }
}

/// How a character is written between quotes, with escapes where it could not be shown.
pub uninterp spec fn quoted_char(c: char) -> Seq<char>;

/// The `Debug` form of a `char`.
#[verifier::external_body]
fn quote_char(c: char) -> (result: String)
    ensures
        result@ == quoted_char(c),
{
    format!("{:?}", c)
}

/// How a key is written in a warning.
pub open spec fn pattern_text(key: LogicalKeyPattern) -> Seq<char> {
    match key {
        LogicalKeyPattern::Character(c) => "Character("@ + quoted_char(c) + ")"@,
        LogicalKeyPattern::Function(n) => "Function("@ + dec(n as nat) + ")"@,
        LogicalKeyPattern::Backspace => "Backspace"@,
        LogicalKeyPattern::Tab => "Tab"@,
        LogicalKeyPattern::Enter => "Enter"@,
        LogicalKeyPattern::Escape => "Escape"@,
        LogicalKeyPattern::Insert => "Insert"@,
        LogicalKeyPattern::Delete => "Delete"@,
        LogicalKeyPattern::Home => "Home"@,
        LogicalKeyPattern::End => "End"@,
        LogicalKeyPattern::PageUp => "PageUp"@,
        LogicalKeyPattern::PageDown => "PageDown"@,
        LogicalKeyPattern::ArrowUp => "ArrowUp"@,
        LogicalKeyPattern::ArrowDown => "ArrowDown"@,
        LogicalKeyPattern::ArrowLeft => "ArrowLeft"@,
        LogicalKeyPattern::ArrowRight => "ArrowRight"@,
    }
}

fn push_pattern(out: &mut String, key: LogicalKeyPattern)
    ensures
        final(out)@ == old(out)@ + pattern_text(key),
{
    let ghost before = out@;
    match key {
        LogicalKeyPattern::Character(c) => {
            out.append("Character(");
            out.append(quote_char(c).as_str());
            out.append(")");
        },
        LogicalKeyPattern::Function(n) => {
            out.append("Function(");
            push_dec(out, n as u64);
            out.append(")");
        },
        LogicalKeyPattern::Backspace => out.append("Backspace"),
        LogicalKeyPattern::Tab => out.append("Tab"),
        LogicalKeyPattern::Enter => out.append("Enter"),
        LogicalKeyPattern::Escape => out.append("Escape"),
        LogicalKeyPattern::Insert => out.append("Insert"),
        LogicalKeyPattern::Delete => out.append("Delete"),
        LogicalKeyPattern::Home => out.append("Home"),
        LogicalKeyPattern::End => out.append("End"),
        LogicalKeyPattern::PageUp => out.append("PageUp"),
        LogicalKeyPattern::PageDown => out.append("PageDown"),
        LogicalKeyPattern::ArrowUp => out.append("ArrowUp"),
        LogicalKeyPattern::ArrowDown => out.append("ArrowDown"),
        LogicalKeyPattern::ArrowLeft => out.append("ArrowLeft"),
        LogicalKeyPattern::ArrowRight => out.append("ArrowRight"),
    }
    assert(out@ =~= before + pattern_text(key));
}

/// A list of names with another one at its end.
pub open spec fn listed(names: Seq<char>, name: Seq<char>, held: bool) -> Seq<char> {
    if !held {
        names
    } else if names.len() == 0 {
        name
    } else {
        names + " | "@ + name
    }
}

/// The names of modifiers.
pub open spec fn mask_names(mask: ModifierMask) -> Seq<char> {
    listed(
        listed(
            listed(listed(Seq::empty(), "SHIFT"@, mask.shift), "CONTROL"@, mask.control),
            "ALT"@,
            mask.alt,
        ),
        "SUPER"@,
        mask.super_key,
    )
}

/// How modifiers are written in a warning.
pub open spec fn mask_text(mask: ModifierMask) -> Seq<char> {
    if mask_names(mask).len() == 0 {
        "0x0"@
    } else {
        mask_names(mask)
    }
}

fn push_listed(out: &mut String, name: &str, held: bool, empty: bool) -> (result: bool)
    requires
        empty <==> old(out)@.len() == 0,
        name@.len() > 0,
    ensures
        final(out)@ == listed(old(out)@, name@, held),
        result <==> final(out)@.len() == 0,
{
    if !held {
        return empty;
    }
    let ghost before = out@;
    if !empty {
        out.append(" | ");
    }
    out.append(name);
    assert(out@ =~= listed(before, name@, held));
    false
}

/// What is said of a chord that is bound once more.
pub open spec fn duplicate_text(chord: KeyChord) -> Seq<char> {
    "duplicate keybinding KeyChord { key: "@ + pattern_text(chord.key)
        + ", modifiers: ModifierMask("@ + mask_text(chord.modifiers)
        + ") }; the later binding wins"@
}

fn duplicate_message(chord: KeyChord) -> (result: String)
    ensures
        result@ == duplicate_text(chord),
{
    proof {
        reveal_strlit("SHIFT");
        reveal_strlit("CONTROL");
        reveal_strlit("ALT");
        reveal_strlit("SUPER");
    }
    let mut names = String::new();
    assert(names@ =~= Seq::empty());
    let empty = push_listed(&mut names, "SHIFT", chord.modifiers.shift, true);
    let empty = push_listed(&mut names, "CONTROL", chord.modifiers.control, empty);
    let empty = push_listed(&mut names, "ALT", chord.modifiers.alt, empty);
    let empty = push_listed(&mut names, "SUPER", chord.modifiers.super_key, empty);
    let mut out = String::from_str("duplicate keybinding KeyChord { key: ");
    push_pattern(&mut out, chord.key);
    out.append(", modifiers: ModifierMask(");
    if empty {
        out.append("0x0");
    } else {
        out.append(names.as_str());
    }
    out.append(") }; the later binding wins");
    out
}

/// The place of the binding for a chord.
pub open spec fn chord_place(bindings: Seq<KeyBinding>, chord: KeyChord) -> Option<int>
    decreases bindings.len(),
{
    if bindings.len() == 0 {
        None
    } else if bindings.last().chord == chord {
        Some(bindings.len() - 1)
    } else {
        chord_place(bindings.drop_last(), chord)
    }
}

fn find_chord(bindings: &Vec<KeyBinding>, chord: KeyChord) -> (result: Option<usize>)
    ensures
        match result {
            Some(i) => chord_place(bindings@, chord) == Some(i as int) && i < bindings@.len(),
            None => chord_place(bindings@, chord) is None,
        },
{
    let mut i: usize = bindings.len();
    assert(bindings@.take(i as int) =~= bindings@);
    while i > 0
        invariant
            i <= bindings@.len(),
            chord_place(bindings@, chord) == chord_place(bindings@.take(i as int), chord),
        decreases i,
    {
        i -= 1;
        assert(bindings@.take(i + 1).drop_last() =~= bindings@.take(i as int));
        if bindings[i].chord == chord {
            return Some(i);
        }
    }
    None
}

/// The bindings with one more: it takes the place of the one for its chord.
pub open spec fn rebound(bindings: Seq<KeyBinding>, binding: KeyBinding) -> Seq<KeyBinding> {
    match chord_place(bindings, binding.chord) {
        Some(i) => bindings.update(i, binding),
        None => bindings.push(binding),
    }
}

/// Bindings, and what was noticed about them.
pub struct Bound {
    pub bindings: Seq<KeyBinding>,
    pub warnings: Seq<Seq<char>>,
}

/// What is said of one more binding.
pub open spec fn binding_warnings(
    source: Seq<char>,
    before: Seq<KeyBinding>,
    raw: RawKeyBinding,
    index: usize,
    binding: KeyBinding,
) -> Seq<Seq<char>> {
    unknown_texts(source, binding_field(index as nat, ""@), raw.unknown@, binding_fields()) + if
        chord_place(before, binding.chord) is Some {
        seq![duplicate_text(binding.chord)]
    } else {
        Seq::empty()
    }
}

/// The names of what a binding has.
pub open spec fn binding_fields() -> Seq<&'static str> {
    seq!["key", "mods", "action"]
}

/// The bindings after the first of those that are configured, in order, or the first thing that
/// is wrong with one.
pub open spec fn bound_after(source: Seq<char>, raws: Seq<RawKeyBinding>, n: int) -> Result<
    Bound,
    Problem,
>
    decreases n,
{
    if n <= 0 {
        Ok(Bound { bindings: standard_bindings(), warnings: Seq::empty() })
    } else {
        match bound_after(source, raws, n - 1) {
            Err(problem) => Err(problem),
            Ok(bound) => match binding_of(raws[n - 1], (n - 1) as usize) {
                Err(problem) => Err(problem),
                Ok(binding) => Ok(
                    Bound {
                        bindings: rebound(bound.bindings, binding),
                        warnings: bound.warnings + binding_warnings(
                            source,
                            bound.bindings,
                            raws[n - 1],
                            (n - 1) as usize,
                            binding,
                        ),
                    },
                ),
            },
        }
    }
}

proof fn a_fault_stays(source: Seq<char>, raws: Seq<RawKeyBinding>, n: int, m: int)
    requires
        0 <= n <= m,
        bound_after(source, raws, n) is Err,
    ensures
        bound_after(source, raws, m) == bound_after(source, raws, n),
    decreases m,
{
    if n < m {
        a_fault_stays(source, raws, n, m - 1);
    }
}

fn merge_bindings(
    warnings: &mut Vec<ConfigWarning>,
    source: &str,
    lines: &Vec<Vec<char>>,
    raws: &Vec<RawKeyBinding>,
    standard: Vec<KeyBinding>,
) -> (result: Result<Vec<KeyBinding>, Fault>)
    requires
        texts_view(lines@) == lines_of(source@),
        standard@ == standard_bindings(),
    ensures
        match bound_after(source@, raws@, raws@.len() as int) {
            Err(problem) => result is Err && (result->Err_0)@ == problem,
            Ok(bound) => {
                &&& result is Ok
                &&& (result->Ok_0)@ == bound.bindings
                &&& messages(final(warnings)@) == messages(old(warnings)@) + bound.warnings
            },
        },
{
    let mut bindings = standard;
    let fields: Vec<&'static str> = vec!["key", "mods", "action"];
    assert(fields@ =~= binding_fields());
    let mut i: usize = 0;
    assert(messages(warnings@) =~= messages(old(warnings)@) + Seq::<Seq<char>>::empty());
    while i < raws.len()
        invariant
            i <= raws@.len(),
            texts_view(lines@) == lines_of(source@),
            fields@ == binding_fields(),
            bound_after(source@, raws@, i as int) is Ok,
            bindings@ == (bound_after(source@, raws@, i as int)->Ok_0).bindings,
            messages(warnings@) == messages(old(warnings)@) + (bound_after(
                source@,
                raws@,
                i as int,
            )->Ok_0).warnings,
        decreases raws@.len() - i,
    {
        let raw = &raws[i];
        let ghost earlier = bound_after(source@, raws@, i as int)->Ok_0;
        let prefix = binding_name(i, "");
        collect_unknown(warnings, source, lines, prefix.as_str(), &raw.unknown, &fields);
        let binding = match parse_binding(i, raw) {
            Ok(binding) => binding,
            Err(problem) => {
                proof {
                    assert(bound_after(source@, raws@, i + 1) is Err);
                    a_fault_stays(source@, raws@, i + 1, raws@.len() as int);
                }
                return Err(problem);
            },
        };
        let ghost noticed = warnings@;
        match find_chord(&bindings, binding.chord) {
            Some(place) => {
                bindings.set(place, binding);
                let message = duplicate_message(binding.chord);
                warnings.push(ConfigWarning { message });
                assert(messages(warnings@) =~= messages(noticed).push(message@));
            },
            None => {
                bindings.push(binding);
            },
        }
        i += 1;
        proof {
            let added = binding_warnings(
                source@,
                earlier.bindings,
                *raw,
                (i - 1) as usize,
                binding,
            );
            assert(messages(warnings@) =~= messages(old(warnings)@) + (earlier.warnings + added));
        }
    }
    Ok(bindings)
}

/// The names of the parts of a configuration.
pub open spec fn top_fields() -> Seq<&'static str> {
    seq!["terminal", "font", "colors", "window", "scrolling", "scrollbar", "cursor", "behavior", "unicode", "tabs", "bell", "keybindings"]
}

/// The names of what the part `terminal` has.
pub open spec fn terminal_fields() -> Seq<&'static str> {
    seq!["identity"]
}

/// The names of what the part `font` has.
pub open spec fn font_fields() -> Seq<&'static str> {
    seq!["family", "size", "ligatures", "hinting", "antialiasing", "line_spacing"]
}

/// The names of what the part `bell` has.
pub open spec fn bell_fields() -> Seq<&'static str> {
    seq!["enabled", "visual", "visual_duration_ms", "audible", "audible_when_unfocused", "attention", "desktop_notifications", "notification_cooldown_seconds", "notification_burst_per_minute"]
}

/// The names of what the part `colors` has.
pub open spec fn colors_fields() -> Seq<&'static str> {
    seq!["foreground", "background", "cursor", "selection_foreground", "selection_background", "ansi"]
}

/// The names of what the part `window` has.
pub open spec fn window_fields() -> Seq<&'static str> {
    seq!["padding_x", "padding_y"]
}

/// The names of what the part `scrollbar` has.
pub open spec fn scrollbar_fields() -> Seq<&'static str> {
    seq!["mode", "width", "hit_width", "min_thumb_size", "thumb", "thumb_hover", "track"]
}

/// The names of what the part `scrolling` has.
pub open spec fn scrolling_fields() -> Seq<&'static str> {
    seq!["history_lines"]
}

/// The names of what the part `cursor` has.
pub open spec fn cursor_fields() -> Seq<&'static str> {
    seq!["style"]
}

/// The names of what the part `behavior` has.
pub open spec fn behavior_fields() -> Seq<&'static str> {
    seq!["hold_after_exit", "confirm_multiline_paste"]
}

/// The names of what the part `unicode` has.
pub open spec fn unicode_fields() -> Seq<&'static str> {
    seq!["bidi", "color_glyphs"]
}

/// The names of what the part `tabs` has.
pub open spec fn tabs_fields() -> Seq<&'static str> {
    seq!["max_count", "bar_height", "min_width", "max_width", "show_close_button", "new_tab_cwd", "new_tab_fixed_cwd"]
}

/// What is said of the parts of a configuration.
pub open spec fn section_warnings(source: Seq<char>, raw: RawConfig) -> Seq<Seq<char>> {
    unknown_texts(source, ""@, raw.unknown@, top_fields())
        + unknown_texts(source, "terminal"@, raw.terminal.unknown@, terminal_fields())
        + unknown_texts(source, "font"@, raw.font.unknown@, font_fields())
        + unknown_texts(source, "bell"@, raw.bell.unknown@, bell_fields())
        + unknown_texts(source, "colors"@, raw.colors.unknown@, colors_fields())
        + unknown_texts(source, "window"@, raw.window.unknown@, window_fields())
        + unknown_texts(source, "scrollbar"@, raw.scrollbar.unknown@, scrollbar_fields())
        + unknown_texts(source, "scrolling"@, raw.scrolling.unknown@, scrolling_fields())
        + unknown_texts(source, "cursor"@, raw.cursor.unknown@, cursor_fields())
        + unknown_texts(source, "behavior"@, raw.behavior.unknown@, behavior_fields())
        + unknown_texts(source, "unicode"@, raw.unicode.unknown@, unicode_fields())
        + unknown_texts(source, "tabs"@, raw.tabs.unknown@, tabs_fields())
}

#[verifier::rlimit(50)]
fn collect_sections(
    warnings: &mut Vec<ConfigWarning>,
    source: &str,
    lines: &Vec<Vec<char>>,
    raw: &RawConfig,
)
    requires
        texts_view(lines@) == lines_of(source@),
        old(warnings)@.len() == 0,
    ensures
        messages(final(warnings)@) == section_warnings(source@, *raw),
{
    assert(messages(warnings@) =~= Seq::empty());
    let names: Vec<&'static str> = vec!["terminal", "font", "colors", "window", "scrolling", "scrollbar", "cursor", "behavior", "unicode", "tabs", "bell", "keybindings"];
    assert(names@ =~= top_fields());
    collect_unknown(warnings, source, lines, "", &raw.unknown, &names);
    let names: Vec<&'static str> = vec!["identity"];
    assert(names@ =~= terminal_fields());
    collect_unknown(warnings, source, lines, "terminal", &raw.terminal.unknown, &names);
    let names: Vec<&'static str> = vec!["family", "size", "ligatures", "hinting", "antialiasing", "line_spacing"];
    assert(names@ =~= font_fields());
    collect_unknown(warnings, source, lines, "font", &raw.font.unknown, &names);
    let names: Vec<&'static str> = vec!["enabled", "visual", "visual_duration_ms", "audible", "audible_when_unfocused", "attention", "desktop_notifications", "notification_cooldown_seconds", "notification_burst_per_minute"];
    assert(names@ =~= bell_fields());
    collect_unknown(warnings, source, lines, "bell", &raw.bell.unknown, &names);
    let names: Vec<&'static str> = vec!["foreground", "background", "cursor", "selection_foreground", "selection_background", "ansi"];
    assert(names@ =~= colors_fields());
    collect_unknown(warnings, source, lines, "colors", &raw.colors.unknown, &names);
    let names: Vec<&'static str> = vec!["padding_x", "padding_y"];
    assert(names@ =~= window_fields());
    collect_unknown(warnings, source, lines, "window", &raw.window.unknown, &names);
    let names: Vec<&'static str> = vec!["mode", "width", "hit_width", "min_thumb_size", "thumb", "thumb_hover", "track"];
    assert(names@ =~= scrollbar_fields());
    collect_unknown(warnings, source, lines, "scrollbar", &raw.scrollbar.unknown, &names);
    let names: Vec<&'static str> = vec!["history_lines"];
    assert(names@ =~= scrolling_fields());
    collect_unknown(warnings, source, lines, "scrolling", &raw.scrolling.unknown, &names);
    let names: Vec<&'static str> = vec!["style"];
    assert(names@ =~= cursor_fields());
    collect_unknown(warnings, source, lines, "cursor", &raw.cursor.unknown, &names);
    let names: Vec<&'static str> = vec!["hold_after_exit", "confirm_multiline_paste"];
    assert(names@ =~= behavior_fields());
    collect_unknown(warnings, source, lines, "behavior", &raw.behavior.unknown, &names);
    let names: Vec<&'static str> = vec!["bidi", "color_glyphs"];
    assert(names@ =~= unicode_fields());
    collect_unknown(warnings, source, lines, "unicode", &raw.unicode.unknown, &names);
    let names: Vec<&'static str> = vec!["max_count", "bar_height", "min_width", "max_width", "show_close_button", "new_tab_cwd", "new_tab_fixed_cwd"];
    assert(names@ =~= tabs_fields());
    collect_unknown(warnings, source, lines, "tabs", &raw.tabs.unknown, &names);
    assert(messages(warnings@) =~= section_warnings(source@, *raw));
}

/// What is said of a fixed directory that is not used.
pub open spec fn cwd_warnings(raw: RawTabs) -> Seq<Seq<char>> {
    if !starts_fixed(raw) && raw.new_tab_fixed_cwd is Some {
        seq!["tabs.new_tab_fixed_cwd is ignored unless tabs.new_tab_cwd is fixed"@]
    } else {
        Seq::empty()
    }
}

/// The first thing that is wrong with a configuration, apart from its bindings.
pub open spec fn section_problem(raw: RawConfig) -> Option<Problem> {
    first_of(
        terminal_problem(raw.terminal),
        first_of(
            font_problem(raw.font),
            first_of(
                colors_problem(raw.colors),
                first_of(
                    bounded_problem("window.padding_x"@, raw.window.padding_x, 0, 256),
                    first_of(
                        scrollbar_problem(raw.scrollbar),
                        first_of(
                            bounded_problem("window.padding_y"@, raw.window.padding_y, 0, 256),
                            first_of(
                                bounded_problem(
                                    "scrolling.history_lines"@,
                                    raw.scrolling.history_lines,
                                    0,
                                    100_000,
                                ),
                                first_of(
                                    cursor_problem(raw.cursor),
                                    first_of(bell_problem(raw.bell), tabs_problem(raw.tabs)),
                                ),
                            ),
                        ),
                    ),
                ),
            ),
        ),
    )
}

/// The configuration that is in effect, apart from its bindings: what is configured, and the
/// standard where nothing is.
pub open spec fn section_value(raw: RawConfig) -> EffectiveModel {
    let standard = EffectiveModel::standard();
    EffectiveModel {
        terminal: TerminalConfig { identity: identity_value(raw.terminal.identity)->0 },
        font: font_value(raw.font),
        colors: colors_value(raw.colors),
        window: WindowConfig {
            padding_x: chosen(raw.window.padding_x, 0) as u16,
            padding_y: chosen(raw.window.padding_y, 5) as u16,
            ..standard.window
        },
        scrolling: ScrollingConfig {
            history_lines: chosen(raw.scrolling.history_lines, 10_000) as u32,
        },
        scrollbar: scrollbar_value(raw.scrollbar),
        cursor: CursorConfig { style: cursor_value(raw.cursor.style)->0 },
        behavior: BehaviorConfig {
            hold_after_exit: chosen(raw.behavior.hold_after_exit, false),
            confirm_multiline_paste: chosen(raw.behavior.confirm_multiline_paste, true),
        },
        unicode: UnicodeConfig {
            bidi: chosen(raw.unicode.bidi, false),
            color_glyphs: chosen(raw.unicode.color_glyphs, true),
        },
        tabs: tabs_value(raw.tabs),
        bell: bell_value(raw.bell),
        keybindings: standard.keybindings,
    }
}

fn merge_sections(raw: &RawConfig) -> (result: Result<EffectiveConfig, Fault>)
    ensures
        match section_problem(*raw) {
            Some(problem) => result is Err && (result->Err_0)@ == problem,
            None => result is Ok && (result->Ok_0)@ == section_value(*raw),
        },
{
    let standard = EffectiveConfig::default();
    let terminal = match merge_terminal(&raw.terminal) {
        Ok(terminal) => terminal,
        Err(problem) => {
            return Err(problem);
        },
    };
    let font = match merge_font(&raw.font, standard.font) {
        Ok(font) => font,
        Err(problem) => {
            return Err(problem);
        },
    };
    let colors = match merge_colors(&raw.colors, standard.colors) {
        Ok(colors) => colors,
        Err(problem) => {
            return Err(problem);
        },
    };
    let padding_x: i64 = match set_bounded("window.padding_x", raw.window.padding_x, 0, 256, 0) {
        Ok(value) => value,
        Err(problem) => {
            return Err(problem);
        },
    };
    let scrollbar = match merge_scrollbar(&raw.scrollbar, standard.scrollbar) {
        Ok(scrollbar) => scrollbar,
        Err(problem) => {
            return Err(problem);
        },
    };
    let padding_y: i64 = match set_bounded("window.padding_y", raw.window.padding_y, 0, 256, 5) {
        Ok(value) => value,
        Err(problem) => {
            return Err(problem);
        },
    };
    let history_lines: i64 = match set_bounded(
        "scrolling.history_lines",
        raw.scrolling.history_lines,
        0,
        100_000,
        10_000,
    ) {
        Ok(value) => value,
        Err(problem) => {
            return Err(problem);
        },
    };
    let cursor = match merge_cursor(&raw.cursor) {
        Ok(cursor) => cursor,
        Err(problem) => {
            return Err(problem);
        },
    };
    let bell = match merge_bell(&raw.bell) {
        Ok(bell) => bell,
        Err(problem) => {
            return Err(problem);
        },
    };
    let tabs = match merge_tabs(&raw.tabs) {
        Ok(tabs) => tabs,
        Err(problem) => {
            return Err(problem);
        },
    };
    Ok(
        EffectiveConfig {
            terminal,
            font,
            colors,
            window: WindowConfig {
                padding_x: padding_x as u16,
                padding_y: padding_y as u16,
                columns: None,
                lines: None,
                startup_state: None,
            },
            scrolling: ScrollingConfig { history_lines: history_lines as u32 },
            scrollbar,
            cursor,
            behavior: BehaviorConfig {
                hold_after_exit: flag(raw.behavior.hold_after_exit, false),
                confirm_multiline_paste: flag(raw.behavior.confirm_multiline_paste, true),
            },
            unicode: UnicodeConfig {
                bidi: flag(raw.unicode.bidi, false),
                color_glyphs: flag(raw.unicode.color_glyphs, true),
            },
            tabs,
            bell,
            keybindings: standard.keybindings,
        },
    )
}

/// A configuration that is in effect, and what was noticed about it.
pub struct Merged {
    pub effective: EffectiveModel,
    pub warnings: Seq<Seq<char>>,
}

/// The configuration that comes into effect, or the first thing that is wrong with it.
pub open spec fn merged(raw: RawConfig, source: Seq<char>) -> Result<Merged, Problem> {
    let warnings = section_warnings(source, raw) + cwd_warnings(raw.tabs);
    match section_problem(raw) {
        Some(problem) => Err(problem),
        None => match raw.keybindings {
            None => Ok(Merged { effective: section_value(raw), warnings }),
            Some(bindings) => match bound_after(source, bindings@, bindings@.len() as int) {
                Err(problem) => Err(problem),
                Ok(bound) => Ok(
                    Merged {
                        effective: EffectiveModel {
                            keybindings: bound.bindings,
                            ..section_value(raw)
                        },
                        warnings: warnings + bound.warnings,
                    },
                ),
            },
        },
    }
}

impl RawConfig {
    /// Brings a configuration into effect. `source` is the text that it was read from, at `path`.
    pub fn into_effective(self, path: &[u8], source: &str) -> (result: Result<
        (EffectiveConfig, Vec<ConfigWarning>),
        ConfigError,
    >)
        ensures
            match merged(self, source@) {
                Ok(merged) => {
                    &&& result is Ok
                    &&& (result->Ok_0).0@ == merged.effective
                    &&& messages((result->Ok_0).1@) == merged.warnings
                },
                Err(problem) => {
                    &&& result is Err
                    &&& result->Err_0 is Semantic
                    &&& (result->Err_0)->Semantic_path@ == path@
                    &&& (result->Err_0)->Semantic_field@ == problem.field
                    &&& (result->Err_0)->Semantic_reason@ == problem.reason
                },
            },
    {
        let chars = chars_of(source);
        let lines = split_lines(&chars);
        let mut warnings: Vec<ConfigWarning> = Vec::new();
        collect_sections(&mut warnings, source, &lines, &self);
        let mut effective = match merge_sections(&self) {
            Ok(effective) => effective,
            Err(problem) => {
                return Err(semantic(path, problem));
            },
        };
        let ghost noticed = warnings@;
        let fixed = match &self.tabs.new_tab_cwd {
            Some(policy) => is_text(policy, "fixed"),
            None => false,
        };
        if !fixed && self.tabs.new_tab_fixed_cwd.is_some() {
            let message = String::from_str(
                "tabs.new_tab_fixed_cwd is ignored unless tabs.new_tab_cwd is fixed",
            );
            warnings.push(ConfigWarning { message });
        }
        assert(messages(warnings@) =~= messages(noticed) + cwd_warnings(self.tabs));
        if let Some(raws) = &self.keybindings {
            let standard = effective.keybindings;
            match merge_bindings(&mut warnings, source, &lines, raws, standard) {
                Ok(bindings) => {
                    effective.keybindings = bindings;
                },
                Err(problem) => {
                    return Err(semantic(path, problem));
                },
            }
        }
        Ok((effective, warnings))
    }
}

fn semantic(path: &[u8], problem: Fault) -> (result: ConfigError)
    ensures
        result is Semantic,
        result->Semantic_path@ == path@,
        result->Semantic_field@ == problem.field@,
        result->Semantic_reason@ == problem.reason@,
{
    ConfigError::Semantic {
        path: vstd::slice::slice_to_vec(path),
        field: problem.field,
        reason: problem.reason,
    }
}

impl LoadedConfig {
    /// The configuration of a file: what it configures, and the text that says so.
    pub fn from_file(path: Vec<u8>, raw: RawConfig, source: &str) -> (result: Result<
        LoadedConfig,
        ConfigError,
    >)
        ensures
            match merged(raw, source@) {
                Ok(merged) => {
                    &&& result is Ok
                    &&& (result->Ok_0).effective@ == merged.effective
                    &&& messages((result->Ok_0).warnings@) == merged.warnings
                    &&& (result->Ok_0).source == ConfigOrigin::File(path)
                },
                Err(problem) => {
                    &&& result is Err
                    &&& result->Err_0 is Semantic
                    &&& (result->Err_0)->Semantic_path@ == path@
                    &&& (result->Err_0)->Semantic_field@ == problem.field
                    &&& (result->Err_0)->Semantic_reason@ == problem.reason
                },
            },
    {
        match raw.into_effective(path.as_slice(), source) {
            Ok((effective, warnings)) => Ok(
                LoadedConfig { effective, warnings, source: ConfigOrigin::File(path) },
            ),
            Err(error) => Err(error),
        }
    }
}

/// Whatever is configured, a configuration that comes into effect keeps its limits.
pub proof fn effective_configurations_keep_their_limits(raw: RawConfig, source: Seq<char>)
    requires
        merged(raw, source) is Ok,
    ensures
        (merged(raw, source)->Ok_0).effective.within_limits(),
{
    let tabs = raw.tabs;
    if starts_fixed(tabs) {
        let path = tabs.new_tab_fixed_cwd->0@;
        assert(cwd_problem(tabs) is None);
        reveal_strlit("fixed");
        reveal_strlit("inherit");
        reveal_strlit("home");
        assert(tabs.new_tab_cwd->0@.len() == 5);
        first_byte_of_slash(path);
    }
}

proof fn first_byte_of_slash(path: Seq<char>)
    requires
        path.len() > 0,
        path[0] == '/',
    ensures
        encode_utf8(path).len() > 0,
        encode_utf8(path)[0] == 47,
{
    assert(path =~= seq!['/'] + path.skip(1));
    crate::text::encode_concat(seq!['/'], path.skip(1));
    vstd::utf8::is_ascii_chars_encode_utf8(seq!['/']);
    assert(encode_utf8(seq!['/'])[0] == 47u8);
}

/// No two bindings are for the same chord.
pub open spec fn chords_are_distinct(bindings: Seq<KeyBinding>) -> bool {
    forall|i: int, j: int|
        0 <= i < j < bindings.len() ==> (#[trigger] bindings[i]).chord != (
        #[trigger] bindings[j]).chord
}

/// However often a chord is bound, one binding is in effect for it: the last.
pub proof fn a_chord_has_one_binding(source: Seq<char>, raws: Seq<RawKeyBinding>, n: int)
    requires
        0 <= n <= raws.len() <= usize::MAX,
        bound_after(source, raws, n) is Ok,
    ensures
        chords_are_distinct((bound_after(source, raws, n)->Ok_0).bindings),
        n > 0 ==> (bound_after(source, raws, n)->Ok_0).bindings.contains(
            binding_of(raws[n - 1], (n - 1) as usize)->Ok_0,
        ),
    decreases n,
{
    if n == 0 {
        assert forall|i: int, j: int|
            0 <= i < j < standard_bindings().len() implies (#[trigger] standard_bindings()[i]).chord
            != (#[trigger] standard_bindings()[j]).chord by {
            crate::config::standard_chords_are_distinct(i, j);
        }
    } else {
        a_chord_has_one_binding(source, raws, n - 1);
        let before = (bound_after(source, raws, n - 1)->Ok_0).bindings;
        let binding = binding_of(raws[n - 1], (n - 1) as usize)->Ok_0;
        let after = rebound(before, binding);
        place_is_found(before, binding.chord);
        match chord_place(before, binding.chord) {
            Some(place) => {
                assert(after[place] == binding);
            },
            None => {
                assert(after[before.len() as int] == binding);
            },
        }
    }
}

proof fn place_is_found(bindings: Seq<KeyBinding>, chord: KeyChord)
    ensures
        match chord_place(bindings, chord) {
            Some(i) => 0 <= i < bindings.len() && bindings[i].chord == chord,
            None => forall|k: int|
                0 <= k < bindings.len() ==> (#[trigger] bindings[k]).chord != chord,
        },
    decreases bindings.len(),
{
    if bindings.len() > 0 && bindings.last().chord != chord {
        place_is_found(bindings.drop_last(), chord);
        assert forall|k: int|
            chord_place(bindings, chord) is None && 0 <= k < bindings.len() implies (
        #[trigger] bindings[k]).chord != chord by {
            if k < bindings.len() - 1 {
                assert(bindings.drop_last()[k] == bindings[k]);
            }
        }
    }
}

/// Whether nothing is configured.
pub open spec fn is_blank(raw: RawConfig) -> bool {
    &&& raw.terminal.identity is None && raw.terminal.unknown@.len() == 0
    &&& raw.font.family is None && raw.font.size is None && raw.font.ligatures is None
    &&& raw.font.hinting is None && raw.font.antialiasing is None && raw.font.line_spacing is None
    &&& raw.font.unknown@.len() == 0
    &&& raw.colors.foreground is None && raw.colors.background is None && raw.colors.cursor is None
    &&& raw.colors.selection_foreground is None && raw.colors.selection_background is None
    &&& raw.colors.ansi is None && raw.colors.unknown@.len() == 0
    &&& raw.window.padding_x is None && raw.window.padding_y is None
    &&& raw.window.unknown@.len() == 0
    &&& raw.scrolling.history_lines is None && raw.scrolling.unknown@.len() == 0
    &&& raw.scrollbar.mode is None && raw.scrollbar.width is None && raw.scrollbar.hit_width is None
    &&& raw.scrollbar.min_thumb_size is None && raw.scrollbar.thumb is None
    &&& raw.scrollbar.thumb_hover is None && raw.scrollbar.track is None
    &&& raw.scrollbar.unknown@.len() == 0
    &&& raw.cursor.style is None && raw.cursor.unknown@.len() == 0
    &&& raw.behavior.hold_after_exit is None && raw.behavior.confirm_multiline_paste is None
    &&& raw.behavior.unknown@.len() == 0
    &&& raw.unicode.bidi is None && raw.unicode.color_glyphs is None
    &&& raw.unicode.unknown@.len() == 0
    &&& raw.tabs.max_count is None && raw.tabs.bar_height is None && raw.tabs.min_width is None
    &&& raw.tabs.max_width is None && raw.tabs.show_close_button is None
    &&& raw.tabs.new_tab_cwd is None && raw.tabs.new_tab_fixed_cwd is None
    &&& raw.tabs.unknown@.len() == 0
    &&& raw.bell.enabled is None && raw.bell.visual is None && raw.bell.visual_duration_ms is None
    &&& raw.bell.audible is None && raw.bell.audible_when_unfocused is None
    &&& raw.bell.attention is None && raw.bell.desktop_notifications is None
    &&& raw.bell.notification_cooldown_seconds is None
    &&& raw.bell.notification_burst_per_minute is None && raw.bell.unknown@.len() == 0
    &&& raw.keybindings is None
    &&& raw.unknown@.len() == 0
}

/// A file that configures nothing is as good as none: the standard is in effect, and nothing is
/// said.
pub proof fn a_blank_file_is_the_standard(raw: RawConfig, source: Seq<char>)
    requires
        is_blank(raw),
    ensures
        merged(raw, source) is Ok,
        (merged(raw, source)->Ok_0).effective == EffectiveModel::standard(),
        (merged(raw, source)->Ok_0).warnings.len() == 0,
{
}

} // verus!
