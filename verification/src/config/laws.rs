//! What someone who writes a configuration relies on.
use vstd::prelude::*;
use vstd::utf8::encode_utf8;
use crate::config::merge::{
    action_of, ansi_problem_from, binding_of, bound_after, chord_place, color_of, cwd_problem,
    hex_number, hex_value, mask_of, merged, modifier_of, named_modifiers, opaque_color_of, rebound,
    starts_fixed, unknown_modifier, Problem, RawConfig, RawKeyBinding,
};
use crate::config::{
    in_range, standard_bindings, Action, AntialiasPreference, Color, CursorStyle,
    CwdModel, EffectiveModel, HintingPreference, KeyBinding, Modifier, ScrollbarMode, EIGHT, FOUR,
    SEVENTY_TWO, SIX, THIRTY_TWO, TWELVE, TWO, ZERO,
};
use crate::input::shortcut::{key_of_text, BindingOrigin, KeyChord, LogicalKeyPattern};
use crate::keys::ModifierMask;
use crate::terminfo::TerminalIdentity;

verus! {

/// The value of a hexadecimal digit, in either case.
pub open spec fn digit(c: char) -> int {
    if '0' <= c <= '9' {
        c as u32 - '0' as u32
    } else if 'a' <= c <= 'f' {
        10 + (c as u32 - 'a' as u32)
    } else {
        10 + (c as u32 - 'A' as u32)
    }
}

pub open spec fn is_digit(c: char) -> bool {
    '0' <= c <= '9' || 'a' <= c <= 'f' || 'A' <= c <= 'F'
}

/// Whether a text is `#` and six or eight hexadecimal digits.
pub open spec fn is_color_text(text: Seq<char>) -> bool {
    &&& text.len() == 7 || text.len() == 9
    &&& text[0] == '#'
    &&& forall|i: int| 1 <= i < text.len() ==> is_digit(#[trigger] text[i])
}

/// The part of a color that two digits of a text write.
pub open spec fn part(text: Seq<char>, i: int) -> int {
    16 * digit(text[i]) + digit(text[i + 1])
}

/// Whether a text writes a color: two digits for red, green and blue each, and two more for the
/// opacity, which is full where they are left out.
pub open spec fn writes(text: Seq<char>, color: Color) -> bool {
    &&& is_color_text(text)
    &&& color.0 == part(text, 1) * 0x100_0000 + part(text, 3) * 0x1_0000 + part(text, 5) * 0x100
        + if text.len() == 9 {
        part(text, 7)
    } else {
        0xff
    }
}

proof fn digits_have_values(c: char)
    ensures
        is_digit(c) ==> hex_value(c) == Some(digit(c) as nat) && 0 <= digit(c) < 16,
        !is_digit(c) ==> hex_value(c) is None,
{
}

proof fn a_digit_counts(s: Seq<char>)
    requires
        s.len() > 0,
    ensures
        hex_number(s) is Some <==> hex_number(s.drop_last()) is Some && is_digit(s.last()),
        hex_number(s) is Some ==> hex_number(s)->0 == hex_number(s.drop_last())->0 * 16 + digit(
            s.last(),
        ),
{
    digits_have_values(s.last());
}

proof fn numbers_are_written(s: Seq<char>, n: int)
    requires
        0 <= n <= s.len(),
    ensures
        hex_number(s.take(n)) is Some <==> forall|i: int| 0 <= i < n ==> is_digit(#[trigger] s[i]),
    decreases n,
{
    if n > 0 {
        numbers_are_written(s, n - 1);
        let t = s.take(n);
        assert(t.drop_last() =~= s.take(n - 1));
        assert(t.last() == s[n - 1]);
        a_digit_counts(t);
    }
}

proof fn step(s: Seq<char>, n: int)
    requires
        0 < n <= s.len(),
        hex_number(s.take(n)) is Some,
    ensures
        hex_number(s.take(n - 1)) is Some,
        hex_number(s.take(n))->0 == hex_number(s.take(n - 1))->0 * 16 + digit(s[n - 1]),
        0 <= digit(s[n - 1]) < 16,
{
    let t = s.take(n);
    assert(t.drop_last() =~= s.take(n - 1));
    a_digit_counts(t);
    digits_have_values(s[n - 1]);
}

/// A color is read from a text that writes one, and from no other.
pub proof fn colors_are_read_as_they_are_written(text: Seq<char>)
    ensures
        is_color_text(text) <==> color_of(text) is Some,
        color_of(text) is Some ==> writes(text, color_of(text)->0),
{
    if text.len() == 7 || text.len() == 9 {
        let hex = text.skip(1);
        let n = hex.len() as int;
        assert(hex.take(n) =~= hex);
        numbers_are_written(hex, n);
        assert(forall|i: int| 0 <= i < n ==> #[trigger] hex[i] == text[i + 1]);
        assert(forall|i: int| 1 <= i < text.len() ==> #[trigger] text[i] == hex[i - 1]);
        if color_of(text) is Some {
            if n == 8 {
                step(hex, 8);
                step(hex, 7);
            }
            step(hex, 6);
            step(hex, 5);
            step(hex, 4);
            step(hex, 3);
            step(hex, 2);
            step(hex, 1);
            assert(hex.take(0) =~= Seq::<char>::empty());
        }
    }
}

/// Every color that a file sets is in effect under its own name as it is written, and one that it
/// leaves out is as in the standard.
pub proof fn colors_come_into_effect(raw: RawConfig, source: Seq<char>)
    requires
        merged(raw, source) is Ok,
    ensures
        ({
            let e = (merged(raw, source)->Ok_0).effective.colors;
            let s = EffectiveModel::standard().colors;
            let r = raw.colors;
            &&& r.foreground is Some ==> writes(r.foreground->0@, e.foreground)
            &&& r.foreground is None ==> e.foreground == s.foreground
            &&& r.background is Some ==> writes(r.background->0@, e.background)
            &&& r.background is None ==> e.background == s.background
            &&& r.cursor is Some ==> writes(r.cursor->0@, e.cursor)
            &&& r.cursor is None ==> e.cursor == s.cursor
            &&& r.selection_foreground is Some ==> writes(
                r.selection_foreground->0@,
                e.selection_foreground,
            )
            &&& r.selection_foreground is None ==> e.selection_foreground == s.selection_foreground
            &&& r.selection_background is Some ==> writes(
                r.selection_background->0@,
                e.selection_background,
            )
            &&& r.selection_background is None ==> e.selection_background == s.selection_background
            &&& r.ansi is None ==> e.ansi == s.ansi
            &&& r.ansi is Some ==> r.ansi->0@.len() == 16 && e.ansi.len() == 16 && forall|i: int|
                0 <= i < 16 ==> writes((#[trigger] r.ansi->0@[i])@, e.ansi[i])
        }),
{
    let r = raw.colors;
    if r.foreground is Some {
        colors_are_read_as_they_are_written(r.foreground->0@);
    }
    if r.background is Some {
        colors_are_read_as_they_are_written(r.background->0@);
    }
    if r.cursor is Some {
        colors_are_read_as_they_are_written(r.cursor->0@);
    }
    if r.selection_foreground is Some {
        colors_are_read_as_they_are_written(r.selection_foreground->0@);
    }
    if r.selection_background is Some {
        colors_are_read_as_they_are_written(r.selection_background->0@);
    }
    if r.ansi is Some {
        let values = r.ansi->0@;
        assert(values.len() == 16);
        assert forall|i: int| 0 <= i < 16 implies writes(
            (#[trigger] values[i])@,
            opaque_color_of(values[i]@)->0,
        ) by {
            each_named_color_is_read(values, 0, i);
            colors_are_read_as_they_are_written(values[i]@);
        }
    }
}

proof fn each_named_color_is_read(values: Seq<String>, from: int, i: int)
    requires
        0 <= from <= i < values.len(),
        ansi_problem_from(values, from) is None,
    ensures
        opaque_color_of(values[i]@) is Some,
    decreases i - from,
{
    if from < i {
        each_named_color_is_read(values, from + 1, i);
    }
}

/// The words of a file name what they say, and there are no others.
pub proof fn words_come_into_effect(raw: RawConfig, source: Seq<char>)
    requires
        merged(raw, source) is Ok,
    ensures
        ({
            let e = (merged(raw, source)->Ok_0).effective;
            &&& match raw.terminal.identity {
                Some(word) => match e.terminal.identity {
                    TerminalIdentity::Leyline => word@ == "leyline"@,
                    TerminalIdentity::Xterm256Color => word@ == "xterm-256color"@,
                },
                None => e.terminal.identity is Leyline,
            }
            &&& match raw.font.hinting {
                Some(word) => match e.font.hinting {
                    HintingPreference::Off => word@ == "none"@,
                    HintingPreference::Slight => word@ == "slight"@,
                    HintingPreference::Full => word@ == "full"@,
                    HintingPreference::System => word@ == "system"@,
                },
                None => e.font.hinting is Slight,
            }
            &&& match raw.font.antialiasing {
                Some(word) => match e.font.antialiasing {
                    AntialiasPreference::Grayscale => word@ == "grayscale"@,
                    AntialiasPreference::System => word@ == "system"@,
                },
                None => e.font.antialiasing is Grayscale,
            }
            &&& match raw.scrollbar.mode {
                Some(word) => match e.scrollbar.mode {
                    ScrollbarMode::Auto => word@ == "auto"@,
                    ScrollbarMode::Always => word@ == "always"@,
                    ScrollbarMode::Hidden => word@ == "hidden"@,
                },
                None => e.scrollbar.mode is Auto,
            }
            &&& match raw.cursor.style {
                Some(word) => match e.cursor.style {
                    CursorStyle::Block => word@ == "block"@,
                    CursorStyle::Beam => word@ == "beam"@,
                    CursorStyle::Underline => word@ == "underline"@,
                },
                None => e.cursor.style is Block,
            }
            &&& match raw.tabs.new_tab_cwd {
                Some(word) => match e.tabs.new_tab_cwd {
                    CwdModel::Inherit => word@ == "inherit"@,
                    CwdModel::Home => word@ == "home"@,
                    CwdModel::Fixed(path) => word@ == "fixed"@ && raw.tabs.new_tab_fixed_cwd is Some
                        && path == encode_utf8(raw.tabs.new_tab_fixed_cwd->0@),
                },
                None => e.tabs.new_tab_cwd is Inherit,
            }
            &&& match raw.font.family {
                Some(family) => e.font.family == family@,
                None => e.font.family == EffectiveModel::standard().font.family,
            }
        }),
{
    if starts_fixed(raw.tabs) {
        reveal_strlit("fixed");
        reveal_strlit("inherit");
        reveal_strlit("home");
        assert(raw.tabs.new_tab_cwd->0@.len() == 5);
        assert(cwd_problem(raw.tabs) is None);
        assert(raw.tabs.new_tab_fixed_cwd is Some);
    }
}

/// Every number that a file sets is in effect under its own name, and one that it leaves out is as
/// in the standard. Times are held in nanoseconds.
pub proof fn numbers_come_into_effect(raw: RawConfig, source: Seq<char>)
    requires
        merged(raw, source) is Ok,
    ensures
        ({
            let e = (merged(raw, source)->Ok_0).effective;
            let s = EffectiveModel::standard();
            &&& raw.font.size is Some ==> e.font.size == raw.font.size->0.value
            &&& raw.font.size is None ==> e.font.size == s.font.size
            &&& raw.font.line_spacing is Some ==> e.font.line_spacing
                == raw.font.line_spacing->0.value
            &&& raw.font.line_spacing is None ==> e.font.line_spacing == s.font.line_spacing
            &&& raw.window.padding_x is Some ==> e.window.padding_x == raw.window.padding_x->0
            &&& raw.window.padding_x is None ==> e.window.padding_x == s.window.padding_x
            &&& raw.window.padding_y is Some ==> e.window.padding_y == raw.window.padding_y->0
            &&& raw.window.padding_y is None ==> e.window.padding_y == s.window.padding_y
            &&& raw.scrolling.history_lines is Some ==> e.scrolling.history_lines
                == raw.scrolling.history_lines->0
            &&& raw.scrolling.history_lines is None ==> e.scrolling == s.scrolling
            &&& raw.scrollbar.width is Some ==> e.scrollbar.width == raw.scrollbar.width->0.value
            &&& raw.scrollbar.width is None ==> e.scrollbar.width == s.scrollbar.width
            &&& raw.scrollbar.hit_width is Some ==> e.scrollbar.hit_width
                == raw.scrollbar.hit_width->0.value
            &&& raw.scrollbar.hit_width is None ==> e.scrollbar.hit_width == s.scrollbar.hit_width
            &&& raw.scrollbar.min_thumb_size is Some ==> e.scrollbar.min_thumb_size
                == raw.scrollbar.min_thumb_size->0.value
            &&& raw.scrollbar.min_thumb_size is None ==> e.scrollbar.min_thumb_size
                == s.scrollbar.min_thumb_size
            &&& raw.tabs.max_count is Some ==> e.tabs.max_count == raw.tabs.max_count->0
            &&& raw.tabs.max_count is None ==> e.tabs.max_count == s.tabs.max_count
            &&& raw.tabs.bar_height is Some ==> e.tabs.bar_height == raw.tabs.bar_height->0
            &&& raw.tabs.bar_height is None ==> e.tabs.bar_height == s.tabs.bar_height
            &&& raw.tabs.min_width is Some ==> e.tabs.min_width == raw.tabs.min_width->0
            &&& raw.tabs.min_width is None ==> e.tabs.min_width == s.tabs.min_width
            &&& raw.tabs.max_width is Some ==> e.tabs.max_width == raw.tabs.max_width->0
            &&& raw.tabs.max_width is None ==> e.tabs.max_width == s.tabs.max_width
            &&& raw.bell.visual_duration_ms is Some ==> e.bell.visual_duration.nanos
                == raw.bell.visual_duration_ms->0 * 1_000_000
            &&& raw.bell.visual_duration_ms is None ==> e.bell.visual_duration
                == s.bell.visual_duration
            &&& raw.bell.notification_cooldown_seconds is Some
                ==> e.bell.notification_cooldown.nanos
                == raw.bell.notification_cooldown_seconds->0 * 1_000_000_000
            &&& raw.bell.notification_cooldown_seconds is None ==> e.bell.notification_cooldown
                == s.bell.notification_cooldown
            &&& raw.bell.notification_burst_per_minute is Some
                ==> e.bell.notification_burst_per_minute
                == raw.bell.notification_burst_per_minute->0
            &&& raw.bell.notification_burst_per_minute is None
                ==> e.bell.notification_burst_per_minute == s.bell.notification_burst_per_minute
        }),
{
}

/// Every switch that a file sets is in effect under its own name, and one that it leaves out is as
/// in the standard. So are the colors of the scrollbar.
pub proof fn switches_come_into_effect(raw: RawConfig, source: Seq<char>)
    requires
        merged(raw, source) is Ok,
    ensures
        ({
            let e = (merged(raw, source)->Ok_0).effective;
            let s = EffectiveModel::standard();
            &&& raw.font.ligatures is Some ==> e.font.ligatures == raw.font.ligatures->0
            &&& raw.font.ligatures is None ==> e.font.ligatures == s.font.ligatures
            &&& raw.behavior.hold_after_exit is Some ==> e.behavior.hold_after_exit
                == raw.behavior.hold_after_exit->0
            &&& raw.behavior.hold_after_exit is None ==> e.behavior.hold_after_exit
                == s.behavior.hold_after_exit
            &&& raw.behavior.confirm_multiline_paste is Some ==> e.behavior.confirm_multiline_paste
                == raw.behavior.confirm_multiline_paste->0
            &&& raw.behavior.confirm_multiline_paste is None ==> e.behavior.confirm_multiline_paste
                == s.behavior.confirm_multiline_paste
            &&& raw.unicode.bidi is Some ==> e.unicode.bidi == raw.unicode.bidi->0
            &&& raw.unicode.bidi is None ==> e.unicode.bidi == s.unicode.bidi
            &&& raw.unicode.color_glyphs is Some ==> e.unicode.color_glyphs
                == raw.unicode.color_glyphs->0
            &&& raw.unicode.color_glyphs is None ==> e.unicode.color_glyphs
                == s.unicode.color_glyphs
            &&& raw.tabs.show_close_button is Some ==> e.tabs.show_close_button
                == raw.tabs.show_close_button->0
            &&& raw.tabs.show_close_button is None ==> e.tabs.show_close_button
                == s.tabs.show_close_button
            &&& raw.bell.enabled is Some ==> e.bell.enabled == raw.bell.enabled->0
            &&& raw.bell.enabled is None ==> e.bell.enabled == s.bell.enabled
            &&& raw.bell.visual is Some ==> e.bell.visual == raw.bell.visual->0
            &&& raw.bell.visual is None ==> e.bell.visual == s.bell.visual
            &&& raw.bell.audible is Some ==> e.bell.audible == raw.bell.audible->0
            &&& raw.bell.audible is None ==> e.bell.audible == s.bell.audible
            &&& raw.bell.audible_when_unfocused is Some ==> e.bell.audible_when_unfocused
                == raw.bell.audible_when_unfocused->0
            &&& raw.bell.audible_when_unfocused is None ==> e.bell.audible_when_unfocused
                == s.bell.audible_when_unfocused
            &&& raw.bell.attention is Some ==> e.bell.attention == raw.bell.attention->0
            &&& raw.bell.attention is None ==> e.bell.attention == s.bell.attention
            &&& raw.bell.desktop_notifications is Some ==> e.bell.desktop_notifications
                == raw.bell.desktop_notifications->0
            &&& raw.bell.desktop_notifications is None ==> e.bell.desktop_notifications
                == s.bell.desktop_notifications
            &&& raw.scrollbar.thumb is Some ==> writes(raw.scrollbar.thumb->0@, e.scrollbar.thumb)
            &&& raw.scrollbar.thumb is None ==> e.scrollbar.thumb == s.scrollbar.thumb
            &&& raw.scrollbar.thumb_hover is Some ==> writes(
                raw.scrollbar.thumb_hover->0@,
                e.scrollbar.thumb_hover,
            )
            &&& raw.scrollbar.thumb_hover is None ==> e.scrollbar.thumb_hover
                == s.scrollbar.thumb_hover
            &&& raw.scrollbar.track is Some ==> writes(raw.scrollbar.track->0@, e.scrollbar.track)
            &&& raw.scrollbar.track is None ==> e.scrollbar.track == s.scrollbar.track
        }),
{
    if raw.scrollbar.thumb is Some {
        colors_are_read_as_they_are_written(raw.scrollbar.thumb->0@);
    }
    if raw.scrollbar.thumb_hover is Some {
        colors_are_read_as_they_are_written(raw.scrollbar.thumb_hover->0@);
    }
    if raw.scrollbar.track is Some {
        colors_are_read_as_they_are_written(raw.scrollbar.track->0@);
    }
}

proof fn bindings_do_not_depend_on_the_text(
    a: Seq<char>,
    b: Seq<char>,
    raws: Seq<RawKeyBinding>,
    n: int,
)
    ensures
        bound_after(a, raws, n) is Ok <==> bound_after(b, raws, n) is Ok,
        bound_after(a, raws, n) is Ok ==> (bound_after(a, raws, n)->Ok_0).bindings == (bound_after(
            b,
            raws,
            n,
        )->Ok_0).bindings,
    decreases n,
{
    if n > 0 {
        bindings_do_not_depend_on_the_text(a, b, raws, n - 1);
    }
}

/// Two files that differ in one color only have configurations in effect that differ in that color
/// only.
pub proof fn a_color_changes_nothing_else(
    a: RawConfig,
    b: RawConfig,
    sources: (Seq<char>, Seq<char>),
)
    requires
        merged(a, sources.0) is Ok,
        merged(b, sources.1) is Ok,
        b == (RawConfig { colors: b.colors, ..a }),
        b.colors.ansi == a.colors.ansi,
    ensures
        ({
            let x = (merged(a, sources.0)->Ok_0).effective;
            let y = (merged(b, sources.1)->Ok_0).effective;
            &&& y == (EffectiveModel { colors: y.colors, ..x })
            &&& a.colors.foreground == b.colors.foreground ==> x.colors.foreground
                == y.colors.foreground
            &&& a.colors.background == b.colors.background ==> x.colors.background
                == y.colors.background
            &&& a.colors.cursor == b.colors.cursor ==> x.colors.cursor == y.colors.cursor
            &&& a.colors.selection_foreground == b.colors.selection_foreground
                ==> x.colors.selection_foreground == y.colors.selection_foreground
            &&& a.colors.selection_background == b.colors.selection_background
                ==> x.colors.selection_background == y.colors.selection_background
            &&& x.colors.ansi == y.colors.ansi
        }),
{
    match a.keybindings {
        Some(bindings) => bindings_do_not_depend_on_the_text(
            sources.0,
            sources.1,
            bindings@,
            bindings@.len() as int,
        ),
        None => {},
    }
}

/// A file without bindings is refused only for a setting that is past its limits or that says
/// nothing which is known.
pub proof fn only_wrong_settings_are_refused(raw: RawConfig, source: Seq<char>)
    requires
        merged(raw, source) is Err,
        raw.keybindings is None,
    ensures
        ({
            let wrong = |text: Option<String>| text is Some && !is_color_text(text->0@);
            ||| raw.terminal.identity is Some && raw.terminal.identity->0@ != "leyline"@
                && raw.terminal.identity->0@ != "xterm-256color"@
            ||| raw.font.size is Some && !in_range(raw.font.size->0.value, SIX, SEVENTY_TWO)
            ||| raw.font.hinting is Some && raw.font.hinting->0@ != "none"@
                && raw.font.hinting->0@ != "slight"@ && raw.font.hinting->0@ != "full"@
                && raw.font.hinting->0@ != "system"@
            ||| raw.font.antialiasing is Some && raw.font.antialiasing->0@ != "grayscale"@
                && raw.font.antialiasing->0@ != "system"@
            ||| raw.font.line_spacing is Some && !in_range(raw.font.line_spacing->0.value, ZERO, EIGHT)
            ||| wrong(raw.colors.foreground) || wrong(raw.colors.background)
                || wrong(raw.colors.cursor) || wrong(raw.colors.selection_foreground)
                || wrong(raw.colors.selection_background)
            ||| raw.colors.ansi is Some && (raw.colors.ansi->0@.len() != 16 || exists|i: int|
                0 <= i < 16 && !(is_color_text((#[trigger] raw.colors.ansi->0@[i])@)
                    && raw.colors.ansi->0@[i]@.len() == 7))
            ||| raw.window.padding_x is Some && !(0 <= raw.window.padding_x->0 <= 256)
            ||| raw.window.padding_y is Some && !(0 <= raw.window.padding_y->0 <= 256)
            ||| raw.scrolling.history_lines is Some && !(0 <= raw.scrolling.history_lines->0
                <= 100_000)
            ||| raw.scrollbar.mode is Some && raw.scrollbar.mode->0@ != "auto"@
                && raw.scrollbar.mode->0@ != "always"@ && raw.scrollbar.mode->0@ != "hidden"@
            ||| raw.scrollbar.width is Some && !in_range(raw.scrollbar.width->0.value, TWO, THIRTY_TWO)
            ||| raw.scrollbar.hit_width is Some && !in_range(
                raw.scrollbar.hit_width->0.value,
                TWO,
                THIRTY_TWO,
            )
            ||| raw.scrollbar.min_thumb_size is Some && !in_range(
                raw.scrollbar.min_thumb_size->0.value,
                TWO,
                THIRTY_TWO,
            )
            ||| (match raw.scrollbar.hit_width {
                Some(width) => width.value.bits,
                None => TWELVE,
            }) < (match raw.scrollbar.width {
                Some(width) => width.value.bits,
                None => FOUR,
            })
            ||| wrong(raw.scrollbar.thumb) || wrong(raw.scrollbar.thumb_hover)
                || wrong(raw.scrollbar.track)
            ||| raw.cursor.style is Some && raw.cursor.style->0@ != "block"@
                && raw.cursor.style->0@ != "beam"@ && raw.cursor.style->0@ != "underline"@
            ||| raw.bell.visual_duration_ms is Some && !(40 <= raw.bell.visual_duration_ms->0
                <= 1000)
            ||| raw.bell.notification_cooldown_seconds is Some && !(1
                <= raw.bell.notification_cooldown_seconds->0 <= 3600)
            ||| raw.bell.notification_burst_per_minute is Some && !(1
                <= raw.bell.notification_burst_per_minute->0 <= 30)
            ||| raw.tabs.max_count is Some && !(1 <= raw.tabs.max_count->0 <= 32)
            ||| raw.tabs.bar_height is Some && !(24 <= raw.tabs.bar_height->0 <= 64)
            ||| raw.tabs.min_width is Some && !(48 <= raw.tabs.min_width->0 <= 240)
            ||| raw.tabs.max_width is Some && !(48 <= raw.tabs.max_width->0 <= 400)
            ||| (match raw.tabs.min_width {
                Some(width) => width as int,
                None => 80,
            }) > (match raw.tabs.max_width {
                Some(width) => width as int,
                None => 240,
            })
            ||| raw.tabs.new_tab_cwd is Some && raw.tabs.new_tab_cwd->0@ != "inherit"@
                && raw.tabs.new_tab_cwd->0@ != "home"@ && (raw.tabs.new_tab_cwd->0@ != "fixed"@
                || raw.tabs.new_tab_fixed_cwd is None || raw.tabs.new_tab_fixed_cwd->0@.len() == 0
                || raw.tabs.new_tab_fixed_cwd->0@[0] != '/'
                || raw.tabs.new_tab_fixed_cwd->0@.contains('\0'))
        }),
{
    assert forall|text: Option<String>| text is Some implies (is_color_text(text->0@) <==> (
    #[trigger] color_of(text->0@)) is Some) by {
        colors_are_read_as_they_are_written(text->0@);
    }
    if raw.colors.ansi is Some {
        let values = raw.colors.ansi->0@;
        if values.len() == 16 && ansi_problem_from(values, 0) is Some {
            a_named_color_is_wrong(values, 0);
            let i = choose|i: int|
                0 <= i < values.len() && opaque_color_of((#[trigger] values[i])@) is None;
            colors_are_read_as_they_are_written(values[i]@);
        }
    }
}

proof fn a_named_color_is_wrong(values: Seq<String>, from: int)
    requires
        0 <= from <= values.len(),
        ansi_problem_from(values, from) is Some,
    ensures
        exists|i: int|
            from <= i < values.len() && opaque_color_of((#[trigger] values[i])@) is None,
    decreases values.len() - from,
{
    if from < values.len() && opaque_color_of(values[from]@) is Some {
        a_named_color_is_wrong(values, from + 1);
    }
}

/// An action goes by its own name, and so does every tab from the first to the ninth.
pub proof fn actions_go_by_their_names(name: Seq<char>)
    ensures
        action_of(name) == Some(Action::CopyClipboard) ==> name == "CopyClipboard"@,
        name == "CopyClipboard"@ ==> action_of(name) is Some,
        action_of(name) == Some(Action::PasteClipboard) ==> name == "PasteClipboard"@,
        name == "PasteClipboard"@ ==> action_of(name) is Some,
        action_of(name) == Some(Action::PastePrimary) ==> name == "PastePrimary"@,
        name == "PastePrimary"@ ==> action_of(name) is Some,
        action_of(name) == Some(Action::IncreaseFontSize) ==> name == "IncreaseFontSize"@,
        name == "IncreaseFontSize"@ ==> action_of(name) is Some,
        action_of(name) == Some(Action::DecreaseFontSize) ==> name == "DecreaseFontSize"@,
        name == "DecreaseFontSize"@ ==> action_of(name) is Some,
        action_of(name) == Some(Action::ResetFontSize) ==> name == "ResetFontSize"@,
        name == "ResetFontSize"@ ==> action_of(name) is Some,
        action_of(name) == Some(Action::ScrollPageUp) ==> name == "ScrollPageUp"@,
        name == "ScrollPageUp"@ ==> action_of(name) is Some,
        action_of(name) == Some(Action::ScrollPageDown) ==> name == "ScrollPageDown"@,
        name == "ScrollPageDown"@ ==> action_of(name) is Some,
        action_of(name) == Some(Action::NewTab) ==> name == "NewTab"@,
        name == "NewTab"@ ==> action_of(name) is Some,
        action_of(name) == Some(Action::CloseTab) ==> name == "CloseTab"@,
        name == "CloseTab"@ ==> action_of(name) is Some,
        action_of(name) == Some(Action::PreviousTab) ==> name == "PreviousTab"@,
        name == "PreviousTab"@ ==> action_of(name) is Some,
        action_of(name) == Some(Action::NextTab) ==> name == "NextTab"@,
        name == "NextTab"@ ==> action_of(name) is Some,
        action_of(name) == Some(Action::ToggleBellMute) ==> name == "ToggleBellMute"@,
        name == "ToggleBellMute"@ ==> action_of(name) is Some,
        action_of(name) == Some(Action::ActivateTab(1)) ==> name == "ActivateTab1"@,
        name == "ActivateTab1"@ ==> action_of(name) is Some,
        action_of(name) == Some(Action::ActivateTab(2)) ==> name == "ActivateTab2"@,
        name == "ActivateTab2"@ ==> action_of(name) is Some,
        action_of(name) == Some(Action::ActivateTab(3)) ==> name == "ActivateTab3"@,
        name == "ActivateTab3"@ ==> action_of(name) is Some,
        action_of(name) == Some(Action::ActivateTab(4)) ==> name == "ActivateTab4"@,
        name == "ActivateTab4"@ ==> action_of(name) is Some,
        action_of(name) == Some(Action::ActivateTab(5)) ==> name == "ActivateTab5"@,
        name == "ActivateTab5"@ ==> action_of(name) is Some,
        action_of(name) == Some(Action::ActivateTab(6)) ==> name == "ActivateTab6"@,
        name == "ActivateTab6"@ ==> action_of(name) is Some,
        action_of(name) == Some(Action::ActivateTab(7)) ==> name == "ActivateTab7"@,
        name == "ActivateTab7"@ ==> action_of(name) is Some,
        action_of(name) == Some(Action::ActivateTab(8)) ==> name == "ActivateTab8"@,
        name == "ActivateTab8"@ ==> action_of(name) is Some,
        action_of(name) == Some(Action::ActivateTab(9)) ==> name == "ActivateTab9"@,
        name == "ActivateTab9"@ ==> action_of(name) is Some,
        action_of(name) matches Some(Action::ActivateTab(n)) ==> 1 <= n <= 9,
{
}

/// A modifier goes by its own name.
pub proof fn modifiers_go_by_their_names(name: Seq<char>)
    ensures
        modifier_of(name) == Some(Modifier::Control) ==> name == "Control"@,
        modifier_of(name) == Some(Modifier::Shift) ==> name == "Shift"@,
        modifier_of(name) == Some(Modifier::Alt) ==> name == "Alt"@,
        modifier_of(name) == Some(Modifier::Super) ==> name == "Super"@,
        name == "Control"@ || name == "Shift"@ || name == "Alt"@ || name == "Super"@
            ==> modifier_of(name) is Some,
{
}

proof fn all_modifiers_are_known(names: Seq<String>, from: int, i: int)
    requires
        0 <= from <= i < names.len(),
        unknown_modifier(names, from) is None,
    ensures
        modifier_of(names[i]@) is Some,
    decreases i - from,
{
    if from < i {
        all_modifiers_are_known(names, from + 1, i);
    }
}

/// A binding does what its action names, for the key that it names, with the modifiers that it
/// names and no others.
pub proof fn a_binding_is_for_what_it_names(raw: RawKeyBinding, index: usize)
    requires
        binding_of(raw, index) is Ok,
    ensures
        ({
            let binding = binding_of(raw, index)->Ok_0;
            let held = binding.chord.modifiers;
            let named = |name: Seq<char>|
                exists|i: int| 0 <= i < raw.mods@.len() && (#[trigger] raw.mods@[i])@ == name;
            &&& action_of(raw.action@) == Some(binding.action)
            &&& key_of_text(raw.key@) is Ok && key_of_text(raw.key@)->Ok_0 == binding.chord.key
            &&& held.control <==> named("Control"@)
            &&& held.shift <==> named("Shift"@)
            &&& held.alt <==> named("Alt"@)
            &&& held.super_key <==> named("Super"@)
            &&& binding.origin == BindingOrigin::User { index }
        }),
{
    let names = raw.mods@;
    let modifiers = named_modifiers(names);
    reveal_strlit("Control");
    reveal_strlit("Shift");
    reveal_strlit("Alt");
    reveal_strlit("Super");
    assert("Shift"@ != "Super"@) by {
        assert("Shift"@[1] != "Super"@[1]);
    }
    assert forall|i: int| 0 <= i < names.len() implies modifier_of((#[trigger] names[i])@) == Some(
        modifiers[i],
    ) by {
        all_modifiers_are_known(names, 0, i);
    }
    let held = mask_of(modifiers);
    if held.control {
        let i = choose|i: int| 0 <= i < modifiers.len() && modifiers[i] == Modifier::Control;
        assert(names[i]@ == "Control"@);
    }
    if held.shift {
        let i = choose|i: int| 0 <= i < modifiers.len() && modifiers[i] == Modifier::Shift;
        assert(names[i]@ == "Shift"@);
    }
    if held.alt {
        let i = choose|i: int| 0 <= i < modifiers.len() && modifiers[i] == Modifier::Alt;
        assert(names[i]@ == "Alt"@);
    }
    if held.super_key {
        let i = choose|i: int| 0 <= i < modifiers.len() && modifiers[i] == Modifier::Super;
        assert(names[i]@ == "Super"@);
    }
    assert forall|i: int| 0 <= i < names.len() implies {
        let name = (#[trigger] names[i])@;
        &&& name == "Control"@ ==> held.control
        &&& name == "Shift"@ ==> held.shift
        &&& name == "Alt"@ ==> held.alt
        &&& name == "Super"@ ==> held.super_key
    } by {
        assert(modifier_of(names[i]@) == Some(modifiers[i]));
        assert(modifiers.contains(modifiers[i]));
    }
}

proof fn a_place_is_for_its_chord(bindings: Seq<KeyBinding>, chord: KeyChord)
    ensures
        match chord_place(bindings, chord) {
            Some(i) => 0 <= i < bindings.len() && bindings[i].chord == chord,
            None => forall|k: int|
                0 <= k < bindings.len() ==> (#[trigger] bindings[k]).chord != chord,
        },
    decreases bindings.len(),
{
    if bindings.len() > 0 && bindings.last().chord != chord {
        let init = bindings.drop_last();
        a_place_is_for_its_chord(init, chord);
        assert(forall|k: int| 0 <= k < init.len() ==> #[trigger] bindings[k] == init[k]);
    }
}

/// One more binding takes effect for its chord and leaves every binding for another chord.
pub proof fn one_more_binding_keeps_the_others(
    bindings: Seq<KeyBinding>,
    added: KeyBinding,
    other: KeyBinding,
)
    ensures
        rebound(bindings, added).contains(added),
        bindings.contains(other) && other.chord != added.chord ==> rebound(
            bindings,
            added,
        ).contains(other),
        rebound(bindings, added).contains(other) ==> other == added || bindings.contains(other),
{
    a_place_is_for_its_chord(bindings, added.chord);
    let after = rebound(bindings, added);
    let place = match chord_place(bindings, added.chord) {
        Some(i) => i,
        None => bindings.len() as int,
    };
    assert(after[place] == added);
    if bindings.contains(other) && other.chord != added.chord {
        let k = choose|k: int| 0 <= k < bindings.len() && bindings[k] == other;
        assert(after[k] == other);
    }
    if after.contains(other) && other != added {
        let k = choose|k: int| 0 <= k < after.len() && after[k] == other;
        assert(bindings[k] == other);
    }
}

/// A binding of the standard stays in effect unless its chord is bound anew, and of the bindings
/// for one chord in a file the last is in effect.
pub proof fn the_standard_stays_unless_bound_anew(
    source: Seq<char>,
    raws: Seq<RawKeyBinding>,
    n: int,
    kept: KeyBinding,
    from: int,
)
    requires
        0 <= from <= n <= raws.len() <= usize::MAX,
        bound_after(source, raws, n) is Ok,
        from == 0 ==> standard_bindings().contains(kept),
        from > 0 ==> binding_of(raws[from - 1], (from - 1) as usize) == Ok::<
            KeyBinding,
            Problem,
        >(kept),
        forall|i: int|
            from <= i < n ==> (binding_of(#[trigger] raws[i], i as usize)->Ok_0).chord
                != kept.chord,
    ensures
        (bound_after(source, raws, n)->Ok_0).bindings.contains(kept),
    decreases n,
{
    if n > from {
        the_standard_stays_unless_bound_anew(source, raws, n - 1, kept, from);
        let before = (bound_after(source, raws, n - 1)->Ok_0).bindings;
        let added = binding_of(raws[n - 1], (n - 1) as usize)->Ok_0;
        assert((binding_of(raws[n - 1], (n - 1) as usize)->Ok_0).chord != kept.chord);
        one_more_binding_keeps_the_others(before, added, kept);
    } else if n > 0 {
        let before = (bound_after(source, raws, n - 1)->Ok_0).bindings;
        one_more_binding_keeps_the_others(before, kept, kept);
    }
}

/// Without any configuration control and shift copy with C, paste with V, open and close a tab with
/// N and W, go to the tab beside with the arrows and to a tab with its number; shift pastes the
/// primary selection with insert and scrolls with the page keys; and control changes the size of the
/// font.
pub proof fn the_standard_has_the_usual_shortcuts()
    ensures
        ({
            let both = ModifierMask { shift: true, control: true, alt: false, super_key: false };
            let control = ModifierMask {
                shift: false,
                control: true,
                alt: false,
                super_key: false,
            };
            let shift = ModifierMask { shift: true, control: false, alt: false, super_key: false };
            let bound = |key: LogicalKeyPattern, modifiers: ModifierMask, action: Action|
                standard_bindings().contains(
                    KeyBinding {
                        chord: KeyChord { key, modifiers },
                        action,
                        origin: BindingOrigin::Default,
                    },
                );
            &&& bound(LogicalKeyPattern::Character('c'), both, Action::CopyClipboard)
            &&& bound(LogicalKeyPattern::Character('v'), both, Action::PasteClipboard)
            &&& bound(LogicalKeyPattern::Insert, shift, Action::PastePrimary)
            &&& bound(LogicalKeyPattern::Character('+'), both, Action::IncreaseFontSize)
            &&& bound(LogicalKeyPattern::Character('='), control, Action::IncreaseFontSize)
            &&& bound(LogicalKeyPattern::Character('-'), control, Action::DecreaseFontSize)
            &&& bound(LogicalKeyPattern::Character('0'), control, Action::ResetFontSize)
            &&& bound(LogicalKeyPattern::PageUp, shift, Action::ScrollPageUp)
            &&& bound(LogicalKeyPattern::PageDown, shift, Action::ScrollPageDown)
            &&& bound(LogicalKeyPattern::Character('N'), both, Action::NewTab)
            &&& bound(LogicalKeyPattern::Character('W'), both, Action::CloseTab)
            &&& bound(LogicalKeyPattern::ArrowLeft, both, Action::PreviousTab)
            &&& bound(LogicalKeyPattern::ArrowRight, both, Action::NextTab)
            &&& bound(LogicalKeyPattern::Character('1'), both, Action::ActivateTab(1))
            &&& bound(LogicalKeyPattern::Character('2'), both, Action::ActivateTab(2))
            &&& bound(LogicalKeyPattern::Character('3'), both, Action::ActivateTab(3))
            &&& bound(LogicalKeyPattern::Character('4'), both, Action::ActivateTab(4))
            &&& bound(LogicalKeyPattern::Character('5'), both, Action::ActivateTab(5))
            &&& bound(LogicalKeyPattern::Character('6'), both, Action::ActivateTab(6))
            &&& bound(LogicalKeyPattern::Character('7'), both, Action::ActivateTab(7))
            &&& bound(LogicalKeyPattern::Character('8'), both, Action::ActivateTab(8))
            &&& bound(LogicalKeyPattern::Character('9'), both, Action::ActivateTab(9))
        }),
{
    assert(standard_bindings().contains(standard_bindings()[0]));
    assert(standard_bindings().contains(standard_bindings()[1]));
    assert(standard_bindings().contains(standard_bindings()[2]));
    assert(standard_bindings().contains(standard_bindings()[3]));
    assert(standard_bindings().contains(standard_bindings()[4]));
    assert(standard_bindings().contains(standard_bindings()[5]));
    assert(standard_bindings().contains(standard_bindings()[6]));
    assert(standard_bindings().contains(standard_bindings()[7]));
    assert(standard_bindings().contains(standard_bindings()[8]));
    assert(standard_bindings().contains(standard_bindings()[9]));
    assert(standard_bindings().contains(standard_bindings()[10]));
    assert(standard_bindings().contains(standard_bindings()[11]));
    assert(standard_bindings().contains(standard_bindings()[12]));
    assert(standard_bindings().contains(standard_bindings()[13]));
    assert(standard_bindings().contains(standard_bindings()[14]));
    assert(standard_bindings().contains(standard_bindings()[15]));
    assert(standard_bindings().contains(standard_bindings()[16]));
    assert(standard_bindings().contains(standard_bindings()[17]));
    assert(standard_bindings().contains(standard_bindings()[18]));
    assert(standard_bindings().contains(standard_bindings()[19]));
    assert(standard_bindings().contains(standard_bindings()[20]));
    assert(standard_bindings().contains(standard_bindings()[21]));
}

} // verus!
