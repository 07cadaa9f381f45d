use leyline::config::merge::{
    modifier_mask, parse_color, parse_opaque_color, RawBehavior, RawBell, RawColors, RawConfig,
    RawCursor, RawFont, RawKeyBinding, RawNumber, RawScrollbar, RawScrolling, RawTabs, RawTerminal,
    RawUnicode, RawWindow,
};
use leyline::config::suggest::{edit_distance, unique_suggestion};
use leyline::config::{
    admit_file, admit_text, default_keybindings, Action, AntialiasPreference, Color,
    ConfigEnvironment, ConfigError, ConfigLocation, ConfigOrigin, EffectiveConfig,
    FileConfigSource, HintingPreference, LoadedConfig, Modifier, NewTabCwdPolicy, Number,
    ScrollbarMode, MAX_CONFIG_BYTES,
};
use leyline::diagnostics::ErrorCategory;
use leyline::input::shortcut::{BindingOrigin, LogicalKeyPattern};
use leyline::keys::ModifierMask;
use leyline::time::Duration;
use toml::{Table, Value};

const SHIFT: ModifierMask = ModifierMask { shift: true, control: false, alt: false, super_key: false };
const CONTROL: ModifierMask =
    ModifierMask { shift: false, control: true, alt: false, super_key: false };

fn section(table: &Table, name: &str) -> Table {
    match table.get(name) {
        Some(Value::Table(section)) => section.clone(),
        _ => Table::new(),
    }
}

fn text(table: &Table, key: &str) -> Option<String> {
    table.get(key).map(|value| value.as_str().expect("text").to_owned())
}

fn flag(table: &Table, key: &str) -> Option<bool> {
    table.get(key).map(|value| value.as_bool().expect("flag"))
}

fn integer(table: &Table, key: &str) -> Option<i64> {
    table.get(key).map(|value| value.as_integer().expect("integer"))
}

fn number(table: &Table, key: &str) -> Option<RawNumber> {
    table.get(key).map(|value| {
        let value = match value {
            Value::Integer(value) => *value as f64,
            other => other.as_float().expect("number"),
        };
        RawNumber { value: Number { bits: value.to_bits() }, text: format!("{value:?}") }
    })
}

fn texts(value: &Value) -> Vec<String> {
    let items = value.as_array().expect("list");
    items.iter().map(|item| item.as_str().expect("text").to_owned()).collect()
}

fn unknown(table: &Table, known: &[&str]) -> Vec<String> {
    let mut keys: Vec<String> = table.keys().cloned().collect();
    keys.sort();
    keys.retain(|key| !known.contains(&key.as_str()));
    keys
}

fn raw(source: &str) -> RawConfig {
    let table: Table = toml::from_str(source).expect("raw config");
    let terminal = section(&table, "terminal");
    let font = section(&table, "font");
    let colors = section(&table, "colors");
    let window = section(&table, "window");
    let scrolling = section(&table, "scrolling");
    let scrollbar = section(&table, "scrollbar");
    let cursor = section(&table, "cursor");
    let behavior = section(&table, "behavior");
    let unicode = section(&table, "unicode");
    let tabs = section(&table, "tabs");
    let bell = section(&table, "bell");
    RawConfig {
        terminal: RawTerminal {
            identity: text(&terminal, "identity"),
            unknown: unknown(&terminal, &["identity"]),
        },
        font: RawFont {
            family: text(&font, "family"),
            size: number(&font, "size"),
            ligatures: flag(&font, "ligatures"),
            hinting: text(&font, "hinting"),
            antialiasing: text(&font, "antialiasing"),
            line_spacing: number(&font, "line_spacing"),
            unknown: unknown(
                &font,
                &["family", "size", "ligatures", "hinting", "antialiasing", "line_spacing"],
            ),
        },
        colors: RawColors {
            foreground: text(&colors, "foreground"),
            background: text(&colors, "background"),
            cursor: text(&colors, "cursor"),
            selection_foreground: text(&colors, "selection_foreground"),
            selection_background: text(&colors, "selection_background"),
            ansi: colors.get("ansi").map(texts),
            unknown: unknown(
                &colors,
                &[
                    "foreground",
                    "background",
                    "cursor",
                    "selection_foreground",
                    "selection_background",
                    "ansi",
                ],
            ),
        },
        window: RawWindow {
            padding_x: integer(&window, "padding_x"),
            padding_y: integer(&window, "padding_y"),
            unknown: unknown(&window, &["padding_x", "padding_y"]),
        },
        scrolling: RawScrolling {
            history_lines: integer(&scrolling, "history_lines"),
            unknown: unknown(&scrolling, &["history_lines"]),
        },
        scrollbar: RawScrollbar {
            mode: text(&scrollbar, "mode"),
            width: number(&scrollbar, "width"),
            hit_width: number(&scrollbar, "hit_width"),
            min_thumb_size: number(&scrollbar, "min_thumb_size"),
            thumb: text(&scrollbar, "thumb"),
            thumb_hover: text(&scrollbar, "thumb_hover"),
            track: text(&scrollbar, "track"),
            unknown: unknown(
                &scrollbar,
                &["mode", "width", "hit_width", "min_thumb_size", "thumb", "thumb_hover", "track"],
            ),
        },
        cursor: RawCursor {
            style: text(&cursor, "style"),
            unknown: unknown(&cursor, &["style"]),
        },
        behavior: RawBehavior {
            hold_after_exit: flag(&behavior, "hold_after_exit"),
            confirm_multiline_paste: flag(&behavior, "confirm_multiline_paste"),
            unknown: unknown(&behavior, &["hold_after_exit", "confirm_multiline_paste"]),
        },
        unicode: RawUnicode {
            bidi: flag(&unicode, "bidi"),
            color_glyphs: flag(&unicode, "color_glyphs"),
            unknown: unknown(&unicode, &["bidi", "color_glyphs"]),
        },
        tabs: RawTabs {
            max_count: integer(&tabs, "max_count"),
            bar_height: integer(&tabs, "bar_height"),
            min_width: integer(&tabs, "min_width"),
            max_width: integer(&tabs, "max_width"),
            show_close_button: flag(&tabs, "show_close_button"),
            new_tab_cwd: text(&tabs, "new_tab_cwd"),
            new_tab_fixed_cwd: text(&tabs, "new_tab_fixed_cwd"),
            unknown: unknown(
                &tabs,
                &[
                    "max_count",
                    "bar_height",
                    "min_width",
                    "max_width",
                    "show_close_button",
                    "new_tab_cwd",
                    "new_tab_fixed_cwd",
                ],
            ),
        },
        bell: RawBell {
            enabled: flag(&bell, "enabled"),
            visual: flag(&bell, "visual"),
            visual_duration_ms: integer(&bell, "visual_duration_ms"),
            audible: flag(&bell, "audible"),
            audible_when_unfocused: flag(&bell, "audible_when_unfocused"),
            attention: flag(&bell, "attention"),
            desktop_notifications: flag(&bell, "desktop_notifications"),
            notification_cooldown_seconds: integer(&bell, "notification_cooldown_seconds"),
            notification_burst_per_minute: integer(&bell, "notification_burst_per_minute"),
            unknown: unknown(
                &bell,
                &[
                    "enabled",
                    "visual",
                    "visual_duration_ms",
                    "audible",
                    "audible_when_unfocused",
                    "attention",
                    "desktop_notifications",
                    "notification_cooldown_seconds",
                    "notification_burst_per_minute",
                ],
            ),
        },
        keybindings: table.get("keybindings").map(|value| {
            let items = value.as_array().expect("bindings");
            items
                .iter()
                .map(|item| {
                    let item = item.as_table().expect("binding");
                    RawKeyBinding {
                        key: text(item, "key").expect("key"),
                        mods: texts(item.get("mods").expect("mods")),
                        action: text(item, "action").expect("action"),
                        unknown: unknown(item, &["key", "mods", "action"]),
                    }
                })
                .collect()
        }),
        unknown: unknown(
            &table,
            &[
                "terminal",
                "font",
                "colors",
                "window",
                "scrolling",
                "scrollbar",
                "cursor",
                "behavior",
                "unicode",
                "tabs",
                "bell",
                "keybindings",
            ],
        ),
    }
}

fn load(source: &str) -> (EffectiveConfig, Vec<String>) {
    let (effective, warnings) =
        raw(source).into_effective(b"config.toml", source).expect("effective config");
    (effective, warnings.into_iter().map(|warning| warning.message).collect())
}

fn refused(source: &str) -> (String, String) {
    match raw(source).into_effective(b"config.toml", source) {
        Err(ConfigError::Semantic { path, field, reason }) => {
            assert_eq!(path, b"config.toml");
            (field, reason)
        }
        other => panic!("unexpected result: {other:?}"),
    }
}

#[test]
fn defaults_include_system_clipboard_and_primary_bindings_once() {
    let bindings = default_keybindings();
    for (key, action) in [
        (LogicalKeyPattern::Character('c'), Action::CopyClipboard),
        (LogicalKeyPattern::Character('v'), Action::PasteClipboard),
    ] {
        assert_eq!(
            bindings
                .iter()
                .filter(|binding| {
                    binding.chord.key == key
                        && binding.chord.modifiers
                            == modifier_mask(&[Modifier::Control, Modifier::Shift])
                        && binding.action == action
                })
                .count(),
            1
        );
    }
    assert!(bindings.iter().any(|binding| {
        binding.chord.key == LogicalKeyPattern::Insert
            && binding.chord.modifiers == SHIFT
            && binding.action == Action::PastePrimary
    }));
}

#[test]
fn default_font_shortcuts_match_the_logical_characters_users_type() {
    let bindings = default_keybindings();
    assert!(bindings.iter().any(|binding| {
        binding.chord.key == LogicalKeyPattern::Character('=')
            && binding.chord.modifiers == CONTROL
            && binding.action == Action::IncreaseFontSize
    }));
    assert!(bindings.iter().any(|binding| {
        binding.chord.key == LogicalKeyPattern::Character('-')
            && binding.chord.modifiers == CONTROL
            && binding.action == Action::DecreaseFontSize
    }));
    assert!(bindings.iter().any(|binding| {
        binding.chord.key == LogicalKeyPattern::Character('0')
            && binding.chord.modifiers == CONTROL
            && binding.action == Action::ResetFontSize
    }));
}

#[test]
fn there_is_a_default_binding_for_each_of_nine_tabs() {
    let bindings = default_keybindings();
    assert_eq!(bindings.len(), 22);
    for tab in 1..=9_u8 {
        let binding = &bindings[12 + usize::from(tab)];
        assert_eq!(
            binding.chord.key,
            LogicalKeyPattern::Character(char::from(b'0' + tab))
        );
        assert_eq!(binding.action, Action::ActivateTab(tab));
        assert_eq!(binding.origin, BindingOrigin::Default);
    }
}

#[test]
fn clipboard_actions_parse_from_user_bindings() {
    let source = "[[keybindings]]\nkey=\"C\"\nmods=[\"Control\",\"Shift\"]\naction=\"CopyClipboard\"\n[[keybindings]]\nkey=\"V\"\nmods=[\"Control\",\"Shift\"]\naction=\"PasteClipboard\"\n";
    let (effective, _) = load(source);
    assert!(effective
        .keybindings
        .iter()
        .any(|binding| binding.action == Action::CopyClipboard));
    assert!(effective
        .keybindings
        .iter()
        .any(|binding| binding.action == Action::PasteClipboard));
}

#[test]
fn xdg_path_precedes_home_and_relative_values_fall_back() {
    let source = FileConfigSource::new(ConfigEnvironment {
        xdg_config_home: Some(b"/xdg".to_vec()),
        home: Some(b"/home/me".to_vec()),
    });
    assert_eq!(
        source.locate(Ok(false)).expect("location"),
        ConfigLocation::Missing(b"/xdg/leyline/config.toml".to_vec())
    );
    let source = FileConfigSource::new(ConfigEnvironment {
        xdg_config_home: Some(b"relative".to_vec()),
        home: Some(b"/home/me".to_vec()),
    });
    assert_eq!(
        source.locate(Ok(false)).expect("location"),
        ConfigLocation::Missing(b"/home/me/.config/leyline/config.toml".to_vec())
    );
}

#[test]
fn locations_tell_files_failures_and_missing_directories_apart() {
    let source = FileConfigSource::new(ConfigEnvironment {
        xdg_config_home: Some(b"/xdg/".to_vec()),
        home: None,
    });
    let path = b"/xdg/leyline/config.toml".to_vec();
    assert_eq!(source.path().expect("path"), path);
    assert_eq!(source.locate(Ok(true)).expect("file"), ConfigLocation::File(path));
    let error = source.locate(Err("denied".into())).expect_err("failure");
    assert_eq!(
        error.message(),
        "cannot read configuration file /xdg/leyline/config.toml: denied"
    );
    assert_eq!(error.category(), ErrorCategory::Configuration);
    let nowhere = FileConfigSource::new(ConfigEnvironment {
        xdg_config_home: Some(Vec::new()),
        home: Some(b"me".to_vec()),
    });
    let error = nowhere.locate(Ok(true)).expect_err("no directory");
    assert_eq!(error.category(), ErrorCategory::Environment);
    assert_eq!(
        error.message(),
        "no absolute configuration directory is available; set XDG_CONFIG_HOME to an absolute path"
    );
}

#[test]
fn files_are_regular_bounded_and_utf8() {
    let path = || b"/c.toml".to_vec();
    assert_eq!(admit_file(path(), true, MAX_CONFIG_BYTES).expect("file"), path());
    assert_eq!(
        admit_file(path(), false, 1).expect_err("directory").message(),
        "configuration path /c.toml does not resolve to a regular file"
    );
    assert_eq!(
        admit_file(path(), true, MAX_CONFIG_BYTES + 1).expect_err("large").message(),
        "configuration file /c.toml exceeds the 1 MiB limit"
    );
    let grown = vec![b'#'; 1024 * 1024 + 1];
    assert!(matches!(admit_text(path(), &grown), Err(ConfigError::TooLarge(_))));
    assert_eq!(admit_text(path(), "ä=1".as_bytes()).expect("text"), "ä=1");
    assert_eq!(
        admit_text(path(), &[b'a', 0xff]).expect_err("bytes").message(),
        "configuration file /c.toml is not valid UTF-8: invalid utf-8 sequence of 1 bytes from index 1"
    );
    let parse = ConfigError::Parse { path: path(), source: "here".into() };
    assert_eq!(parse.message(), "invalid TOML in /c.toml: here");
}

#[test]
fn validates_and_merges_configuration() {
    let ansi = (0..16)
        .map(|index| format!("\"#{index:02x}{index:02x}{index:02x}\""))
        .collect::<Vec<_>>()
        .join(",");
    let source = format!(
        "[font]\nsize=72\nhinting=\"full\"\nantialiasing=\"system\"\nline_spacing=2.5\n[colors]\nforeground=\"#01020304\"\nansi=[{ansi}]\n[scrollbar]\nmode=\"always\"\nwidth=5\nhit_width=14\nmin_thumb_size=20\n[window]\npadding_x=0\n[[keybindings]]\nkey=\"PageUp\"\nmods=[\"Shift\"]\naction=\"ScrollPageUp\"\n"
    );
    let (effective, warnings) =
        raw(&source).into_effective(b"config.toml", "").expect("effective config");
    assert!((f64::from_bits(effective.font.size.bits) - 72.0).abs() < f64::EPSILON);
    assert_eq!(effective.colors.foreground, Color(0x0102_0304));
    assert_eq!(effective.window.padding_x, 0);
    assert_eq!(effective.font.hinting, HintingPreference::Full);
    assert_eq!(effective.font.antialiasing, AntialiasPreference::System);
    assert!((f64::from_bits(effective.font.line_spacing.bits) - 2.5).abs() < f64::EPSILON);
    assert_eq!(effective.colors.ansi[15], Color(0x0f0f_0fff));
    assert_eq!(effective.scrollbar.mode, ScrollbarMode::Always);
    assert!(effective.keybindings.iter().any(|binding| binding.chord.key
        == LogicalKeyPattern::PageUp
        && binding.action == Action::ScrollPageUp));
    assert_eq!(warnings.len(), 1);
}

#[test]
fn default_numbers_have_the_bits_of_their_values() {
    let config = EffectiveConfig::default();
    assert_eq!(f64::from_bits(config.font.size.bits), 13.0);
    assert_eq!(f64::from_bits(config.font.line_spacing.bits), 1.0);
    assert_eq!(f64::from_bits(config.scrollbar.width.bits), 4.0);
    assert_eq!(f64::from_bits(config.scrollbar.hit_width.bits), 12.0);
    assert_eq!(f64::from_bits(config.scrollbar.min_thumb_size.bits), 24.0);
}

#[test]
fn numbers_are_ranged_by_their_values() {
    for (value, low, high) in [
        (6.0, 6.0, 72.0),
        (72.0, 6.0, 72.0),
        (5.999, 6.0, 72.0),
        (72.001, 6.0, 72.0),
        (-7.0, 6.0, 72.0),
        (f64::NAN, 6.0, 72.0),
        (f64::INFINITY, 6.0, 72.0),
        (f64::NEG_INFINITY, 0.0, 8.0),
        (-0.0, 0.0, 8.0),
        (0.0, 0.0, 8.0),
        (-f64::MIN_POSITIVE, 0.0, 8.0),
        (-0.0, 2.0, 32.0),
    ] {
        let number = Number { bits: f64::to_bits(value) };
        let expected = value.is_finite() && (low..=high).contains(&value);
        assert_eq!(number.within(f64::to_bits(low), f64::to_bits(high)), expected, "{value}");
    }
}

#[test]
fn rejects_transparent_or_wrong_length_ansi_palettes_and_narrow_hit_targets() {
    for source in [
        "[colors]\nansi=[\"#01020304\"]\n",
        "[colors]\nansi=[\"#010203\"]\n",
        "[scrollbar]\nwidth=12\nhit_width=4\n",
    ] {
        assert!(raw(source).into_effective(b"config.toml", source).is_err());
    }
}

#[test]
fn unknown_field_warns_with_unique_suggestion() {
    let (_, warnings) = load("[font]\nszie=12\n");
    assert!(warnings[0].contains("font.szie at line 2; did you mean size?"));
}

#[test]
fn warnings_come_in_the_order_of_the_parts() {
    let (_, warnings) = load(
        "zzz=1\n[bell]\n  visula=true\n[terminal]\nidentitty=1\n[[keybindings]]\nkey='Tab'\nmods=['Alt']\naction='NewTab'\nmod=1\n[[keybindings]]\nkey='c'\nmods=['Shift','Control','Shift']\naction='NextTab'\n",
    );
    assert_eq!(
        warnings,
        vec![
            "unknown configuration field zzz at line 1",
            "unknown configuration field terminal.identitty at line 5; did you mean identity?",
            "unknown configuration field bell.visula at line 3; did you mean visual?",
            "unknown configuration field keybindings[0].mod at line 10; did you mean mods?",
            "duplicate keybinding KeyChord { key: Character('c'), modifiers: ModifierMask(SHIFT | CONTROL) }; the later binding wins",
        ]
    );
}

#[test]
fn rejects_invalid_resource_values() {
    let error = raw("[scrolling]\nhistory_lines=100001\n")
        .into_effective(b"config.toml", "")
        .expect_err("must reject");
    assert!(error.message().contains("scrolling.history_lines"));
}

#[test]
fn rejects_unknown_key_names_during_configuration_loading() {
    let error = raw("[[keybindings]]\nkey=\"DefinitelyNotAKey\"\nmods=[]\naction=\"PastePrimary\"\n")
        .into_effective(b"config.toml", "")
        .expect_err("unknown key must fail");
    assert!(error.message().contains("keybindings[0].key"));
}

#[test]
fn every_field_is_refused_with_its_name_and_reason() {
    for (source, field, reason) in [
        (
            "[terminal]\nidentity='vt\\u0007'\n",
            "terminal.identity",
            "vt\\\\u0007 is not one of leyline, xterm-256color",
        ),
        ("[font]\nsize=5.5\n", "font.size", "5.5 is outside 6.0..=72.0"),
        ("[font]\nhinting='much'\n", "font.hinting", "much is not one of none, slight, full, system"),
        ("[font]\nantialiasing='x'\n", "font.antialiasing", "x is not one of grayscale, system"),
        ("[font]\nline_spacing=8.5\n", "font.line_spacing", "8.5 is outside 0..=8"),
        ("[colors]\nforeground='red'\n", "colors.foreground", "red must be #RRGGBB or #RRGGBBAA"),
        ("[colors]\nansi=[]\n", "colors.ansi", "must contain exactly 16 colors, got 0"),
        ("[colors]\ncursor='#12345'\n", "colors.cursor", "#12345 must be #RRGGBB or #RRGGBBAA"),
        ("[window]\npadding_x=-1\n", "window.padding_x", "-1 is outside 0..=256"),
        ("[scrollbar]\nmode='no'\n", "scrollbar.mode", "no is not one of auto, always, hidden"),
        ("[scrollbar]\nwidth=1\n", "scrollbar.width", "1.0 is outside 2..=32"),
        (
            "[scrollbar]\nwidth=20\n",
            "scrollbar.hit_width",
            "must be greater than or equal to scrollbar.width",
        ),
        ("[window]\npadding_y=257\n", "window.padding_y", "257 is outside 0..=256"),
        ("[cursor]\nstyle='dot'\n", "cursor.style", "dot is not one of block, beam, underline"),
        ("[bell]\nvisual_duration_ms=1001\n", "bell.visual_duration_ms", "1001 is outside 40..=1000"),
        ("[tabs]\nbar_height=23\n", "tabs.bar_height", "23 is outside 24..=64"),
        (
            "[tabs]\nmin_width=200\nmax_width=100\n",
            "tabs.min_width",
            "must be less than or equal to tabs.max_width",
        ),
        ("[tabs]\nnew_tab_cwd='x'\n", "tabs.new_tab_cwd", "x is not one of inherit, fixed, home"),
        (
            "[tabs]\nnew_tab_cwd='fixed'\n",
            "tabs.new_tab_fixed_cwd",
            "is required when tabs.new_tab_cwd is fixed",
        ),
        (
            "[[keybindings]]\nkey='a'\nmods=['Hyper']\naction='NewTab'\n",
            "keybindings[0].mods",
            "unknown modifier Hyper",
        ),
        (
            "[[keybindings]]\nkey='a'\nmods=[]\naction='NewTab'\n[[keybindings]]\nkey='b'\nmods=[]\naction='Fly'\n",
            "keybindings[1].action",
            "unknown action Fly",
        ),
    ] {
        assert_eq!(refused(source), (field.to_string(), reason.to_string()));
    }
}

#[test]
fn the_first_fault_in_order_is_reported() {
    let (field, _) = refused("[tabs]\nmax_count=0\n[window]\npadding_x=300\n[colors]\ncursor='x'\n");
    assert_eq!(field, "colors.cursor");
    let mut colors = vec!["\"#000000\""; 16];
    colors[3] = "\"#00000\"";
    colors[9] = "\"#0000\"";
    let (field, reason) = refused(&format!("[colors]\nansi=[{}]\n", colors.join(",")));
    assert_eq!((field.as_str(), reason.as_str()), ("colors.ansi[3]", "#00000 must be #RRGGBB"));
}

#[test]
fn tabs_are_bounded_and_tab_actions_are_configurable() {
    let source = "[tabs]\nmax_count=12\nbar_height=36\nmin_width=72\nmax_width=200\nshow_close_button=false\n[[keybindings]]\nkey=\"F1\"\nmods=[]\naction=\"ActivateTab9\"\n";
    let (effective, _) = load(source);
    assert_eq!(effective.tabs.max_count, 12);
    assert!(!effective.tabs.show_close_button);
    assert!(effective
        .keybindings
        .iter()
        .any(|binding| binding.action == Action::ActivateTab(9)));

    for source in ["[tabs]\nmax_count=33\n", "[tabs]\nmin_width=200\nmax_width=100\n"] {
        assert!(raw(source).into_effective(b"config.toml", source).is_err());
    }
}

#[test]
fn new_tab_cwd_policies_validate_fixed_paths_and_warn_when_ignored() {
    let (effective, warnings) =
        load("[tabs]\nnew_tab_cwd='fixed'\nnew_tab_fixed_cwd='/srv/project'\n");
    assert_eq!(
        effective.tabs.new_tab_cwd,
        NewTabCwdPolicy::Fixed(b"/srv/project".to_vec())
    );
    assert!(warnings.is_empty());

    for source in [
        "[tabs]\nnew_tab_cwd='fixed'\n",
        "[tabs]\nnew_tab_cwd='fixed'\nnew_tab_fixed_cwd='relative'\n",
        "[tabs]\nnew_tab_cwd='other'\n",
    ] {
        assert!(raw(source).into_effective(b"config.toml", source).is_err());
    }

    let (effective, warnings) = load("[tabs]\nnew_tab_cwd='home'\nnew_tab_fixed_cwd='/ignored'\n");
    assert_eq!(effective.tabs.new_tab_cwd, NewTabCwdPolicy::Home);
    assert_eq!(warnings.len(), 1);
}

#[test]
fn bell_configuration_is_bounded_and_mute_action_is_bindable() {
    assert!(EffectiveConfig::default().bell.desktop_notifications);
    let source = "[bell]\nvisual_duration_ms=1000\nnotification_cooldown_seconds=3600\nnotification_burst_per_minute=30\ndesktop_notifications=true\n[[keybindings]]\nkey='F2'\nmods=[]\naction='ToggleBellMute'\n";
    let (effective, warnings) = load(source);
    assert!(warnings.is_empty());
    assert_eq!(effective.bell.visual_duration, Duration::from_secs(1));
    assert_eq!(effective.bell.notification_cooldown, Duration::from_secs(3600));
    assert_eq!(effective.bell.notification_burst_per_minute, 30);
    assert!(effective.bell.desktop_notifications);
    assert!(effective
        .keybindings
        .iter()
        .any(|binding| binding.action == Action::ToggleBellMute));

    for source in [
        "[bell]\nvisual_duration_ms=39\n",
        "[bell]\nnotification_cooldown_seconds=0\n",
        "[bell]\nnotification_burst_per_minute=31\n",
    ] {
        assert!(raw(source).into_effective(b"config.toml", source).is_err());
    }
}

#[test]
fn a_blank_file_is_as_good_as_none() {
    let loaded = LoadedConfig::from_file(b"/c".to_vec(), raw(""), "").expect("loaded");
    let standard = LoadedConfig::without_file();
    assert_eq!(loaded.effective, standard.effective);
    assert_eq!(loaded.effective, EffectiveConfig::default());
    assert!(loaded.warnings.is_empty() && standard.warnings.is_empty());
    assert_eq!(loaded.source, ConfigOrigin::File(b"/c".to_vec()));
    assert_eq!(standard.source, ConfigOrigin::Default);
}

#[test]
fn a_chord_that_is_bound_again_keeps_its_place() {
    let (effective, _) = load("[[keybindings]]\nkey='Insert'\nmods=['Shift']\naction='CloseTab'\n");
    assert_eq!(effective.keybindings.len(), 22);
    assert_eq!(effective.keybindings[2].action, Action::CloseTab);
    assert_eq!(effective.keybindings[2].origin, BindingOrigin::User { index: 0 });
}

#[test]
fn colors_have_six_or_eight_digits() {
    assert_eq!(parse_color("#01aBfF"), Some(Color(0x01ab_ffff)));
    assert_eq!(parse_color("#01aBfF80"), Some(Color(0x01ab_ff80)));
    for raw in ["", "#", "01abff", "#01abf", "#01abf\u{e9}", "#01abfg", "#+1abff"] {
        assert_eq!(parse_color(raw), None, "{raw}");
    }
    assert_eq!(parse_opaque_color("#ffffff"), Some(Color(u32::MAX)));
    assert_eq!(parse_opaque_color("#ffffffff"), None);
}

#[test]
fn distances_count_changed_bytes() {
    assert_eq!(edit_distance(b"", b""), 0);
    assert_eq!(edit_distance(b"", b"abc"), 3);
    assert_eq!(edit_distance(b"kitten", b"sitting"), 3);
    assert_eq!(edit_distance(b"sitting", b"kitten"), 3);
    assert_eq!(edit_distance(b"size", b"szie"), 2);
    let names = vec!["min_width", "max_width"];
    assert_eq!(unique_suggestion("mix_width", &names), None);
    assert_eq!(unique_suggestion("maxwidth", &names), Some("max_width"));
    assert_eq!(unique_suggestion("height", &names), None);
}
