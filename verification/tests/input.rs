use leyline::keys::{KeyIdentity, KeyLocation, KeypadKey, LogicalKey};
use leyline::terminal::input::{
    commit_text, encode_alternate_scroll, encode_focus, encode_key, encode_keyboard_event,
    encode_mouse, paste_transaction, ButtonState, EncodedKey, IgnoreReason, InputError,
    KeyboardEventKind, Modifiers, MouseButton, TerminalKey, TerminalKeyboardEvent,
    MAX_ASSOCIATED_TEXT_SCALARS, MAX_COMMIT_BYTES,
};
use leyline::terminal::snapshot::{
    KeyboardProtocolState, KittyKeyboardFlags, ModifyOtherKeysLevel, MouseEncoding, MouseProtocol,
    TerminalModes,
};

fn modes() -> TerminalModes {
    TerminalModes::default()
}

fn keyboard_event(logical: LogicalKey, kind: KeyboardEventKind) -> TerminalKeyboardEvent {
    TerminalKeyboardEvent {
        identity: KeyIdentity {
            logical,
            location: KeyLocation::Standard,
            keypad: None,
            base_codepoint: match logical {
                LogicalKey::Character(ch) => Some(ch),
                _ => None,
            },
            shifted_codepoint: None,
        },
        text: match logical {
            LogicalKey::Character(ch) => Some(ch.to_string()),
            _ => None,
        },
        modifiers: Modifiers::default(),
        caps_lock: false,
        num_lock: false,
        kind,
        associated_text_allowed: true,
    }
}

fn kitty_modes(bits: u8) -> TerminalModes {
    TerminalModes {
        keyboard: KeyboardProtocolState {
            kitty: KittyKeyboardFlags::from_valid_bits(bits).unwrap(),
            modify_other_keys: ModifyOtherKeysLevel::Disabled,
        },
        ..TerminalModes::default()
    }
}

#[test]
fn kitty_event_and_all_keys_truth_table_is_explicit() {
    for bits in [0, 2, 8, 10] {
        for kind in [
            KeyboardEventKind::Press,
            KeyboardEventKind::Repeat,
            KeyboardEventKind::Release,
        ] {
            let event = keyboard_event(LogicalKey::Character('a'), kind);
            let encoded = encode_keyboard_event(&event, kitty_modes(bits)).unwrap();
            match (bits, kind) {
                (0 | 2, KeyboardEventKind::Press | KeyboardEventKind::Repeat) => {
                    assert_eq!(encoded, EncodedKey::TextFallback);
                }
                (8, KeyboardEventKind::Press | KeyboardEventKind::Repeat) => {
                    assert_eq!(encoded, EncodedKey::Bytes(b"\x1b[97;1u".to_vec()));
                }
                (10, KeyboardEventKind::Press) => {
                    assert_eq!(encoded, EncodedKey::Bytes(b"\x1b[97;1:1u".to_vec()));
                }
                (10, KeyboardEventKind::Repeat) => {
                    assert_eq!(encoded, EncodedKey::Bytes(b"\x1b[97;1:2u".to_vec()));
                }
                (10, KeyboardEventKind::Release) => {
                    assert_eq!(encoded, EncodedKey::Bytes(b"\x1b[97;1:3u".to_vec()));
                }
                (_, KeyboardEventKind::Release) => assert_eq!(
                    encoded,
                    EncodedKey::Ignored(IgnoreReason::ReleaseNotReported)
                ),
                _ => unreachable!(),
            }
        }
    }

    let arrow = keyboard_event(LogicalKey::ArrowUp, KeyboardEventKind::Repeat);
    assert_eq!(
        encode_keyboard_event(&arrow, kitty_modes(2)).unwrap(),
        EncodedKey::Bytes(b"\x1b[1;1:2A".to_vec())
    );
}

#[test]
fn codex_flags_keep_legacy_functional_key_identities() {
    let cases = [
        (LogicalKey::ArrowLeft, b"\x1b[1;1:1D".as_slice()),
        (LogicalKey::ArrowRight, b"\x1b[1;1:1C".as_slice()),
        (LogicalKey::Home, b"\x1b[1;1:1H".as_slice()),
        (LogicalKey::Delete, b"\x1b[3;1:1~".as_slice()),
        (LogicalKey::PageDown, b"\x1b[6;1:1~".as_slice()),
        (LogicalKey::Function(1), b"\x1b[1;1:1P".as_slice()),
        (LogicalKey::Function(12), b"\x1b[24;1:1~".as_slice()),
    ];
    for (key, expected) in cases {
        let event = keyboard_event(key, KeyboardEventKind::Press);
        assert_eq!(
            encode_keyboard_event(&event, kitty_modes(7)).unwrap(),
            EncodedKey::Bytes(expected.to_vec())
        );
    }

    let release = keyboard_event(LogicalKey::ArrowLeft, KeyboardEventKind::Release);
    assert_eq!(
        encode_keyboard_event(&release, kitty_modes(7)).unwrap(),
        EncodedKey::Bytes(b"\x1b[1;1:3D".to_vec())
    );

    let all_keys = keyboard_event(LogicalKey::ArrowLeft, KeyboardEventKind::Press);
    assert_eq!(
        encode_keyboard_event(&all_keys, kitty_modes(8)).unwrap(),
        EncodedKey::Bytes(b"\x1b[D".to_vec())
    );
}

#[test]
fn kitty_ignores_unidentified_system_keys() {
    let event = keyboard_event(
        LogicalKey::Unidentified(0x1008_ff4a),
        KeyboardEventKind::Press,
    );
    assert_eq!(
        encode_keyboard_event(&event, kitty_modes(8)).unwrap(),
        EncodedKey::Ignored(IgnoreReason::UnknownKey)
    );
}

#[test]
fn kitty_alternate_associated_text_and_release_are_bounded() {
    let mut event = keyboard_event(LogicalKey::Character('A'), KeyboardEventKind::Press);
    event.identity.base_codepoint = Some('a');
    event.identity.shifted_codepoint = Some('A');
    event.modifiers.shift = true;
    event.text = Some("A".into());
    assert_eq!(
        encode_keyboard_event(&event, kitty_modes(4 | 8 | 16)).unwrap(),
        EncodedKey::Bytes(b"\x1b[97:65:97;2;65u".to_vec())
    );
    event.text = Some("x".repeat(MAX_ASSOCIATED_TEXT_SCALARS + 1));
    assert_eq!(
        encode_keyboard_event(&event, kitty_modes(8 | 16)),
        Err(InputError::AssociatedTextCapacity)
    );
}

#[test]
fn kitty_precedes_mok_and_application_keypad_is_independent() {
    let mut event = keyboard_event(LogicalKey::Character('a'), KeyboardEventKind::Press);
    event.modifiers.control = true;
    let mut state = kitty_modes(1);
    state.keyboard.modify_other_keys = ModifyOtherKeysLevel::All;
    assert_eq!(
        encode_keyboard_event(&event, state).unwrap(),
        EncodedKey::Bytes(b"\x1b[97;5u".to_vec())
    );
    state.keyboard.kitty = KittyKeyboardFlags::default();
    assert_eq!(
        encode_keyboard_event(&event, state).unwrap(),
        EncodedKey::Bytes(b"\x1b[27;5;97~".to_vec())
    );

    let mut keypad = keyboard_event(LogicalKey::Enter, KeyboardEventKind::Press);
    keypad.identity.location = KeyLocation::Numpad;
    keypad.identity.keypad = Some(KeypadKey::Enter);
    assert_eq!(
        encode_keyboard_event(
            &keypad,
            TerminalModes {
                application_keypad: true,
                ..modes()
            }
        )
        .unwrap(),
        EncodedKey::Bytes(b"\x1bOM".to_vec())
    );
}

#[test]
fn modify_other_keys_level_one_preserves_xterm_well_defined_aliases() {
    let modes = TerminalModes {
        keyboard: KeyboardProtocolState {
            kitty: KittyKeyboardFlags::default(),
            modify_other_keys: ModifyOtherKeysLevel::ExceptWellDefined,
        },
        ..TerminalModes::default()
    };
    let mut shifted = keyboard_event(LogicalKey::Character('A'), KeyboardEventKind::Press);
    shifted.identity.base_codepoint = Some('a');
    shifted.modifiers.shift = true;
    assert_eq!(
        encode_keyboard_event(&shifted, modes).unwrap(),
        EncodedKey::TextFallback
    );
    let cases = [
        (
            'a',
            'a',
            Modifiers {
                control: true,
                ..Modifiers::default()
            },
            b"\x01".as_slice(),
        ),
        (
            'a',
            'a',
            Modifiers {
                alt: true,
                ..Modifiers::default()
            },
            b"\x1b[27;3;97~".as_slice(),
        ),
        (
            '?',
            '/',
            Modifiers {
                control: true,
                shift: true,
                ..Modifiers::default()
            },
            b"\x1b[27;6;63~".as_slice(),
        ),
        (
            '3',
            '3',
            Modifiers {
                control: true,
                ..Modifiers::default()
            },
            b"3".as_slice(),
        ),
        (
            '#',
            '3',
            Modifiers {
                control: true,
                shift: true,
                ..Modifiers::default()
            },
            b"\x1b[27;6;35~".as_slice(),
        ),
    ];
    for (ch, base, modifiers, expected) in cases {
        let mut event = keyboard_event(LogicalKey::Character(ch), KeyboardEventKind::Press);
        event.identity.base_codepoint = Some(base);
        event.modifiers = modifiers;
        assert_eq!(
            encode_keyboard_event(&event, modes).unwrap(),
            EncodedKey::Bytes(expected.to_vec()),
            "character {ch:?}"
        );
    }
}

#[test]
fn application_keypad_table_and_numeric_navigation_are_deterministic() {
    let application = TerminalModes {
        application_keypad: true,
        ..modes()
    };
    let table: [(KeypadKey, &[u8]); 18] = [
        (KeypadKey::Digit(0), b"\x1bOp"),
        (KeypadKey::Digit(1), b"\x1bOq"),
        (KeypadKey::Digit(2), b"\x1bOr"),
        (KeypadKey::Digit(3), b"\x1bOs"),
        (KeypadKey::Digit(4), b"\x1bOt"),
        (KeypadKey::Digit(5), b"\x1bOu"),
        (KeypadKey::Digit(6), b"\x1bOv"),
        (KeypadKey::Digit(7), b"\x1bOw"),
        (KeypadKey::Digit(8), b"\x1bOx"),
        (KeypadKey::Digit(9), b"\x1bOy"),
        (KeypadKey::Decimal, b"\x1bOn"),
        (KeypadKey::Divide, b"\x1bOo"),
        (KeypadKey::Multiply, b"\x1bOj"),
        (KeypadKey::Subtract, b"\x1bOm"),
        (KeypadKey::Add, b"\x1bOk"),
        (KeypadKey::Separator, b"\x1bOl"),
        (KeypadKey::Equal, b"\x1bOX"),
        (KeypadKey::Enter, b"\x1bOM"),
    ];
    for (keypad, expected) in table {
        let mut event = keyboard_event(LogicalKey::Unidentified(0), KeyboardEventKind::Press);
        event.identity.location = KeyLocation::Numpad;
        event.identity.keypad = Some(keypad);
        assert_eq!(
            encode_keyboard_event(&event, application).unwrap(),
            EncodedKey::Bytes(expected.to_vec()),
            "keypad {keypad:?}"
        );
    }

    let mut navigation = keyboard_event(LogicalKey::Home, KeyboardEventKind::Press);
    navigation.identity.location = KeyLocation::Numpad;
    navigation.identity.keypad = Some(KeypadKey::Digit(7));
    navigation.text = None;
    assert_eq!(
        encode_keyboard_event(&navigation, modes()).unwrap(),
        EncodedKey::Bytes(b"\x1b[H".to_vec())
    );
    let mut modified = navigation.clone();
    modified.identity.logical = LogicalKey::Unidentified(0);
    modified.identity.keypad = Some(KeypadKey::Add);
    modified.modifiers.control = true;
    assert_eq!(
        encode_keyboard_event(&modified, application).unwrap(),
        EncodedKey::Bytes(b"\x1b[1;5k".to_vec())
    );
}
#[test]
fn keys_cover_control_application_and_modifiers() {
    assert_eq!(
        encode_key(
            TerminalKey::Char('c'),
            Modifiers {
                control: true,
                ..Modifiers::default()
            },
            modes()
        )
        .unwrap(),
        b"\x03"
    );
    assert_eq!(
        encode_key(
            TerminalKey::Up,
            Modifiers::default(),
            TerminalModes {
                application_cursor: true,
                ..modes()
            }
        )
        .unwrap(),
        b"\x1bOA"
    );
    assert_eq!(
        encode_key(
            TerminalKey::Left,
            Modifiers {
                control: true,
                ..Modifiers::default()
            },
            modes()
        )
        .unwrap(),
        b"\x1b[1;5D"
    );
    assert_eq!(
        encode_key(
            TerminalKey::Left,
            Modifiers {
                alt: true,
                ..Modifiers::default()
            },
            modes()
        )
        .unwrap(),
        b"\x1b[1;3D"
    );
    assert_eq!(
        encode_key(
            TerminalKey::Enter,
            Modifiers {
                alt: true,
                ..Modifiers::default()
            },
            modes()
        )
        .unwrap(),
        b"\x1b\r"
    );
    assert_eq!(
        encode_key(
            TerminalKey::Char('"'),
            Modifiers {
                shift: true,
                control: true,
                ..Modifiers::default()
            },
            modes()
        )
        .unwrap(),
        b"\""
    );
    assert_eq!(
        encode_key(
            TerminalKey::Char('%'),
            Modifiers {
                shift: true,
                control: true,
                ..Modifiers::default()
            },
            modes()
        )
        .unwrap(),
        b"%"
    );
}

#[test]
fn function_keys_match_xterm_256color() {
    let expected: [&[u8]; 12] = [
        b"\x1bOP",
        b"\x1bOQ",
        b"\x1bOR",
        b"\x1bOS",
        b"\x1b[15~",
        b"\x1b[17~",
        b"\x1b[18~",
        b"\x1b[19~",
        b"\x1b[20~",
        b"\x1b[21~",
        b"\x1b[23~",
        b"\x1b[24~",
    ];
    for (index, expected) in expected.into_iter().enumerate() {
        let number = u8::try_from(index + 1).unwrap();
        assert_eq!(
            encode_key(TerminalKey::Function(number), Modifiers::default(), modes()).unwrap(),
            expected,
            "F{number}"
        );
    }
}

#[test]
fn modified_function_keys_use_xterm_modifier_parameters() {
    let shift = Modifiers {
        shift: true,
        ..Modifiers::default()
    };
    let alt = Modifiers {
        alt: true,
        ..Modifiers::default()
    };
    let control = Modifiers {
        control: true,
        ..Modifiers::default()
    };
    assert_eq!(
        encode_key(TerminalKey::Function(1), shift, modes()).unwrap(),
        b"\x1b[1;2P"
    );
    assert_eq!(
        encode_key(TerminalKey::Function(4), alt, modes()).unwrap(),
        b"\x1b[1;3S"
    );
    assert_eq!(
        encode_key(TerminalKey::Function(5), control, modes()).unwrap(),
        b"\x1b[15;5~"
    );
    assert_eq!(
        encode_key(TerminalKey::Function(0), Modifiers::default(), modes()),
        Err(InputError::UnsupportedFunction(0))
    );
    assert_eq!(
        encode_key(TerminalKey::Function(13), Modifiers::default(), modes()),
        Err(InputError::UnsupportedFunction(13))
    );
}

#[test]
fn navigation_keys_match_normal_application_and_modified_xterm_forms() {
    let normal: [(TerminalKey, &[u8]); 10] = [
        (TerminalKey::Up, b"\x1b[A"),
        (TerminalKey::Down, b"\x1b[B"),
        (TerminalKey::Right, b"\x1b[C"),
        (TerminalKey::Left, b"\x1b[D"),
        (TerminalKey::Home, b"\x1b[H"),
        (TerminalKey::End, b"\x1b[F"),
        (TerminalKey::Insert, b"\x1b[2~"),
        (TerminalKey::Delete, b"\x1b[3~"),
        (TerminalKey::PageUp, b"\x1b[5~"),
        (TerminalKey::PageDown, b"\x1b[6~"),
    ];
    for (key, expected) in normal {
        assert_eq!(
            encode_key(key, Modifiers::default(), modes()).unwrap(),
            expected
        );
    }

    let application = TerminalModes {
        application_cursor: true,
        ..modes()
    };
    assert_eq!(
        encode_key(TerminalKey::Up, Modifiers::default(), application).unwrap(),
        b"\x1bOA"
    );
    assert_eq!(
        encode_key(TerminalKey::Home, Modifiers::default(), application).unwrap(),
        b"\x1bOH"
    );
    let shift_alt_control = Modifiers {
        shift: true,
        alt: true,
        control: true,
        ..Modifiers::default()
    };
    assert_eq!(
        encode_key(TerminalKey::Right, shift_alt_control, application).unwrap(),
        b"\x1b[1;8C"
    );
    assert_eq!(
        encode_key(TerminalKey::PageDown, shift_alt_control, application).unwrap(),
        b"\x1b[6;8~"
    );
}
#[test]
fn sgr_mouse_is_checked_and_shift_overrides() {
    let mouse = TerminalModes {
        mouse_protocol: MouseProtocol::AnyEvent,
        mouse_encoding: MouseEncoding::Sgr,
        ..modes()
    };
    assert_eq!(
        encode_mouse(
            MouseButton::Left,
            ButtonState::Pressed,
            2,
            3,
            Modifiers::default(),
            mouse
        )
        .unwrap()
        .unwrap(),
        b"\x1b[<0;3;4M"
    );
    assert!(
        encode_mouse(
            MouseButton::Left,
            ButtonState::Pressed,
            2,
            3,
            Modifiers {
                shift: true,
                ..Modifiers::default()
            },
            mouse
        )
        .unwrap()
        .is_none()
    );
}
#[test]
fn bracketed_paste_is_one_normalized_transaction() {
    assert_eq!(
        paste_transaction("a\r\nb\n", true).unwrap(),
        b"\x1b[200~a\rb\r\x1b[201~"
    );
    assert_eq!(paste_transaction("bad\0", false), Err(InputError::Nul));
}

#[test]
fn alternate_scroll_uses_bounded_cursor_sequences() {
    let alternate = TerminalModes {
        alternate_screen: true,
        alternate_scroll: true,
        application_cursor: true,
        ..modes()
    };
    assert_eq!(
        encode_alternate_scroll(3, alternate).unwrap(),
        b"\x1bOA\x1bOA\x1bOA"
    );
    assert_eq!(
        encode_alternate_scroll(-20, alternate).unwrap(),
        b"\x1bOB".repeat(12)
    );
    assert!(encode_alternate_scroll(3, modes()).is_none());
    assert!(
        encode_alternate_scroll(
            3,
            TerminalModes {
                mouse_protocol: MouseProtocol::Normal,
                ..alternate
            }
        )
        .is_none()
    );
}

#[test]
fn focus_is_reported_where_asked_for() {
    let focus = TerminalModes { focus_reporting: true, ..modes() };
    assert_eq!(encode_focus(true, focus).unwrap(), b"\x1b[I");
    assert_eq!(encode_focus(false, focus).unwrap(), b"\x1b[O");
    assert_eq!(encode_focus(true, modes()), None);
}

#[test]
fn commits_are_bounded_and_hold_no_zero() {
    assert_eq!(commit_text("中").unwrap(), "中".as_bytes());
    assert_eq!(commit_text("a\0"), Err(InputError::Capacity));
    assert_eq!(commit_text(&"a".repeat(MAX_COMMIT_BYTES + 1)), Err(InputError::Capacity));
    assert_eq!(InputError::Capacity.message(), "input transaction exceeds its capacity");
}

#[test]
fn legacy_mouse_coordinates_are_bounded() {
    let mouse = TerminalModes { mouse_protocol: MouseProtocol::Normal, ..modes() };
    let press = |column| {
        encode_mouse(MouseButton::Right, ButtonState::Pressed, column, 0, Modifiers::default(), mouse)
    };
    assert_eq!(press(222).unwrap().unwrap(), vec![0x1b, b'[', b'M', 34, 255, 33]);
    assert_eq!(press(223), Err(InputError::MouseCoordinate));
}

#[test]
fn associated_text_holds_no_controls() {
    let mut event = keyboard_event(LogicalKey::Character('a'), KeyboardEventKind::Press);
    event.text = Some("\u{7f}".into());
    assert_eq!(
        encode_keyboard_event(&event, kitty_modes(8 | 16)),
        Err(InputError::AssociatedTextControl)
    );
}
