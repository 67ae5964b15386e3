use muxy_app::input::{encode, uses_text_input, Keystroke, Modes, Modifiers};

/// A key press written as a chord such as `ctrl-alt-a`, with no typed text.
fn chord(text: &str) -> Keystroke {
    let mut modifiers = Modifiers::default();
    let mut rest = text;
    loop {
        let Some((name, tail)) = rest.split_once('-') else {
            break;
        };
        if tail.is_empty() {
            break;
        }
        match name {
            "ctrl" => modifiers.control = true,
            "alt" => modifiers.alt = true,
            "shift" => modifiers.shift = true,
            "cmd" => modifiers.platform = true,
            "fn" => modifiers.function = true,
            _ => break,
        }
        rest = tail;
    }
    Keystroke {
        key: rest.to_owned(),
        key_char: None,
        modifiers,
    }
}

fn expected_cursor(
    macos: bool,
    application_cursor_keys: bool,
    modifier: u32,
    key: &str,
    suffix: char,
) -> String {
    if macos && modifier == 3 && matches!(key, "left" | "right") {
        if key == "left" {
            "\x1bb".into()
        } else {
            "\x1bf".into()
        }
    } else if modifier != 1 {
        format!("\x1b[1;{modifier}{suffix}")
    } else if key.starts_with('f') || application_cursor_keys {
        format!("\x1bO{suffix}")
    } else {
        format!("\x1b[{suffix}")
    }
}

fn check_every_modifier_combination(macos: bool) {
    for application_cursor_keys in [false, true] {
        let modes = Modes {
            application_cursor_keys,
            ..Modes::default()
        };
        for (prefix, modifier) in [
            ("", 1),
            ("shift-", 2),
            ("alt-", 3),
            ("alt-shift-", 4),
            ("ctrl-", 5),
            ("ctrl-shift-", 6),
            ("ctrl-alt-", 7),
            ("ctrl-alt-shift-", 8),
        ] {
            for (key, suffix) in [
                ("up", 'A'),
                ("down", 'B'),
                ("right", 'C'),
                ("left", 'D'),
                ("home", 'H'),
                ("end", 'F'),
                ("f1", 'P'),
                ("f4", 'S'),
            ] {
                let expected =
                    expected_cursor(macos, application_cursor_keys, modifier, key, suffix);
                assert_eq!(
                    encode(&chord(&format!("{prefix}{key}")), modes, true, macos),
                    Some(expected.into_bytes())
                );
            }
            for (key, number) in [
                ("insert", 2),
                ("delete", 3),
                ("pageup", 5),
                ("pagedown", 6),
                ("f5", 15),
                ("f12", 24),
                ("f20", 34),
            ] {
                let expected = if modifier == 1 {
                    format!("\x1b[{number}~")
                } else {
                    format!("\x1b[{number};{modifier}~")
                };
                assert_eq!(
                    encode(&chord(&format!("{prefix}{key}")), modes, true, macos),
                    Some(expected.into_bytes())
                );
            }
        }
    }
}

#[test]
fn cursor_and_function_keys_preserve_every_modifier_combination() {
    check_every_modifier_combination(false);
}

#[test]
fn option_arrows_move_by_word_on_macos() {
    check_every_modifier_combination(true);
}

#[test]
fn option_text_and_control_keys() {
    for (text, character, expected) in [
        ("alt-b", "∫", "\x1bb"),
        ("alt-shift-b", "ı", "\x1bB"),
        ("alt-.", "≥", "\x1b."),
        ("alt-~", "˘", "\x1b~"),
    ] {
        let mut key = chord(text);
        key.key_char = Some(character.into());
        assert_eq!(
            encode(&key, Modes::default(), true, false),
            Some(expected.as_bytes().to_vec())
        );
        assert_eq!(
            encode(&key, Modes::default(), false, false),
            Some(character.as_bytes().to_vec())
        );
        assert!(!uses_text_input(&key, true));
        assert!(uses_text_input(&key, false));
    }
    for (text, expected) in [
        ("ctrl-a", "\x01"),
        ("ctrl-space", "\0"),
        ("ctrl-backspace", "\x08"),
        ("alt-backspace", "\x1b\x7f"),
        ("ctrl-alt-a", "\x1b\x01"),
        ("alt-space", "\x1b "),
        ("shift-tab", "\x1b[Z"),
    ] {
        for option_as_alt in [false, true] {
            assert_eq!(
                encode(&chord(text), Modes::default(), option_as_alt, false),
                Some(expected.as_bytes().to_vec())
            );
        }
    }
    assert_eq!(encode(&chord("cmd-c"), Modes::default(), true, false), None);
    let text = Keystroke {
        key: "a".into(),
        key_char: Some("é".into()),
        modifiers: Modifiers::default(),
    };
    assert!(uses_text_input(&text, true));
}
