use muxy_app::input::{Keystroke, Modifiers};
use muxy_app::quick_terminal::{
    combo_from_chord, record_key, recorded_chord, Recorded, ChordModifiers, KeyCombo, QuickTerminalSettings, QuickTerminalShortcut,
};
use muxy_app::settings::SettingsError;

#[test]
fn settings_preserve_shortcut_and_enforce_original_ranges() {
    let mut settings = QuickTerminalSettings {
        shortcut: QuickTerminalShortcut::DoubleShift,
        ..Default::default()
    };
    assert!(settings.validate().is_ok());
    assert_eq!(settings.shortcut, QuickTerminalShortcut::DoubleShift);
    for width in [0, 479, 1201, u16::MAX] {
        settings.width = width;
        assert!(settings.validate().is_err());
    }
}

#[test]
fn the_first_setting_out_of_range_is_named() {
    let mut settings = QuickTerminalSettings::default();
    assert_eq!(settings.width, 720);
    assert_eq!(settings.height, 430);
    settings.height = 801;
    settings.blur = 101;
    assert_eq!(
        settings.validate(),
        Err(SettingsError {
            context: "quick_terminal.height".into(),
            message: "invalid value".into(),
        })
    );
    settings.height = 280;
    assert_eq!(
        settings.validate().unwrap_err().context,
        "quick_terminal.blur"
    );
    settings.blur = 100;
    settings.transparency = 56;
    assert_eq!(
        settings.validate().unwrap_err().context,
        "quick_terminal.transparency"
    );
    settings.transparency = 55;
    settings.shortcut = QuickTerminalShortcut::KeyCombo {
        key_combo: KeyCombo {
            key: "k".into(),
            modifiers: ChordModifiers::default(),
        },
        registration_identity: None,
    };
    assert_eq!(
        settings.validate().unwrap_err().context,
        "quick_terminal.shortcut"
    );
    settings.shortcut = QuickTerminalShortcut::KeyCombo {
        key_combo: KeyCombo {
            key: "k".into(),
            modifiers: ChordModifiers::default(),
        },
        registration_identity: Some(40),
    };
    assert!(settings.validate().is_ok());
}

#[test]
fn chords_read_their_modifiers_before_the_key() {
    assert_eq!(
        combo_from_chord("cmd-shift-k"),
        Some(KeyCombo {
            key: "k".into(),
            modifiers: ChordModifiers {
                command: true,
                shift: true,
                ..ChordModifiers::default()
            },
        })
    );
    assert_eq!(
        combo_from_chord("ctrl--"),
        Some(KeyCombo {
            key: "-".into(),
            modifiers: ChordModifiers {
                control: true,
                ..ChordModifiers::default()
            },
        })
    );
    assert_eq!(
        combo_from_chord("hyper-k"),
        Some(KeyCombo {
            key: "hyper-k".into(),
            modifiers: ChordModifiers::default(),
        })
    );
    assert_eq!(combo_from_chord("alt-"), None);
    assert_eq!(combo_from_chord(""), None);
}

#[test]
fn recorded_chords_name_modifiers_in_keymap_order_and_read_back() {
    let key = Keystroke {
        key: "k".into(),
        key_char: None,
        modifiers: Modifiers {
            control: true,
            alt: false,
            shift: true,
            platform: true,
            function: false,
        },
    };
    let chord = recorded_chord(&key);
    assert_eq!(chord, "cmd-ctrl-shift-k");
    assert_eq!(
        combo_from_chord(&chord),
        Some(KeyCombo {
            key: "k".into(),
            modifiers: ChordModifiers {
                command: true,
                control: true,
                shift: true,
                option: false,
            },
        })
    );
    let plain = Keystroke {
        key: "f5".into(),
        key_char: None,
        modifiers: Modifiers {
            function: true,
            ..Modifiers::default()
        },
    };
    assert_eq!(recorded_chord(&plain), "fn-f5");
}

#[test]
fn conflicting_combos_share_key_and_modifiers() {
    let a = combo_from_chord("cmd-k").unwrap();
    let b = combo_from_chord("cmd-k").unwrap();
    let c = combo_from_chord("cmd-shift-k").unwrap();
    assert!(a.conflicts_with(&b));
    assert!(!a.conflicts_with(&c));
}

#[test]
fn recording_a_shortcut_binds_the_next_chord_or_cancels_on_escape() {
    let press = |key: &str, shift: bool| Keystroke {
        key: key.into(),
        key_char: None,
        modifiers: Modifiers {
            shift,
            ..Modifiers::default()
        },
    };
    let mut recording = None;
    assert_eq!(record_key(&mut recording, &press("k", false)), Recorded::Ignored);
    recording = Some("new_tab".to_string());
    assert_eq!(record_key(&mut recording, &press("escape", false)), Recorded::Cancelled);
    assert_eq!(recording, None);
    recording = Some("new_tab".to_string());
    assert_eq!(
        record_key(&mut recording, &press("escape", true)),
        Recorded::Binding("new_tab".into(), "shift-escape".into())
    );
    assert_eq!(recording, None);
    recording = Some("close_tab".to_string());
    assert_eq!(
        record_key(&mut recording, &press("w", false)),
        Recorded::Binding("close_tab".into(), "w".into())
    );
}
