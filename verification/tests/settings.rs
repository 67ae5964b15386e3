use muxy_app::fonts::{FontMap, FontOptions};
use muxy_app::settings::{
    apply_entry, config_entry, config_value, rewrite_config, valid_family, ConfigChanges,
    ConfigEntry, EntryEffect, SettingsError,
};

fn error(context: &str, message: &str) -> SettingsError {
    SettingsError {
        context: context.into(),
        message: message.into(),
    }
}

#[test]
fn quoted_values_lose_their_quotes() {
    assert_eq!(config_value("\"Menlo\"").unwrap(), "Menlo");
    assert_eq!(config_value("Menlo").unwrap(), "Menlo");
    assert_eq!(config_value("\"\"").unwrap(), "");
    assert_eq!(config_value("").unwrap(), "");
    assert_eq!(config_value("\"open"), Err(error("value", "unterminated quote")));
    assert_eq!(config_value("\""), Err(error("value", "unterminated quote")));
}

#[test]
fn family_lists_append_and_clear() {
    let mut font = FontOptions::new();
    assert_eq!(font.read("font-family-bold", "A"), Ok(true));
    assert_eq!(font.read("font-family-bold", "B"), Ok(true));
    assert_eq!(font.bold, vec!["A".to_string(), "B".to_string()]);
    assert_eq!(font.read("font-family-bold", ""), Ok(true));
    assert!(font.bold.is_empty());
    assert_eq!(font.read("font-family-bold-italic", "C"), Ok(true));
    assert_eq!(font.bold_italic, vec!["C".to_string()]);
    assert_eq!(font.read("font-size", "13"), Ok(false));
}

#[test]
fn features_take_every_form_and_the_last_setting_wins() {
    let mut font = FontOptions::new();
    assert_eq!(
        font.read("font-feature", "-calt, liga=2 , ss01 3,+zero,\"dlig\",'cv01'"),
        Ok(true)
    );
    assert_eq!(
        font.features,
        vec![
            ("calt".to_string(), 0),
            ("liga".to_string(), 2),
            ("ss01".to_string(), 3),
            ("zero".to_string(), 1),
            ("dlig".to_string(), 1),
            ("cv01".to_string(), 1),
        ]
    );
    assert_eq!(font.read("font-feature", "liga=0"), Ok(true));
    assert_eq!(font.features.last(), Some(&("liga".to_string(), 0)));
    assert_eq!(font.features.len(), 6);
    assert_eq!(font.read("font-feature", ""), Ok(true));
    assert!(font.features.is_empty());
}

#[test]
fn bad_features_stop_at_the_first_error() {
    let mut font = FontOptions::new();
    assert_eq!(
        font.read("font-feature", "liga, toolong"),
        Err(error("font-feature", "expected a four-character OpenType tag"))
    );
    assert_eq!(font.features, vec![("liga".to_string(), 1)]);
    let mut font = FontOptions::new();
    assert_eq!(
        font.read("font-feature", "liga=x"),
        Err(error("font-feature", "invalid digit found in string"))
    );
    assert_eq!(
        font.read("font-feature", "liga=99999999999"),
        Err(error("font-feature", "number too large to fit in target type"))
    );
    assert_eq!(
        font.read("font-feature", "liga="),
        Err(error("font-feature", "cannot parse integer from empty string"))
    );
    assert_eq!(font.read("font-feature", "kern=+7"), Ok(true));
    assert_eq!(font.features, vec![("kern".to_string(), 7)]);
}

#[test]
fn codepoint_maps_read_ranges_and_single_code_points() {
    let mut font = FontOptions::new();
    assert_eq!(
        font.read("font-codepoint-map", "U+E000-U+F8FF, U+1F600 = Symbols Nerd Font"),
        Ok(true)
    );
    assert_eq!(
        font.codepoints,
        vec![
            FontMap {
                start: 0xe000,
                end: 0xf8ff,
                family: "Symbols Nerd Font".into(),
            },
            FontMap {
                start: 0x1f600,
                end: 0x1f600,
                family: "Symbols Nerd Font".into(),
            },
        ]
    );
    assert_eq!(
        font.read("font-codepoint-map", "U+41-U+5A"),
        Err(error("font-codepoint-map", "expected U+start-U+end=family"))
    );
    assert_eq!(
        font.read("font-codepoint-map", "U+41-U+5A= "),
        Err(error("font-codepoint-map", "font family is empty"))
    );
    assert_eq!(
        font.read("font-codepoint-map", "U+5A-U+41=X"),
        Err(error("font-codepoint-map", "invalid Unicode range"))
    );
    assert_eq!(
        font.read("font-codepoint-map", "U+110000=X"),
        Err(error("font-codepoint-map", "invalid Unicode range"))
    );
    assert_eq!(
        font.read("font-codepoint-map", "U+G1=X"),
        Err(error("font-codepoint-map", "invalid digit found in string"))
    );
    assert_eq!(font.codepoints.len(), 2);
    assert_eq!(font.read("font-codepoint-map", ""), Ok(true));
    assert!(font.codepoints.is_empty());
}

#[test]
fn thickening_reads_booleans_and_strengths() {
    let mut font = FontOptions::new();
    assert_eq!(font.read("font-thicken", "true"), Ok(true));
    assert!(font.thicken);
    assert_eq!(
        font.read("font-thicken", "yes"),
        Err(error("font-thicken", "provided string was not `true` or `false`"))
    );
    assert!(font.thicken);
    assert_eq!(font.read("font-thicken", ""), Ok(true));
    assert!(!font.thicken);
    assert_eq!(font.read("font-thicken-strength", "128"), Ok(true));
    assert_eq!(font.thicken_strength, 128);
    assert_eq!(
        font.read("font-thicken-strength", "256"),
        Err(error("font-thicken-strength", "number too large to fit in target type"))
    );
    assert_eq!(font.thicken_strength, 128);
    assert_eq!(font.read("font-thicken-strength", ""), Ok(true));
    assert_eq!(font.thicken_strength, 255);
}

#[test]
fn font_lines_state_every_option() {
    let mut font = FontOptions::new();
    font.italic.push("Italic Family".into());
    font.features.push(("liga".into(), 0));
    font.codepoints.push(FontMap {
        start: 0xe000,
        end: 0xf8ff,
        family: "Nerd".into(),
    });
    font.thicken = true;
    font.thicken_strength = 7;
    assert_eq!(
        font.lines(),
        vec![
            "font-family-bold =",
            "font-family-italic =",
            "font-family-italic = \"Italic Family\"",
            "font-family-bold-italic =",
            "font-feature =",
            "font-feature = liga=0",
            "font-codepoint-map =",
            "font-codepoint-map = U+E000-U+F8FF=Nerd",
            "font-thicken = true",
            "font-thicken-strength = 7",
        ]
    );
}

#[test]
fn config_lines_hold_supported_entries() {
    assert_eq!(config_entry("   ", "f:1"), Ok(None));
    assert_eq!(config_entry("# font-size = 3", "f:1"), Ok(None));
    assert_eq!(config_entry("theme = dark", "f:1"), Ok(None));
    assert_eq!(
        config_entry("  font-family = \"JetBrains Mono\"  ", "f:2"),
        Ok(Some(ConfigEntry {
            key: "font-family".into(),
            value: "JetBrains Mono".into(),
            optional: false,
        }))
    );
    assert_eq!(
        config_entry("config-file = ?\"extra.conf\"", "f:3"),
        Ok(Some(ConfigEntry {
            key: "config-file".into(),
            value: "extra.conf".into(),
            optional: true,
        }))
    );
    assert_eq!(
        config_entry("font-feature = \"liga\"", "f:4"),
        Ok(Some(ConfigEntry {
            key: "font-feature".into(),
            value: "\"liga\"".into(),
            optional: false,
        }))
    );
    assert_eq!(
        config_entry("font-thicken", "f:5"),
        Ok(Some(ConfigEntry {
            key: "font-thicken".into(),
            value: "true".into(),
            optional: false,
        }))
    );
    assert_eq!(
        config_entry("font-size", "f:6"),
        Err(error("f:6 font-size", "expected key = value"))
    );
    assert_eq!(
        config_entry("font-family = \"open", "f:7"),
        Err(error("f:7 font-family", "value: unterminated quote"))
    );
}

#[test]
fn entries_update_the_font_and_families_in_order() {
    let mut font = FontOptions::new();
    let mut families = Vec::new();
    assert_eq!(
        apply_entry(&mut font, &mut families, "font-family", "A"),
        Ok(EntryEffect::Applied)
    );
    assert_eq!(
        apply_entry(&mut font, &mut families, "font-family", "B"),
        Ok(EntryEffect::Applied)
    );
    assert_eq!(families, vec!["A".to_string(), "B".to_string()]);
    assert_eq!(
        apply_entry(&mut font, &mut families, "font-family", ""),
        Ok(EntryEffect::Applied)
    );
    assert!(families.is_empty());
    assert_eq!(
        apply_entry(&mut font, &mut families, "font-size", "14"),
        Ok(EntryEffect::FontSize)
    );
    assert_eq!(
        apply_entry(&mut font, &mut families, "adjust-cell-height", "10%"),
        Ok(EntryEffect::CellHeight)
    );
    assert_eq!(
        apply_entry(&mut font, &mut families, "adjust-cell-width", "1"),
        Ok(EntryEffect::CellWidth)
    );
    assert_eq!(
        apply_entry(&mut font, &mut families, "config-file", "x.conf"),
        Ok(EntryEffect::Include)
    );
    assert_eq!(
        apply_entry(&mut font, &mut families, "config-file", ""),
        Ok(EntryEffect::ClearIncludes)
    );
    assert_eq!(
        apply_entry(&mut font, &mut families, "font-thicken", "true"),
        Ok(EntryEffect::Applied)
    );
    assert!(font.thicken);
}

#[test]
fn saving_keeps_unrelated_lines_and_rewrites_changed_ones() {
    let source = "# mine\nfont-family = Old\ntheme = dark\nfont-size = 12\nfont-feature = liga\nconfig-file = extra.conf";
    let font = FontOptions::new();
    let families = vec!["New One".to_string()];
    let changes = ConfigChanges {
        families: true,
        size: false,
        height: true,
        font: false,
    };
    assert_eq!(
        rewrite_config(source, changes, &families, "13", "10%", &font, "0"),
        "# mine\ntheme = dark\nfont-size = 12\nfont-feature = liga\nconfig-file = extra.conf\nfont-family =\nfont-family = \"New One\"\nadjust-cell-height = 10%\n"
    );
    let all = ConfigChanges {
        families: false,
        size: true,
        height: false,
        font: true,
    };
    let saved = rewrite_config(source, all, &families, "13", "0", &font, "2");
    assert!(saved.starts_with("# mine\nfont-family = Old\ntheme = dark\nconfig-file = extra.conf\nfont-size = 13\nfont-family-bold =\n"));
    assert!(saved.ends_with("font-thicken = false\nfont-thicken-strength = 255\nadjust-cell-width = 2\n"));
    assert_eq!(
        rewrite_config("", ConfigChanges { families: false, size: true, height: false, font: false }, &families, "13", "0", &font, "0"),
        "font-size = 13\n"
    );
}

#[test]
fn family_names_must_be_savable() {
    assert!(valid_family("Menlo"));
    assert!(!valid_family(""));
    assert!(!valid_family("a\"b"));
    assert!(!valid_family("a\nb"));
    assert!(!valid_family("a\u{85}b"));
}

#[test]
fn saved_font_lines_read_back_as_the_same_font() {
    let mut font = FontOptions::new();
    font.bold.push("Bold Face".into());
    font.bold_italic.push("Slanted".into());
    font.features.push(("liga".into(), 0));
    font.features.push(("ss01".into(), 1));
    font.codepoints.push(FontMap {
        start: 0xe000,
        end: 0xf8ff,
        family: "Nerd".into(),
    });
    font.codepoints.push(FontMap {
        start: 0x41,
        end: 0x41,
        family: "Letters".into(),
    });
    font.thicken = true;
    font.thicken_strength = 9;
    let mut read = FontOptions::new();
    read.italic.push("Stale".into());
    read.features.push(("calt".into(), 1));
    read.thicken_strength = 3;
    for line in font.lines() {
        let entry = config_entry(&line, "f:1").unwrap().unwrap();
        assert_eq!(read.read(&entry.key, &entry.value), Ok(true));
    }
    assert_eq!(read, font);
}

#[test]
fn saved_families_and_other_lines_read_back() {
    let source = "# keep me\nconfig-file = ?extra.conf\ntheme = dark\nfont-family = Old\n";
    let families = vec!["JetBrains Mono".to_string(), "Menlo".to_string()];
    let changes = ConfigChanges {
        families: true,
        size: false,
        height: false,
        font: false,
    };
    let saved = rewrite_config(source, changes, &families, "13", "0", &FontOptions::new(), "0");
    assert!(saved.starts_with("# keep me\nconfig-file = ?extra.conf\ntheme = dark\n"));
    let mut font = FontOptions::new();
    let mut read = vec!["Stale".to_string()];
    for line in saved.lines() {
        if let Some(entry) = config_entry(line, "f:1").unwrap() {
            if entry.key == "config-file" {
                assert!(entry.optional);
                continue;
            }
            apply_entry(&mut font, &mut read, &entry.key, &entry.value).unwrap();
        }
    }
    assert_eq!(read, families);
    assert_eq!(font, FontOptions::new());
    assert_eq!(config_entry("# font-family = X", "f:1"), Ok(None));
    assert_eq!(config_entry("   ", "f:1"), Ok(None));
    assert_eq!(config_entry("window-width = 3", "f:1"), Ok(None));
}
