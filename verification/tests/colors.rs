use muxy_app::colors::{
    default_colors, rgb, ColorScheme, Palette, SchemeColor, TerminalColor, TerminalOptions,
};

fn blank_scheme() -> ColorScheme {
    ColorScheme {
        background: None,
        foreground: None,
        cursor_color: None,
        cursor_text: None,
        selection_foreground: None,
        selection_background: None,
        palette: vec![None; 256],
    }
}

fn options() -> TerminalOptions {
    TerminalOptions {
        background: None,
        foreground: None,
        cursor_color: None,
        palette: Vec::new(),
        cursor_style: None,
        cursor_blink: None,
        cursor_text: None,
        selection_foreground: None,
        selection_background: None,
        bold_is_bright: false,
    }
}

#[test]
fn theme_selection_and_cursor_colors_survive_config_layering() {
    let scheme = ColorScheme {
        background: Some(0x12_34_56_ff),
        foreground: Some(0xab_cd_ef_ff),
        cursor_text: Some(SchemeColor::Background),
        selection_background: Some(SchemeColor::Rgb(0x65_43_21_ff)),
        selection_foreground: Some(SchemeColor::Rgb(0xfe_dc_ba_ff)),
        ..blank_scheme()
    };
    let mut options = options();
    let palette = Palette::from_scheme(&scheme, true).with_options(&options);
    assert_eq!(
        palette.selection_background,
        Some(TerminalColor::Rgb(0x65_43_21))
    );
    assert_eq!(palette.cursor_text, Some(TerminalColor::CellBackground));
    options.selection_background = Some(TerminalColor::CellForeground);
    let palette = Palette::from_scheme(&scheme, true).with_options(&options);
    assert_eq!(
        palette.selection_background,
        Some(TerminalColor::CellForeground)
    );
    assert_eq!(
        palette.selection_foreground,
        Some(TerminalColor::Rgb(0xfe_dc_ba))
    );
}

#[test]
fn indexed_colors_cover_the_cube_and_grayscale_boundaries() {
    for dark in [false, true] {
        let palette = Palette::new(dark);
        for (index, rgb) in [
            (16, 0x00_00_00),
            (17, 0x00_00_5f),
            (21, 0x00_00_ff),
            (46, 0x00_ff_00),
            (196, 0xff_00_00),
            (231, 0xff_ff_ff),
            (232, 0x08_08_08),
            (255, 0xee_ee_ee),
        ] {
            assert_eq!(palette.indexed(index), rgb);
        }
    }
}

#[test]
fn cursor_color_comes_from_the_selected_theme() {
    let mut palette_entries = vec![None; 256];
    palette_entries[4] = Some(0x78_9a_bc_ff);
    let scheme = ColorScheme {
        foreground: Some(0x12_34_56_ff),
        cursor_color: Some(SchemeColor::Rgb(0xab_cd_ef_ff)),
        palette: palette_entries,
        ..blank_scheme()
    };
    let palette = Palette::from_scheme(&scheme, true);
    assert_eq!(palette.cursor, 0xab_cd_ef);
    assert_ne!(palette.cursor, palette.indexed(4));
    let plain = ColorScheme {
        background: Some(0x12_34_56_ff),
        foreground: Some(0xab_cd_ef_ff),
        ..blank_scheme()
    };
    assert_eq!(Palette::from_scheme(&plain, true).cursor, 0xab_cd_ef);
}

#[test]
fn server_colors_match_the_selected_render_palette() {
    let mut palette_entries = vec![None; 256];
    palette_entries[6] = Some(0xfe_dc_ba_ff);
    let scheme = ColorScheme {
        background: Some(0x12_34_56_ff),
        foreground: Some(0xab_cd_ef_ff),
        cursor_color: Some(SchemeColor::Rgb(0x78_9a_bc_ff)),
        palette: palette_entries,
        ..blank_scheme()
    };
    for palette in [
        Palette::new(true),
        Palette::new(false),
        Palette::from_scheme(&scheme, true),
    ] {
        let colors = palette.terminal_colors();
        let packed = |[r, g, b]: [u8; 3]| u32::from_be_bytes([0, r, g, b]);
        assert_eq!(packed(colors.foreground), palette.foreground);
        assert_eq!(packed(colors.background), palette.background);
        assert_eq!(packed(colors.cursor), palette.cursor);
        for (index, color) in (0_u8..16).zip(colors.ansi) {
            assert_eq!(packed(color), palette.indexed(index));
        }
    }
}

#[test]
fn palette_overrides_apply_in_order_and_the_cursor_follows_the_foreground() {
    let mut options = options();
    options.palette = vec![(1, 0x11_11_11), (1, 0x22_22_22), (200, 0x33_33_33)];
    options.foreground = Some(0x44_44_44);
    options.cursor_color = Some(TerminalColor::CellForeground);
    options.bold_is_bright = true;
    let palette = Palette::new(true).with_options(&options);
    assert_eq!(palette.indexed(1), 0x22_22_22);
    assert_eq!(palette.indexed(200), 0x33_33_33);
    assert_eq!(palette.cursor, 0x44_44_44);
    assert!(palette.bold_is_bright);
}

#[test]
fn default_colors_keep_the_first_sixteen_and_split_rgb() {
    let mut ansi = [0u32; 16];
    for (index, color) in ansi.iter_mut().enumerate() {
        *color = index as u32 * 0x01_01_01;
    }
    let colors = default_colors(ansi);
    assert_eq!(colors[15], 0x0f_0f_0f);
    assert_eq!(colors[16], 0);
    assert_eq!(colors[59], 0x5f_5f_5f);
    assert_eq!(rgb(0x12_34_56), [0x12, 0x34, 0x56]);
}
