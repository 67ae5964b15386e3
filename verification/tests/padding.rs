use muxy_app::colors::{Color, Palette, Style};
use muxy_app::padding::{extend_vertical, row_extensions, Extension, Run};

fn style(bg: Color) -> Style {
    Style {
        fg: Color::Default,
        bg,
        bold: false,
        inverse: false,
    }
}

fn run(text: &str, width: u16, bg: Color) -> Run {
    Run {
        text: text.to_string(),
        width,
        style: style(bg),
    }
}

fn span(start: u16, end: u16, color: u32) -> Extension {
    Extension { start, end, color }
}

#[test]
fn colored_rows_extend_to_all_edges_and_corners_without_covering_cells() {
    let palette = Palette::new(true);
    let red = Color::Rgb(255, 0, 0);
    let blue = Color::Rgb(0, 0, 255);
    let first = vec![run("x", 1, red), run("  ", 2, blue)];
    let vertical = extend_vertical(&first, 3, &palette);
    assert!(vertical);
    assert_eq!(
        row_extensions(&first, 3, vertical, &palette),
        vec![span(0, 1, 0xff_00_00), span(1, 3, 0x00_00_ff)]
    );
    let second = vec![run("   ", 3, blue)];
    let vertical = extend_vertical(&second, 3, &palette);
    assert!(vertical);
    assert_eq!(
        row_extensions(&second, 3, vertical, &palette),
        vec![span(0, 3, 0x00_00_ff)]
    );
}

#[test]
fn default_backgrounds_missing_cells_and_powerline_disable_vertical_extension() {
    let palette = Palette::new(true);
    let [red, green, blue] = palette.terminal_colors().background;
    let background = Color::Rgb(red, green, blue);
    let red = Color::Rgb(255, 0, 0);
    for runs in [
        vec![run("x", 1, red)],
        vec![run("x", 1, red), run("  ", 2, Color::Default)],
        vec![run("x", 1, red), run("  ", 2, background)],
        vec![run("\u{e0b0}", 1, red), run("  ", 2, red)],
        vec![run("\u{e0d4}", 1, red), run("  ", 2, red)],
    ] {
        assert!(!extend_vertical(&runs, 3, &palette));
        let spans = row_extensions(&runs, 3, false, &palette);
        // The first cell still extends to the left edge; the row does not extend above or
        // below the grid.
        assert_eq!(spans[0], span(0, 1, 0xff_00_00));
    }
    assert!(extend_vertical(&[run("   ", 3, red)].to_vec(), 3, &palette));
}

#[test]
fn inverse_and_covering_blocks_use_the_visible_edge_color() {
    let palette = Palette::new(true);
    for (text, inverse, expected) in [
        ("x", false, 0x00_00_ff),
        ("x", true, 0xff_00_00),
        ("█", false, 0xff_00_00),
        ("█", true, 0x00_00_ff),
    ] {
        let runs = vec![Run {
            text: text.to_string(),
            width: 3,
            style: Style {
                fg: Color::Rgb(255, 0, 0),
                bg: Color::Rgb(0, 0, 255),
                bold: false,
                inverse,
            },
        }];
        let vertical = extend_vertical(&runs, 3, &palette);
        assert_eq!(
            row_extensions(&runs, 3, vertical, &palette),
            vec![span(0, 3, expected)]
        );
    }
}

#[test]
fn runs_without_cells_are_skipped_and_runs_past_the_grid_are_cut() {
    let palette = Palette::new(true);
    let red = Color::Rgb(255, 0, 0);
    let green = Color::Rgb(0, 255, 0);
    let runs = vec![
        run("", 0, green),
        run("ab", 2, red),
        run("cdef", 4, green),
        run("g", 1, red),
    ];
    assert!(extend_vertical(&runs, 3, &palette));
    assert_eq!(
        row_extensions(&runs, 3, true, &palette),
        vec![span(0, 2, 0xff_00_00), span(2, 3, 0x00_ff_00)]
    );
}

#[test]
fn middle_runs_extend_only_when_the_row_extends_vertically() {
    let palette = Palette::new(true);
    let red = Color::Rgb(255, 0, 0);
    let green = Color::Rgb(0, 255, 0);
    let runs = vec![run("a", 1, red), run("b", 1, green), run("c", 1, red)];
    assert_eq!(
        row_extensions(&runs, 3, false, &palette),
        vec![span(0, 1, 0xff_00_00), span(2, 3, 0xff_00_00)]
    );
    assert_eq!(
        row_extensions(&runs, 3, true, &palette),
        vec![
            span(0, 1, 0xff_00_00),
            span(1, 2, 0x00_ff_00),
            span(2, 3, 0xff_00_00)
        ]
    );
}

#[test]
fn short_rows_do_not_extend_vertically() {
    let palette = Palette::new(true);
    let red = Color::Rgb(255, 0, 0);
    assert!(!extend_vertical(&vec![run("ab", 2, red)], 3, &palette));
    assert!(!extend_vertical(&Vec::new(), 3, &palette));
}
