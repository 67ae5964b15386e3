//! The terminal's colour palette: the 256 indexed colours, theme and option layering,
//! and how cell styles resolve to RGB.

use vstd::prelude::*;

verus! {

broadcast use vstd::array::group_array_axioms;

/// A colour that settings may give as RGB or as the cell's own foreground or background.
#[derive(Clone, Copy, Debug, PartialEq, Eq)]
pub enum TerminalColor {
    Rgb(u32),
    CellForeground,
    CellBackground,
}

impl TerminalColor {
    /// The RGB value: the colour itself, or the cell's foreground or background.
    pub open spec fn resolved(self, foreground: u32, background: u32) -> u32 {
        match self {
            TerminalColor::Rgb(value) => value,
            TerminalColor::CellForeground => foreground,
            TerminalColor::CellBackground => background,
        }
    }

    /// The RGB value: the colour itself, or the cell's foreground or background.
    pub fn resolve(self, foreground: u32, background: u32) -> (r: u32)
        ensures
            r == self.resolved(foreground, background),
    {
        match self {
            TerminalColor::Rgb(value) => value,
            TerminalColor::CellForeground => foreground,
            TerminalColor::CellBackground => background,
        }
    }
}

/// A colour of a cell as the terminal reports it.
#[derive(Clone, Copy, Debug, PartialEq, Eq)]
pub enum Color {
    Default,
    Indexed(u8),
    Rgb(u8, u8, u8),
}

/// The parts of a cell's style that decide its colours.
#[derive(Clone, Copy, Debug, PartialEq, Eq)]
pub struct Style {
    pub fg: Color,
    pub bg: Color,
    pub bold: bool,
    pub inverse: bool,
}

/// The shape of the cursor.
#[derive(Clone, Copy, Debug, PartialEq, Eq)]
pub enum CursorShape {
    Block,
    Bar,
    Underline,
    BlockHollow,
}

/// A colour theme. Colours are packed RGBA (0xRRGGBBAA).
#[derive(Clone, Debug, PartialEq, Eq)]
pub struct ColorScheme {
    pub background: Option<u32>,
    pub foreground: Option<u32>,
    pub cursor_color: Option<SchemeColor>,
    pub cursor_text: Option<SchemeColor>,
    pub selection_foreground: Option<SchemeColor>,
    pub selection_background: Option<SchemeColor>,
    /// The theme's colour for each palette index that it sets.
    pub palette: Vec<Option<u32>>,
}

/// A theme colour: packed RGBA, or the cell's own foreground or background.
#[derive(Clone, Copy, Debug, PartialEq, Eq)]
pub enum SchemeColor {
    Rgb(u32),
    Foreground,
    Background,
}

/// Colour options of the terminal configuration, layered over the theme.
#[derive(Clone, Debug, PartialEq, Eq)]
pub struct TerminalOptions {
    pub background: Option<u32>,
    pub foreground: Option<u32>,
    pub cursor_color: Option<TerminalColor>,
    /// Palette overrides, applied in order.
    pub palette: Vec<(u8, u32)>,
    pub cursor_style: Option<CursorShape>,
    pub cursor_blink: Option<bool>,
    pub cursor_text: Option<TerminalColor>,
    pub selection_foreground: Option<TerminalColor>,
    pub selection_background: Option<TerminalColor>,
    pub bold_is_bright: bool,
}

/// The colours the server uses for a terminal.
#[derive(Clone, Debug, PartialEq, Eq)]
pub struct TerminalColors {
    pub foreground: [u8; 3],
    pub background: [u8; 3],
    pub cursor: [u8; 3],
    pub ansi: Vec<[u8; 3]>,
    pub palette: Vec<(u8, [u8; 3])>,
    pub cursor_style: Option<CursorShape>,
    pub cursor_blink: Option<bool>,
}

/// The palette a terminal is drawn with.
#[derive(Clone, Copy, Debug, PartialEq, Eq)]
pub struct Palette {
    pub background: u32,
    pub foreground: u32,
    pub cursor: u32,
    pub cursor_color: Option<TerminalColor>,
    pub colors: [u32; 256],
    pub cursor_style: Option<CursorShape>,
    pub cursor_blink: Option<bool>,
    pub cursor_text: Option<TerminalColor>,
    pub selection_foreground: Option<TerminalColor>,
    pub selection_background: Option<TerminalColor>,
    pub bold_is_bright: bool,
}

/// The intensity of a step of the 6x6x6 colour cube: 0, 95, 135, 175, 215, 255.
pub open spec fn cube_level(step: int) -> int {
    if step == 0 {
        0
    } else {
        55 + 40 * step
    }
}

/// Packs red, green and blue into 0xRRGGBB.
pub open spec fn packed(red: int, green: int, blue: int) -> int {
    red * 65536 + green * 256 + blue
}

/// The xterm colour of a palette index: the 16 given colours, the 6x6x6 cube,
/// then 24 grays from 8 in steps of 10.
pub open spec fn xterm_color(ansi: Seq<u32>, index: int) -> int {
    if index < 16 {
        ansi[index] as int
    } else if index < 232 {
        let cube = index - 16;
        packed(cube_level(cube / 36), cube_level((cube / 6) % 6), cube_level(cube % 6))
    } else {
        let level = 8 + 10 * (index - 232);
        packed(level, level, level)
    }
}

/// The 256 colours of the xterm palette with the given first 16.
pub fn default_colors(ansi: [u32; 16]) -> (colors: [u32; 256])
    ensures
        forall|i: int| 0 <= i < 256 ==> colors@[i] == xterm_color(ansi@, i),
{
    let mut colors = [0u32; 256];
    let mut index: usize = 0;
    while index < 16
        invariant
            index <= 16,
            forall|j: int| 0 <= j < index ==> colors@[j] == xterm_color(ansi@, j),
        decreases 16 - index,
    {
        colors[index] = ansi[index];
        index = index + 1;
    }
    let mut cube: u32 = 0;
    while cube < 216
        invariant
            cube <= 216,
            index == 16 + cube,
            forall|j: int| 0 <= j < index ==> colors@[j] == xterm_color(ansi@, j),
        decreases 216 - cube,
    {
        let r = cube / 36;
        let g = (cube / 6) % 6;
        let b = cube % 6;
        let r = if r == 0 { 0 } else { 55 + 40 * r };
        let g = if g == 0 { 0 } else { 55 + 40 * g };
        let b = if b == 0 { 0 } else { 55 + 40 * b };
        colors[index] = r * 65536 + g * 256 + b;
        index = index + 1;
        cube = cube + 1;
    }
    let mut level: u32 = 8;
    while index < 256
        invariant
            232 <= index <= 256,
            level == 8 + 10 * (index - 232),
            forall|j: int| 0 <= j < index ==> colors@[j] == xterm_color(ansi@, j),
        decreases 256 - index,
    {
        colors[index] = level * 65536 + level * 256 + level;
        level = level + 10;
        index = index + 1;
    }
    colors
}

/// Red, green and blue of 0xRRGGBB, dropping anything above.
pub open spec fn rgb_bytes(color: u32) -> [u8; 3] {
    [((color / 65536) % 256) as u8, ((color / 256) % 256) as u8, (color % 256) as u8]
}

/// Red, green and blue of 0xRRGGBB.
pub fn rgb(color: u32) -> (r: [u8; 3])
    ensures
        r == rgb_bytes(color),
{
    [((color / 65536) % 256) as u8, ((color / 256) % 256) as u8, (color % 256) as u8]
}

/// The dark theme's first 16 colours.
pub open spec fn dark_ansi() -> Seq<u32> {
    seq![
        0x46_40_56u32, 0xec_48_99, 0x34_d3_99, 0xe0_af_68, 0xc3_70_d3, 0x63_66_f1, 0x22_d3_ee,
        0xa9_b1_d6, 0x7c_73_93, 0xf4_72_b6, 0x6e_e7_b7, 0xfb_bf_24, 0xd9_9b_e5, 0x81_8c_f8,
        0x67_e8_f9, 0xc9_c2_d9,
    ]
}

/// The first 16 colours of the app's dark or light palette.
pub open spec fn default_ansi(dark: bool) -> Seq<u32> {
    if dark {
        dark_ansi()
    } else {
        light_ansi()
    }
}

/// The background of the app's dark or light palette.
pub open spec fn default_background(dark: bool) -> u32 {
    if dark {
        0x19_17_1f
    } else {
        0xf0_f0_f5
    }
}

/// The foreground of the app's dark or light palette.
pub open spec fn default_foreground(dark: bool) -> u32 {
    if dark {
        0xc9_c2_d9
    } else {
        0x1e_1e_2e
    }
}

/// The light theme's first 16 colours.
pub open spec fn light_ansi() -> Seq<u32> {
    seq![
        0xd5_d6_dbu32, 0xa3_2d_68, 0x1a_7a_4e, 0x9a_70_24, 0x47_96_f0, 0x7c_3a_ed, 0x0b_71_89,
        0x3b_3f_5c, 0x7a_7e_94, 0xec_48_99, 0x34_d3_99, 0xe0_af_68, 0x6b_ab_f5, 0xa7_8b_fa,
        0x22_d3_ee, 0x1e_1e_2e,
    ]
}

impl Palette {
    /// The 256 indexed colours.
    pub open spec fn table(self) -> Seq<u32> {
        self.colors@
    }

    /// Whether bold text uses the bright variant of the first 8 colours.
    pub open spec fn bright_bold(self) -> bool {
        self.bold_is_bright
    }

    /// Every colour of the palette fits in 0xRRGGBB.
    pub open spec fn is_rgb(self) -> bool {
        &&& self.background < 0x1000000
        &&& self.foreground < 0x1000000
        &&& self.cursor < 0x1000000
        &&& forall|i: int| 0 <= i < 256 ==> #[trigger] self.table()[i] < 0x1000000
    }

    /// The app's own palette for dark or light appearance.
    pub fn new(dark: bool) -> (p: Self)
        ensures
            p.background == default_background(dark),
            p.foreground == default_foreground(dark),
            p.cursor == p.foreground,
            p.cursor_color is None,
            p.cursor_style is None,
            p.cursor_blink is None,
            p.cursor_text is None,
            p.selection_foreground is None,
            p.selection_background is None,
            !p.bright_bold(),
            p.table().len() == 256,
            forall|i: int|
                0 <= i < 256 ==> p.table()[i] == xterm_color(default_ansi(dark), i),
            p.is_rgb(),
    {
        let ansi: [u32; 16] = if dark {
            [
                0x46_40_56, 0xec_48_99, 0x34_d3_99, 0xe0_af_68, 0xc3_70_d3, 0x63_66_f1, 0x22_d3_ee,
                0xa9_b1_d6, 0x7c_73_93, 0xf4_72_b6, 0x6e_e7_b7, 0xfb_bf_24, 0xd9_9b_e5, 0x81_8c_f8,
                0x67_e8_f9, 0xc9_c2_d9,
            ]
        } else {
            [
                0xd5_d6_db, 0xa3_2d_68, 0x1a_7a_4e, 0x9a_70_24, 0x47_96_f0, 0x7c_3a_ed, 0x0b_71_89,
                0x3b_3f_5c, 0x7a_7e_94, 0xec_48_99, 0x34_d3_99, 0xe0_af_68, 0x6b_ab_f5, 0xa7_8b_fa,
                0x22_d3_ee, 0x1e_1e_2e,
            ]
        };
        assert(ansi@ =~= if dark { dark_ansi() } else { light_ansi() });
        let colors = default_colors(ansi);
        let (background, foreground) = if dark {
            (0x19_17_1fu32, 0xc9_c2_d9u32)
        } else {
            (0xf0_f0_f5u32, 0x1e_1e_2eu32)
        };
        let p = Palette {
            background,
            foreground,
            cursor: foreground,
            colors,
            cursor_color: None,
            cursor_style: None,
            cursor_blink: None,
            cursor_text: None,
            selection_foreground: None,
            selection_background: None,
            bold_is_bright: false,
        };
        assert forall|i: int| 0 <= i < 256 implies #[trigger] p.table()[i] < 0x1000000 by {
            let a = if dark { dark_ansi() } else { light_ansi() };
            if i >= 16 && i < 232 {
                let cube = i - 16;
                assert(0 <= cube / 36 < 6);
                assert(0 <= (cube / 6) % 6 < 6);
                assert(0 <= cube % 6 < 6);
            }
        }
        p
    }

    /// The colour of a palette index.
    pub fn indexed(&self, index: u8) -> (r: u32)
        ensures
            r == self.table()[index as int],
    {
        self.colors[index as usize]
    }

    /// The RGB value of a cell colour; `default` stands for the default colour.
    pub open spec fn resolved(self, color: Color, default: u32) -> int {
        match color {
            Color::Default => default as int,
            Color::Indexed(index) => self.table()[index as int] as int,
            Color::Rgb(red, green, blue) => packed(red as int, green as int, blue as int),
        }
    }

    /// The RGB value of a cell colour; `default` stands for the default colour.
    pub fn resolve(&self, color: Color, default: u32) -> (r: u32)
        ensures
            r == self.resolved(color, default),
    {
        match color {
            Color::Default => default,
            Color::Indexed(index) => self.indexed(index),
            Color::Rgb(red, green, blue) => (red as u32) * 65536 + (green as u32) * 256 + (
            blue as u32),
        }
    }

    /// The foreground colour a style asks for, after bold brightening.
    pub open spec fn bold_foreground(self, style: Style) -> Color {
        match style.fg {
            Color::Indexed(index) => if index <= 7 && style.bold && self.bright_bold() {
                Color::Indexed((index + 8) as u8)
            } else {
                style.fg
            },
            _ => style.fg,
        }
    }

    /// The foreground and background of a style: bold brightens the first 8 colours when
    /// the option is on, and inverse swaps the two.
    pub open spec fn styled(self, style: Style) -> (int, int) {
        let foreground = self.resolved(self.bold_foreground(style), self.foreground);
        let background = self.resolved(style.bg, self.background);
        if style.inverse {
            (background, foreground)
        } else {
            (foreground, background)
        }
    }

    /// The foreground and background a style is drawn with.
    pub fn style(&self, style: Style) -> (r: (u32, u32))
        ensures
            (r.0 as int, r.1 as int) == self.styled(style),
    {
        let fg = match style.fg {
            Color::Indexed(index) => {
                if index <= 7 && style.bold && self.bold_is_bright {
                    Color::Indexed(index + 8)
                } else {
                    style.fg
                }
            },
            other => other,
        };
        let foreground = self.resolve(fg, self.foreground);
        let background = self.resolve(style.bg, self.background);
        if style.inverse {
            (background, foreground)
        } else {
            (foreground, background)
        }
    }

    /// The colours handed to the server: RGB bytes of the foreground, background, cursor,
    /// the first 16 colours and the indexed colours 16 to 255.
    pub fn terminal_colors(&self) -> (r: TerminalColors)
        ensures
            r.foreground == rgb_bytes(self.foreground),
            r.background == rgb_bytes(self.background),
            r.cursor == rgb_bytes(self.cursor),
            r.ansi@.len() == 16,
            forall|i: int| 0 <= i < 16 ==> r.ansi@[i] == rgb_bytes(#[trigger] self.table()[i]),
            r.palette@.len() == 240,
            forall|i: int|
                0 <= i < 240 ==> r.palette@[i] == (
                    (16 + i) as u8,
                    rgb_bytes(#[trigger] self.table()[16 + i]),
                ),
            r.cursor_style == self.cursor_style,
            r.cursor_blink == self.cursor_blink,
    {
        let mut ansi: Vec<[u8; 3]> = Vec::new();
        let mut i: usize = 0;
        while i < 16
            invariant
                i <= 16,
                self.colors@.len() == 256,
                ansi@.len() == i,
                forall|j: int| 0 <= j < i ==> ansi@[j] == rgb_bytes(#[trigger] self.table()[j]),
            decreases 16 - i,
        {
            ansi.push(rgb(self.colors[i]));
            i = i + 1;
        }
        let mut palette: Vec<(u8, [u8; 3])> = Vec::new();
        let mut index: usize = 16;
        while index < 256
            invariant
                16 <= index <= 256,
                self.colors@.len() == 256,
                palette@.len() == index - 16,
                forall|j: int|
                    0 <= j < index - 16 ==> palette@[j] == (
                        (16 + j) as u8,
                        rgb_bytes(#[trigger] self.table()[16 + j]),
                    ),
            decreases 256 - index,
        {
            palette.push((index as u8, rgb(self.colors[index])));
            index = index + 1;
        }
        TerminalColors {
            foreground: rgb(self.foreground),
            background: rgb(self.background),
            cursor: rgb(self.cursor),
            ansi,
            palette,
            cursor_style: self.cursor_style,
            cursor_blink: self.cursor_blink,
        }
    }
}

/// A theme colour as a terminal colour: RGBA becomes RGB.
pub open spec fn scheme_color(c: SchemeColor) -> TerminalColor {
    match c {
        SchemeColor::Rgb(value) => TerminalColor::Rgb(value / 256),
        SchemeColor::Foreground => TerminalColor::CellForeground,
        SchemeColor::Background => TerminalColor::CellBackground,
    }
}

/// An optional theme colour as a terminal colour.
pub open spec fn scheme_option(c: Option<SchemeColor>) -> Option<TerminalColor> {
    match c {
        Some(c) => Some(scheme_color(c)),
        None => None,
    }
}

/// The theme's colour for a palette index, if it sets one.
pub open spec fn scheme_entry(palette: Seq<Option<u32>>, index: int) -> Option<u32> {
    if 0 <= index < palette.len() {
        palette[index]
    } else {
        None
    }
}

/// The first option if it is set, else the second.
pub open spec fn or_else<T>(first: Option<T>, second: Option<T>) -> Option<T> {
    match first {
        Some(v) => Some(v),
        None => second,
    }
}

/// The colour table after the overrides, applied in order.
pub open spec fn overridden(table: Seq<u32>, overrides: Seq<(u8, u32)>) -> Seq<u32>
    decreases overrides.len(),
{
    if overrides.len() == 0 {
        table
    } else {
        overridden(table, overrides.drop_last()).update(
            overrides.last().0 as int,
            overrides.last().1,
        )
    }
}

proof fn lemma_overridden_len(table: Seq<u32>, overrides: Seq<(u8, u32)>)
    requires
        table.len() == 256,
    ensures
        overridden(table, overrides).len() == 256,
    decreases overrides.len(),
{
    if overrides.len() > 0 {
        lemma_overridden_len(table, overrides.drop_last());
    }
}

fn convert_scheme_color(c: Option<SchemeColor>) -> (r: Option<TerminalColor>)
    ensures
        r == scheme_option(c),
{
    match c {
        Some(SchemeColor::Rgb(value)) => {
            assert(value >> 8 == value / 256) by (bit_vector);
            Some(TerminalColor::Rgb(value >> 8))
        },
        Some(SchemeColor::Foreground) => Some(TerminalColor::CellForeground),
        Some(SchemeColor::Background) => Some(TerminalColor::CellBackground),
        None => None,
    }
}

impl Palette {
    /// The app's palette overlaid with a theme: the theme's background, foreground,
    /// cursor, selection and palette colours replace the app's where the theme sets them.
    /// The cursor takes the theme's cursor colour, else the foreground.
    pub fn from_scheme(scheme: &ColorScheme, dark: bool) -> (p: Self)
        ensures
            ({
                &&& p.background == (match scheme.background {
                    Some(c) => c / 256,
                    None => default_background(dark),
                })
                &&& p.foreground == (match scheme.foreground {
                    Some(c) => c / 256,
                    None => default_foreground(dark),
                })
                &&& p.cursor_color == scheme_option(scheme.cursor_color)
                &&& p.cursor == (match p.cursor_color {
                    Some(c) => c.resolved(p.foreground, p.background),
                    None => p.foreground,
                })
                &&& p.cursor_text == scheme_option(scheme.cursor_text)
                &&& p.selection_foreground == scheme_option(scheme.selection_foreground)
                &&& p.selection_background == scheme_option(scheme.selection_background)
                &&& p.cursor_style is None
                &&& p.cursor_blink is None
                &&& !p.bright_bold()
                &&& forall|i: int|
                    0 <= i < 256 ==> #[trigger] p.table()[i] == (match scheme_entry(
                        scheme.palette@,
                        i,
                    ) {
                        Some(c) => c / 256,
                        None => xterm_color(default_ansi(dark), i) as u32,
                    })
            }),
            p.is_rgb(),
    {
        let mut palette = Self::new(dark);
        let ghost base = palette;
        if let Some(color) = scheme.background {
            assert(color >> 8 == color / 256) by (bit_vector);
            palette.background = color >> 8;
        }
        if let Some(color) = scheme.foreground {
            assert(color >> 8 == color / 256) by (bit_vector);
            palette.foreground = color >> 8;
        }
        palette.cursor_color = convert_scheme_color(scheme.cursor_color);
        palette.cursor = match palette.cursor_color {
            Some(color) => color.resolve(palette.foreground, palette.background),
            None => palette.foreground,
        };
        palette.cursor_text = convert_scheme_color(scheme.cursor_text);
        palette.selection_foreground = convert_scheme_color(scheme.selection_foreground);
        palette.selection_background = convert_scheme_color(scheme.selection_background);
        let mut colors = palette.colors;
        let mut index: usize = 0;
        while index < 256
            invariant
                index <= 256,
                forall|i: int|
                    0 <= i < 256 ==> #[trigger] base.table()[i] == xterm_color(default_ansi(dark), i),
                base.colors == palette.colors,
                forall|i: int|
                    0 <= i < index ==> #[trigger] colors@[i] == (match scheme_entry(
                        scheme.palette@,
                        i,
                    ) {
                        Some(c) => c / 256,
                        None => xterm_color(default_ansi(dark), i) as u32,
                    }),
                forall|i: int| index <= i < 256 ==> #[trigger] colors@[i] == base.table()[i],
            decreases 256 - index,
        {
            if index < scheme.palette.len() {
                if let Some(color) = scheme.palette[index] {
                    assert(color >> 8 == color / 256) by (bit_vector);
                    colors[index] = color >> 8;
                }
            }
            index = index + 1;
        }
        palette.colors = colors;
        palette
    }

    /// The options layered over the palette: each colour option that is set replaces
    /// the palette's; the cursor takes the resulting cursor colour; palette overrides
    /// apply in order; cursor style, blink and bold brightening come from the options.
    pub fn with_options(self, options: &TerminalOptions) -> (p: Self)
        ensures
            p.background == (match options.background {
                Some(v) => v,
                None => self.background,
            }),
            p.foreground == (match options.foreground {
                Some(v) => v,
                None => self.foreground,
            }),
            p.cursor_color == or_else(options.cursor_color, self.cursor_color),
            p.cursor == (match p.cursor_color {
                Some(c) => c.resolved(p.foreground, p.background),
                None => self.cursor,
            }),
            p.table() == overridden(self.table(), options.palette@),
            p.cursor_style == options.cursor_style,
            p.cursor_blink == options.cursor_blink,
            p.cursor_text == or_else(options.cursor_text, self.cursor_text),
            p.selection_foreground == or_else(options.selection_foreground, self.selection_foreground),
            p.selection_background == or_else(options.selection_background, self.selection_background),
            p.bright_bold() == options.bold_is_bright,
    {
        let mut palette = self;
        if let Some(value) = options.background {
            palette.background = value;
        }
        if let Some(value) = options.foreground {
            palette.foreground = value;
        }
        palette.cursor_color = match options.cursor_color {
            Some(c) => Some(c),
            None => palette.cursor_color,
        };
        if let Some(value) = palette.cursor_color {
            palette.cursor = value.resolve(palette.foreground, palette.background);
        }
        let mut colors = palette.colors;
        let mut i: usize = 0;
        while i < options.palette.len()
            invariant
                i <= options.palette@.len(),
                colors@ == overridden(self.table(), options.palette@.take(i as int)),
            decreases options.palette@.len() - i,
        {
            let (index, color) = options.palette[i];
            colors[index as usize] = color;
            assert(options.palette@.take(i + 1).drop_last() =~= options.palette@.take(i as int));
            i = i + 1;
            assert(colors@ =~= overridden(self.table(), options.palette@.take(i as int)));
        }
        assert(options.palette@.take(options.palette@.len() as int) =~= options.palette@);
        palette.colors = colors;
        palette.cursor_style = options.cursor_style;
        palette.cursor_blink = options.cursor_blink;
        palette.cursor_text = match options.cursor_text {
            Some(c) => Some(c),
            None => palette.cursor_text,
        };
        palette.selection_foreground = match options.selection_foreground {
            Some(c) => Some(c),
            None => palette.selection_foreground,
        };
        palette.selection_background = match options.selection_background {
            Some(c) => Some(c),
            None => palette.selection_background,
        };
        palette.bold_is_bright = options.bold_is_bright;
        palette
    }
}

/// The value 0xRRGGBB of red, green and blue bytes.
pub open spec fn unpacked(bytes: [u8; 3]) -> int {
    packed(bytes[0] as int, bytes[1] as int, bytes[2] as int)
}

/// A colour that fits in 0xRRGGBB survives being split into its bytes.
pub proof fn lemma_rgb_bytes_unpack(color: u32)
    requires
        color < 0x1000000,
    ensures
        unpacked(rgb_bytes(color)) == color,
{
    let r = (color / 65536) % 256;
    let g = (color / 256) % 256;
    let b = color % 256;
    assert(r * 65536 + g * 256 + b == color) by (nonlinear_arith)
        requires
            color < 0x1000000,
            r == (color / 65536) % 256,
            g == (color / 256) % 256,
            b == color % 256,
    ;
}

/// The colours handed to the server are the palette's own: where every colour of the palette
/// fits in 0xRRGGBB, the bytes of its foreground, background, cursor and indexed colours give
/// those colours back.
pub proof fn lemma_server_colors_match_palette(p: Palette)
    requires
        p.is_rgb(),
    ensures
        unpacked(rgb_bytes(p.foreground)) == p.foreground,
        unpacked(rgb_bytes(p.background)) == p.background,
        unpacked(rgb_bytes(p.cursor)) == p.cursor,
        forall|i: int| 0 <= i < 256 ==> unpacked(rgb_bytes(#[trigger] p.table()[i])) == p.table()[i],
{
    lemma_rgb_bytes_unpack(p.foreground);
    lemma_rgb_bytes_unpack(p.background);
    lemma_rgb_bytes_unpack(p.cursor);
    assert forall|i: int| 0 <= i < 256 implies unpacked(rgb_bytes(#[trigger] p.table()[i]))
        == p.table()[i] by {
        lemma_rgb_bytes_unpack(p.table()[i]);
    }
}

/// An indexed text colour is drawn as that index's own colour of the palette, except that bold
/// text of one of the first 8 colours is drawn in its bright variant (the index 8 higher) where
/// the palette brightens bold text: plain text is never brightened. Inverse draws the text
/// colour as the background instead.
pub proof fn lemma_only_bold_text_is_brightened(p: Palette, style: Style, index: u8)
    requires
        style.fg == Color::Indexed(index),
    ensures
        ({
            let drawn = if style.bold && p.bold_is_bright && index <= 7 {
                p.colors@[index + 8] as int
            } else {
                p.colors@[index as int] as int
            };
            &&& !style.inverse ==> p.styled(style).0 == drawn
            &&& style.inverse ==> p.styled(style).1 == drawn
            &&& !style.bold ==> (if style.inverse { p.styled(style).1 } else { p.styled(style).0 })
                == p.colors@[index as int] as int
        }),
{
}

/// The xterm palette beyond the first 16 colours: the cube's steps are 0, 95, 135, 175, 215
/// and 255, so index 16 is black, 21 blue, 46 green, 196 red and 231 white; the grays run
/// from 0x080808 at 232 to 0xeeeeee at 255.
pub proof fn lemma_xterm_cube_and_grays(ansi: Seq<u32>)
    ensures
        cube_level(0) == 0 && cube_level(1) == 95 && cube_level(2) == 135,
        cube_level(3) == 175 && cube_level(4) == 215 && cube_level(5) == 255,
        xterm_color(ansi, 16) == 0x000000,
        xterm_color(ansi, 21) == 0x0000ff,
        xterm_color(ansi, 46) == 0x00ff00,
        xterm_color(ansi, 196) == 0xff0000,
        xterm_color(ansi, 231) == 0xffffff,
        xterm_color(ansi, 232) == 0x080808,
        xterm_color(ansi, 255) == 0xeeeeee,
{
}

} // verus!
