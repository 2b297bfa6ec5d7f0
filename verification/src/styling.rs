use vstd::prelude::*;

verus! {

/// A terminal color: one of the named colors, an RGB triple or an index into the
/// terminal's palette.
#[derive(Debug, Clone, Copy, PartialEq, Eq, Structural)]
pub enum Color {
    Reset,
    Black,
    Red,
    Green,
    Yellow,
    Blue,
    Magenta,
    Cyan,
    Gray,
    DarkGray,
    LightRed,
    LightGreen,
    LightYellow,
    LightBlue,
    LightMagenta,
    LightCyan,
    White,
    Rgb(u8, u8, u8),
    Indexed(u8),
}

/// How a cell is drawn: optional foreground, background and underline colors, and the
/// text modifiers (bold, italic, ...) to add and to remove, as bit sets.
#[derive(Debug, Clone, Copy, PartialEq, Eq, Structural)]
pub struct Style {
    pub fg: Option<Color>,
    pub bg: Option<Color>,
    pub underline_color: Option<Color>,
    pub add_modifier: u16,
    pub sub_modifier: u16,
}

/// The style that changes nothing.
pub open spec fn plain_style() -> Style {
    Style { fg: None, bg: None, underline_color: None, add_modifier: 0, sub_modifier: 0 }
}

impl Default for Style {
    fn default() -> (r: Style)
        ensures
            r == plain_style(),
    {
        Style { fg: None, bg: None, underline_color: None, add_modifier: 0, sub_modifier: 0 }
    }
}

impl Style {
    /// This style with the foreground color set to `color`.
    pub fn fg(self, color: Color) -> (r: Style)
        ensures
            r == (Style { fg: Some(color), ..self }),
    {
        Style { fg: Some(color), ..self }
    }

    /// This style with the background color set to `color`.
    pub fn bg(self, color: Color) -> (r: Style)
        ensures
            r == (Style { bg: Some(color), ..self }),
    {
        Style { bg: Some(color), ..self }
    }
}

/// The colors of the Catppuccin palette that the keyboard is drawn with (the Mocha flavor).
#[derive(Debug, Clone, Copy, PartialEq, Eq, Structural)]
pub struct Catppuccin {
    /// The darker of the two base tones, used for modifier and navigation key caps and for
    /// text and borders.
    pub mantle: Color,
    /// The darkest base tone, used for the background of ordinary key caps.
    pub crust: Color,
}

pub open spec fn mocha() -> Catppuccin {
    Catppuccin { mantle: Color::Rgb(24, 24, 37), crust: Color::Rgb(17, 17, 27) }
}

impl Catppuccin {
    pub fn new() -> (r: Catppuccin)
        ensures
            r == mocha(),
    {
        Catppuccin { mantle: Color::Rgb(24, 24, 37), crust: Color::Rgb(17, 17, 27) }
    }
}

} // verus!
