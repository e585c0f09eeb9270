//! Terminal colours and the style of a run of text.
use vstd::prelude::*;

verus! {

/// The sixteen terminal colours.
#[derive(Copy, Clone, Debug, PartialEq, Eq, Structural)]
pub enum Color {
    Black,
    Blue,
    Green,
    Cyan,
    Red,
    Magenta,
    Yellow,
    White,
    BrightBlack,
    BrightBlue,
    BrightGreen,
    BrightCyan,
    BrightRed,
    BrightMagenta,
    BrightYellow,
    BrightWhite,
}

/// The style of a run of text: weight, underline, and the two colours.
#[derive(Copy, Clone, Debug, PartialEq, Eq, Structural)]
pub struct ColorPair {
    pub bold: bool,
    pub underline: bool,
    pub fg: Color,
    pub bg: Color,
}

/// The background used when none is given.
pub open spec fn default_bg() -> Color {
    Color::Black
}

impl ColorPair {
    /// A style with the given weight and colours, not underlined; the
    /// background is black unless one is given.
    pub fn new(bold: bool, fg: Color, bg: Option<Color>) -> (r: ColorPair)
        ensures
            r == (ColorPair {
                bold,
                underline: false,
                fg,
                bg: match bg {
                    Some(c) => c,
                    None => default_bg(),
                },
            }),
    {
        ColorPair {
            bold,
            underline: false,
            fg,
            bg: match bg {
                Some(c) => c,
                None => Color::Black,
            },
        }
    }

    /// Toggles the weight and returns the new style.
    pub fn bold(&mut self) -> (r: ColorPair)
        ensures
            *final(self) == (ColorPair { bold: !old(self).bold, ..*old(self) }),
            r == *final(self),
    {
        self.bold = !self.bold;
        *self
    }
}

impl Color {
    /// The bold style in this colour on the default background.
    pub fn bold(self) -> (r: ColorPair)
        ensures
            r == (ColorPair { bold: true, underline: false, fg: self, bg: default_bg() }),
    {
        let mut color = ColorPair::new(false, self, None);
        color.bold()
    }
}

} // verus!
