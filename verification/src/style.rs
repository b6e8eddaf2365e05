//! Terminal text styles: colors, modifier bits and styled runs of text.

use vstd::prelude::*;

verus! {

/// A terminal color.
#[derive(Debug, Clone, Copy, PartialEq, Eq, Structural)]
pub enum Color {
    Reset,
    Black,
    Red,
    Green,
    Yellow,
    Blue,
    Magenta,
    Cyan,
    Gray,
    DarkGray,
    LightRed,
    LightGreen,
    LightYellow,
    LightBlue,
    LightMagenta,
    LightCyan,
    White,
    Rgb(u8, u8, u8),
    Indexed(u8),
}

/// Modifier bits.
pub const BOLD: u16 = 0x0001;
pub const DIM: u16 = 0x0002;
pub const ITALIC: u16 = 0x0004;
pub const UNDERLINED: u16 = 0x0008;
pub const SLOW_BLINK: u16 = 0x0010;
pub const RAPID_BLINK: u16 = 0x0020;
pub const REVERSED: u16 = 0x0040;
pub const HIDDEN: u16 = 0x0080;
pub const CROSSED_OUT: u16 = 0x0100;

/// A style: optional colors, plus modifiers to add and to remove when it is
/// laid over another style.
#[derive(Debug, Clone, Copy, PartialEq, Eq, Structural)]
pub struct Style {
    pub fg: Option<Color>,
    pub bg: Option<Color>,
    pub add_modifier: u16,
    pub sub_modifier: u16,
}

/// The empty style: no colors, no modifiers.
pub open spec fn spec_default_style() -> Style {
    Style { fg: None, bg: None, add_modifier: 0, sub_modifier: 0 }
}

impl Style {
    /// The empty style.
    pub fn new() -> (s: Style)
        ensures
            s == spec_default_style(),
    {
        Style { fg: None, bg: None, add_modifier: 0, sub_modifier: 0 }
    }

    pub open spec fn spec_fg(self, c: Color) -> Style {
        Style { fg: Some(c), ..self }
    }

    pub open spec fn spec_bg(self, c: Color) -> Style {
        Style { bg: Some(c), ..self }
    }

    pub open spec fn spec_add_modifier(self, m: u16) -> Style {
        Style { add_modifier: self.add_modifier | m, sub_modifier: self.sub_modifier & !m, ..self }
    }

    pub open spec fn spec_remove_modifier(self, m: u16) -> Style {
        Style { add_modifier: self.add_modifier & !m, sub_modifier: self.sub_modifier | m, ..self }
    }

    /// Sets the foreground color.
    pub fn fg(self, c: Color) -> (s: Style)
        ensures
            s == self.spec_fg(c),
    {
        Style { fg: Some(c), ..self }
    }

    /// Sets the background color.
    pub fn bg(self, c: Color) -> (s: Style)
        ensures
            s == self.spec_bg(c),
    {
        Style { bg: Some(c), ..self }
    }

    /// Adds modifiers (and stops removing them).
    pub fn add_modifier(self, m: u16) -> (s: Style)
        ensures
            s == self.spec_add_modifier(m),
    {
        Style { add_modifier: self.add_modifier | m, sub_modifier: self.sub_modifier & !m, ..self }
    }

    /// Removes modifiers (and stops adding them).
    pub fn remove_modifier(self, m: u16) -> (s: Style)
        ensures
            s == self.spec_remove_modifier(m),
    {
        Style { add_modifier: self.add_modifier & !m, sub_modifier: self.sub_modifier | m, ..self }
    }
}

/// A run of text drawn with one style.
#[derive(Debug, Clone)]
pub struct StyledSpan {
    pub content: String,
    pub style: Style,
}

} // verus!
