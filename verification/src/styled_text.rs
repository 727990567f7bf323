//! Styled fragments ready for rendering.

use vstd::prelude::*;

verus! {

/// A foreground colour, as the renderer understands it.
#[derive(Debug, Clone, Copy, PartialEq, Eq, Structural)]
pub enum Color {
    DarkGrey,
    DarkCyan,
    Yellow,
}

/// A presentation style for one piece of text.
#[derive(Debug, Clone, Copy, PartialEq, Eq, Structural)]
pub enum Style {
    Plain,
    Bold,
    Underline,
    BoldUnderline,
}

/// A piece of text with its colour and emphasis flags.
#[derive(Debug, Clone, PartialEq, Eq)]
pub struct StyledText {
    pub text: String,
    pub color: Color,
    pub bold: bool,
    pub underline: bool,
}

/// Whether a style carries bold emphasis.
pub open spec fn style_bold(style: Style) -> bool {
    style == Style::Bold || style == Style::BoldUnderline
}

/// Whether a style carries underline emphasis.
pub open spec fn style_underline(style: Style) -> bool {
    style == Style::Underline || style == Style::BoldUnderline
}

impl StyledText {
    /// Builds a styled text, splitting the style into its two emphasis
    /// flags.
    pub fn new(text: &str, color: Color, style: Style) -> (r: StyledText)
        ensures
            r.text@ == text@,
            r.color == color,
            r.bold == style_bold(style),
            r.underline == style_underline(style),
    {
        StyledText {
            text: text.to_owned(),
            color,
            bold: matches!(style, Style::Bold | Style::BoldUnderline),
            underline: matches!(style, Style::Underline | Style::BoldUnderline),
        }
    }

    /// Whether this fragment is marked as a target occurrence: it is
    /// rendered bold and underlined.
    pub fn is_match(&self) -> (r: bool)
        ensures
            r == (self.bold && self.underline),
    {
        self.bold && self.underline
    }
}

} // verus!
