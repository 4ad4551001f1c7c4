//! Colours and text styles, as the terminal renders them.

use vstd::prelude::*;

verus! {

/// A terminal colour: one of the named colours, a 24-bit colour or an entry
/// of the 256-colour palette.
#[derive(Clone, Copy, Debug, PartialEq, Eq, Structural)]
pub enum Color {
    Reset,
    Black,
    Red,
    Green,
    Yellow,
    Blue,
    Magenta,
    Cyan,
    Gray,
    DarkGray,
    LightRed,
    LightGreen,
    LightYellow,
    LightBlue,
    LightMagenta,
    LightCyan,
    White,
    Rgb(u8, u8, u8),
    Indexed(u8),
}

/// The colour with the red, green and blue bytes of `0xRRGGBB`.
pub open spec fn rgb_of(u: u32) -> Color {
    Color::Rgb(((u / 0x10000) % 0x100) as u8, ((u / 0x100) % 0x100) as u8, (u % 0x100) as u8)
}

impl Color {
    /// The colour with the red, green and blue bytes of `0xRRGGBB` (the top byte
    /// is ignored).
    pub fn from_u32(u: u32) -> (c: Color)
        ensures
            c == rgb_of(u),
    {
        let r = (u >> 16) & 0xff;
        let g = (u >> 8) & 0xff;
        let b = u & 0xff;
        assert(r == (u / 0x10000) % 0x100 && g == (u / 0x100) % 0x100 && b == u % 0x100)
            by (bit_vector)
            requires
                r == (u >> 16) & 0xff,
                g == (u >> 8) & 0xff,
                b == u & 0xff,
        ;
        Color::Rgb(r as u8, g as u8, b as u8)
    }
}

/// The style of a piece of text: its colours and modifiers. `None` keeps the
/// colour of what lies beneath.
#[derive(Clone, Copy, Debug, PartialEq, Eq, Structural)]
pub struct SpanStyle {
    pub fg: Option<Color>,
    pub bg: Option<Color>,
    pub bold: bool,
    pub italic: bool,
    pub underlined: bool,
    pub crossed_out: bool,
    pub reversed: bool,
}

/// The style that changes nothing.
pub open spec fn plain() -> SpanStyle {
    SpanStyle {
        fg: None,
        bg: None,
        bold: false,
        italic: false,
        underlined: false,
        crossed_out: false,
        reversed: false,
    }
}

/// Bold text.
pub open spec fn bold() -> SpanStyle {
    SpanStyle { bold: true, ..plain() }
}

/// Italic text.
pub open spec fn italic() -> SpanStyle {
    SpanStyle { italic: true, ..plain() }
}

/// Underlined text.
pub open spec fn underlined() -> SpanStyle {
    SpanStyle { underlined: true, ..plain() }
}

/// Crossed-out text.
pub open spec fn crossed_out() -> SpanStyle {
    SpanStyle { crossed_out: true, ..plain() }
}

/// Inline code: light green, bold and reversed.
pub open spec fn inline_code() -> SpanStyle {
    SpanStyle { fg: Some(Color::LightGreen), bold: true, reversed: true, ..plain() }
}

/// The lines of a code block: black on light green.
pub open spec fn code_block() -> SpanStyle {
    SpanStyle { fg: Some(Color::Black), bg: Some(Color::LightGreen), ..plain() }
}

/// The style that changes nothing.
pub fn plain_style() -> (s: SpanStyle)
    ensures
        s == plain(),
{
    SpanStyle {
        fg: None,
        bg: None,
        bold: false,
        italic: false,
        underlined: false,
        crossed_out: false,
        reversed: false,
    }
}

/// Bold text.
pub fn bold_style() -> (s: SpanStyle)
    ensures
        s == bold(),
{
    SpanStyle { bold: true, ..plain_style() }
}

/// Italic text.
pub fn italic_style() -> (s: SpanStyle)
    ensures
        s == italic(),
{
    SpanStyle { italic: true, ..plain_style() }
}

/// Underlined text.
pub fn underlined_style() -> (s: SpanStyle)
    ensures
        s == underlined(),
{
    SpanStyle { underlined: true, ..plain_style() }
}

/// Crossed-out text.
pub fn crossed_out_style() -> (s: SpanStyle)
    ensures
        s == crossed_out(),
{
    SpanStyle { crossed_out: true, ..plain_style() }
}

/// Inline code.
pub fn inline_code_style() -> (s: SpanStyle)
    ensures
        s == inline_code(),
{
    SpanStyle { fg: Some(Color::LightGreen), bold: true, reversed: true, ..plain_style() }
}

/// The lines of a code block.
pub fn code_block_style() -> (s: SpanStyle)
    ensures
        s == code_block(),
{
    SpanStyle { fg: Some(Color::Black), bg: Some(Color::LightGreen), ..plain_style() }
}

} // verus!
