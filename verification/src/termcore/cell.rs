use vstd::prelude::*;

verus! {

/// An RGB colour.
#[derive(Clone, Copy, Debug, PartialEq, Eq, Structural)]
pub struct Color {
    pub r: u8,
    pub g: u8,
    pub b: u8,
}

impl Color {
    /// Builds a colour from its three components.
    pub fn new(r: u8, g: u8, b: u8) -> (c: Color)
        ensures
            c == (Color { r, g, b }),
    {
        Color { r, g, b }
    }

    /// The colour white, as a value for contracts.
    pub open spec fn white_spec() -> Color {
        Color { r: 255, g: 255, b: 255 }
    }

    /// The colour white.
    pub fn white() -> (c: Color)
        ensures
            c == Color::white_spec(),
    {
        Color { r: 255, g: 255, b: 255 }
    }

    /// The colour black, as a value for contracts.
    pub open spec fn black_spec() -> Color {
        Color { r: 0, g: 0, b: 0 }
    }
}

/// How the text of a cell is underlined.
#[derive(Clone, Copy, Debug, PartialEq, Eq, Structural)]
pub enum UnderlineStyle {
    Off,
    Single,
    Double,
    Curly,
    Dotted,
    Dashed,
}

/// The rendition attributes that apply to one cell.
#[derive(Clone, Copy, Debug, PartialEq, Eq, Structural)]
pub struct CellStyle {
    pub fg: Color,
    pub bg: Color,
    pub bold: bool,
    pub dim: bool,
    pub italic: bool,
    pub underline: UnderlineStyle,
    pub blink: bool,
    pub inverse: bool,
    pub hidden: bool,
    pub strikethrough: bool,
}

impl CellStyle {
    /// The style a fresh terminal writes with: white on black, no attributes.
    pub open spec fn default_spec() -> CellStyle {
        CellStyle {
            fg: Color::white_spec(),
            bg: Color::black_spec(),
            bold: false,
            dim: false,
            italic: false,
            underline: UnderlineStyle::Off,
            blink: false,
            inverse: false,
            hidden: false,
            strikethrough: false,
        }
    }
}

impl Default for CellStyle {
    fn default() -> (s: CellStyle)
        ensures
            s == CellStyle::default_spec(),
    {
        CellStyle {
            fg: Color::white(),
            bg: Color::new(0, 0, 0),
            bold: false,
            dim: false,
            italic: false,
            underline: UnderlineStyle::Off,
            blink: false,
            inverse: false,
            hidden: false,
            strikethrough: false,
        }
    }
}

/// One character cell of the screen.
#[derive(Clone, Copy, Debug, PartialEq, Eq, Structural)]
pub struct Cell {
    pub ch: char,
    pub style: CellStyle,
}

impl Cell {
    /// A blank cell: a space in the default style.
    pub open spec fn blank() -> Cell {
        Cell { ch: ' ', style: CellStyle::default_spec() }
    }
}

impl Default for Cell {
    fn default() -> (c: Cell)
        ensures
            c == Cell::blank(),
    {
        Cell { ch: ' ', style: CellStyle::default() }
    }
}

} // verus!
