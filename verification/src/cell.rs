//! A single character cell: glyph, colors, attribute flags.

use vstd::prelude::*;

pub mod flags;

verus! {

#[derive(Clone, Copy, PartialEq, Eq, Debug, Structural)]
pub enum Color {
    /// Use the theme's default fg/bg.
    Default,
    /// One of the 256 indexed colors (0-15 themed, rest computed).
    Indexed(u8),
    Rgb(u8, u8, u8),
}

#[derive(Clone, Copy, PartialEq, Eq, Debug, Structural)]
pub struct Cell {
    pub ch: char,
    pub fg: Color,
    pub bg: Color,
    pub flags: u16,
}

/// A space in the default colors, with no attribute set.
pub open spec fn default_cell() -> Cell {
    Cell { ch: ' ', fg: Color::Default, bg: Color::Default, flags: 0 }
}

/// A space on the background `bg`, with no attribute set.
pub open spec fn blank_cell(bg: Color) -> Cell {
    Cell { bg, ..default_cell() }
}

impl Default for Cell {
    fn default() -> (cell: Self)
        ensures
            cell == default_cell(),
    {
        Cell { ch: ' ', fg: Color::Default, bg: Color::Default, flags: 0 }
    }
}

impl Cell {
    /// A blank cell that keeps the current background (used when clearing).
    pub fn blank_with_bg(bg: Color) -> (cell: Self)
        ensures
            cell == blank_cell(bg),
    {
        Cell { ch: ' ', fg: Color::Default, bg, flags: 0 }
    }
}

} // verus!
