//! Attribute flags packed into a `u16`.

use vstd::prelude::*;

verus! {

pub const BOLD: u16 = 0x1;

pub const ITALIC: u16 = 0x2;

pub const UNDERLINE: u16 = 0x4;

pub const INVERSE: u16 = 0x8;

pub const DIM: u16 = 0x10;

pub const STRIKETHROUGH: u16 = 0x20;

/// Leader cell of a double-width glyph (CJK, emoji).
pub const WIDE: u16 = 0x40;

/// The invisible cell right of a `WIDE` leader.
pub const WIDE_SPACER: u16 = 0x80;

pub const HIDDEN: u16 = 0x100;

} // verus!
