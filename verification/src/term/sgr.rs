//! Select graphic rendition: the pen's colors and attributes.

use vstd::prelude::*;
use vstd::slice::slice_subrange;

use super::Term;
#[allow(unused_imports)]
use super::model::{component, extended_color, sgr_all, sgr_one};
use crate::cell::{flags, Cell, Color};

verus! {

/// A color component: 255 at most.
fn color_component(v: u16) -> (c: u8)
    ensures
        c == component(v),
{
    if v <= 255 {
        v as u8
    } else {
        255
    }
}

/// The color behind an SGR 38 or 48, and how many parameters it takes up.
fn parse_extended_color(rest: &[u16]) -> (r: (Option<Color>, usize))
    ensures
        r.0 == extended_color(rest@).0,
        r.1 == extended_color(rest@).1,
        r.1 <= rest@.len(),
{
    if rest.len() >= 2 && rest[0] == 5 {
        (Some(Color::Indexed(color_component(rest[1]))), 2)
    } else if rest.len() >= 4 && rest[0] == 2 {
        (
            Some(
                Color::Rgb(
                    color_component(rest[1]),
                    color_component(rest[2]),
                    color_component(rest[3]),
                ),
            ),
            4,
        )
    } else {
        (None, rest.len())
    }
}

/// The pen after one parameter that takes no others.
fn apply_sgr(pen: Cell, p: u16) -> (r: Cell)
    ensures
        r == sgr_one(pen, p),
{
    match p {
        0 => Cell { fg: Color::Default, bg: Color::Default, flags: 0, ..pen },
        1 => Cell { flags: pen.flags | flags::BOLD, ..pen },
        2 => Cell { flags: pen.flags | flags::DIM, ..pen },
        3 => Cell { flags: pen.flags | flags::ITALIC, ..pen },
        4 => Cell { flags: pen.flags | flags::UNDERLINE, ..pen },
        7 => Cell { flags: pen.flags | flags::INVERSE, ..pen },
        8 => Cell { flags: pen.flags | flags::HIDDEN, ..pen },
        9 => Cell { flags: pen.flags | flags::STRIKETHROUGH, ..pen },
        21 | 22 => Cell { flags: pen.flags & !(flags::BOLD | flags::DIM), ..pen },
        23 => Cell { flags: pen.flags & !flags::ITALIC, ..pen },
        24 => Cell { flags: pen.flags & !flags::UNDERLINE, ..pen },
        27 => Cell { flags: pen.flags & !flags::INVERSE, ..pen },
        28 => Cell { flags: pen.flags & !flags::HIDDEN, ..pen },
        29 => Cell { flags: pen.flags & !flags::STRIKETHROUGH, ..pen },
        30..=37 => Cell { fg: Color::Indexed((p - 30) as u8), ..pen },
        39 => Cell { fg: Color::Default, ..pen },
        40..=47 => Cell { bg: Color::Indexed((p - 40) as u8), ..pen },
        49 => Cell { bg: Color::Default, ..pen },
        90..=97 => Cell { fg: Color::Indexed((p - 90 + 8) as u8), ..pen },
        100..=107 => Cell { bg: Color::Indexed((p - 100 + 8) as u8), ..pen },
        _ => pen,
    }
}

/// The pen after all the parameters.
fn apply_sgr_all(pen: Cell, params: &[u16]) -> (r: Cell)
    ensures
        r == sgr_all(pen, params@),
{
    let mut cell = pen;
    let mut i: usize = 0;
    assert(params@.skip(0) =~= params@);
    while i < params.len()
        invariant
            i <= params@.len(),
            sgr_all(cell, params@.skip(i as int)) == sgr_all(pen, params@),
        decreases params@.len() - i,
    {
        let p = params[i];
        let ghost rest = params@.skip(i as int);
        if p == 38 || p == 48 {
            let tail = slice_subrange(params, i + 1, params.len());
            assert(tail@ =~= rest.skip(1));
            let (color, used) = parse_extended_color(tail);
            if let Some(c) = color {
                if p == 38 {
                    cell.fg = c;
                } else {
                    cell.bg = c;
                }
            }
            assert(rest.skip(1 + used) =~= params@.skip(i + 1 + used));
            i = i + 1 + used;
        } else {
            cell = apply_sgr(cell, p);
            assert(rest.skip(1) =~= params@.skip(i + 1));
            i = i + 1;
        }
    }
    assert(params@.skip(i as int) =~= Seq::empty());
    cell
}

impl Term {
    pub(crate) fn sgr(&mut self, params: &[u16])
        requires
            old(self)@.wf(),
        ensures
            final(self)@ == old(self)@.styled(params@),
            final(self)@.wf(),
    {
        if params.len() == 0 {
            let reset: [u16; 1] = [0];
            assert(reset@ =~= seq![0u16]);
            self.pen = apply_sgr_all(self.pen, &reset);
        } else {
            self.pen = apply_sgr_all(self.pen, params);
        }
    }
}

} // verus!
