//! What a frame shows: for every cell its background, its glyph and its line,
//! in the colors that they have. Where on the surface that lands is the
//! renderer's.

use vstd::prelude::*;

use crate::cell::{flags, Cell, Color};
use crate::config::Rgb;
use crate::grid::at_most;
#[allow(unused_imports)]
use crate::grid::{lemma_line_fits, min};
use crate::palette::{Palette, Shade};
#[allow(unused_imports)]
use crate::palette::PaletteState;
use crate::selection::Selection;
#[allow(unused_imports)]
use crate::selection::selected;
use crate::term::Term;
#[allow(unused_imports)]
use crate::term::model::TermState;

pub mod laws;

verus! {

pub struct FrameInput<'a> {
    pub term: &'a Term,
    pub view_offset: usize,
    pub selection: Option<Selection>,
    pub focused: bool,
}

/// What a frame shows, as a mathematical value.
pub struct FrameState {
    pub term: TermState,
    pub view_offset: int,
    pub selection: Option<Selection>,
    pub focused: bool,
}

impl<'a> View for FrameInput<'a> {
    type V = FrameState;

    open spec fn view(&self) -> FrameState {
        FrameState {
            term: self.term@,
            view_offset: self.view_offset as int,
            selection: self.selection,
            focused: self.focused,
        }
    }
}

/// A line through or under a glyph.
#[derive(Clone, Copy, PartialEq, Eq, Debug, Structural)]
pub enum LineMark {
    Underline,
    Strikethrough,
}

/// How one cell is drawn.
#[derive(Clone, Copy, PartialEq, Eq, Debug)]
pub struct CellDraw {
    pub row: usize,
    pub col: usize,
    /// Whether it is two columns wide.
    pub wide: bool,
    /// The background, where it is not that of the screen.
    pub fill: Option<Shade>,
    /// Whether the cursor of an unfocused window stands here, drawn as a bar.
    pub bar: bool,
    /// The glyph, where there is one.
    pub glyph: Option<char>,
    pub line: Option<LineMark>,
    /// The color of glyph and line.
    pub ink: Shade,
}

/// A color at full strength.
pub open spec fn full(color: Rgb) -> Shade {
    Shade { color, dim: false }
}

/// Whether two shades look the same: dimmed or not, black is black.
pub open spec fn looks_same(a: Shade, b: Shade) -> bool {
    a.color == b.color && (a.dim == b.dim || a.color == Rgb { r: 0, g: 0, b: 0 })
}

impl FrameState {
    /// How many lines the view is scrolled back.
    pub open spec fn offset(self) -> int {
        min(self.view_offset, self.term.scrollback.len() as int)
    }

    /// The absolute index of the first row that is shown.
    pub open spec fn top(self) -> int {
        self.term.scrollback.len() - self.offset()
    }

    /// Whether the cursor is shown in the cell.
    pub open spec fn cursor_at(self, row: int, col: int) -> bool {
        self.term.modes.show_cursor && self.offset() == 0 && row == self.term.y && col
            == self.term.x
    }

    /// Whether the cell is selected.
    pub open spec fn selected_at(self, row: int, col: int) -> bool {
        match self.selection {
            Some(s) => selected(s, (self.top() + row) as usize, col as usize),
            None => false,
        }
    }

    /// The colors of glyph and background: inverse video and the selection
    /// swap them, and a focused cursor has its own.
    pub open spec fn colors(self, p: PaletteState, row: int, col: int, cell: Cell) -> (
        Shade,
        Shade,
    ) {
        let fg = p.fg_of(cell.fg, cell.flags);
        let bg = full(p.bg_of(cell.bg));
        if self.cursor_at(row, col) && self.focused {
            (full(p.bg), full(p.cursor))
        } else if (cell.flags & flags::INVERSE != 0) != self.selected_at(row, col) {
            (bg, fg)
        } else {
            (fg, bg)
        }
    }

    /// How the cell is drawn.
    pub open spec fn drawn(self, p: PaletteState, row: int, col: int, cell: Cell) -> CellDraw {
        let (fg, bg) = self.colors(p, row, col, cell);
        let plain = looks_same(bg, full(p.bg));
        let hidden = cell.flags & flags::HIDDEN != 0;
        CellDraw {
            row: row as usize,
            col: col as usize,
            wide: cell.flags & flags::WIDE != 0,
            fill: if plain {
                None
            } else {
                Some(bg)
            },
            bar: plain && self.cursor_at(row, col) && !self.focused,
            glyph: if hidden || cell.ch == ' ' {
                None
            } else {
                Some(cell.ch)
            },
            line: if hidden {
                None
            } else if cell.flags & flags::UNDERLINE != 0 {
                Some(LineMark::Underline)
            } else if cell.flags & flags::STRIKETHROUGH != 0 {
                Some(LineMark::Strikethrough)
            } else {
                None
            },
            ink: fg,
        }
    }

    /// The line shown in a row.
    pub open spec fn line(self, row: int) -> Seq<Cell> {
        self.term.view_row(self.offset(), row)->0
    }

    /// The draws of the first `n` cells of a row. The cell right of a wide
    /// glyph is drawn with that.
    pub open spec fn row_draws(self, p: PaletteState, row: int, n: int) -> Seq<CellDraw>
        decreases n,
    {
        if n <= 0 {
            Seq::empty()
        } else {
            let cell = self.line(row)[n - 1];
            if cell.flags & flags::WIDE_SPACER != 0 {
                self.row_draws(p, row, n - 1)
            } else {
                self.row_draws(p, row, n - 1).push(self.drawn(p, row, n - 1, cell))
            }
        }
    }

    /// The draws of the first `n` rows.
    pub open spec fn draws(self, p: PaletteState, n: int) -> Seq<CellDraw>
        decreases n,
    {
        if n <= 0 {
            Seq::empty()
        } else {
            self.draws(p, n - 1) + self.row_draws(p, n - 1, self.term.cols())
        }
    }
}

fn same_look(a: Shade, b: Shade) -> (r: bool)
    ensures
        r == looks_same(a, b),
{
    a.color == b.color && (a.dim == b.dim || a.color == Rgb { r: 0, g: 0, b: 0 })
}

impl<'a> FrameInput<'a> {
    /// The lines of scrollback that the view is back.
    fn offset(&self) -> (n: usize)
        ensures
            n == self@.offset(),
    {
        at_most(self.view_offset, self.term.scrollback.len())
    }

    fn cell_colors(&self, palette: &Palette, row: usize, col: usize, cell: Cell) -> (r: (
        Shade,
        Shade,
    ))
        requires
            palette@.wf(),
            self@.top() + row <= usize::MAX,
        ensures
            r == self@.colors(palette@, row as int, col as int, cell),
    {
        let offset = self.offset();
        let is_cursor = self.is_cursor(row, col);
        if is_cursor && self.focused {
            return (
                Shade { color: palette.resolve_bg(Color::Default), dim: false },
                Shade { color: palette.cursor, dim: false },
            );
        }
        let abs_row = self.term.scrollback.len() - offset + row;
        let is_selected = match self.selection {
            Some(s) => s.contains(abs_row, col),
            None => false,
        };
        let inverse = (cell.flags & flags::INVERSE != 0) != is_selected;
        let fg = palette.resolve_fg(cell.fg, cell.flags);
        let bg = Shade { color: palette.resolve_bg(cell.bg), dim: false };
        if inverse {
            (bg, fg)
        } else {
            (fg, bg)
        }
    }

    fn is_cursor(&self, row: usize, col: usize) -> (b: bool)
        ensures
            b == self@.cursor_at(row as int, col as int),
    {
        self.term.show_cursor && self.offset() == 0 && row == self.term.cursor_y && col
            == self.term.cursor_x
    }

    fn draw_cell(&self, palette: &Palette, row: usize, col: usize, cell: Cell) -> (d: CellDraw)
        requires
            palette@.wf(),
            self@.top() + row <= usize::MAX,
        ensures
            d == self@.drawn(palette@, row as int, col as int, cell),
    {
        let (fg, bg) = self.cell_colors(palette, row, col, cell);
        let plain = same_look(bg, Shade { color: palette.bg, dim: false });
        let hidden = cell.flags & flags::HIDDEN != 0;
        CellDraw {
            row,
            col,
            wide: cell.flags & flags::WIDE != 0,
            fill: if plain {
                None
            } else {
                Some(bg)
            },
            // Unfocused: hollow-ish cursor via underline bar.
            bar: plain && self.is_cursor(row, col) && !self.focused,
            glyph: if hidden || cell.ch == ' ' {
                None
            } else {
                Some(cell.ch)
            },
            line: if hidden {
                None
            } else if cell.flags & flags::UNDERLINE != 0 {
                Some(LineMark::Underline)
            } else if cell.flags & flags::STRIKETHROUGH != 0 {
                Some(LineMark::Strikethrough)
            } else {
                None
            },
            ink: fg,
        }
    }

    /// The draws of one row, added behind the others.
    fn draw_row(&self, palette: &Palette, row: usize, out: &mut Vec<CellDraw>)
        requires
            self.term@.wf(),
            palette@.wf(),
            row < self.term@.rows(),
            self@.top() + row <= usize::MAX,
        ensures
            final(out)@ == old(out)@ + self@.row_draws(
                palette@,
                row as int,
                self.term@.cols(),
            ),
    {
        let ghost before = out@;
        let line = match self.term.view_line(self.offset(), row) {
            Some(l) => l,
            None => {
                return;
            },
        };
        proof {
            let all = self.term@;
            if row < self@.offset() {
                lemma_line_fits(
                    all.scrollback,
                    all.cols(),
                    all.scrollback.len() - self@.offset() + row,
                );
            } else {
                lemma_line_fits(all.grid.lines, all.cols(), row - self@.offset());
            }
        }
        assert(before + Seq::<CellDraw>::empty() =~= before);
        for col in 0..line.len()
            invariant
                palette@.wf(),
                self@.top() + row <= usize::MAX,
                line@ == self@.line(row as int),
                out@ == before + self@.row_draws(palette@, row as int, col as int),
        {
            let cell = line[col];
            if cell.flags & flags::WIDE_SPACER == 0 {
                out.push(self.draw_cell(palette, row, col, cell));
            }
            assert(out@ =~= before + self@.row_draws(palette@, row as int, col + 1));
        }
    }

    /// Everything that the frame shows, row by row.
    pub fn render(&self, palette: &Palette) -> (out: Vec<CellDraw>)
        requires
            self.term@.wf(),
            palette@.wf(),
            self.term@.scrollback.len() + self.term@.rows() <= usize::MAX,
        ensures
            out@ == self@.draws(palette@, self.term@.rows()),
    {
        let mut out: Vec<CellDraw> = Vec::new();
        let rows = self.term.rows();
        for row in 0..rows
            invariant
                rows == self.term@.rows(),
                self.term@.wf(),
                palette@.wf(),
                self.term@.scrollback.len() + self.term@.rows() <= usize::MAX,
                out@ == self@.draws(palette@, row as int),
        {
            self.draw_row(palette, row, &mut out);
        }
        out
    }
}

} // verus!
