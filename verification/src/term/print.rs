//! Printing a character.

use vstd::prelude::*;

use super::Term;
#[allow(unused_imports)]
use super::model::line_drawing;
use crate::cell::{flags, Cell};
use crate::grid::at_most;
#[allow(unused_imports)]
use crate::grid::lemma_line_fits;
use crate::width::columns;

verus! {

/// DEC Special Graphics (what vim/tmux borders use).
fn draw_line_char(ch: char) -> (r: char)
    ensures
        r == line_drawing(ch),
{
    match ch {
        'j' => '┘',
        'k' => '┐',
        'l' => '┌',
        'm' => '└',
        'n' => '┼',
        'q' => '─',
        't' => '├',
        'u' => '┤',
        'v' => '┴',
        'w' => '┬',
        'x' => '│',
        'a' => '▒',
        'f' => '°',
        'g' => '±',
        'y' => '≤',
        'z' => '≥',
        '{' => 'π',
        '|' => '≠',
        '}' => '£',
        '~' => '·',
        '`' => '◆',
        '0' => '█',
        _ => ch,
    }
}

impl Term {
    pub fn print(&mut self, ch: char)
        requires
            old(self)@.wf(),
        ensures
            final(self)@ == old(self)@.printed(ch),
            final(self)@.wf(),
    {
        let width = columns(self.map_charset(ch));
        self.print_as(ch, width);
    }

    /// Prints a character in `width` columns.
    pub fn print_as(&mut self, ch: char, width: usize)
        requires
            old(self)@.wf(),
            width <= 3,
        ensures
            final(self)@ == old(self)@.printed_as(ch, width as int),
            final(self)@.wf(),
    {
        let ch = self.map_charset(ch);
        if width == 0 {
            // combining marks: not composed in v1
            return;
        }
        self.capture_output(ch);
        self.wrap_if_due();
        self.make_room(width);
        self.open_gap(width);
        self.draw(ch, width);
        self.step(width);
    }

    fn map_charset(&self, ch: char) -> (r: char)
        ensures
            r == self@.mapped(ch),
    {
        let linedraw = if self.charsets.g1_active {
            self.charsets.g1_linedraw
        } else {
            self.charsets.g0_linedraw
        };
        if linedraw {
            draw_line_char(ch)
        } else {
            ch
        }
    }

    fn wrap_if_due(&mut self)
        requires
            old(self)@.wf(),
        ensures
            final(self)@ == old(self)@.wrapped(),
            final(self)@.wf(),
    {
        if self.pending_wrap && self.motion.autowrap {
            self.cursor_x = 0;
            self.linefeed_no_capture();
        }
    }

    /// A wide char that doesn't fit wraps early (or clips without autowrap).
    fn make_room(&mut self, width: usize)
        requires
            old(self)@.wf(),
        ensures
            final(self)@ == old(self)@.fitted(width as int),
            final(self)@.wf(),
            width == 2 ==> final(self)@.x + 2 <= final(self)@.cols(),
    {
        if width == 2 && self.cursor_x + 2 > self.cols() {
            if self.motion.autowrap {
                self.cursor_x = 0;
                self.linefeed_no_capture();
            } else {
                self.cursor_x = self.cols() - 2;
            }
        }
    }

    /// In insert mode, the rest of the line moves right.
    fn open_gap(&mut self, width: usize)
        requires
            old(self)@.wf(),
            width <= 3,
        ensures
            final(self)@ == old(self)@.opened(width as int),
            final(self)@.wf(),
    {
        if self.motion.insert {
            proof {
                lemma_line_fits(self@.grid.lines, self@.cols(), self@.y);
            }
            self.grid.shift_right(self.cursor_y, self.cursor_x, width);
        }
    }

    /// Writes the glyph with the pen; a wide one takes a second cell.
    fn draw(&mut self, ch: char, width: usize)
        requires
            old(self)@.wf(),
            width == 2 ==> old(self)@.x + 2 <= old(self)@.cols(),
        ensures
            final(self)@ == old(self)@.drawn(ch, width as int),
            final(self)@.wf(),
    {
        let x = self.cursor_x;
        let y = self.cursor_y;
        let pen = self.pen;
        if width == 2 {
            let cell = Cell { ch, flags: pen.flags | flags::WIDE, ..pen };
            let spacer = Cell { ch: ' ', flags: pen.flags | flags::WIDE_SPACER, ..pen };
            self.grid.set_cell(x, y, cell);
            self.grid.set_cell(x + 1, y, spacer);
        } else {
            self.grid.set_cell(x, y, Cell { ch, ..pen });
        }
    }

    fn step(&mut self, width: usize)
        requires
            old(self)@.wf(),
            width <= 3,
        ensures
            final(self)@ == old(self)@.stepped(width as int),
            final(self)@.wf(),
    {
        let next = self.cursor_x + width;
        self.pending_wrap = self.pending_wrap || next >= self.cols();
        self.cursor_x = at_most(next, self.cols() - 1);
    }
}

} // verus!
