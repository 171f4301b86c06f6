//! Erasing, inserting and deleting.

use vstd::prelude::*;

use super::Term;
#[allow(unused_imports)]
use super::model::{delete_cells, insert_cells, TermState};
use crate::cell::{Cell, Color};
use crate::grid::Grid;
#[allow(unused_imports)]
use crate::grid::lemma_line_fits;

verus! {

impl Grid {
    /// Deletes `n` cells of row `row` at column `x`; blanks come in at the end.
    pub(crate) fn delete_cells(&mut self, row: usize, x: usize, n: usize, bg: Color)
        requires
            old(self)@.wf(),
            row < old(self).rows,
            x < old(self).cols,
        ensures
            final(self)@ == old(self)@.with_line(
                row as int,
                delete_cells(old(self)@.lines[row as int], x as int, n as int, bg),
            ),
            final(self)@.wf(),
    {
        let ghost before = self@;
        let ghost line = before.lines[row as int];
        let ghost target = delete_cells(line, x as int, n as int, bg);
        let cols = self.cols;
        proof {
            lemma_line_fits(before.lines, before.cols, row as int);
            before.lemma_with_line_wf(row as int, target);
        }
        for i in x..cols
            invariant
                row < before.rows,
                line == before.lines[row as int],
                line.len() == cols,
                target == delete_cells(line, x as int, n as int, bg),
                cols == before.cols,
                self@.wf(),
                self@.cols == before.cols,
                self@.rows == before.rows,
                before.lines.len() == before.rows,
                self@.lines == before.lines.update(row as int, self@.lines[row as int]),
                self@.lines[row as int].len() == cols,
                forall|k: int|
                    0 <= k < i ==> #[trigger] self@.lines[row as int][k] == target[k],
                forall|k: int|
                    i <= k < cols ==> #[trigger] self@.lines[row as int][k] == line[k],
        {
            let cell = if n < cols - i {
                *self.cell(i + n, row)
            } else {
                Cell::blank_with_bg(bg)
            };
            let ghost cur = self@;
            self.set_cell(i, row, cell);
            assert(self@.lines[row as int] == cur.lines[row as int].update(i as int, cell));
            assert(self@.lines =~= before.lines.update(row as int, self@.lines[row as int]));
        }
        assert(self@.lines[row as int] =~= target);
    }

    /// Inserts `n` blanks in row `row` at column `x`; what runs off the line
    /// is lost.
    pub(crate) fn insert_cells(&mut self, row: usize, x: usize, n: usize, bg: Color)
        requires
            old(self)@.wf(),
            row < old(self).rows,
            x < old(self).cols,
        ensures
            final(self)@ == old(self)@.with_line(
                row as int,
                insert_cells(old(self)@.lines[row as int], x as int, n as int, bg),
            ),
            final(self)@.wf(),
    {
        let ghost before = self@;
        let ghost line = before.lines[row as int];
        let cols = self.cols;
        let n2: usize = if n < cols - x {
            n
        } else {
            cols - x
        };
        proof {
            lemma_line_fits(before.lines, before.cols, row as int);
        }
        self.shift_right(row, x, n2);
        self.clear_line_range(row, x, x + n2, bg);
        assert(self@.lines[row as int] =~= insert_cells(line, x as int, n as int, bg));
        assert(self@.lines =~= before.with_line(
            row as int,
            insert_cells(line, x as int, n as int, bg),
        ).lines);
    }
}

impl Term {
    pub(crate) fn erase_display(&mut self, mode: usize)
        requires
            old(self)@.wf(),
        ensures
            final(self)@ == old(self)@.display_erased(mode as int),
            final(self)@.wf(),
    {
        match mode {
            0 => {
                self.erase_line(0);
                self.erase_rows(self.cursor_y + 1, self.grid.rows);
            },
            1 => {
                self.erase_line(1);
                self.erase_rows(0, self.cursor_y);
            },
            2 => self.erase_rows(0, self.grid.rows),
            3 => {
                self.erase_rows(0, self.grid.rows);
                self.clear_scrollback();
            },
            _ => self.drop_wrap(),
        }
    }

    /// Erases the rows `from..to`.
    fn erase_rows(&mut self, from: usize, to: usize)
        requires
            old(self)@.wf(),
            from <= to <= old(self)@.rows(),
        ensures
            final(self)@ == (TermState {
                grid: old(self)@.grid.cleared_rows(from as int, to as int, old(self)@.pen.bg),
                pending_wrap: false,
                ..old(self)@
            }),
            final(self)@.wf(),
    {
        self.grid.clear_rows(from, to, self.pen.bg);
        self.pending_wrap = false;
    }

    /// No wrap is due any more.
    fn drop_wrap(&mut self)
        requires
            old(self)@.wf(),
        ensures
            final(self)@ == (TermState { pending_wrap: false, ..old(self)@ }),
            final(self)@.wf(),
    {
        self.pending_wrap = false;
    }

    /// Forgets the scrollback.
    pub fn clear_scrollback(&mut self)
        requires
            old(self)@.wf(),
        ensures
            final(self)@ == (TermState { scrollback: Seq::empty(), ..old(self)@ }),
            final(self)@.wf(),
    {
        self.scrollback.clear();
        assert(self@.scrollback =~= Seq::empty());
        proof {
            reveal(crate::grid::lines_fit);
        }
    }

    pub(crate) fn erase_line(&mut self, mode: usize)
        requires
            old(self)@.wf(),
        ensures
            final(self)@ == old(self)@.line_erased(mode as int),
            final(self)@.wf(),
    {
        let bg = self.pen.bg;
        let y = self.cursor_y;
        let cols = self.cols();
        match mode {
            0 => self.grid.clear_line_range(y, self.cursor_x, cols, bg),
            1 => self.grid.clear_line_range(y, 0, self.cursor_x + 1, bg),
            2 => self.grid.clear_line_range(y, 0, cols, bg),
            _ => {},
        }
        self.pending_wrap = false;
    }

    pub(crate) fn insert_lines(&mut self, n: usize)
        requires
            old(self)@.wf(),
        ensures
            final(self)@ == old(self)@.lines_inserted(n as int),
            final(self)@.wf(),
    {
        if self.cursor_y >= self.scroll_top && self.cursor_y <= self.scroll_bot {
            self.grid.scroll_down(self.cursor_y, self.scroll_bot, n);
            self.cursor_x = 0;
            self.pending_wrap = false;
        }
    }

    pub(crate) fn delete_lines(&mut self, n: usize)
        requires
            old(self)@.wf(),
        ensures
            final(self)@ == old(self)@.lines_deleted(n as int),
            final(self)@.wf(),
    {
        if self.cursor_y >= self.scroll_top && self.cursor_y <= self.scroll_bot {
            self.grid.scroll_up(self.cursor_y, self.scroll_bot, n);
            self.cursor_x = 0;
            self.pending_wrap = false;
        }
    }

    pub(crate) fn delete_chars(&mut self, n: usize)
        requires
            old(self)@.wf(),
        ensures
            final(self)@ == old(self)@.chars_deleted(n as int),
            final(self)@.wf(),
    {
        self.grid.delete_cells(self.cursor_y, self.cursor_x, n, self.pen.bg);
    }

    pub(crate) fn insert_chars(&mut self, n: usize)
        requires
            old(self)@.wf(),
        ensures
            final(self)@ == old(self)@.chars_inserted(n as int),
            final(self)@.wf(),
    {
        self.grid.insert_cells(self.cursor_y, self.cursor_x, n, self.pen.bg);
    }

    pub(crate) fn erase_chars(&mut self, n: usize)
        requires
            old(self)@.wf(),
            n <= u16::MAX,
        ensures
            final(self)@ == old(self)@.chars_erased(n as int),
            final(self)@.wf(),
    {
        self.grid.clear_line_range(
            self.cursor_y,
            self.cursor_x,
            self.cursor_x + n,
            self.pen.bg,
        );
    }
}

} // verus!
