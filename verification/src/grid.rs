//! The visible screen: a dense 2D array of cells.
//!
//! Scrollback lives in [`crate::term::Term`]; the grid is only ever
//! `rows * cols`, so every cursor operation is O(1).

use vstd::prelude::*;

use crate::cell::{flags, Cell, Color};
use crate::text::{string_of, trimmed_end};
#[allow(unused_imports)]
use crate::text::trim_end;
#[allow(unused_imports)]
use crate::cell::{blank_cell, default_cell};

verus! {

/// A grid as a mathematical value: its dimensions and its rows of cells.
#[verifier::ext_equal]
pub struct GridState {
    pub cols: int,
    pub rows: int,
    pub lines: Seq<Seq<Cell>>,
}

/// `n` default cells.
pub open spec fn blank_line(n: int) -> Seq<Cell> {
    Seq::new(n as nat, |i: int| default_cell())
}

/// `line` cut or padded with default cells to `n` cells.
pub open spec fn fit_line(line: Seq<Cell>, n: int) -> Seq<Cell> {
    Seq::new(n as nat, |i: int| if i < line.len() { line[i] } else { default_cell() })
}

/// Every line has `cols` cells.
#[verifier::opaque]
pub open spec fn lines_fit(lines: Seq<Seq<Cell>>, cols: int) -> bool {
    forall|y: int| 0 <= y < lines.len() ==> (#[trigger] lines[y]).len() == cols
}

/// A line of a well-formed grid has as many cells as the grid has columns.
pub proof fn lemma_line_fits(lines: Seq<Seq<Cell>>, cols: int, y: int)
    requires
        lines_fit(lines, cols),
        0 <= y < lines.len(),
    ensures
        lines[y].len() == cols,
{
    reveal(lines_fit);
}

impl GridState {
    /// A grid of default cells.
    pub open spec fn blank(cols: int, rows: int) -> GridState {
        GridState { cols, rows, lines: Seq::new(rows as nat, |y: int| blank_line(cols)) }
    }

    /// There are `rows` lines, each of `cols` cells.
    pub open spec fn wf(self) -> bool {
        &&& 0 <= self.cols
        &&& self.lines.len() == self.rows
        &&& lines_fit(self.lines, self.cols)
    }

    /// The cell in column `x` of row `y`.
    pub open spec fn at(self, x: int, y: int) -> Cell {
        self.lines[y][x]
    }

    /// The grid with the cell in column `x` of row `y` replaced.
    pub open spec fn with_cell(self, x: int, y: int, cell: Cell) -> GridState {
        GridState { lines: self.lines.update(y, self.lines[y].update(x, cell)), ..self }
    }

    /// The grid cut or padded to `cols` columns and `rows` rows; what lies in
    /// both keeps its place.
    pub open spec fn resized(self, cols: int, rows: int) -> GridState {
        GridState {
            cols,
            rows,
            lines: Seq::new(
                rows as nat,
                |y: int|
                    if y < self.lines.len() {
                        fit_line(self.lines[y], cols)
                    } else {
                        blank_line(cols)
                    },
            ),
        }
    }

    /// Rows `top..=bot` moved up by `n`, blank rows coming in at the bottom.
    pub open spec fn scrolled_up(self, top: int, bot: int, n: int) -> GridState {
        GridState {
            lines: Seq::new(
                self.lines.len(),
                |y: int|
                    if !(top <= y <= bot) {
                        self.lines[y]
                    } else if y + n <= bot {
                        self.lines[y + n]
                    } else {
                        blank_line(self.cols)
                    },
            ),
            ..self
        }
    }

    /// The rows that leave the region `top..=bot` when it is moved up by `n`.
    pub open spec fn evicted(self, top: int, bot: int, n: int) -> Seq<Seq<Cell>> {
        self.lines.subrange(top, top + min(n, bot - top + 1))
    }

    /// Rows `top..=bot` moved down by `n`, blank rows coming in at the top.
    pub open spec fn scrolled_down(self, top: int, bot: int, n: int) -> GridState {
        GridState {
            lines: Seq::new(
                self.lines.len(),
                |y: int|
                    if !(top <= y <= bot) {
                        self.lines[y]
                    } else if y - n >= top {
                        self.lines[y - n]
                    } else {
                        blank_line(self.cols)
                    },
            ),
            ..self
        }
    }

    /// Row `y` replaced by `line`.
    pub open spec fn with_line(self, y: int, line: Seq<Cell>) -> GridState {
        GridState { lines: self.lines.update(y, line), ..self }
    }

    /// Columns `from..to` of row `y` blanked on the background `bg`.
    pub open spec fn cleared(self, y: int, from: int, to: int, bg: Color) -> GridState {
        self.with_line(y, clear_cells(self.lines[y], from, to, bg))
    }

    /// Every cell of the rows `from..to` blanked on the background `bg`.
    pub open spec fn cleared_rows(self, from: int, to: int, bg: Color) -> GridState {
        GridState {
            lines: Seq::new(
                self.lines.len(),
                |y: int|
                    if from <= y < to {
                        Seq::new(self.cols as nat, |x: int| blank_cell(bg))
                    } else {
                        self.lines[y]
                    },
            ),
            ..self
        }
    }
}

impl GridState {
    pub proof fn lemma_resized_wf(self, cols: int, rows: int)
        requires
            0 <= cols,
            0 <= rows,
        ensures
            self.resized(cols, rows).wf(),
    {
        reveal(lines_fit);
    }

    pub proof fn lemma_with_line_wf(self, y: int, line: Seq<Cell>)
        requires
            self.wf(),
            0 <= y < self.rows,
            line.len() == self.cols,
        ensures
            self.with_line(y, line).wf(),
    {
        reveal(lines_fit);
    }

    pub proof fn lemma_with_cell_wf(self, x: int, y: int, cell: Cell)
        requires
            self.wf(),
            0 <= x < self.cols,
            0 <= y < self.rows,
        ensures
            self.with_cell(x, y, cell).wf(),
    {
        reveal(lines_fit);
    }

    pub proof fn lemma_scrolled_wf(self, top: int, bot: int, n: int)
        requires
            self.wf(),
            0 <= top <= bot < self.rows,
            0 <= n,
        ensures
            self.scrolled_up(top, bot, n).wf(),
            self.scrolled_down(top, bot, n).wf(),
            lines_fit(self.evicted(top, bot, n), self.cols),
    {
        reveal(lines_fit);
    }
}

pub open spec fn min(a: int, b: int) -> int {
    if a <= b {
        a
    } else {
        b
    }
}

pub open spec fn max(a: int, b: int) -> int {
    if a >= b {
        a
    } else {
        b
    }
}

/// `v`, but no less than `lo`.
pub(crate) fn at_least(v: usize, lo: usize) -> (r: usize)
    ensures
        r == max(v as int, lo as int),
{
    if v >= lo {
        v
    } else {
        lo
    }
}

/// `v`, but no more than `hi`.
pub(crate) fn at_most(v: usize, hi: usize) -> (r: usize)
    ensures
        r == min(v as int, hi as int),
{
    if v <= hi {
        v
    } else {
        hi
    }
}

/// `line` with the cells `from..to` blanked on the background `bg`.
pub open spec fn clear_cells(line: Seq<Cell>, from: int, to: int, bg: Color) -> Seq<Cell> {
    Seq::new(
        line.len(),
        |x: int|
            if from <= x < to {
                blank_cell(bg)
            } else {
                line[x]
            },
    )
}

/// `line` with the cells from `x` on moved right by `w`; what runs off the
/// line is lost.
pub open spec fn shift_cells_right(line: Seq<Cell>, x: int, w: int) -> Seq<Cell> {
    Seq::new(
        line.len(),
        |i: int|
            if i >= x + w {
                line[i - w]
            } else {
                line[i]
            },
    )
}

/// The characters of `line`, without the cells right of a wide glyph.
pub open spec fn line_chars(line: Seq<Cell>) -> Seq<char>
    decreases line.len(),
{
    if line.len() == 0 {
        Seq::empty()
    } else if line.last().flags & flags::WIDE_SPACER != 0 {
        line_chars(line.drop_last())
    } else {
        line_chars(line.drop_last()).push(line.last().ch)
    }
}

/// The text of `line`: its characters without the white space at the end.
pub open spec fn line_text(line: Seq<Cell>) -> Seq<char> {
    trim_end(line_chars(line))
}

/// The text of the characters in `cells`, trailing white space trimmed. The
/// cells right of a wide glyph are skipped, so that it counts once.
pub fn cells_text(cells: &[Cell]) -> (s: String)
    ensures
        s@ == line_text(cells@),
{
    let mut cs: Vec<char> = Vec::new();
    for i in 0..cells.len()
        invariant
            cs@ == line_chars(cells@.take(i as int)),
    {
        assert(cells@.take(i + 1).drop_last() == cells@.take(i as int));
        if cells[i].flags & flags::WIDE_SPACER == 0 {
            cs.push(cells[i].ch);
        }
    }
    assert(cells@.take(cells.len() as int) == cells@);
    string_of(trimmed_end(cs.as_slice()))
}

/// Adds or removes cells so that `line` has `n` of them.
pub(crate) fn resize_line(line: &mut Vec<Cell>, n: usize)
    ensures
        final(line)@ == fit_line(old(line)@, n as int),
{
    let ghost before = line@;
    line.resize(n, Cell::default());
    assert(line@ =~= fit_line(before, n as int)) by {
        if n > before.len() {
            assert forall|i: int| 0 <= i < before.len() implies line@[i] == before[i] by {
                assert(line@.subrange(0, before.len() as int)[i] == before[i]);
            }
        }
    }
}

#[derive(Clone)]
pub struct Grid {
    pub cols: usize,
    pub rows: usize,
    pub lines: Vec<Vec<Cell>>,
}

/// The cells of each row.
pub open spec fn cells_of(lines: Seq<Vec<Cell>>) -> Seq<Seq<Cell>> {
    Seq::new(lines.len(), |y: int| lines[y]@)
}

impl View for Grid {
    type V = GridState;

    open spec fn view(&self) -> GridState {
        GridState { cols: self.cols as int, rows: self.rows as int, lines: cells_of(self.lines@) }
    }
}

impl Grid {
    pub fn new(cols: usize, rows: usize) -> (grid: Self)
        ensures
            grid@ == GridState::blank(cols as int, rows as int),
            grid@.wf(),
    {
        proof {
            reveal(lines_fit);
        }
        let mut lines: Vec<Vec<Cell>> = Vec::new();
        for y in 0..rows
            invariant
                lines.len() == y,
                forall|k: int| 0 <= k < y ==> (#[trigger] lines@[k])@ == blank_line(cols as int),
        {
            lines.push(vec![Cell::default(); cols]);
            assert(lines@[y as int]@ =~= blank_line(cols as int));
        }
        let grid = Grid { cols, rows, lines };
        assert(grid@.lines =~= GridState::blank(cols as int, rows as int).lines);
        grid
    }

    pub fn line(&self, row: usize) -> (line: &[Cell])
        requires
            self@.wf(),
            row < self.rows,
        ensures
            line@ == self@.lines[row as int],
    {
        self.lines[row].as_slice()
    }

    pub fn cell(&self, col: usize, row: usize) -> (cell: &Cell)
        requires
            self@.wf(),
            row < self.rows,
            col < self.cols,
        ensures
            *cell == self@.at(col as int, row as int),
    {
        proof {
            reveal(lines_fit);
        }
        assert(self@.lines[row as int].len() == self.cols);
        &self.lines[row][col]
    }

    pub fn cell_mut(&mut self, col: usize, row: usize) -> (cell: &mut Cell)
        requires
            old(self)@.wf(),
            row < old(self).rows,
            col < old(self).cols,
        ensures
            *cell == old(self)@.at(col as int, row as int),
            final(self)@ == old(self)@.with_cell(col as int, row as int, *final(cell)),
    {
        proof {
            reveal(lines_fit);
        }
        assert(self@.lines[row as int].len() == self.cols);
        &mut self.lines[row][col]
    }

    /// Replaces one cell.
    pub fn set_cell(&mut self, col: usize, row: usize, cell: Cell)
        requires
            old(self)@.wf(),
            row < old(self).rows,
            col < old(self).cols,
        ensures
            final(self)@ == old(self)@.with_cell(col as int, row as int, cell),
            final(self)@.wf(),
    {
        proof {
            self@.lemma_with_cell_wf(col as int, row as int, cell);
        }
        *self.cell_mut(col, row) = cell;
    }

    pub fn resize(&mut self, cols: usize, rows: usize)
        ensures
            final(self)@ == old(self)@.resized(cols as int, rows as int),
            final(self)@.wf(),
    {
        proof {
            reveal(lines_fit);
        }
        let ghost before = self.lines@;
        let kept = self.lines.len();
        for y in 0..kept
            invariant
                kept == before.len(),
                self.lines.len() == before.len(),
                forall|k: int|
                    0 <= k < y ==> (#[trigger] self.lines@[k])@ == fit_line(
                        before[k]@,
                        cols as int,
                    ),
                forall|k: int| y <= k < before.len() ==> self.lines@[k] == before[k],
        {
            resize_line(&mut self.lines[y], cols);
        }
        if rows < kept {
            self.lines.truncate(rows);
        }
        while self.lines.len() < rows
            invariant
                kept == before.len(),
                kept <= rows ==> kept <= self.lines.len() <= rows,
                rows < kept ==> self.lines.len() == rows,
                forall|k: int|
                    0 <= k < self.lines.len() ==> (#[trigger] self.lines@[k])@ == if k < kept {
                        fit_line(before[k]@, cols as int)
                    } else {
                        blank_line(cols as int)
                    },
            decreases rows - self.lines.len(),
        {
            let blank = vec![Cell::default(); cols];
            assert(blank@ =~= blank_line(cols as int));
            self.lines.push(blank);
        }
        self.cols = cols;
        self.rows = rows;
        assert(self@.lines =~= old(self)@.resized(cols as int, rows as int).lines);
    }

    /// Scroll the region `top..=bot` up by `n`, returning the lines that fell
    /// off the top so the caller can push them into scrollback.
    pub fn scroll_up(&mut self, top: usize, bot: usize, n: usize) -> (evicted: Vec<Vec<Cell>>)
        requires
            old(self)@.wf(),
            top <= bot < old(self).rows,
        ensures
            final(self)@ == old(self)@.scrolled_up(top as int, bot as int, n as int),
            final(self)@.wf(),
            cells_of(evicted@) == old(self)@.evicted(top as int, bot as int, n as int),
    {
        proof {
            reveal(lines_fit);
        }
        let ghost before = self@;
        let n2: usize = if n <= bot - top {
            n
        } else {
            bot - top + 1
        };
        let mut evicted: Vec<Vec<Cell>> = Vec::new();
        assert(self@ =~= before.scrolled_up(top as int, bot as int, 0));
        for k in 0..n2
            invariant
                before.wf(),
                top <= bot < before.rows,
                n2 <= bot - top + 1,
                self@ == before.scrolled_up(top as int, bot as int, k as int),
                self@.wf(),
                evicted.len() == k,
                forall|i: int|
                    0 <= i < k ==> (#[trigger] evicted@[i])@ == before.lines[top + i],
        {
            proof {
                reveal(lines_fit);
            }
            let ghost cur = self@;
            let ghost rows = self.lines@;
            let line = self.lines.remove(top);
            assert(line@ == cur.lines[top as int]);
            assert(line@ == before.lines[top + k]);
            evicted.push(line);
            let blank = vec![Cell::default(); self.cols];
            assert(blank@ =~= blank_line(self.cols as int));
            self.lines.insert(bot, blank);
            let ghost next = before.scrolled_up(top as int, bot as int, k + 1);
            assert forall|y: int| 0 <= y < before.rows implies #[trigger] self@.lines[y]
                == next.lines[y] by {
                if top <= y < bot {
                    assert(self.lines@[y] == rows[y + 1]);
                    assert(cur.lines[y + 1] == rows[y + 1]@);
                } else if y != bot {
                    assert(self.lines@[y] == rows[y]);
                    assert(cur.lines[y] == rows[y]@);
                }
            }
            assert(self@.lines =~= next.lines);
        }
        assert(before.scrolled_up(top as int, bot as int, n2 as int).lines =~= before.scrolled_up(
            top as int,
            bot as int,
            n as int,
        ).lines);
        assert(cells_of(evicted@) =~= before.evicted(top as int, bot as int, n as int));
        evicted
    }

    /// Scroll the region `top..=bot` down by `n`. Lines falling off the bottom
    /// are discarded (per VT semantics).
    pub fn scroll_down(&mut self, top: usize, bot: usize, n: usize)
        requires
            old(self)@.wf(),
            top <= bot < old(self).rows,
        ensures
            final(self)@ == old(self)@.scrolled_down(top as int, bot as int, n as int),
            final(self)@.wf(),
    {
        proof {
            reveal(lines_fit);
        }
        let ghost before = self@;
        let n2: usize = if n <= bot - top {
            n
        } else {
            bot - top + 1
        };
        assert(self@ =~= before.scrolled_down(top as int, bot as int, 0));
        for k in 0..n2
            invariant
                before.wf(),
                top <= bot < before.rows,
                n2 <= bot - top + 1,
                self@ == before.scrolled_down(top as int, bot as int, k as int),
                self@.wf(),
        {
            proof {
                reveal(lines_fit);
            }
            let ghost cur = self@;
            let ghost rows = self.lines@;
            self.lines.remove(bot);
            let blank = vec![Cell::default(); self.cols];
            assert(blank@ =~= blank_line(self.cols as int));
            self.lines.insert(top, blank);
            let ghost next = before.scrolled_down(top as int, bot as int, k + 1);
            assert forall|y: int| 0 <= y < before.rows implies #[trigger] self@.lines[y]
                == next.lines[y] by {
                if top < y <= bot {
                    assert(self.lines@[y] == rows[y - 1]);
                    assert(cur.lines[y - 1] == rows[y - 1]@);
                } else if y != top {
                    assert(self.lines@[y] == rows[y]);
                    assert(cur.lines[y] == rows[y]@);
                }
            }
            assert(self@.lines =~= next.lines);
        }
        assert(before.scrolled_down(top as int, bot as int, n2 as int).lines
            =~= before.scrolled_down(top as int, bot as int, n as int).lines);
    }

    pub fn clear_line_range(&mut self, row: usize, from: usize, to: usize, bg: Color)
        requires
            old(self)@.wf(),
            row < old(self).rows,
            from <= to,
            from <= old(self).cols,
        ensures
            final(self)@ == old(self)@.cleared(row as int, from as int, to as int, bg),
            final(self)@.wf(),
    {
        proof {
            reveal(lines_fit);
        }
        let ghost before = self@;
        let end: usize = if to <= self.cols {
            to
        } else {
            self.cols
        };
        assert(self@.lines =~= before.cleared(row as int, from as int, from as int, bg).lines) by {
            assert(before.lines[row as int] =~= clear_cells(
                before.lines[row as int],
                from as int,
                from as int,
                bg,
            ));
        }
        for x in from..end
            invariant
                before.wf(),
                row < before.rows,
                from <= end <= before.cols,
                self@ == before.cleared(row as int, from as int, x as int, bg),
        {
            proof {
                reveal(lines_fit);
            }
            assert(self@.lines[row as int].len() == before.cols);
            *self.cell_mut(x, row) = Cell::blank_with_bg(bg);
            assert(self@.lines[row as int] =~= clear_cells(
                before.lines[row as int],
                from as int,
                x + 1,
                bg,
            ));
            assert(self@.lines =~= before.cleared(row as int, from as int, x + 1, bg).lines);
        }
        assert(clear_cells(before.lines[row as int], from as int, end as int, bg) =~= clear_cells(
            before.lines[row as int],
            from as int,
            to as int,
            bg,
        ));
    }

    /// Blanks every cell of the rows `from..to` on the background `bg`.
    pub fn clear_rows(&mut self, from: usize, to: usize, bg: Color)
        requires
            old(self)@.wf(),
            from <= to <= old(self).rows,
        ensures
            final(self)@ == old(self)@.cleared_rows(from as int, to as int, bg),
            final(self)@.wf(),
    {
        proof {
            reveal(lines_fit);
        }
        let ghost before = self@;
        assert(self@.lines =~= before.cleared_rows(from as int, from as int, bg).lines);
        for y in from..to
            invariant
                before.wf(),
                from <= to <= before.rows,
                self@ == before.cleared_rows(from as int, y as int, bg),
                self@.wf(),
        {
            proof {
                reveal(lines_fit);
            }
            self.clear_line_range(y, 0, self.cols, bg);
            assert(self@.lines[y as int] =~= Seq::new(
                before.cols as nat,
                |x: int| blank_cell(bg),
            ));
            assert(self@.lines =~= before.cleared_rows(from as int, y + 1, bg).lines);
        }
    }

    pub fn clear_all(&mut self, bg: Color)
        requires
            old(self)@.wf(),
        ensures
            final(self)@ == old(self)@.cleared_rows(0, old(self)@.rows, bg),
            final(self)@.wf(),
    {
        self.clear_rows(0, self.rows, bg);
    }

    /// Moves the cells of row `row` from column `from` on to the right by `n`;
    /// what runs off the line is lost.
    pub fn shift_right(&mut self, row: usize, from: usize, n: usize)
        requires
            old(self)@.wf(),
            row < old(self).rows,
            from < old(self).cols,
            from + n <= usize::MAX,
        ensures
            final(self)@ == old(self)@.with_line(
                row as int,
                shift_cells_right(old(self)@.lines[row as int], from as int, n as int),
            ),
            final(self)@.wf(),
    {
        let ghost before = self@;
        let ghost line = before.lines[row as int];
        let ghost target = shift_cells_right(line, from as int, n as int);
        let cols = self.cols;
        proof {
            lemma_line_fits(before.lines, before.cols, row as int);
            before.lemma_with_line_wf(row as int, target);
        }
        let mut x = cols;
        while x > from + n
            invariant
                before.wf(),
                row < before.rows,
                line == before.lines[row as int],
                line.len() == cols,
                target == shift_cells_right(line, from as int, n as int),
                from + n <= usize::MAX,
                x <= cols == before.cols,
                self@.wf(),
                self@.cols == before.cols,
                self@.rows == before.rows,
                self@.lines == before.lines.update(row as int, self@.lines[row as int]),
                self@.lines[row as int].len() == cols,
                forall|i: int|
                    0 <= i < cols ==> #[trigger] self@.lines[row as int][i] == if i >= x && i >= from + n {
                        target[i]
                    } else {
                        line[i]
                    },
            decreases x,
        {
            x -= 1;
            let cell = *self.cell(x - n, row);
            let ghost cur = self@;
            self.set_cell(x, row, cell);
            assert(self@.lines[row as int] == cur.lines[row as int].update(x as int, cell));
            assert(self@.lines =~= before.lines.update(row as int, self@.lines[row as int]));
        }
        assert(self@.lines[row as int] =~= target);
    }

    /// Plain text of one row, trailing whitespace trimmed. Wide-char spacer
    /// cells are skipped so CJK/emoji round-trip as single characters.
    pub fn row_text(&self, row: usize) -> (s: String)
        requires
            self@.wf(),
            row < self.rows,
        ensures
            s@ == line_text(self@.lines[row as int]),
    {
        cells_text(self.line(row))
    }

    pub fn take_lines(self) -> (lines: Vec<Vec<Cell>>)
        ensures
            cells_of(lines@) == self@.lines,
    {
        self.lines
    }
}

} // verus!
