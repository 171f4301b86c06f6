//! Text selected with the mouse.

use vstd::prelude::*;
use vstd::slice::slice_subrange;

use crate::cell::Cell;
use crate::grid::cells_text;
#[allow(unused_imports)]
use crate::grid::{lemma_line_fits, line_text, min};
use crate::term::Term;
#[allow(unused_imports)]
use crate::term::model::TermState;
use crate::text::{append_text, chars_of};
use crate::Emulator;

pub mod laws;

verus! {

/// Selection in absolute line coordinates (scrollback index space), from
/// where the drag began to where it is.
#[derive(Clone, Copy, PartialEq, Eq, Debug)]
pub struct Selection {
    /// (abs_row, col)
    pub start: (usize, usize),
    pub end: (usize, usize),
}

/// Whether the position `a` stands before `b` in reading order, or is it.
pub open spec fn at_or_before(a: (usize, usize), b: (usize, usize)) -> bool {
    a.0 < b.0 || (a.0 == b.0 && a.1 <= b.1)
}

/// The selection with its start before its end.
pub open spec fn ordered(s: Selection) -> Selection {
    if at_or_before(s.start, s.end) {
        s
    } else {
        Selection { start: s.end, end: s.start }
    }
}

/// Whether the cell at `row`, `col` is selected.
pub open spec fn selected(s: Selection, row: usize, col: usize) -> bool {
    at_or_before(ordered(s).start, (row, col)) && at_or_before((row, col), ordered(s).end)
}

impl Selection {
    pub fn normalized(&self) -> (s: Selection)
        ensures
            s == ordered(*self),
    {
        let forward = self.start.0 < self.end.0 || (self.start.0 == self.end.0 && self.start.1
            <= self.end.1);
        if forward {
            *self
        } else {
            Selection { start: self.end, end: self.start }
        }
    }

    pub fn contains(&self, abs_row: usize, col: usize) -> (b: bool)
        ensures
            b == selected(*self, abs_row, col),
    {
        let s = self.normalized();
        if abs_row < s.start.0 || abs_row > s.end.0 {
            return false;
        }
        let after_start = abs_row > s.start.0 || col >= s.start.1;
        let before_end = abs_row < s.end.0 || col <= s.end.1;
        after_start && before_end
    }
}

impl TermState {
    /// Scrollback and screen as one list of lines.
    pub open spec fn all_lines(self) -> Seq<Seq<Cell>> {
        self.scrollback + self.grid.lines
    }

    /// What `s`, whose start stands before its end, selects of the row `row`,
    /// with a line end behind it unless it is the last.
    pub open spec fn selected_of_row(self, s: Selection, row: int) -> Seq<char> {
        if row >= self.all_lines().len() {
            Seq::empty()
        } else {
            let line = self.all_lines()[row];
            let to = if row == s.end.0 {
                min(s.end.1 as int, line.len() - 1)
            } else {
                line.len() - 1
            };
            let from = if row == s.start.0 {
                min(s.start.1 as int, to)
            } else {
                0
            };
            let text = line_text(line.subrange(from, to + 1));
            if row == s.end.0 {
                text
            } else {
                text.push('\n')
            }
        }
    }

    /// What `s` selects of the rows before `row`.
    pub open spec fn selected_before(self, s: Selection, row: int) -> Seq<char>
        decreases row,
    {
        if row <= s.start.0 || row <= 0 {
            Seq::empty()
        } else {
            self.selected_before(s, row - 1) + self.selected_of_row(s, row - 1)
        }
    }

    /// The text that is selected: row by row, each without the white space at
    /// its end.
    pub open spec fn selected_text(self, s: Selection) -> Seq<char> {
        self.selected_before(ordered(s), ordered(s).end.0 + 1)
    }

    /// Rows that do not exist add nothing.
    proof fn lemma_rows_beyond(self, s: Selection, from: int, to: int)
        requires
            self.all_lines().len() <= from <= to,
        ensures
            self.selected_before(s, to) == self.selected_before(s, from) || from <= s.start.0,
            from <= s.start.0 ==> self.selected_before(s, to) == Seq::<char>::empty(),
        decreases to,
    {
        if from < to {
            self.lemma_rows_beyond(s, from, to - 1);
            if to > s.start.0 && to > 0 {
                assert(self.selected_of_row(s, to - 1) =~= Seq::empty());
                assert(self.selected_before(s, to) =~= self.selected_before(s, to - 1));
            }
        }
    }
}

/// The line with the absolute index `row`, where there is one.
fn line_at(term: &Term, row: usize) -> (line: Option<&[Cell]>)
    requires
        term@.wf(),
    ensures
        line is Some <==> row < term@.all_lines().len(),
        line matches Some(l) ==> l@ == term@.all_lines()[row as int] && l@.len() == term@.cols(),
{
    let held = term.scrollback.len();
    if row < held {
        proof {
            lemma_line_fits(term@.scrollback, term@.cols(), row as int);
        }
        assert(term@.scrollback[row as int] == term.scrollback@[row as int]@);
        Some(term.scrollback[row].as_slice())
    } else {
        let y = row - held;
        if y < term.rows() {
            proof {
                lemma_line_fits(term@.grid.lines, term@.cols(), y as int);
            }
            Some(term.grid.line(y))
        } else {
            None
        }
    }
}

/// The selected part of one line, as text.
fn part_text(line: &[Cell], s: Selection, row: usize) -> (text: String)
    requires
        line@.len() > 0,
    ensures
        ({
            let to = if row == s.end.0 {
                min(s.end.1 as int, line@.len() - 1)
            } else {
                line@.len() - 1
            };
            let from = if row == s.start.0 {
                min(s.start.1 as int, to)
            } else {
                0
            };
            text@ == line_text(line@.subrange(from, to + 1))
        }),
{
    let last = line.len() - 1;
    let to = if row == s.end.0 && s.end.1 < last {
        s.end.1
    } else {
        last
    };
    let from = if row == s.start.0 {
        if s.start.1 < to {
            s.start.1
        } else {
            to
        }
    } else {
        0
    };
    cells_text(slice_subrange(line, from, to + 1))
}

/// Extract the selected text (used by cmd+C).
pub fn selection_text(emu: &Emulator, sel: Selection) -> (text: String)
    requires
        emu@.wf(),
    ensures
        text@ == emu@.term.selected_text(sel),
{
    let term = &emu.term;
    let s = sel.normalized();
    let ghost t = term@;
    let mut out = String::new();
    let mut row = s.start.0;
    while row <= s.end.0
        invariant_except_break
            s.start.0 <= row,
            row <= s.end.0 + 1,
            out@ == t.selected_before(s, row as int),
        invariant
            t == term@,
            t.wf(),
            s == ordered(sel),
            s.start.0 <= s.end.0,
        ensures
            out@ == t.selected_before(s, s.end.0 + 1),
        decreases s.end.0 - row + 1,
    {
        let line = match line_at(term, row) {
            Some(l) => l,
            None => {
                proof {
                    t.lemma_rows_beyond(s, row as int, s.end.0 + 1);
                }
                break;
            },
        };
        let part = part_text(line, s, row);
        let cs = chars_of(part.as_str());
        let ghost so_far = out@;
        append_text(&mut out, cs.as_slice());
        if row == s.end.0 {
            assert(out@ =~= so_far + t.selected_of_row(s, row as int));
            break;
        }
        out.push('\n');
        assert(out@ =~= so_far + t.selected_of_row(s, row as int));
        row = row + 1;
    }
    out
}

} // verus!
