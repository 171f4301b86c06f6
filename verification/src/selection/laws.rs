//! What holds of selections.

use vstd::prelude::*;

#[allow(unused_imports)]
use super::{at_or_before, ordered, selected, Selection};
#[allow(unused_imports)]
use crate::grid::{lemma_line_fits, line_text};
#[allow(unused_imports)]
use crate::term::model::TermState;

verus! {

/// A normalized selection starts before it ends, and stays as it is.
pub proof fn law_normalized_is_ordered(s: Selection)
    ensures
        at_or_before(ordered(s).start, ordered(s).end),
        ordered(ordered(s)) == ordered(s),
{
}

/// In which direction the mouse was dragged makes no difference to what is
/// selected, and both ends of the drag are.
pub proof fn law_direction_makes_no_difference(s: Selection, row: usize, col: usize)
    ensures
        ({
            let back = Selection { start: s.end, end: s.start };
            selected(back, row, col) == selected(s, row, col)
        }),
        selected(s, s.start.0, s.start.1),
        selected(s, s.end.0, s.end.1),
{
}

/// What lies between two selected cells in reading order is selected.
pub proof fn law_selection_has_no_gaps(
    s: Selection,
    a: (usize, usize),
    b: (usize, usize),
    c: (usize, usize),
)
    requires
        selected(s, a.0, a.1),
        selected(s, c.0, c.1),
        at_or_before(a, b),
        at_or_before(b, c),
    ensures
        selected(s, b.0, b.1),
{
}

/// What is copied of a row is the text of the cells that are highlighted in it,
/// from the first of them to the last.
pub proof fn law_copied_is_highlighted(t: TermState, s: Selection, row: int)
    requires
        t.wf(),
        at_or_before(s.start, s.end),
        s.start.0 <= row <= s.end.0,
        row < t.all_lines().len(),
        s.start.1 < t.cols(),
        s.end.1 < t.cols(),
    ensures
        exists|from: int, to: int|
            0 <= from <= to < t.cols() && t.selected_of_row(s, row) == (if row == s.end.0 {
                line_text(#[trigger] t.all_lines()[row].subrange(from, to + 1))
            } else {
                line_text(t.all_lines()[row].subrange(from, to + 1)).push('\n')
            }) && (forall|col: int|
                0 <= col < t.cols() ==> (from <= col <= to <==> #[trigger] selected(
                    s,
                    row as usize,
                    col as usize,
                ))),
{
    if row < t.scrollback.len() {
        lemma_line_fits(t.scrollback, t.cols(), row);
    } else {
        lemma_line_fits(t.grid.lines, t.cols(), row - t.scrollback.len());
    }
    let from = if row == s.start.0 {
        s.start.1 as int
    } else {
        0
    };
    let to = if row == s.end.0 {
        s.end.1 as int
    } else {
        t.cols() - 1
    };
    let part = t.all_lines()[row].subrange(from, to + 1);
    assert(t.selected_of_row(s, row) == (if row == s.end.0 {
        line_text(part)
    } else {
        line_text(part).push('\n')
    }));
}

/// What is copied of a selection within one row is the text of its cells, both
/// ends of the drag among them.
pub proof fn law_copy_within_a_row(t: TermState, row: usize, from: usize, to: usize)
    requires
        t.wf(),
        row < t.all_lines().len(),
        from <= to < t.cols(),
    ensures
        t.selected_text(Selection { start: (row, from), end: (row, to) }) == line_text(
            t.all_lines()[row as int].subrange(from as int, to + 1),
        ),
        t.selected_text(Selection { start: (row, to), end: (row, from) }) == line_text(
            t.all_lines()[row as int].subrange(from as int, to + 1),
        ),
{
    if row < t.scrollback.len() {
        lemma_line_fits(t.scrollback, t.cols(), row as int);
    } else {
        lemma_line_fits(t.grid.lines, t.cols(), row - t.scrollback.len());
    }
    let s = Selection { start: (row, from), end: (row, to) };
    assert(t.selected_before(s, row as int) =~= Seq::empty());
    assert(t.selected_before(s, row + 1) =~= t.selected_of_row(s, row as int));
}

/// Rows are copied one under the other: a selection that reaches into the next
/// row copies what it has up to the end of the one before, a line end, and what
/// it has of the next.
pub proof fn law_copy_joins_rows(t: TermState, start: (usize, usize), row: usize, to: usize)
    requires
        t.wf(),
        start.0 <= row,
        row + 1 < t.all_lines().len(),
        row + 1 <= usize::MAX,
        t.cols() <= usize::MAX,
        start.1 < t.cols(),
        to < t.cols(),
    ensures
        ({
            let next = (row + 1) as usize;
            let last = (t.cols() - 1) as usize;
            t.selected_text(Selection { start, end: (next, to) }) == t.selected_text(
                Selection { start, end: (row, last) },
            ).push('\n') + t.selected_text(Selection { start: (next, 0), end: (next, to) })
        }),
{
    let next = (row + 1) as usize;
    let last = (t.cols() - 1) as usize;
    let s = Selection { start, end: (next, to) };
    let a = Selection { start, end: (row, last) };
    let b = Selection { start: (next, 0), end: (next, to) };
    law_copy_within_a_row(t, next, 0, to);
    assert(t.all_lines()[row as int].len() == t.cols() && t.all_lines()[row + 1].len()
        == t.cols()) by {
        reveal(crate::grid::lines_fit);
    }
    lemma_same_before(t, s, a, row as int);
    assert(t.selected_before(s, row + 2) == t.selected_before(s, row + 1) + t.selected_of_row(
        s,
        row + 1,
    ));
    assert(t.selected_of_row(s, row as int) == t.selected_of_row(a, row as int).push('\n'));
    assert(t.selected_before(s, row + 1) =~= t.selected_before(a, row + 1).push('\n'));
    assert(t.selected_of_row(s, row + 1) == t.selected_text(b));
}

proof fn lemma_same_before(t: TermState, s: Selection, a: Selection, row: int)
    requires
        s.start == a.start,
        row <= s.end.0,
        row <= a.end.0,
    ensures
        t.selected_before(s, row) == t.selected_before(a, row),
    decreases row,
{
    if row > s.start.0 && row > 0 {
        lemma_same_before(t, s, a, row - 1);
    }
}

} // verus!
