//! What holds of every frame.

use vstd::prelude::*;

#[allow(unused_imports)]
use super::{CellDraw, FrameState, LineMark};
use crate::cell::Cell;
#[allow(unused_imports)]
use crate::cell::flags;
#[allow(unused_imports)]
use crate::config::Rgb;
#[allow(unused_imports)]
use crate::palette::{PaletteState, Shade};
#[allow(unused_imports)]
use crate::selection::{selected, Selection};

verus! {

/// The cursor is shown in one cell at most, and in none while the view is
/// scrolled back or the cursor is hidden.
pub proof fn law_one_cursor(f: FrameState, r0: int, c0: int, r1: int, c1: int)
    ensures
        f.cursor_at(r0, c0) && f.cursor_at(r1, c1) ==> r0 == r1 && c0 == c1,
        f.offset() > 0 ==> !f.cursor_at(r0, c0),
        !f.term.modes.show_cursor ==> !f.cursor_at(r0, c0),
{
}

/// Selecting a cell in inverse video shows it plain: the selection inverts, it
/// does not paint over.
pub proof fn law_selection_inverts(
    f: FrameState,
    g: FrameState,
    p: PaletteState,
    row: int,
    col: int,
    cell: Cell,
)
    requires
        g == (FrameState { selection: None, ..f }),
        f.selected_at(row, col),
        !f.cursor_at(row, col),
    ensures
        f.colors(p, row, col, cell) == (
            g.colors(p, row, col, cell).1,
            g.colors(p, row, col, cell).0,
        ),
{
}

/// A hidden cell shows no glyph and no line.
pub proof fn law_hidden_shows_nothing(
    f: FrameState,
    p: PaletteState,
    row: int,
    col: int,
    cell: Cell,
)
    ensures
        cell.flags & flags::HIDDEN != 0 ==> f.drawn(p, row, col, cell).glyph is None && f.drawn(
            p,
            row,
            col,
            cell,
        ).line is None,
{
}

/// What is highlighted is what is selected: in every row the line with some
/// index is shown, counting scrollback and screen as one list, and a cell of it
/// is drawn with its colors swapped exactly where the selection holds it under
/// that index.
pub proof fn law_highlight_is_the_selection(
    f: FrameState,
    p: PaletteState,
    s: Selection,
    row: int,
    col: int,
)
    requires
        f.term.wf(),
        f.view_offset >= 0,
        f.selection == Some(s),
        0 <= row < f.term.rows(),
        0 <= col < f.term.cols(),
        f.term.scrollback.len() + f.term.rows() <= usize::MAX,
    ensures
        ({
            let held = f.term.scrollback.len() as int;
            let back = if f.view_offset <= held {
                f.view_offset
            } else {
                held
            };
            let at = held - back + row;
            let cell = f.term.all_lines()[at][col];
            let bare = FrameState { selection: None, ..f };
            &&& 0 <= at < f.term.all_lines().len()
            &&& f.line(row) == f.term.all_lines()[at]
            &&& !f.cursor_at(row, col) ==> f.colors(p, row, col, cell) == (if selected(
                s,
                at as usize,
                col as usize,
            ) {
                (bare.colors(p, row, col, cell).1, bare.colors(p, row, col, cell).0)
            } else {
                bare.colors(p, row, col, cell)
            })
            &&& f.drawn(p, row, col, cell).ink == f.colors(p, row, col, cell).0
        }),
{
    assert(f.term.all_lines().len() == f.term.scrollback.len() + f.term.rows());
}

/// Without a selection a cell has the colors that the palette gives it, the
/// one of glyph and line before the one behind them; inverse video swaps them.
pub proof fn law_cell_colors(f: FrameState, p: PaletteState, row: int, col: int, cell: Cell)
    requires
        f.selection is None,
        !f.cursor_at(row, col) || !f.focused,
    ensures
        cell.flags & flags::INVERSE == 0 ==> f.colors(p, row, col, cell) == (
            p.fg_of(cell.fg, cell.flags),
            Shade { color: p.bg_of(cell.bg), dim: false },
        ),
        cell.flags & flags::INVERSE != 0 ==> f.colors(p, row, col, cell) == (
            Shade { color: p.bg_of(cell.bg), dim: false },
            p.fg_of(cell.fg, cell.flags),
        ),
{
}

/// The cursor is where the terminal has it: a block of its color in a focused
/// window, a bar in another, wherever the background is that of the screen.
pub proof fn law_cursor_is_shown(f: FrameState, p: PaletteState)
    requires
        f.term.wf(),
        f.term.modes.show_cursor,
        f.view_offset == 0,
        f.selection is None,
        p.cursor != p.bg,
    ensures
        ({
            let cell = f.term.grid.lines[f.term.y][f.term.x];
            let d = f.drawn(p, f.term.y, f.term.x, cell);
            &&& f.line(f.term.y)[f.term.x] == cell
            &&& f.focused ==> d.fill == Some(Shade { color: p.cursor, dim: false }) && d.ink
                == (Shade { color: p.bg, dim: false }) && !d.bar
            &&& !f.focused && cell.flags & flags::INVERSE == 0 && p.bg_of(cell.bg) == p.bg
                ==> d.bar && d.fill is None
        }),
{
}

/// A cell that is not hidden shows its character, unless that is a space, and
/// its line: underlined before struck through. Its background is filled only
/// where it is not that of the screen.
pub proof fn law_cell_is_shown(f: FrameState, p: PaletteState, row: int, col: int, cell: Cell)
    requires
        0 <= row <= usize::MAX,
        0 <= col <= usize::MAX,
        cell.flags & flags::HIDDEN == 0,
    ensures
        ({
            let d = f.drawn(p, row, col, cell);
            &&& d.row == row && d.col == col
            &&& cell.ch != ' ' ==> d.glyph == Some(cell.ch)
            &&& cell.ch == ' ' ==> d.glyph is None
            &&& d.wide <==> cell.flags & flags::WIDE != 0
            &&& d.line == Some(LineMark::Underline) <==> cell.flags & flags::UNDERLINE != 0
            &&& d.line is None <==> cell.flags & flags::UNDERLINE == 0 && cell.flags
                & flags::STRIKETHROUGH == 0
            &&& f.colors(p, row, col, cell).1.color != p.bg ==> d.fill == Some(
                f.colors(p, row, col, cell).1,
            )
            &&& f.colors(p, row, col, cell).1 == (Shade { color: p.bg, dim: false })
                ==> d.fill is None
        }),
{
}

/// Every cell of the lines shown is drawn, but for those right of a wide glyph.
pub proof fn law_every_cell_is_drawn(f: FrameState, p: PaletteState, row: int, col: int)
    requires
        0 <= row < f.term.rows(),
        0 <= col < f.term.cols(),
        f.line(row)[col].flags & flags::WIDE_SPACER == 0,
    ensures
        f.draws(p, f.term.rows()).contains(f.drawn(p, row, col, f.line(row)[col])),
{
    lemma_drawn_in_row(f, p, row, col, f.term.cols());
    lemma_drawn_in_frame(f, p, row, f.drawn(p, row, col, f.line(row)[col]), f.term.rows());
}

proof fn lemma_drawn_in_row(f: FrameState, p: PaletteState, row: int, col: int, n: int)
    requires
        0 <= col < n,
        f.line(row)[col].flags & flags::WIDE_SPACER == 0,
    ensures
        f.row_draws(p, row, n).contains(f.drawn(p, row, col, f.line(row)[col])),
    decreases n,
{
    let d = f.drawn(p, row, col, f.line(row)[col]);
    let before = f.row_draws(p, row, n - 1);
    if col < n - 1 {
        lemma_drawn_in_row(f, p, row, col, n - 1);
        let k = choose|k: int| 0 <= k < before.len() && before[k] == d;
        assert(f.row_draws(p, row, n)[k] == d);
    } else {
        assert(f.row_draws(p, row, n)[before.len() as int] == d);
    }
}

proof fn lemma_drawn_in_frame(f: FrameState, p: PaletteState, row: int, d: CellDraw, n: int)
    requires
        0 <= row < n,
        f.row_draws(p, row, f.term.cols()).contains(d),
    ensures
        f.draws(p, n).contains(d),
    decreases n,
{
    let before = f.draws(p, n - 1);
    let last = f.row_draws(p, n - 1, f.term.cols());
    if row < n - 1 {
        lemma_drawn_in_frame(f, p, row, d, n - 1);
        let k = choose|k: int| 0 <= k < before.len() && before[k] == d;
        assert((before + last)[k] == d);
    } else {
        let k = choose|k: int| 0 <= k < last.len() && last[k] == d;
        assert((before + last)[before.len() + k] == d);
    }
}

/// Nothing else is drawn: every draw is that of a cell of the lines shown.
pub proof fn law_only_cells_are_drawn(f: FrameState, p: PaletteState, n: int, i: int)
    requires
        0 <= n <= f.term.rows(),
        0 <= i < f.draws(p, n).len(),
    ensures
        exists|row: int, col: int|
            0 <= row < n && 0 <= col < f.term.cols() && f.draws(p, n)[i] == #[trigger] f.drawn(
                p,
                row,
                col,
                f.line(row)[col],
            ),
    decreases n,
{
    let before = f.draws(p, n - 1);
    if n > 0 {
        if i < before.len() {
            law_only_cells_are_drawn(f, p, n - 1, i);
        } else {
            lemma_only_cells_of_row(f, p, n - 1, f.term.cols(), i - before.len());
        }
    }
}

proof fn lemma_only_cells_of_row(f: FrameState, p: PaletteState, row: int, n: int, i: int)
    requires
        0 <= i < f.row_draws(p, row, n).len(),
    ensures
        exists|col: int|
            0 <= col < n && f.row_draws(p, row, n)[i] == #[trigger] f.drawn(
                p,
                row,
                col,
                f.line(row)[col],
            ),
    decreases n,
{
    if n > 0 {
        let before = f.row_draws(p, row, n - 1);
        if i < before.len() {
            lemma_only_cells_of_row(f, p, row, n - 1, i);
        } else {
            assert(f.row_draws(p, row, n)[i] == f.drawn(p, row, n - 1, f.line(row)[n - 1]));
        }
    }
}

/// A background is that of the screen where it has its color, dimmed only if
/// that shows: black is black. Anything else is filled, and the bar of an
/// unfocused cursor is drawn only where nothing is.
pub proof fn law_backgrounds_are_filled(
    f: FrameState,
    p: PaletteState,
    row: int,
    col: int,
    cell: Cell,
)
    ensures
        ({
            let behind = f.colors(p, row, col, cell).1;
            let d = f.drawn(p, row, col, cell);
            &&& d.fill is None <==> behind.color == p.bg && (!behind.dim || p.bg == (Rgb {
                r: 0,
                g: 0,
                b: 0,
            }))
            &&& d.fill is Some ==> d.fill == Some(behind)
            &&& d.bar <==> d.fill is None && f.cursor_at(row, col) && !f.focused
        }),
{
}

} // verus!
