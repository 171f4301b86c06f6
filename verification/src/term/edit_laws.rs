//! What holds of the cells: what erasing, inserting, deleting and scrolling
//! leave in each of them.

use vstd::prelude::*;

use super::model::TermState;
use crate::cell::{Cell, Color};
#[allow(unused_imports)]
use crate::grid::lemma_line_fits;

verus! {

/// Nothing but the cells of the screen is different, and no wrap is due.
pub open spec fn only_cells_differ(a: TermState, b: TermState) -> bool {
    a == (TermState { grid: a.grid, pending_wrap: false, ..b })
}

/// A space in the default color on the background `bg`, with no attribute.
pub open spec fn empty_on(bg: Color) -> Cell {
    Cell { ch: ' ', fg: Color::Default, bg, flags: 0 }
}

/// EL empties the line from the cursor on (0), up to the cursor (1), or all of
/// it (2), on the background of the pen, and leaves every other cell.
pub proof fn law_erase_in_line(s: TermState, x: int, y: int)
    requires
        s.wf(),
        0 <= x < s.cols(),
        0 <= y < s.rows(),
    ensures
        s.csi_plain(seq![0u16], 0x4b).grid.at(x, y) == (if y == s.y && x >= s.x {
            empty_on(s.pen.bg)
        } else {
            s.grid.at(x, y)
        }),
        s.csi_plain(seq![1u16], 0x4b).grid.at(x, y) == (if y == s.y && x <= s.x {
            empty_on(s.pen.bg)
        } else {
            s.grid.at(x, y)
        }),
        s.csi_plain(seq![2u16], 0x4b).grid.at(x, y) == (if y == s.y {
            empty_on(s.pen.bg)
        } else {
            s.grid.at(x, y)
        }),
        only_cells_differ(s.csi_plain(seq![0u16], 0x4b), s),
        only_cells_differ(s.csi_plain(seq![1u16], 0x4b), s),
        only_cells_differ(s.csi_plain(seq![2u16], 0x4b), s),
        s.csi_plain(Seq::empty(), 0x4b) == s.csi_plain(seq![0u16], 0x4b),
{
    lemma_line_fits(s.grid.lines, s.cols(), s.y);
}

/// Whether `(x, y)` is the cursor's cell or comes behind it in reading order.
pub open spec fn from_cursor(s: TermState, x: int, y: int) -> bool {
    y > s.y || (y == s.y && x >= s.x)
}

/// Whether `(x, y)` is the cursor's cell or comes before it in reading order.
pub open spec fn to_cursor(s: TermState, x: int, y: int) -> bool {
    y < s.y || (y == s.y && x <= s.x)
}

/// ED empties the screen from the cursor on (0), up to the cursor (1), or all of
/// it (2 and 3), on the background of the pen, and leaves every other cell. 3
/// forgets the scrollback too, and nothing else does.
pub proof fn law_erase_in_display(s: TermState, x: int, y: int)
    requires
        s.wf(),
        0 <= x < s.cols(),
        0 <= y < s.rows(),
    ensures
        s.csi_plain(seq![0u16], 0x4a).grid.at(x, y) == (if from_cursor(s, x, y) {
            empty_on(s.pen.bg)
        } else {
            s.grid.at(x, y)
        }),
        s.csi_plain(seq![1u16], 0x4a).grid.at(x, y) == (if to_cursor(s, x, y) {
            empty_on(s.pen.bg)
        } else {
            s.grid.at(x, y)
        }),
        s.csi_plain(seq![2u16], 0x4a).grid.at(x, y) == empty_on(s.pen.bg),
        s.csi_plain(seq![3u16], 0x4a).grid.at(x, y) == empty_on(s.pen.bg),
        only_cells_differ(s.csi_plain(seq![0u16], 0x4a), s),
        only_cells_differ(s.csi_plain(seq![1u16], 0x4a), s),
        only_cells_differ(s.csi_plain(seq![2u16], 0x4a), s),
        s.csi_plain(seq![3u16], 0x4a).scrollback.len() == 0,
        s.csi_plain(seq![3u16], 0x4a).x == s.x && s.csi_plain(seq![3u16], 0x4a).y == s.y,
        s.csi_plain(Seq::empty(), 0x4a) == s.csi_plain(seq![0u16], 0x4a),
{
    lemma_line_fits(s.grid.lines, s.cols(), s.y);
    lemma_line_fits(s.grid.lines, s.cols(), y);
}

/// ECH empties so many cells from the cursor on, on the background of the pen,
/// and leaves every other cell and the cursor.
pub proof fn law_erase_chars(s: TermState, n: u16, x: int, y: int)
    requires
        s.wf(),
        n >= 1,
        0 <= x < s.cols(),
        0 <= y < s.rows(),
    ensures
        s.csi_plain(seq![n], 0x58).grid.at(x, y) == (if y == s.y && s.x <= x < s.x + n {
            empty_on(s.pen.bg)
        } else {
            s.grid.at(x, y)
        }),
        s.csi_plain(seq![n], 0x58) == (TermState { grid: s.csi_plain(seq![n], 0x58).grid, ..s }),
{
    lemma_line_fits(s.grid.lines, s.cols(), s.y);
}

/// DCH takes so many cells out of the line: the rest of it closes up, and empty
/// cells come in at its end.
pub proof fn law_delete_chars(s: TermState, n: u16, x: int, y: int)
    requires
        s.wf(),
        n >= 1,
        0 <= x < s.cols(),
        0 <= y < s.rows(),
    ensures
        s.csi_plain(seq![n], 0x50).grid.at(x, y) == (if y != s.y || x < s.x {
            s.grid.at(x, y)
        } else if x + n < s.cols() {
            s.grid.at(x + n, y)
        } else {
            empty_on(s.pen.bg)
        }),
        s.csi_plain(seq![n], 0x50) == (TermState { grid: s.csi_plain(seq![n], 0x50).grid, ..s }),
{
    lemma_line_fits(s.grid.lines, s.cols(), s.y);
}

/// ICH puts so many empty cells into the line: the rest of it moves right, and
/// what runs off is lost.
pub proof fn law_insert_chars(s: TermState, n: u16, x: int, y: int)
    requires
        s.wf(),
        n >= 1,
        0 <= x < s.cols(),
        0 <= y < s.rows(),
    ensures
        s.csi_plain(seq![n], 0x40).grid.at(x, y) == (if y != s.y || x < s.x {
            s.grid.at(x, y)
        } else if x < s.x + n {
            empty_on(s.pen.bg)
        } else {
            s.grid.at(x - n, y)
        }),
        s.csi_plain(seq![n], 0x40) == (TermState { grid: s.csi_plain(seq![n], 0x40).grid, ..s }),
{
    lemma_line_fits(s.grid.lines, s.cols(), s.y);
}

/// Cells that are put in and taken out again leave what did not run off the
/// line in its place.
pub proof fn law_inserted_chars_come_out(s: TermState, n: u16, x: int)
    requires
        s.wf(),
        n >= 1,
        0 <= x,
        x + n < s.cols(),
    ensures
        s.csi_plain(seq![n], 0x40).csi_plain(seq![n], 0x50).grid.at(x, s.y) == s.grid.at(x, s.y),
{
    let t = s.csi_plain(seq![n], 0x40);
    lemma_line_fits(s.grid.lines, s.cols(), s.y);
    assert(t.grid.lines[t.y].len() == s.cols());
}

/// SU moves the lines of the scroll region up by so many rows, and SD down;
/// empty lines in the default colors come in. No other line moves, nor does the
/// cursor.
pub proof fn law_scroll_region(s: TermState, n: u16, x: int, y: int)
    requires
        s.wf(),
        n >= 1,
        0 <= x < s.cols(),
        0 <= y < s.rows(),
    ensures
        s.csi_plain(seq![n], 0x53).grid.at(x, y) == (if y < s.top || y > s.bot {
            s.grid.at(x, y)
        } else if y + n <= s.bot {
            s.grid.at(x, y + n)
        } else {
            empty_on(Color::Default)
        }),
        s.csi_plain(seq![n], 0x54).grid.at(x, y) == (if y < s.top || y > s.bot {
            s.grid.at(x, y)
        } else if y - n >= s.top {
            s.grid.at(x, y - n)
        } else {
            empty_on(Color::Default)
        }),
        s.csi_plain(seq![n], 0x53) == (TermState {
            grid: s.csi_plain(seq![n], 0x53).grid,
            scrollback: s.csi_plain(seq![n], 0x53).scrollback,
            ..s
        }),
        s.csi_plain(seq![n], 0x54) == (TermState { grid: s.csi_plain(seq![n], 0x54).grid, ..s }),
{
}

/// IL and DL scroll the lines from the cursor's to the bottom of the scroll
/// region, down or up, and take the cursor to the first column. Outside the
/// region they do nothing.
pub proof fn law_insert_and_delete_lines(s: TermState, n: u16, x: int, y: int)
    requires
        s.wf(),
        n >= 1,
        0 <= x < s.cols(),
        0 <= y < s.rows(),
    ensures
        s.y < s.top || s.y > s.bot ==> s.csi_plain(seq![n], 0x4c) == s && s.csi_plain(
            seq![n],
            0x4d,
        ) == s,
        s.top <= s.y <= s.bot ==> {
            let grown = s.csi_plain(seq![n], 0x4c);
            let shrunk = s.csi_plain(seq![n], 0x4d);
            &&& grown.grid.at(x, y) == (if y < s.y || y > s.bot {
                s.grid.at(x, y)
            } else if y - n >= s.y {
                s.grid.at(x, y - n)
            } else {
                empty_on(Color::Default)
            })
            &&& shrunk.grid.at(x, y) == (if y < s.y || y > s.bot {
                s.grid.at(x, y)
            } else if y + n <= s.bot {
                s.grid.at(x, y + n)
            } else {
                empty_on(Color::Default)
            })
            &&& only_cells_differ(grown, TermState { x: 0, ..s })
            &&& only_cells_differ(shrunk, TermState { x: 0, ..s })
        },
{
}

/// Lines that leave the top of the full primary screen go to the scrollback,
/// the newest last, and the oldest make room there. Lines that leave a smaller
/// scroll region, or the alternate screen, are lost.
pub proof fn law_lines_go_to_the_scrollback(s: TermState, n: u16, i: int)
    requires
        s.wf(),
        1 <= n <= s.bot - s.top + 1,
    ensures
        ({
            let kept = s.csi_plain(seq![n], 0x53).scrollback;
            let all = s.scrollback.len() + n;
            &&& s.alt_active || s.top > 0 || s.bot < s.rows() - 1 ==> kept == s.scrollback
            &&& !s.alt_active && s.top == 0 && s.bot == s.rows() - 1 ==> {
                &&& kept.len() == (if all <= s.max_scrollback {
                    all
                } else {
                    s.max_scrollback
                })
                &&& 0 <= i < kept.len() && i < n ==> kept[kept.len() - 1 - i] == s.grid.lines[n - 1
                    - i]
                &&& n <= i < kept.len() ==> kept[kept.len() - 1 - i]
                    == s.scrollback[s.scrollback.len() + n - 1 - i]
            }
        }),
{
}

/// DECSTBM sets the scroll region to the rows that it names, counted from 1,
/// where those are two or more on the screen, and takes the cursor home; to the
/// whole screen where it names none. Otherwise it does nothing.
pub proof fn law_scroll_region_set(s: TermState, first: u16, last: u16)
    requires
        s.wf(),
        first >= 1,
        last >= 1,
    ensures
        first < last <= s.rows() ==> s.csi_plain(seq![first, last], 0x72) == (TermState {
            top: first - 1,
            bot: last - 1,
            x: 0,
            y: if s.motion.origin {
                first - 1
            } else {
                0
            },
            pending_wrap: false,
            ..s
        }),
        !(first < last <= s.rows()) ==> s.csi_plain(seq![first, last], 0x72) == s,
        s.rows() > 1 ==> s.csi_plain(Seq::empty(), 0x72).top == 0 && s.csi_plain(
            Seq::empty(),
            0x72,
        ).bot == s.rows() - 1,
        s.rows() > first ==> s.csi_plain(seq![first], 0x72).top == first - 1 && s.csi_plain(
            seq![first],
            0x72,
        ).bot == s.rows() - 1,
{
}

/// DECALN fills the screen with the letter E, in the default colors.
pub proof fn law_alignment_pattern(s: TermState, x: int, y: int)
    requires
        s.wf(),
        0 <= x < s.cols(),
        0 <= y < s.rows(),
    ensures
        s.escaped(seq![0x23u8], 0x38).grid.at(x, y) == (Cell {
            ch: 'E',
            fg: Color::Default,
            bg: Color::Default,
            flags: 0,
        }),
        s.escaped(seq![0x23u8], 0x38) == (TermState {
            grid: s.escaped(seq![0x23u8], 0x38).grid,
            ..s
        }),
{
}

} // verus!
