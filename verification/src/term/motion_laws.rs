//! What holds of the cursor: where each sequence takes it from where it is.

use vstd::prelude::*;

use super::model::TermState;
#[allow(unused_imports)]
use super::model::{back_stops, count, default_stops, next_stop, position_report, prev_stop};
#[allow(unused_imports)]
use crate::parser::sequence_laws::{written_csi, written_params};

verus! {

/// One step: CUU goes up, CUD down, CUF right and CUB left, by one cell, on the
/// screen and, within the scroll region, in that. Nothing else changes but that
/// no wrap is due.
pub proof fn law_one_step(s: TermState)
    requires
        s.wf(),
    ensures
        s.csi_plain(seq![1u16], 0x41) == (TermState {
            y: if s.y == s.top || s.y == 0 {
                s.y
            } else {
                s.y - 1
            },
            pending_wrap: false,
            ..s
        }),
        s.csi_plain(seq![1u16], 0x42) == (TermState {
            y: if s.y == s.bot || s.y == s.rows() - 1 {
                s.y
            } else {
                s.y + 1
            },
            pending_wrap: false,
            ..s
        }),
        s.csi_plain(seq![1u16], 0x43) == (TermState {
            x: if s.x == s.cols() - 1 {
                s.x
            } else {
                s.x + 1
            },
            pending_wrap: false,
            ..s
        }),
        s.csi_plain(seq![1u16], 0x44) == (TermState {
            x: if s.x == 0 {
                s.x
            } else {
                s.x - 1
            },
            pending_wrap: false,
            ..s
        }),
{
}

/// Going on by so many cells and then by so many more is going on by as many
/// together, in each of the four directions, as long as the cursor does not
/// come into the scroll region from outside.
pub proof fn law_steps_add_up(s: TermState, a: u16, b: u16, action: u8)
    requires
        s.wf(),
        s.top <= s.y <= s.bot || action >= 0x43,
        a >= 1,
        b >= 1,
        a + b <= 0xffff,
        0x41 <= action <= 0x44,
    ensures
        s.csi_plain(seq![a], action).csi_plain(seq![b], action) == s.csi_plain(
            seq![(a + b) as u16],
            action,
        ),
{
    lemma_step_is_move(s, a, action);
    lemma_step_is_move(s.csi_plain(seq![a], action), b, action);
    lemma_step_is_move(s, (a + b) as u16, action);
}

/// How far a step goes, to the right and down.
spec fn step_of(n: int, action: u8) -> (int, int) {
    if action == 0x41 {
        (0, -n)
    } else if action == 0x42 {
        (0, n)
    } else if action == 0x43 {
        (n, 0)
    } else {
        (-n, 0)
    }
}

proof fn lemma_step_is_move(s: TermState, n: u16, action: u8)
    requires
        n >= 1,
        0x41 <= action <= 0x44,
    ensures
        s.csi_plain(seq![n], action) == s.moved(step_of(n as int, action).0, step_of(
            n as int,
            action,
        ).1),
{
    assert(count(seq![n], 0) == n);
}

/// From outside the scroll region the cursor goes up and down by as many rows
/// as it is told, through the region, to the edge of the screen.
pub proof fn law_steps_from_outside(s: TermState, n: u16)
    requires
        s.wf(),
        n >= 1,
        s.y < s.top || s.y > s.bot,
    ensures
        s.csi_plain(seq![n], 0x41).y == (if n <= s.y {
            s.y - n
        } else {
            0
        }),
        s.csi_plain(seq![n], 0x42).y == (if s.y + n < s.rows() {
            s.y + n
        } else {
            s.rows() - 1
        }),
{
}

/// A count that is not given, or 0, is 1: of cells and lines, rows and columns.
pub proof fn law_missing_count_is_one(s: TermState, action: u8)
    requires
        0x41 <= action <= 0x48 || action == 0x64 || action == 0x66 || action == 0x4c || action
            == 0x4d || action == 0x50 || action == 0x40 || action == 0x58 || action == 0x53
            || action == 0x54 || action == 0x5a,
    ensures
        s.csi_plain(Seq::empty(), action) == s.csi_plain(seq![1u16], action),
        s.csi_plain(seq![0u16], action) == s.csi_plain(seq![1u16], action),
{
}

/// CNL and CPL are a carriage return and as many lines down or up.
pub proof fn law_next_and_previous_line(s: TermState, params: Seq<u16>)
    ensures
        s.csi_plain(params, 0x45) == s.controlled(0x0d).csi_plain(params, 0x42),
        s.csi_plain(params, 0x46) == s.controlled(0x0d).csi_plain(params, 0x41),
{
}

/// CHA puts the cursor in a column, counted from 1, or in the last one where
/// there are not so many; nothing else changes.
pub proof fn law_column_set(s: TermState, n: u16)
    requires
        s.wf(),
        n >= 1,
    ensures
        s.csi_plain(seq![n], 0x47) == (TermState {
            x: if n <= s.cols() {
                n - 1
            } else {
                s.cols() - 1
            },
            pending_wrap: false,
            ..s
        }),
{
}

/// CUP and HVP put the cursor in a row and a column, counted from 1, and on the
/// edge where there are not so many. The row counts on the screen, and in origin
/// mode from the top of the scroll region, which the cursor then does not leave.
pub proof fn law_position_set(s: TermState, row: u16, col: u16)
    requires
        s.wf(),
        row >= 1,
        col >= 1,
    ensures
        ({
            let first = if s.motion.origin {
                s.top
            } else {
                0
            };
            let last = if s.motion.origin {
                s.bot
            } else {
                s.rows() - 1
            };
            s.csi_plain(seq![row, col], 0x48) == (TermState {
                x: if col <= s.cols() {
                    col - 1
                } else {
                    s.cols() - 1
                },
                y: if first + row - 1 <= last {
                    first + row - 1
                } else {
                    last
                },
                pending_wrap: false,
                ..s
            })
        }),
        s.csi_plain(seq![row, col], 0x66) == s.csi_plain(seq![row, col], 0x48),
        s.csi_plain(seq![row], 0x48) == s.csi_plain(seq![row, 1], 0x48),
{
}

/// VPA puts the cursor in a row and leaves its column; outside origin mode it
/// is CUP to that column.
pub proof fn law_row_set(s: TermState, row: u16)
    requires
        s.wf(),
        row >= 1,
    ensures
        s.csi_plain(seq![row], 0x64).x == s.x,
        !s.motion.origin && s.x < 0xffff ==> s.csi_plain(seq![row], 0x64) == s.csi_plain(
            seq![row, (s.x + 1) as u16],
            0x48,
        ),
        s.motion.origin && s.top + row - 1 < s.rows() ==> s.csi_plain(seq![row], 0x64).y == s.top
            + row - 1,
        s.csi_plain(seq![row], 0x64) == (TermState {
            y: s.csi_plain(seq![row], 0x64).y,
            pending_wrap: false,
            ..s
        }),
{
}

/// The position that is reported leads back: as the parameters of CUP it puts
/// the cursor where it was, wherever that has gone since.
pub proof fn law_reported_position_leads_back(s: TermState, t: TermState)
    requires
        s.wf(),
        s.x < 0xffff,
        s.y < 0xffff,
        s.motion.origin ==> s.top <= s.y <= s.bot,
        t.grid.cols == s.grid.cols,
        t.grid.rows == s.grid.rows,
        t.motion == s.motion,
        t.top == s.top,
        t.bot == s.bot,
    ensures
        ({
            let row = s.reported_row() as u16;
            let col = (s.x + 1) as u16;
            let there = t.csi_plain(seq![row, col], 0x48);
            &&& s.csi_plain(seq![6u16], 0x6e) == s.replied(written_csi(0, seq![row, col], 0x52))
            &&& there.x == s.x
            &&& there.y == s.y
        }),
{
    let row = s.reported_row() as u16;
    let col = (s.x + 1) as u16;
    reveal_with_fuel(written_params, 3);
    assert(seq![row, col].drop_last() =~= seq![row]);
    assert(written_csi(0, seq![row, col], 0x52) =~= position_report(row as nat, col as nat));
}

/// A backspace goes one column left, a carriage return to the first; neither
/// leaves the row, nor does either touch the screen.
pub proof fn law_backspace_and_return(s: TermState)
    requires
        s.wf(),
    ensures
        s.controlled(0x08) == s.csi_plain(seq![1u16], 0x44),
        s.controlled(0x0d) == s.csi_plain(seq![1u16], 0x47),
{
}

/// A tab goes to the next tab stop right of the cursor, or to the last column
/// where there is none: none that it passes is a stop.
pub proof fn law_tab(s: TermState)
    requires
        s.wf(),
    ensures
        ({
            let to = s.controlled(0x09).x;
            &&& s.controlled(0x09) == (TermState { x: to, pending_wrap: false, ..s })
            &&& s.x < s.cols() - 1 ==> s.x < to < s.cols()
            &&& s.x == s.cols() - 1 ==> to == s.x
            &&& to == s.cols() - 1 || s.tabstops[to]
            &&& forall|i: int| s.x < i < to ==> !(#[trigger] s.tabstops[i])
        }),
{
    lemma_next_stop_is_next(s.tabstops, s.x + 1);
}

proof fn lemma_next_stop_is_next(stops: Seq<bool>, i: int)
    requires
        0 <= i <= stops.len(),
        0 < stops.len(),
    ensures
        ({
            let to = next_stop(stops, i);
            &&& i < stops.len() ==> i <= to < stops.len()
            &&& i == stops.len() ==> to == stops.len() - 1
            &&& to == stops.len() - 1 || stops[to]
            &&& forall|k: int| i <= k < to ==> !(#[trigger] stops[k])
        }),
    decreases stops.len() - i,
{
    if i < stops.len() - 1 && !stops[i] {
        lemma_next_stop_is_next(stops, i + 1);
    }
}

/// Where no tab stop was set or cleared, a tab goes to the next column whose
/// number, from 0, is a multiple of eight.
pub proof fn law_default_tabs(s: TermState)
    requires
        s.wf(),
        s.tabstops == default_stops(s.cols()),
    ensures
        ({
            let to = (s.x / 8 + 1) * 8;
            s.controlled(0x09).x == (if to < s.cols() {
                to
            } else {
                s.cols() - 1
            })
        }),
        TermState::fresh(s.cols(), s.rows(), 0).tabstops == s.tabstops,
{
    law_tab(s);
    let to = s.controlled(0x09).x;
    let due = (s.x / 8 + 1) * 8;
    assert(due % 8 == 0 && s.x < due <= s.x + 8);
    if due < to {
        assert(s.tabstops[due]);
    }
    if to < due && to < s.cols() - 1 {
        assert(s.tabstops[to] && to % 8 == 0);
    }
}

/// A back tab goes to the last tab stop left of the cursor, or to the first
/// column where there is none; so many back tabs are as many single ones.
pub proof fn law_back_tab(s: TermState, n: u16)
    requires
        s.wf(),
        n >= 1,
    ensures
        ({
            let once = s.csi_plain(seq![1u16], 0x5a);
            &&& once == (TermState { x: once.x, pending_wrap: false, ..s })
            &&& s.x > 0 ==> 0 <= once.x < s.x
            &&& s.x == 0 ==> once.x == 0
            &&& once.x == 0 || s.tabstops[once.x]
            &&& forall|i: int| once.x < i < s.x ==> !(#[trigger] s.tabstops[i])
            &&& n < 0xffff ==> once.csi_plain(seq![n], 0x5a) == s.csi_plain(
                seq![(n + 1) as u16],
                0x5a,
            )
        }),
{
    lemma_prev_stop_is_last(s.tabstops, s.x);
    reveal_with_fuel(back_stops, 2);
}

proof fn lemma_prev_stop_is_last(stops: Seq<bool>, x: int)
    requires
        0 <= x <= stops.len(),
    ensures
        ({
            let to = prev_stop(stops, x);
            &&& 0 <= to
            &&& x > 0 ==> to < x
            &&& x == 0 ==> to == 0
            &&& to == 0 || stops[to]
            &&& forall|k: int| to < k < x ==> !(#[trigger] stops[k])
        }),
    decreases x,
{
    if x > 0 && !stops[x - 1] {
        lemma_prev_stop_is_last(stops, x - 1);
    }
}

/// HTS sets a tab stop under the cursor and TBC clears it, or all of them; no
/// other stop changes, nor does anything else.
pub proof fn law_tab_stops(s: TermState, i: int)
    requires
        s.wf(),
        0 <= i < s.cols(),
    ensures
        s.escaped(Seq::empty(), 0x48).tabstops[i] == (i == s.x || s.tabstops[i]),
        s.csi_plain(seq![0u16], 0x67).tabstops[i] == (i != s.x && s.tabstops[i]),
        s.csi_plain(Seq::empty(), 0x67).tabstops[i] == (i != s.x && s.tabstops[i]),
        !s.csi_plain(seq![3u16], 0x67).tabstops[i],
        s.escaped(Seq::empty(), 0x48) == (TermState {
            tabstops: s.escaped(Seq::empty(), 0x48).tabstops,
            ..s
        }),
        s.csi_plain(seq![0u16], 0x67) == (TermState {
            tabstops: s.csi_plain(seq![0u16], 0x67).tabstops,
            ..s
        }),
        s.csi_plain(seq![3u16], 0x67) == (TermState {
            tabstops: s.csi_plain(seq![3u16], 0x67).tabstops,
            ..s
        }),
{
}

/// A line feed goes one row down in the same column, and at the bottom of the
/// scroll region scrolls that by a row instead. Vertical tab and form feed do
/// the same.
pub proof fn law_line_feed(s: TermState)
    requires
        s.wf(),
    ensures
        s.controlled(0x0a).x == s.x,
        !s.controlled(0x0a).pending_wrap,
        s.y != s.bot && s.y < s.rows() - 1 ==> s.controlled(0x0a).y == s.y + 1 && s.controlled(
            0x0a,
        ).grid == s.grid && s.controlled(0x0a).scrollback == s.scrollback,
        s.y == s.bot ==> s.controlled(0x0a).y == s.y && s.controlled(0x0a).grid
            == s.csi_plain(seq![1u16], 0x53).grid && s.controlled(0x0a).scrollback
            == s.csi_plain(seq![1u16], 0x53).scrollback,
        s.y != s.bot && s.y == s.rows() - 1 ==> s.controlled(0x0a).y == s.y && s.controlled(
            0x0a,
        ).grid == s.grid,
        s.controlled(0x0b) == s.controlled(0x0a),
        s.controlled(0x0c) == s.controlled(0x0a),
        s.escaped(Seq::empty(), 0x44) == (TermState {
            blocks: s.blocks,
            ..s.controlled(0x0a)
        }),
        s.escaped(Seq::empty(), 0x45) == s.controlled(0x0d).escaped(Seq::empty(), 0x44),
{
}

/// A reverse index goes one row up, and at the top of the scroll region scrolls
/// that down by a row instead. An index away from the edges is undone by it.
pub proof fn law_reverse_index(s: TermState)
    requires
        s.wf(),
    ensures
        ({
            let up = s.escaped(Seq::empty(), 0x4d);
            &&& up.x == s.x && !up.pending_wrap && up.scrollback == s.scrollback
            &&& s.y != s.top && s.y > 0 ==> up.y == s.y - 1 && up.grid == s.grid
            &&& s.y != s.top && s.y == 0 ==> up.y == 0 && up.grid == s.grid
            &&& s.y == s.top ==> up.y == s.y && up.grid == s.csi_plain(seq![1u16], 0x54).grid
            &&& s.y != s.bot && s.y < s.rows() - 1 && s.y + 1 != s.top ==> s.escaped(
                Seq::empty(),
                0x44,
            ).escaped(Seq::empty(), 0x4d) == (TermState { pending_wrap: false, ..s })
        }),
{
}

/// The cursor is saved and restored by CSI s and u as by ESC 7 and 8.
pub proof fn law_saving_has_two_names(s: TermState, params: Seq<u16>)
    ensures
        s.csi_plain(params, 0x73) == s.escaped(Seq::empty(), 0x37),
        s.csi_plain(params, 0x75) == s.escaped(Seq::empty(), 0x38),
        s.wf() ==> s.escaped(Seq::empty(), 0x37).escaped(Seq::empty(), 0x38) == s.escaped(
            Seq::empty(),
            0x37,
        ),
        s.escaped(Seq::empty(), 0x37).x == s.x && s.escaped(Seq::empty(), 0x37).y == s.y,
{
}

} // verus!
