//! Every operation keeps a terminal well-formed, and the bound on its
//! scrollback as it is.

use vstd::prelude::*;

#[allow(unused_imports)]
use super::model::{
    back_stops, count, delete_cells, insert_cells, param, prev_stop, EventState, TermState,
};
#[allow(unused_imports)]
use super::{Charsets, Modes, Motion};
#[allow(unused_imports)]
use crate::blocks::BlocksState;
#[allow(unused_imports)]
use crate::cell::{flags, Cell, Color};
#[allow(unused_imports)]
use crate::grid::{clear_cells, lemma_line_fits, lines_fit, min, shift_cells_right, GridState};
#[allow(unused_imports)]
use crate::osc::{decode_633_text, file_url_path, read_exit_code};
#[allow(unused_imports)]
use crate::stdx::lossy_text;
#[allow(unused_imports)]
use crate::text::{after, before};
#[allow(unused_imports)]
use crate::width::columns_of;

verus! {

/// Whether `t`, which came of `s`, is well-formed and has the same bound on its
/// scrollback.
#[verifier::opaque]
pub open spec fn keeps(s: TermState, t: TermState) -> bool {
    t.wf() && t.max_scrollback == s.max_scrollback
}

proof fn lemma_same(s: TermState)
    requires
        s.wf(),
    ensures
        keeps(s, s),
{
    reveal(keeps);
}

proof fn lemma_put_modes(s: TermState, modes: Modes)
    requires
        s.wf(),
    ensures
        keeps(s, TermState { modes, ..s }),
{
    reveal(keeps);
}

proof fn lemma_put_motion(s: TermState, motion: Motion)
    requires
        s.wf(),
    ensures
        keeps(s, TermState { motion, ..s }),
{
    reveal(keeps);
}

proof fn lemma_put_charsets(s: TermState, charsets: Charsets)
    requires
        s.wf(),
    ensures
        keeps(s, TermState { charsets, ..s }),
{
    reveal(keeps);
}

proof fn lemma_put_pen(s: TermState, pen: Cell)
    requires
        s.wf(),
    ensures
        keeps(s, TermState { pen, ..s }),
{
    reveal(keeps);
}

proof fn lemma_put_responses(s: TermState, responses: Seq<u8>)
    requires
        s.wf(),
    ensures
        keeps(s, TermState { responses, ..s }),
{
    reveal(keeps);
}

proof fn lemma_put_tabstops(s: TermState, tabstops: Seq<bool>)
    requires
        s.wf(),
        tabstops.len() == s.cols(),
    ensures
        keeps(s, TermState { tabstops, ..s }),
{
    reveal(keeps);
}

proof fn lemma_put_x(s: TermState, x: int)
    requires
        s.wf(),
        0 <= x < s.cols(),
    ensures
        keeps(s, TermState { x, pending_wrap: false, ..s }),
{
    reveal(keeps);
}

proof fn lemma_put_y(s: TermState, y: int)
    requires
        s.wf(),
        0 <= y < s.rows(),
    ensures
        keeps(s, TermState { y, pending_wrap: false, ..s }),
{
    reveal(keeps);
}

proof fn lemma_put_grid(s: TermState, grid: GridState)
    requires
        s.wf(),
        grid.wf(),
        grid.cols == s.cols(),
        grid.rows == s.rows(),
    ensures
        keeps(s, TermState { grid, ..s }),
{
    reveal(keeps);
}

proof fn lemma_captured(s: TermState, ch: char)
    requires
        s.wf(),
    ensures
        keeps(s, s.captured(ch)),
{
    reveal(keeps);
    s.lemma_captured_wf(ch);
}

proof fn lemma_scrolled(s: TermState, n: int)
    requires
        s.wf(),
        0 <= n,
    ensures
        keeps(s, s.scrolled(n)),
{
    reveal(keeps);
    s.lemma_scrolled_wf(n);
}

proof fn lemma_line_fed(s: TermState)
    requires
        s.wf(),
    ensures
        keeps(s, s.line_fed()),
{
    reveal(keeps);
    s.lemma_line_fed_wf();
}

proof fn lemma_wrapped(s: TermState)
    requires
        s.wf(),
    ensures
        keeps(s, s.wrapped()),
{
    reveal(keeps);
    s.lemma_wrapped_wf();
}

proof fn lemma_fitted(s: TermState, w: int)
    requires
        s.wf(),
    ensures
        keeps(s, s.fitted(w)),
{
    reveal(keeps);
    s.lemma_fitted_wf(w);
}

proof fn lemma_opened(s: TermState, w: int)
    requires
        s.wf(),
    ensures
        keeps(s, s.opened(w)),
{
    reveal(keeps);
    lemma_line_fits(s.grid.lines, s.cols(), s.y);
    s.grid.lemma_with_line_wf(s.y, shift_cells_right(s.grid.lines[s.y], s.x, w));
}

proof fn lemma_drawn(s: TermState, ch: char, w: int)
    requires
        s.wf(),
        w == 2 ==> s.x + 2 <= s.cols(),
    ensures
        keeps(s, s.drawn(ch, w)),
{
    reveal(keeps);
    let one = Cell { ch, flags: s.pen.flags | flags::WIDE, ..s.pen };
    let two = Cell { ch: ' ', flags: s.pen.flags | flags::WIDE_SPACER, ..s.pen };
    s.grid.lemma_with_cell_wf(s.x, s.y, Cell { ch, ..s.pen });
    s.grid.lemma_with_cell_wf(s.x, s.y, one);
    if w == 2 {
        s.grid.with_cell(s.x, s.y, one).lemma_with_cell_wf(s.x + 1, s.y, two);
    }
}

proof fn lemma_stepped(s: TermState, w: int)
    requires
        s.wf(),
        0 <= w,
    ensures
        keeps(s, s.stepped(w)),
{
    reveal(keeps);
}

pub proof fn lemma_printed(s: TermState, ch: char)
    requires
        s.wf(),
    ensures
        keeps(s, s.printed(ch)),
{
    let c = s.mapped(ch);
    let w = columns_of(c);
    if w == 0 {
        lemma_same(s);
    } else {
        let s1 = s.captured(c);
        let s2 = s1.wrapped();
        let s3 = s2.fitted(w);
        let s4 = s3.opened(w);
        let s5 = s4.drawn(c, w);
        assert(keeps(s, s2)) by {
            reveal(keeps);
            lemma_captured(s, c);
            lemma_wrapped(s1);
        }
        assert(keeps(s, s4) && (w == 2 ==> s4.x + 2 <= s4.cols())) by {
            reveal(keeps);
            lemma_fitted(s2, w);
            s2.lemma_fitted_wf(w);
            lemma_opened(s3, w);
        }
        assert(keeps(s, s5.stepped(w))) by {
            reveal(keeps);
            lemma_drawn(s4, c, w);
            lemma_stepped(s5, w);
        }
    }
}

pub proof fn lemma_controlled(s: TermState, byte: u8)
    requires
        s.wf(),
    ensures
        keeps(s, s.controlled(byte)),
{
    s.lemma_controlled_wf(byte);
    assert(s.controlled(byte).max_scrollback == s.max_scrollback);
    reveal(keeps);
}

proof fn lemma_reverse_fed(s: TermState)
    requires
        s.wf(),
    ensures
        keeps(s, s.reverse_fed()),
{
    reveal(keeps);
    s.grid.lemma_scrolled_wf(s.top, s.bot, 1);
}

proof fn lemma_cursor_saved(s: TermState)
    requires
        s.wf(),
    ensures
        keeps(s, s.cursor_saved()),
{
    reveal(keeps);
}

proof fn lemma_cursor_restored(s: TermState)
    requires
        s.wf(),
    ensures
        keeps(s, s.cursor_restored()),
{
    reveal(keeps);
}

proof fn lemma_reset(s: TermState)
    requires
        s.wf(),
    ensures
        keeps(s, s.reset()),
{
    reveal(keeps);
    TermState::lemma_fresh_wf(s.cols(), s.rows(), s.max_scrollback);
}

proof fn lemma_aligned(s: TermState)
    requires
        s.wf(),
    ensures
        keeps(s, s.escaped(seq![0x23u8], 0x38)),
{
    reveal(keeps);
    assert(s.grid.aligned().wf()) by {
        reveal(lines_fit);
    }
}

proof fn lemma_designated(s: TermState, intermediates: Seq<u8>, byte: u8)
    requires
        s.wf(),
        intermediates.len() > 0,
    ensures
        keeps(s, s.escaped(intermediates, byte)),
{
    if intermediates[0] == 0x28 {
        lemma_put_charsets(s, Charsets { g0_linedraw: byte == 0x30, ..s.charsets });
    } else if intermediates[0] == 0x29 {
        lemma_put_charsets(s, Charsets { g1_linedraw: byte == 0x30, ..s.charsets });
    } else if intermediates[0] == 0x23 && byte == 0x38 {
        lemma_aligned(s);
    } else {
        lemma_same(s);
    }
}

proof fn lemma_next_line(s: TermState)
    requires
        s.wf(),
    ensures
        keeps(s, (TermState { x: 0, ..s }).line_fed()),
{
    reveal(keeps);
    TermState { x: 0, ..s }.lemma_line_fed_wf();
}

pub proof fn lemma_escaped(s: TermState, intermediates: Seq<u8>, byte: u8)
    requires
        s.wf(),
    ensures
        keeps(s, s.escaped(intermediates, byte)),
{
    if intermediates.len() > 0 {
        lemma_designated(s, intermediates, byte);
    } else if byte == 0x37 {
        lemma_cursor_saved(s);
    } else if byte == 0x38 {
        lemma_cursor_restored(s);
    } else if byte == 0x44 {
        lemma_line_fed(s);
    } else if byte == 0x45 {
        lemma_next_line(s);
    } else if byte == 0x48 {
        lemma_put_tabstops(s, s.tabstops.update(s.x, true));
    } else if byte == 0x4d {
        lemma_reverse_fed(s);
    } else if byte == 0x63 {
        lemma_reset(s);
    } else if byte == 0x3d {
        lemma_put_modes(s, Modes { app_keypad: true, ..s.modes });
    } else if byte == 0x3e {
        lemma_put_modes(s, Modes { app_keypad: false, ..s.modes });
    } else {
        lemma_same(s);
    }
}

proof fn lemma_moved(s: TermState, dx: int, dy: int)
    requires
        s.wf(),
    ensures
        keeps(s, s.moved(dx, dy)),
{
    reveal(keeps);
}

proof fn lemma_moved_line(s: TermState, dy: int)
    requires
        s.wf(),
    ensures
        keeps(s, (TermState { x: 0, ..s }).moved(0, dy)),
{
    reveal(keeps);
    lemma_moved(TermState { x: 0, ..s }, 0, dy);
}

proof fn lemma_positioned(s: TermState, x: int, y: int)
    requires
        s.wf(),
        0 <= x,
        0 <= y,
    ensures
        keeps(s, s.positioned(x, y)),
{
    reveal(keeps);
}

proof fn lemma_cleared(s: TermState, y: int, from: int, to: int)
    requires
        s.wf(),
        0 <= y < s.rows(),
    ensures
        s.grid.cleared(y, from, to, s.pen.bg).wf(),
{
    lemma_line_fits(s.grid.lines, s.cols(), y);
    s.grid.lemma_with_line_wf(y, clear_cells(s.grid.lines[y], from, to, s.pen.bg));
}

proof fn lemma_cleared_rows(g: GridState, from: int, to: int, bg: Color)
    requires
        g.wf(),
    ensures
        g.cleared_rows(from, to, bg).wf(),
{
    reveal(lines_fit);
}

proof fn lemma_line_erased(s: TermState, mode: int)
    requires
        s.wf(),
    ensures
        keeps(s, s.line_erased(mode)),
{
    reveal(keeps);
    lemma_cleared(s, s.y, s.x, s.cols());
    lemma_cleared(s, s.y, 0, s.x + 1);
    lemma_cleared(s, s.y, 0, s.cols());
}

proof fn lemma_display_erased(s: TermState, mode: int)
    requires
        s.wf(),
    ensures
        keeps(s, s.display_erased(mode)),
{
    reveal(keeps);
    let bg = s.pen.bg;
    if mode == 0 {
        lemma_line_erased(s, 0);
        lemma_cleared_rows(s.line_erased(0).grid, s.y + 1, s.rows(), bg);
    } else if mode == 1 {
        lemma_line_erased(s, 1);
        lemma_cleared_rows(s.line_erased(1).grid, 0, s.y, bg);
    } else {
        lemma_cleared_rows(s.grid, 0, s.rows(), bg);
        assert(lines_fit(Seq::empty(), s.cols())) by {
            reveal(lines_fit);
        }
    }
}

proof fn lemma_lines_inserted(s: TermState, n: int)
    requires
        s.wf(),
        0 <= n,
    ensures
        keeps(s, s.lines_inserted(n)),
{
    reveal(keeps);
    if s.top <= s.y <= s.bot {
        s.grid.lemma_scrolled_wf(s.y, s.bot, n);
    }
}

proof fn lemma_lines_deleted(s: TermState, n: int)
    requires
        s.wf(),
        0 <= n,
    ensures
        keeps(s, s.lines_deleted(n)),
{
    reveal(keeps);
    if s.top <= s.y <= s.bot {
        s.grid.lemma_scrolled_wf(s.y, s.bot, n);
    }
}

proof fn lemma_edited_line(s: TermState, line: Seq<Cell>)
    requires
        s.wf(),
        line.len() == s.grid.lines[s.y].len(),
    ensures
        keeps(s, TermState { grid: s.grid.with_line(s.y, line), ..s }),
{
    lemma_line_fits(s.grid.lines, s.cols(), s.y);
    s.grid.lemma_with_line_wf(s.y, line);
    lemma_put_grid(s, s.grid.with_line(s.y, line));
}

proof fn lemma_scrolled_down(s: TermState, n: int)
    requires
        s.wf(),
        0 <= n,
    ensures
        keeps(s, TermState { grid: s.grid.scrolled_down(s.top, s.bot, n), ..s }),
{
    s.grid.lemma_scrolled_wf(s.top, s.bot, n);
    lemma_put_grid(s, s.grid.scrolled_down(s.top, s.bot, n));
}

proof fn lemma_region_set(s: TermState, top: int, bot: int)
    requires
        s.wf(),
        0 <= top,
    ensures
        keeps(s, s.region_set(top, bot)),
{
    reveal(keeps);
    if top < bot < s.rows() {
        lemma_positioned(TermState { top, bot, ..s }, 0, 0);
    }
}

proof fn lemma_alt_switched(s: TermState, enter: bool, with_cursor: bool)
    requires
        s.wf(),
    ensures
        keeps(s, s.alt_switched(enter, with_cursor)),
{
    reveal(keeps);
    assert(GridState::blank(s.cols(), s.rows()).wf()) by {
        reveal(lines_fit);
    }
}

proof fn lemma_origin_set(s: TermState, set: bool)
    requires
        s.wf(),
    ensures
        keeps(s, s.dec_mode_one(6, set)),
{
    reveal(keeps);
    lemma_positioned(TermState { motion: Motion { origin: set, ..s.motion }, ..s }, 0, 0);
}

proof fn lemma_dec_mode_one(s: TermState, p: u16, set: bool)
    requires
        s.wf(),
    ensures
        keeps(s, s.dec_mode_one(p, set)),
{
    let m = s.modes;
    if p == 1 {
        lemma_put_modes(s, Modes { app_cursor: set, ..m });
    } else if p == 6 {
        lemma_origin_set(s, set);
    } else if p == 7 {
        lemma_put_motion(s, Motion { autowrap: set, ..s.motion });
    } else if p == 25 {
        lemma_put_modes(s, Modes { show_cursor: set, ..m });
    } else if p == 47 || p == 1047 {
        lemma_alt_switched(s, set, false);
    } else if p == 1048 {
        lemma_cursor_saved(s);
        lemma_cursor_restored(s);
    } else if p == 1049 {
        lemma_alt_switched(s, set, true);
    } else if p == 1000 || p == 1002 || p == 1003 {
        lemma_put_modes(s, Modes { mouse_mode: if set { p } else { 0 }, ..m });
    } else if p == 1004 {
        lemma_put_modes(s, Modes { focus_events: set, ..m });
    } else if p == 1006 {
        lemma_put_modes(s, Modes { mouse_sgr: set, ..m });
    } else if p == 2004 {
        lemma_put_modes(s, Modes { bracketed_paste: set, ..m });
    } else {
        lemma_same(s);
    }
}

proof fn lemma_dec_modes(s: TermState, params: Seq<u16>, set: bool)
    requires
        s.wf(),
    ensures
        keeps(s, s.dec_modes(params, set)),
    decreases params.len(),
{
    reveal(keeps);
    if params.len() > 0 {
        lemma_dec_modes(s, params.drop_last(), set);
        lemma_dec_mode_one(s.dec_modes(params.drop_last(), set), params.last(), set);
    }
}

/// Going back to tab stops stays on the line.
proof fn lemma_back_stops(stops: Seq<bool>, x: int, n: nat)
    requires
        0 <= x,
    ensures
        0 <= back_stops(stops, x, n) <= x,
    decreases n,
{
    if n > 0 {
        lemma_prev_stop(stops, x);
        lemma_back_stops(stops, prev_stop(stops, x), (n - 1) as nat);
    }
}

proof fn lemma_prev_stop(stops: Seq<bool>, x: int)
    requires
        0 <= x,
    ensures
        0 <= prev_stop(stops, x) <= x,
    decreases x,
{
    if x > 0 && !stops[x - 1] {
        lemma_prev_stop(stops, x - 1);
    }
}

proof fn lemma_csi_move(s: TermState, params: Seq<u16>, action: u8)
    requires
        s.wf(),
        0x41 <= action <= 0x48 || action == 0x66 || action == 0x64 || action == 0x5a,
    ensures
        keeps(s, s.csi_plain(params, action)),
{
    let n = count(params, 0);
    if action == 0x41 {
        lemma_moved(s, 0, -n);
    } else if action == 0x42 {
        lemma_moved(s, 0, n);
    } else if action == 0x43 {
        lemma_moved(s, n, 0);
    } else if action == 0x44 {
        lemma_moved(s, -n, 0);
    } else if action == 0x45 {
        lemma_moved_line(s, n);
    } else if action == 0x46 {
        lemma_moved_line(s, -n);
    } else if action == 0x47 {
        lemma_put_x(s, min(n - 1, s.cols() - 1));
    } else if action == 0x48 || action == 0x66 {
        lemma_positioned(s, count(params, 1) - 1, n - 1);
    } else if action == 0x64 {
        let y = if s.motion.origin {
            s.top + n - 1
        } else {
            n - 1
        };
        lemma_put_y(s, min(y, s.rows() - 1));
    } else {
        lemma_back_stops(s.tabstops, s.x, n as nat);
        lemma_put_x(s, back_stops(s.tabstops, s.x, n as nat));
    }
}

proof fn lemma_csi_edit(s: TermState, params: Seq<u16>, action: u8)
    requires
        s.wf(),
        action == 0x4a || action == 0x4b || action == 0x4c || action == 0x4d || action == 0x50
            || action == 0x40 || action == 0x58 || action == 0x53 || action == 0x54,
    ensures
        keeps(s, s.csi_plain(params, action)),
{
    let n = count(params, 0);
    let line = s.grid.lines[s.y];
    let bg = s.pen.bg;
    if action == 0x4a {
        lemma_display_erased(s, param(params, 0));
    } else if action == 0x4b {
        lemma_line_erased(s, param(params, 0));
    } else if action == 0x4c {
        lemma_lines_inserted(s, n);
    } else if action == 0x4d {
        lemma_lines_deleted(s, n);
    } else if action == 0x50 {
        lemma_edited_line(s, delete_cells(line, s.x, n, bg));
    } else if action == 0x40 {
        lemma_edited_line(s, insert_cells(line, s.x, n, bg));
    } else if action == 0x58 {
        lemma_edited_line(s, clear_cells(line, s.x, s.x + n, bg));
    } else if action == 0x53 {
        lemma_scrolled(s, n);
    } else {
        lemma_scrolled_down(s, n);
    }
}

proof fn lemma_csi_set(s: TermState, params: Seq<u16>, action: u8)
    requires
        s.wf(),
        action == 0x6d || action == 0x72 || action == 0x67 || action == 0x68 || action == 0x6c
            || action == 0x73 || action == 0x75,
    ensures
        keeps(s, s.csi_plain(params, action)),
{
    if action == 0x6d {
        lemma_put_pen(s, s.styled(params).pen);
    } else if action == 0x72 {
        let bot = if param(params, 1) == 0 {
            s.rows() - 1
        } else {
            param(params, 1) - 1
        };
        lemma_region_set(s, count(params, 0) - 1, bot);
    } else if action == 0x67 {
        lemma_put_tabstops(s, s.tabstops.update(s.x, false));
        lemma_put_tabstops(s, Seq::new(s.tabstops.len(), |i: int| false));
        lemma_same(s);
    } else if action == 0x68 {
        lemma_put_motion(s, Motion { insert: true, ..s.motion });
        lemma_same(s);
    } else if action == 0x6c {
        lemma_put_motion(s, Motion { insert: false, ..s.motion });
        lemma_same(s);
    } else if action == 0x73 {
        lemma_cursor_saved(s);
    } else {
        lemma_cursor_restored(s);
    }
}

proof fn lemma_csi_plain(s: TermState, params: Seq<u16>, action: u8)
    requires
        s.wf(),
    ensures
        keeps(s, s.csi_plain(params, action)),
{
    if 0x41 <= action <= 0x48 || action == 0x66 || action == 0x64 || action == 0x5a {
        lemma_csi_move(s, params, action);
    } else if action == 0x4a || action == 0x4b || action == 0x4c || action == 0x4d || action == 0x50
        || action == 0x40 || action == 0x58 || action == 0x53 || action == 0x54 {
        lemma_csi_edit(s, params, action);
    } else if action == 0x6d || action == 0x72 || action == 0x67 || action == 0x68 || action == 0x6c
        || action == 0x73 || action == 0x75 {
        lemma_csi_set(s, params, action);
    } else if action == 0x6e || action == 0x63 {
        lemma_put_responses(s, s.csi_plain(params, action).responses);
        lemma_same(s);
    } else {
        lemma_same(s);
    }
}

pub proof fn lemma_csi(
    s: TermState,
    private: u8,
    params: Seq<u16>,
    intermediates: Seq<u8>,
    action: u8,
)
    requires
        s.wf(),
    ensures
        keeps(s, s.csi(private, params, intermediates, action)),
{
    lemma_same(s);
    lemma_put_responses(s, s.csi(private, params, intermediates, action).responses);
    lemma_dec_modes(s, params, true);
    lemma_dec_modes(s, params, false);
    lemma_csi_plain(s, params, action);
}

proof fn lemma_with_event(s: TermState, ev: EventState)
    requires
        s.wf(),
    ensures
        keeps(s, s.with_event(ev)),
{
    reveal(keeps);
}

proof fn lemma_titled(s: TermState, title: Seq<char>)
    requires
        s.wf(),
    ensures
        keeps(s, (TermState { title, ..s }).with_event(EventState::Title(title))),
{
    reveal(keeps);
    lemma_with_event(TermState { title, ..s }, EventState::Title(title));
}

proof fn lemma_cwd_changed(s: TermState, path: Seq<char>)
    requires
        s.wf(),
    ensures
        keeps(s, s.cwd_changed(path)),
{
    reveal(keeps);
    lemma_with_event(TermState { cwd: Some(path), ..s }, EventState::CwdChanged(path));
}

proof fn lemma_pending(s: TermState, cmd: Seq<char>)
    requires
        s.wf(),
    ensures
        keeps(s, TermState { blocks: s.blocks.with_pending(cmd), ..s }),
{
    reveal(keeps);
    reveal(BlocksState::wf);
}

proof fn lemma_command_started(s: TermState, now: u64)
    requires
        s.wf(),
    ensures
        keeps(s, s.command_started(now)),
{
    reveal(keeps);
    s.blocks.lemma_started_wf(s.cwd, now);
    lemma_with_event(
        TermState { blocks: s.blocks.started(s.cwd, now), ..s },
        EventState::BlockStarted(s.blocks.next_id),
    );
}

proof fn lemma_command_finished(s: TermState, exit: Option<i32>, now: u64)
    requires
        s.wf(),
    ensures
        keeps(s, s.command_finished(exit, now)),
{
    reveal(keeps);
    s.blocks.lemma_finished_wf(exit, now);
    if let Some(i) = s.blocks.running {
        lemma_with_event(
            TermState { blocks: s.blocks.finished(exit, now), ..s },
            EventState::BlockFinished(s.blocks.blocks[i].id),
        );
    }
}

proof fn lemma_semantic(s: TermState, rest: Seq<char>, now: u64)
    requires
        s.wf(),
    ensures
        keeps(s, s.semantic(rest, now)),
{
    lemma_same(s);
    lemma_command_started(s, now);
    lemma_command_finished(s, read_exit_code(after(rest, ';')), now);
}

proof fn lemma_vscode(s: TermState, rest: Seq<char>, now: u64)
    requires
        s.wf(),
    ensures
        keeps(s, s.vscode(rest, now)),
{
    lemma_same(s);
    lemma_command_started(s, now);
    lemma_semantic(s, rest, now);
    if let Some(a) = after(rest, ';') {
        lemma_pending(s, decode_633_text(before(a, ';')));
        lemma_cwd_changed(s, a.skip("Cwd="@.len() as int));
    }
}

pub proof fn lemma_osc(s: TermState, bytes: Seq<u8>, now: u64)
    requires
        s.wf(),
    ensures
        keeps(s, s.osc(bytes, now)),
{
    let text = lossy_text(bytes);
    let code = before(text, ';');
    let rest = match after(text, ';') {
        Some(r) => r,
        None => Seq::empty(),
    };
    if code == "0"@ || code == "2"@ {
        lemma_titled(s, rest);
    } else if code == "7"@ {
        if let Some(path) = file_url_path(rest) {
            lemma_cwd_changed(s, path);
        } else {
            lemma_same(s);
        }
    } else if code == "133"@ {
        lemma_semantic(s, rest, now);
    } else if code == "633"@ {
        lemma_vscode(s, rest, now);
    } else {
        lemma_put_responses(s, s.osc(bytes, now).responses);
        lemma_same(s);
    }
}

pub proof fn lemma_resized(s: TermState, cols: int, rows: int)
    requires
        s.wf(),
        cols <= isize::MAX,
        rows <= isize::MAX,
    ensures
        keeps(s, s.resized(cols, rows)),
{
    reveal(keeps);
    s.lemma_resized_wf(cols, rows);
}

} // verus!
