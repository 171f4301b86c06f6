//! What the clock decides: the stamps of the command blocks, and nothing else.

use vstd::prelude::*;

#[allow(unused_imports)]
use super::State;
use super::laws::law_split_reads;
#[allow(unused_imports)]
use super::model::{replacement, EmulatorState, ParserState};
use crate::blocks::{BlockState, BlocksState};
use crate::cell::Cell;
use crate::grid::GridState;
#[allow(unused_imports)]
use crate::grid::min;
#[allow(unused_imports)]
use crate::osc::{decode_633_text, file_url_path, read_exit_code};
#[allow(unused_imports)]
use crate::stdx::lossy_text;
use crate::term::model::{EventState, TermState};
#[allow(unused_imports)]
use crate::term::model::{back_stops, count, param};
#[allow(unused_imports)]
use crate::term::{Modes, Motion};
#[allow(unused_imports)]
use crate::text::{after, before};
#[allow(unused_imports)]
use crate::width::columns_of;

verus! {

impl BlockState {
    /// The block with the moments of its start and its end set to 0.
    pub open spec fn unstamped(self) -> BlockState {
        BlockState {
            started_ms: 0,
            ended_ms: match self.ended_ms {
                Some(_) => Some(0),
                None => None,
            },
            ..self
        }
    }
}

impl BlocksState {
    /// The blocks without their stamps.
    pub open spec fn unstamped(self) -> BlocksState {
        BlocksState {
            blocks: Seq::new(self.blocks.len(), |i: int| self.blocks[i].unstamped()),
            ..self
        }
    }

    /// The running block is one of those that are held.
    pub open spec fn running_is_held(self) -> bool {
        self.running matches Some(i) ==> 0 <= i < self.blocks.len()
    }
}

impl TermState {
    /// The terminal without the stamps of its blocks.
    pub open spec fn unstamped(self) -> TermState {
        TermState { blocks: self.blocks.unstamped(), ..self }
    }
}

impl EmulatorState {
    /// Parser and terminal without the stamps of the blocks.
    pub open spec fn unstamped(self) -> EmulatorState {
        EmulatorState { term: self.term.unstamped(), ..self }
    }
}

proof fn lemma_captured(b: BlocksState, ch: char)
    requires
        b.running_is_held(),
    ensures
        b.captured(ch).unstamped() == b.unstamped().captured(ch),
        b.captured(ch).running_is_held(),
{
    assert(b.captured(ch).unstamped().blocks =~= b.unstamped().captured(ch).blocks);
}

proof fn lemma_finished(b: BlocksState, exit: Option<i32>, now: u64)
    requires
        b.running_is_held(),
    ensures
        b.finished(exit, now).unstamped() == b.unstamped().finished(exit, 0),
        b.finished(exit, now).running_is_held(),
{
    assert(b.finished(exit, now).unstamped().blocks =~= b.unstamped().finished(exit, 0).blocks);
}

proof fn lemma_started(b: BlocksState, cwd: Option<Seq<char>>, now: u64)
    requires
        b.running_is_held(),
    ensures
        b.started(cwd, now).unstamped() == b.unstamped().started(cwd, 0),
        b.started(cwd, now).running_is_held(),
{
    lemma_finished(b, None, now);
    let ended = b.finished(None, now);
    assert(ended.unstamped().blocks == b.unstamped().finished(None, 0).blocks);
    assert(b.fresh(cwd, now).unstamped() == b.unstamped().fresh(cwd, 0));
    assert(b.started(cwd, now).unstamped().blocks =~= b.unstamped().started(cwd, 0).blocks);
}

/// Whether two terminals agree but for the stamps, and `t` runs no block that it
/// does not hold.
#[verifier::opaque]
spec fn agree(t: TermState, u: TermState) -> bool {
    t.unstamped() == u && t.blocks.running_is_held()
}

proof fn lemma_capture(s: TermState, ch: char)
    requires
        s.blocks.running_is_held(),
    ensures
        agree(s.captured(ch), s.unstamped().captured(ch)),
{
    reveal(agree);
    lemma_captured(s.blocks, ch);
}

proof fn lemma_scrolled(s: TermState, n: int)
    requires
        s.blocks.running_is_held(),
    ensures
        agree(s.scrolled(n), s.unstamped().scrolled(n)),
{
    reveal(agree);
}

proof fn lemma_line_fed(s: TermState)
    requires
        s.blocks.running_is_held(),
    ensures
        agree(s.line_fed(), s.unstamped().line_fed()),
{
    reveal(agree);
    lemma_scrolled(s, 1);
}

proof fn lemma_wrapped(s: TermState)
    requires
        s.blocks.running_is_held(),
    ensures
        agree(s.wrapped(), s.unstamped().wrapped()),
{
    reveal(agree);
    lemma_line_fed(TermState { x: 0, ..s });
}

proof fn lemma_fitted(s: TermState, w: int)
    requires
        s.blocks.running_is_held(),
    ensures
        agree(s.fitted(w), s.unstamped().fitted(w)),
{
    reveal(agree);
    lemma_line_fed(TermState { x: 0, ..s });
}

proof fn lemma_opened(s: TermState, w: int)
    requires
        s.blocks.running_is_held(),
    ensures
        agree(s.opened(w), s.unstamped().opened(w)),
{
    reveal(agree);
}

proof fn lemma_drawn(s: TermState, ch: char, w: int)
    requires
        s.blocks.running_is_held(),
    ensures
        agree(s.drawn(ch, w), s.unstamped().drawn(ch, w)),
{
    reveal(agree);
}

proof fn lemma_stepped(s: TermState, w: int)
    requires
        s.blocks.running_is_held(),
    ensures
        agree(s.stepped(w), s.unstamped().stepped(w)),
{
    reveal(agree);
}

proof fn lemma_reverse_fed(s: TermState)
    requires
        s.blocks.running_is_held(),
    ensures
        agree(s.reverse_fed(), s.unstamped().reverse_fed()),
{
    reveal(agree);
}

proof fn lemma_cursor_saved(s: TermState)
    requires
        s.blocks.running_is_held(),
    ensures
        agree(s.cursor_saved(), s.unstamped().cursor_saved()),
{
    reveal(agree);
}

proof fn lemma_cursor_restored(s: TermState)
    requires
        s.blocks.running_is_held(),
    ensures
        agree(s.cursor_restored(), s.unstamped().cursor_restored()),
{
    reveal(agree);
}

proof fn lemma_reset(s: TermState)
    requires
        s.blocks.running_is_held(),
    ensures
        agree(s.reset(), s.unstamped().reset()),
{
    reveal(agree);
}

proof fn lemma_moved(s: TermState, dx: int, dy: int)
    requires
        s.blocks.running_is_held(),
    ensures
        agree(s.moved(dx, dy), s.unstamped().moved(dx, dy)),
{
    reveal(agree);
}

proof fn lemma_positioned(s: TermState, x: int, y: int)
    requires
        s.blocks.running_is_held(),
    ensures
        agree(s.positioned(x, y), s.unstamped().positioned(x, y)),
{
    reveal(agree);
}

proof fn lemma_line_erased(s: TermState, mode: int)
    requires
        s.blocks.running_is_held(),
    ensures
        agree(s.line_erased(mode), s.unstamped().line_erased(mode)),
{
    reveal(agree);
}

proof fn lemma_display_erased(s: TermState, mode: int)
    requires
        s.blocks.running_is_held(),
    ensures
        agree(s.display_erased(mode), s.unstamped().display_erased(mode)),
{
    reveal(agree);
    lemma_line_erased(s, 0);
    lemma_line_erased(s, 1);
}

proof fn lemma_region_set(s: TermState, top: int, bot: int)
    requires
        s.blocks.running_is_held(),
    ensures
        agree(s.region_set(top, bot), s.unstamped().region_set(top, bot)),
{
    reveal(agree);
    lemma_positioned(TermState { top, bot, ..s }, 0, 0);
}

proof fn lemma_alt_switched(s: TermState, enter: bool, with_cursor: bool)
    requires
        s.blocks.running_is_held(),
    ensures
        agree(s.alt_switched(enter, with_cursor), s.unstamped().alt_switched(enter, with_cursor)),
{
    reveal(agree);
}

proof fn lemma_put_modes(s: TermState, modes: Modes)
    requires
        s.blocks.running_is_held(),
    ensures
        agree(TermState { modes, ..s }, TermState { modes, ..s.unstamped() }),
{
    reveal(agree);
}

proof fn lemma_put_motion(s: TermState, motion: Motion)
    requires
        s.blocks.running_is_held(),
    ensures
        agree(TermState { motion, ..s }, TermState { motion, ..s.unstamped() }),
{
    reveal(agree);
}

proof fn lemma_put_grid(s: TermState, grid: GridState)
    requires
        s.blocks.running_is_held(),
    ensures
        agree(TermState { grid, ..s }, TermState { grid, ..s.unstamped() }),
{
    reveal(agree);
}

proof fn lemma_put_tabstops(s: TermState, tabstops: Seq<bool>)
    requires
        s.blocks.running_is_held(),
    ensures
        agree(TermState { tabstops, ..s }, TermState { tabstops, ..s.unstamped() }),
{
    reveal(agree);
}

proof fn lemma_put_x(s: TermState, x: int)
    requires
        s.blocks.running_is_held(),
    ensures
        agree(
            TermState { x, pending_wrap: false, ..s },
            TermState { x, pending_wrap: false, ..s.unstamped() },
        ),
{
    reveal(agree);
}

proof fn lemma_put_y(s: TermState, y: int)
    requires
        s.blocks.running_is_held(),
    ensures
        agree(
            TermState { y, pending_wrap: false, ..s },
            TermState { y, pending_wrap: false, ..s.unstamped() },
        ),
{
    reveal(agree);
}

proof fn lemma_put_pen(s: TermState, pen: Cell)
    requires
        s.blocks.running_is_held(),
    ensures
        agree(TermState { pen, ..s }, TermState { pen, ..s.unstamped() }),
{
    reveal(agree);
}

proof fn lemma_put_responses(s: TermState, responses: Seq<u8>)
    requires
        s.blocks.running_is_held(),
    ensures
        agree(TermState { responses, ..s }, TermState { responses, ..s.unstamped() }),
{
    reveal(agree);
}

proof fn lemma_put_nothing(s: TermState)
    requires
        s.blocks.running_is_held(),
    ensures
        agree(s, s.unstamped()),
{
    reveal(agree);
}

proof fn lemma_lines_inserted(s: TermState, n: int)
    requires
        s.blocks.running_is_held(),
    ensures
        agree(s.lines_inserted(n), s.unstamped().lines_inserted(n)),
{
    reveal(agree);
}

proof fn lemma_lines_deleted(s: TermState, n: int)
    requires
        s.blocks.running_is_held(),
    ensures
        agree(s.lines_deleted(n), s.unstamped().lines_deleted(n)),
{
    reveal(agree);
}

proof fn lemma_mode_flag(s: TermState, p: u16, set: bool)
    requires
        s.blocks.running_is_held(),
        p != 6 && p != 47 && p != 1047 && p != 1048 && p != 1049,
    ensures
        agree(s.dec_mode_one(p, set), s.unstamped().dec_mode_one(p, set)),
{
    let m = s.modes;
    if p == 1 {
        lemma_put_modes(s, Modes { app_cursor: set, ..m });
    } else if p == 7 {
        lemma_put_motion(s, Motion { autowrap: set, ..s.motion });
    } else if p == 25 {
        lemma_put_modes(s, Modes { show_cursor: set, ..m });
    } else if p == 1000 || p == 1002 || p == 1003 {
        lemma_put_modes(s, Modes { mouse_mode: if set { p } else { 0 }, ..m });
    } else if p == 1004 {
        lemma_put_modes(s, Modes { focus_events: set, ..m });
    } else if p == 1006 {
        lemma_put_modes(s, Modes { mouse_sgr: set, ..m });
    } else if p == 2004 {
        lemma_put_modes(s, Modes { bracketed_paste: set, ..m });
    } else {
        lemma_put_nothing(s);
    }
}

proof fn lemma_mode_origin(s: TermState, set: bool)
    requires
        s.blocks.running_is_held(),
    ensures
        agree(s.dec_mode_one(6, set), s.unstamped().dec_mode_one(6, set)),
{
    reveal(agree);
    lemma_positioned(TermState { motion: Motion { origin: set, ..s.motion }, ..s }, 0, 0);
}

proof fn lemma_dec_mode_one(s: TermState, p: u16, set: bool)
    requires
        s.blocks.running_is_held(),
    ensures
        agree(s.dec_mode_one(p, set), s.unstamped().dec_mode_one(p, set)),
{
    if p == 6 {
        lemma_mode_origin(s, set);
    } else if p == 47 || p == 1047 {
        lemma_alt_switched(s, set, false);
    } else if p == 1048 {
        lemma_cursor_saved(s);
        lemma_cursor_restored(s);
    } else if p == 1049 {
        lemma_alt_switched(s, set, true);
    } else {
        lemma_mode_flag(s, p, set);
    }
}

proof fn lemma_printed(s: TermState, ch: char)
    requires
        s.blocks.running_is_held(),
    ensures
        agree(s.printed(ch), s.unstamped().printed(ch)),
{
    reveal(agree);
    let c = s.mapped(ch);
    let w = columns_of(c);
    let s1 = s.captured(c);
    let s2 = s1.wrapped();
    let s3 = s2.fitted(w);
    let s4 = s3.opened(w);
    let s5 = s4.drawn(c, w);
    lemma_capture(s, c);
    lemma_wrapped(s1);
    lemma_fitted(s2, w);
    lemma_opened(s3, w);
    lemma_drawn(s4, c, w);
    lemma_stepped(s5, w);
}

proof fn lemma_controlled(s: TermState, byte: u8)
    requires
        s.blocks.running_is_held(),
    ensures
        agree(s.controlled(byte), s.unstamped().controlled(byte)),
{
    reveal(agree);
    lemma_captured(s.blocks, '\n');
}

proof fn lemma_designated(s: TermState, intermediates: Seq<u8>, byte: u8)
    requires
        s.blocks.running_is_held(),
        intermediates.len() > 0,
    ensures
        agree(s.escaped(intermediates, byte), s.unstamped().escaped(intermediates, byte)),
{
    reveal(agree);
}

proof fn lemma_escape_flag(s: TermState, byte: u8)
    requires
        s.blocks.running_is_held(),
        byte != 0x37 && byte != 0x38 && byte != 0x44 && byte != 0x45 && byte != 0x4d && byte
            != 0x63,
    ensures
        agree(s.escaped(Seq::empty(), byte), s.unstamped().escaped(Seq::empty(), byte)),
{
    reveal(agree);
}

proof fn lemma_escaped(s: TermState, intermediates: Seq<u8>, byte: u8)
    requires
        s.blocks.running_is_held(),
    ensures
        agree(s.escaped(intermediates, byte), s.unstamped().escaped(intermediates, byte)),
{
    if intermediates.len() > 0 {
        lemma_designated(s, intermediates, byte);
    } else {
        assert(intermediates =~= Seq::empty());
        if byte == 0x37 {
            lemma_cursor_saved(s);
        } else if byte == 0x38 {
            lemma_cursor_restored(s);
        } else if byte == 0x44 {
            lemma_line_fed(s);
        } else if byte == 0x45 {
            lemma_line_fed(TermState { x: 0, ..s });
        } else if byte == 0x4d {
            lemma_reverse_fed(s);
        } else if byte == 0x63 {
            lemma_reset(s);
        } else {
            lemma_escape_flag(s, byte);
        }
    }
}

proof fn lemma_dec_modes(s: TermState, params: Seq<u16>, set: bool)
    requires
        s.blocks.running_is_held(),
    ensures
        agree(s.dec_modes(params, set), s.unstamped().dec_modes(params, set)),
    decreases params.len(),
{
    reveal(agree);
    if params.len() > 0 {
        lemma_dec_modes(s, params.drop_last(), set);
        lemma_dec_mode_one(s.dec_modes(params.drop_last(), set), params.last(), set);
    }
}

proof fn lemma_csi_move(s: TermState, params: Seq<u16>, action: u8)
    requires
        s.blocks.running_is_held(),
        0x41 <= action <= 0x48 || action == 0x66 || action == 0x64 || action == 0x5a,
    ensures
        agree(s.csi_plain(params, action), s.unstamped().csi_plain(params, action)),
{
    let n = count(params, 0);
    if action == 0x41 {
        lemma_moved(s, 0, -n);
    } else if action == 0x42 {
        lemma_moved(s, 0, n);
    } else if action == 0x43 {
        lemma_moved(s, n, 0);
    } else if action == 0x44 {
        lemma_moved(s, -n, 0);
    } else if action == 0x45 {
        lemma_moved(TermState { x: 0, ..s }, 0, n);
    } else if action == 0x46 {
        lemma_moved(TermState { x: 0, ..s }, 0, -n);
    } else if action == 0x47 {
        lemma_put_x(s, min(n - 1, s.cols() - 1));
    } else if action == 0x48 || action == 0x66 {
        lemma_positioned(s, count(params, 1) - 1, n - 1);
    } else if action == 0x64 {
        let y = if s.motion.origin {
            s.top + n - 1
        } else {
            n - 1
        };
        lemma_put_y(s, min(y, s.rows() - 1));
    } else {
        lemma_put_x(s, back_stops(s.tabstops, s.x, n as nat));
    }
}

proof fn lemma_csi_edit(s: TermState, params: Seq<u16>, action: u8)
    requires
        s.blocks.running_is_held(),
        action == 0x4a || action == 0x4b || action == 0x4c || action == 0x4d || action == 0x50
            || action == 0x40 || action == 0x58 || action == 0x53 || action == 0x54,
    ensures
        agree(s.csi_plain(params, action), s.unstamped().csi_plain(params, action)),
{
    let n = count(params, 0);
    if action == 0x4a {
        lemma_display_erased(s, param(params, 0));
    } else if action == 0x4b {
        lemma_line_erased(s, param(params, 0));
    } else if action == 0x4c {
        lemma_lines_inserted(s, n);
    } else if action == 0x4d {
        lemma_lines_deleted(s, n);
    } else if action == 0x50 {
        lemma_put_grid(s, s.chars_deleted(n).grid);
    } else if action == 0x40 {
        lemma_put_grid(s, s.chars_inserted(n).grid);
    } else if action == 0x58 {
        lemma_put_grid(s, s.chars_erased(n).grid);
    } else if action == 0x53 {
        lemma_scrolled(s, n);
    } else {
        lemma_put_grid(s, s.grid.scrolled_down(s.top, s.bot, n));
    }
}

proof fn lemma_csi_set(s: TermState, params: Seq<u16>, action: u8)
    requires
        s.blocks.running_is_held(),
        action == 0x6d || action == 0x72 || action == 0x67 || action == 0x68 || action == 0x6c
            || action == 0x73 || action == 0x75,
    ensures
        agree(s.csi_plain(params, action), s.unstamped().csi_plain(params, action)),
{
    if action == 0x6d {
        lemma_put_pen(s, s.styled(params).pen);
    } else if action == 0x72 {
        let bot = if param(params, 1) == 0 {
            s.rows() - 1
        } else {
            param(params, 1) - 1
        };
        lemma_region_set(s, count(params, 0) - 1, bot);
    } else if action == 0x67 {
        lemma_put_tabstops(s, s.tabstops.update(s.x, false));
        lemma_put_tabstops(s, Seq::new(s.tabstops.len(), |i: int| false));
        lemma_put_nothing(s);
    } else if action == 0x68 {
        lemma_put_motion(s, Motion { insert: true, ..s.motion });
        lemma_put_nothing(s);
    } else if action == 0x6c {
        lemma_put_motion(s, Motion { insert: false, ..s.motion });
        lemma_put_nothing(s);
    } else if action == 0x73 {
        lemma_cursor_saved(s);
    } else {
        lemma_cursor_restored(s);
    }
}

proof fn lemma_csi_report(s: TermState, params: Seq<u16>, action: u8)
    requires
        s.blocks.running_is_held(),
        action == 0x6e || action == 0x63,
    ensures
        agree(s.csi_plain(params, action), s.unstamped().csi_plain(params, action)),
{
    lemma_put_responses(s, s.csi_plain(params, action).responses);
    lemma_put_nothing(s);
}

proof fn lemma_csi_plain(s: TermState, params: Seq<u16>, action: u8)
    requires
        s.blocks.running_is_held(),
    ensures
        agree(s.csi_plain(params, action), s.unstamped().csi_plain(params, action)),
{
    if 0x41 <= action <= 0x48 || action == 0x66 || action == 0x64 || action == 0x5a {
        lemma_csi_move(s, params, action);
    } else if action == 0x4a || action == 0x4b || action == 0x4c || action == 0x4d || action == 0x50
        || action == 0x40 || action == 0x58 || action == 0x53 || action == 0x54 {
        lemma_csi_edit(s, params, action);
    } else if action == 0x6d || action == 0x72 || action == 0x67 || action == 0x68 || action == 0x6c
        || action == 0x73 || action == 0x75 {
        lemma_csi_set(s, params, action);
    } else if action == 0x6e || action == 0x63 {
        lemma_csi_report(s, params, action);
    } else {
        lemma_put_nothing(s);
    }
}

proof fn lemma_csi(
    s: TermState,
    private: u8,
    params: Seq<u16>,
    intermediates: Seq<u8>,
    action: u8,
)
    requires
        s.blocks.running_is_held(),
    ensures
        agree(
            s.csi(private, params, intermediates, action),
            s.unstamped().csi(private, params, intermediates, action),
        ),
{
    lemma_put_nothing(s);
    lemma_put_responses(s, s.csi(private, params, intermediates, action).responses);
    lemma_dec_modes(s, params, true);
    lemma_dec_modes(s, params, false);
    lemma_csi_plain(s, params, action);
}

proof fn lemma_command_started(s: TermState, now: u64)
    requires
        s.blocks.running_is_held(),
    ensures
        agree(s.command_started(now), s.unstamped().command_started(0)),
{
    reveal(agree);
    lemma_started(s.blocks, s.cwd, now);
}

proof fn lemma_command_finished(s: TermState, exit: Option<i32>, now: u64)
    requires
        s.blocks.running_is_held(),
    ensures
        agree(s.command_finished(exit, now), s.unstamped().command_finished(exit, 0)),
{
    reveal(agree);
    lemma_finished(s.blocks, exit, now);
}

proof fn lemma_semantic(s: TermState, rest: Seq<char>, now: u64)
    requires
        s.blocks.running_is_held(),
    ensures
        agree(s.semantic(rest, now), s.unstamped().semantic(rest, 0)),
{
    reveal(agree);
    lemma_command_started(s, now);
    let exit = read_exit_code(after(rest, ';'));
    lemma_command_finished(s, exit, now);
}

proof fn lemma_with_event(s: TermState, ev: EventState)
    requires
        s.blocks.running_is_held(),
    ensures
        agree(s.with_event(ev), s.unstamped().with_event(ev)),
{
    reveal(agree);
}

proof fn lemma_titled(s: TermState, title: Seq<char>)
    requires
        s.blocks.running_is_held(),
    ensures
        agree(
            (TermState { title, ..s }).with_event(EventState::Title(title)),
            (TermState { title, ..s.unstamped() }).with_event(EventState::Title(title)),
        ),
{
    lemma_with_event(TermState { title, ..s }, EventState::Title(title));
}

proof fn lemma_cwd_changed(s: TermState, path: Seq<char>)
    requires
        s.blocks.running_is_held(),
    ensures
        agree(s.cwd_changed(path), s.unstamped().cwd_changed(path)),
{
    reveal(agree);
    lemma_with_event(TermState { cwd: Some(path), ..s }, EventState::CwdChanged(path));
}

proof fn lemma_pending(s: TermState, cmd: Seq<char>)
    requires
        s.blocks.running_is_held(),
    ensures
        agree(
            TermState { blocks: s.blocks.with_pending(cmd), ..s },
            TermState { blocks: s.unstamped().blocks.with_pending(cmd), ..s.unstamped() },
        ),
{
    reveal(agree);
}

proof fn lemma_vscode(s: TermState, rest: Seq<char>, now: u64)
    requires
        s.blocks.running_is_held(),
    ensures
        agree(s.vscode(rest, now), s.unstamped().vscode(rest, 0)),
{
    lemma_put_nothing(s);
    lemma_command_started(s, now);
    lemma_semantic(s, rest, now);
    if let Some(a) = after(rest, ';') {
        lemma_pending(s, decode_633_text(before(a, ';')));
        lemma_cwd_changed(s, a.skip("Cwd="@.len() as int));
    }
}

proof fn lemma_osc(s: TermState, bytes: Seq<u8>, now: u64)
    requires
        s.blocks.running_is_held(),
    ensures
        agree(s.osc(bytes, now), s.unstamped().osc(bytes, 0)),
{
    let text = lossy_text(bytes);
    let code = before(text, ';');
    let rest = match after(text, ';') {
        Some(r) => r,
        None => Seq::empty(),
    };
    if code == "0"@ || code == "2"@ {
        lemma_titled(s, rest);
    } else if code == "7"@ {
        if let Some(path) = file_url_path(rest) {
            lemma_cwd_changed(s, path);
        } else {
            lemma_put_nothing(s);
        }
    } else if code == "133"@ {
        lemma_semantic(s, rest, now);
    } else if code == "633"@ {
        lemma_vscode(s, rest, now);
    } else {
        lemma_put_responses(s, s.osc(bytes, now).responses);
        lemma_put_nothing(s);
    }
}

/// Whether two emulators agree but for the stamps.
spec fn alike(e: EmulatorState, f: EmulatorState) -> bool {
    e.parser == f.parser && agree(e.term, f.term)
}

proof fn lemma_ground_fresh(e: EmulatorState, byte: u8)
    requires
        e.term.blocks.running_is_held(),
    ensures
        alike(e.ground_fresh(byte), e.unstamped().ground_fresh(byte)),
{
    reveal(agree);
    lemma_controlled(e.term, byte);
    lemma_printed(e.term, byte as char);
    lemma_printed(e.term, replacement());
}

proof fn lemma_ground(e: EmulatorState, byte: u8)
    requires
        e.term.blocks.running_is_held(),
    ensures
        alike(e.ground(byte), e.unstamped().ground(byte)),
{
    reveal(agree);
    lemma_ground_fresh(e, byte);
    lemma_printed(e.term, super::model::decoded(e.parser.utf8.push(byte)));
    lemma_printed(e.term, replacement());
    lemma_ground_fresh(e.between_chars().printed(replacement()), byte);
}

proof fn lemma_escape(e: EmulatorState, byte: u8)
    requires
        e.term.blocks.running_is_held(),
    ensures
        alike(e.escape(byte), e.unstamped().escape(byte)),
{
    reveal(agree);
    lemma_controlled(e.term, byte);
    lemma_escaped(e.term, Seq::empty(), byte);
}

proof fn lemma_escape_int(e: EmulatorState, byte: u8)
    requires
        e.term.blocks.running_is_held(),
    ensures
        alike(e.escape_int(byte), e.unstamped().escape_int(byte)),
{
    reveal(agree);
    lemma_controlled(e.term, byte);
    lemma_escaped(e.term, e.parser.intermediates, byte);
}

proof fn lemma_csi_byte(e: EmulatorState, byte: u8)
    requires
        e.term.blocks.running_is_held(),
    ensures
        alike(e.csi(byte), e.unstamped().csi(byte)),
        alike(e.csi_ignore(byte), e.unstamped().csi_ignore(byte)),
{
    reveal(agree);
    let p = e.parser;
    lemma_controlled(e.term, byte);
    lemma_csi(e.term, p.private, p.params, p.intermediates, byte);
}

proof fn lemma_osc_byte(e: EmulatorState, byte: u8, now: u64)
    requires
        e.term.blocks.running_is_held(),
    ensures
        alike(e.osc_put(byte, now), e.unstamped().osc_put(byte, 0)),
        alike(e.osc_esc(byte, now), e.unstamped().osc_esc(byte, 0)),
{
    reveal(agree);
    lemma_osc(e.term, e.parser.osc, now);
    let aborted = EmulatorState {
        parser: ParserState { osc: Seq::empty(), ..e.parser }.escape_entered(),
        ..e
    };
    lemma_escape(aborted, byte);
}

proof fn lemma_advanced(e: EmulatorState, byte: u8, now: u64)
    requires
        e.term.blocks.running_is_held(),
    ensures
        alike(e.advanced(byte, now), e.unstamped().advanced(byte, 0)),
{
    reveal(agree);
    reveal(EmulatorState::advanced);
    match e.parser.state {
        State::Ground => lemma_ground(e, byte),
        State::Escape => lemma_escape(e, byte),
        State::EscapeInt => lemma_escape_int(e, byte),
        State::Csi => lemma_csi_byte(e, byte),
        State::CsiIgnore => lemma_csi_byte(e, byte),
        State::Osc => lemma_osc_byte(e, byte, now),
        State::OscEsc => lemma_osc_byte(e, byte, now),
        State::Str => {},
        State::StrEsc => {},
    }
}

proof fn lemma_run(e: EmulatorState, bytes: Seq<u8>, clock: Seq<u64>)
    requires
        e.term.blocks.running_is_held(),
        clock.len() == bytes.len(),
    ensures
        alike(
            e.run(bytes, clock),
            e.unstamped().run(bytes, Seq::new(bytes.len(), |i: int| 0u64)),
        ),
    decreases bytes.len(),
{
    reveal(agree);
    let zeros = Seq::new(bytes.len(), |i: int| 0u64);
    if bytes.len() > 0 {
        let init = bytes.drop_last();
        assert(zeros.drop_last() =~= Seq::new(init.len(), |i: int| 0u64));
        lemma_run(e, init, clock.drop_last());
        let mid = e.run(init, clock.drop_last());
        lemma_advanced(mid, bytes.last(), clock.last());
        assert(mid.unstamped() == e.unstamped().run(init, zeros.drop_last()));
    }
}

/// The clock decides the stamps of the blocks and nothing else: the same bytes
/// at other moments lead from the same state, stamps aside, to the same state,
/// stamps aside.
pub proof fn law_clock_only_stamps(
    e: EmulatorState,
    f: EmulatorState,
    bytes: Seq<u8>,
    clock_e: Seq<u64>,
    clock_f: Seq<u64>,
)
    requires
        e.wf(),
        f.wf(),
        e.unstamped() == f.unstamped(),
        clock_e.len() == bytes.len(),
        clock_f.len() == bytes.len(),
    ensures
        e.run(bytes, clock_e).unstamped() == f.run(bytes, clock_f).unstamped(),
{
    reveal(agree);
    reveal(BlocksState::wf);
    lemma_run(e, bytes, clock_e);
    lemma_run(f, bytes, clock_f);
}

/// How a stream is cut into reads makes no difference, whenever the reads come:
/// feeding `a` and then `b` leads to the same state as feeding both at once at
/// other moments, the stamps of the blocks aside. A read of nothing changes
/// nothing.
pub proof fn law_split_reads_at_any_time(
    e: EmulatorState,
    f: EmulatorState,
    a: Seq<u8>,
    b: Seq<u8>,
    clock_a: Seq<u64>,
    clock_b: Seq<u64>,
    clock_f: Seq<u64>,
)
    requires
        e.wf(),
        f.wf(),
        e.unstamped() == f.unstamped(),
        clock_a.len() == a.len(),
        clock_b.len() == b.len(),
        clock_f.len() == a.len() + b.len(),
    ensures
        e.run(a, clock_a).run(b, clock_b).unstamped() == f.run(a + b, clock_f).unstamped(),
        e.run(Seq::empty(), Seq::empty()) == e,
{
    law_split_reads(e, a, b, clock_a, clock_b);
    law_clock_only_stamps(e, f, a + b, clock_a + clock_b, clock_f);
}

} // verus!
