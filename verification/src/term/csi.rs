//! Control sequences.

use vstd::prelude::*;

#[allow(unused_imports)]
use super::Motion;
use super::model::TermState;
#[allow(unused_imports)]
use super::model::{
    back_stops, clamp, count, param, position_report, prev_stop, primary_attributes,
    secondary_attributes, status_ok,
};
use super::{Modes, Term};
use crate::grid::{at_least, at_most, Grid};
#[allow(unused_imports)]
use crate::grid::{min, GridState};
use crate::text::{append_bytes, append_decimal};

verus! {

/// Parameter `i`; 0 where there is none.
fn param_at(params: &[u16], i: usize) -> (p: usize)
    ensures
        p == param(params@, i as int),
        p <= u16::MAX,
{
    if i < params.len() {
        params[i] as usize
    } else {
        0
    }
}

/// Parameter `i`, counted from 1.
fn count_at(params: &[u16], i: usize) -> (p: usize)
    ensures
        p == count(params@, i as int),
        1 <= p <= u16::MAX,
{
    at_least(param_at(params, i), 1)
}

/// Whether `v` is among the parameters.
fn has_param(params: &[u16], v: u16) -> (b: bool)
    ensures
        b == params@.contains(v),
{
    for i in 0..params.len()
        invariant
            forall|k: int| 0 <= k < i ==> params@[k] != v,
    {
        if params[i] == v {
            return true;
        }
    }
    false
}

/// `v + d`, or the bound that it lies beyond.
fn moved_within(v: usize, d: isize, lo: usize, hi: usize) -> (r: usize)
    requires
        lo <= hi,
    ensures
        r == clamp(v + d, lo as int, hi as int),
{
    let t: i128 = v as i128 + d as i128;
    if t < lo as i128 {
        lo
    } else if t > hi as i128 {
        hi
    } else {
        t as usize
    }
}

/// The last tab stop before column `x`, or the first column.
fn find_stop_before(stops: &Vec<bool>, x: usize) -> (r: usize)
    requires
        x <= stops@.len(),
    ensures
        r == prev_stop(stops@, x as int),
        r <= x,
{
    let mut i = x;
    while i > 0
        invariant
            i <= x <= stops@.len(),
            prev_stop(stops@, x as int) == prev_stop(stops@, i as int),
        decreases i,
    {
        i -= 1;
        if stops[i] {
            return i;
        }
    }
    0
}

/// The column `n` tab stops before column `x`.
fn find_stop_back(stops: &Vec<bool>, x: usize, n: usize) -> (r: usize)
    requires
        x <= stops@.len(),
    ensures
        r == back_stops(stops@, x as int, n as nat),
        r <= x,
{
    let mut cur = x;
    for k in 0..n
        invariant
            cur <= x <= stops@.len(),
            back_stops(stops@, x as int, n as nat) == back_stops(
                stops@,
                cur as int,
                (n - k) as nat,
            ),
    {
        cur = find_stop_before(stops, cur);
    }
    cur
}

/// The embedder's modes with the private mode `p` set or reset, where it is
/// one of them.
fn with_dec_mode(modes: Modes, p: u16, set: bool) -> (r: Option<Modes>)
    ensures
        r == (if p == 1 {
            Some(Modes { app_cursor: set, ..modes })
        } else if p == 25 {
            Some(Modes { show_cursor: set, ..modes })
        } else if p == 1000 || p == 1002 || p == 1003 {
            Some(
                Modes {
                    mouse_mode: if set {
                        p
                    } else {
                        0
                    },
                    ..modes
                },
            )
        } else if p == 1004 {
            Some(Modes { focus_events: set, ..modes })
        } else if p == 1006 {
            Some(Modes { mouse_sgr: set, ..modes })
        } else if p == 2004 {
            Some(Modes { bracketed_paste: set, ..modes })
        } else {
            None
        }),
{
    match p {
        1 => Some(Modes { app_cursor: set, ..modes }),
        25 => Some(Modes { show_cursor: set, ..modes }),
        1000 | 1002 | 1003 => Some(
            Modes {
                mouse_mode: if set {
                    p
                } else {
                    0
                },
                ..modes
            },
        ),
        1004 => Some(Modes { focus_events: set, ..modes }),
        1006 => Some(Modes { mouse_sgr: set, ..modes }),
        2004 => Some(Modes { bracketed_paste: set, ..modes }),
        _ => None,
    }
}

impl Term {
    pub fn csi_dispatch(&mut self, private: u8, params: &[u16], intermediates: &[u8], action: u8)
        requires
            old(self)@.wf(),
        ensures
            final(self)@ == old(self)@.csi(private, params@, intermediates@, action),
            final(self)@.wf(),
    {
        if intermediates.len() > 0 {
            // DECSCUSR (SP q) and friends: accepted, not yet styled.
            return;
        }
        if private == 0x3f {
            match action {
                // h
                0x68 => self.dec_mode(params, true),
                // l
                0x6c => self.dec_mode(params, false),
                // c
                0x63 => self.reply_primary(),
                _ => {},
            }
            return;
        }
        if private != 0 {
            if private == 0x3e && action == 0x63 {
                self.reply_secondary();
            }
            return;
        }
        self.csi_plain(params, action);
    }

    /// The control sequences without private marker or intermediates.
    fn csi_plain(&mut self, params: &[u16], action: u8)
        requires
            old(self)@.wf(),
        ensures
            final(self)@ == old(self)@.csi_plain(params@, action),
            final(self)@.wf(),
    {
        let n = count_at(params, 0);
        match action {
            // A
            0x41 => self.move_cursor(0, -(n as isize)),
            // B
            0x42 => self.move_cursor(0, n as isize),
            // C
            0x43 => self.move_cursor(n as isize, 0),
            // D
            0x44 => self.move_cursor(-(n as isize), 0),
            // E
            0x45 => self.move_line(n as isize),
            // F
            0x46 => self.move_line(-(n as isize)),
            // G
            0x47 => self.put_column(at_most(n - 1, self.cols() - 1)),
            // H f
            0x48 | 0x66 => self.set_cursor_pos(count_at(params, 1) - 1, n - 1),
            // d
            0x64 => self.set_cursor_row(n - 1),
            // J
            0x4a => self.erase_display(param_at(params, 0)),
            // K
            0x4b => self.erase_line(param_at(params, 0)),
            // L
            0x4c => self.insert_lines(n),
            // M
            0x4d => self.delete_lines(n),
            // P
            0x50 => self.delete_chars(n),
            // @
            0x40 => self.insert_chars(n),
            // X
            0x58 => self.erase_chars(n),
            // S
            0x53 => self.scroll_region_up(n),
            // T
            0x54 => self.scroll_region_down(n),
            // m
            0x6d => self.sgr(params),
            // r
            0x72 => self.set_scroll_region(n - 1, param_at(params, 1)),
            // g
            0x67 => self.clear_tabs(param_at(params, 0)),
            // h
            0x68 => {
                if has_param(params, 4) {
                    self.set_insert(true);
                }
            },
            // l
            0x6c => {
                if has_param(params, 4) {
                    self.set_insert(false);
                }
            },
            // n
            0x6e => self.report_status(param_at(params, 0)),
            // c
            0x63 => self.reply_primary(),
            // s
            0x73 => self.save_cursor(),
            // u
            0x75 => self.restore_cursor(),
            // Z, CBT: cursor backward tabulation
            0x5a => self.put_column(find_stop_back(&self.tabstops, self.cursor_x, n)),
            _ => {},
        }
    }

    /// The cursor at the start of a line further down, or up.
    fn move_line(&mut self, dy: isize)
        requires
            old(self)@.wf(),
        ensures
            final(self)@ == (TermState { x: 0, ..old(self)@ }).moved(0, dy as int),
            final(self)@.wf(),
    {
        self.cursor_x = 0;
        self.move_cursor(0, dy);
    }

    fn scroll_region_down(&mut self, n: usize)
        requires
            old(self)@.wf(),
        ensures
            final(self)@ == (TermState {
                grid: old(self)@.grid.scrolled_down(old(self)@.top, old(self)@.bot, n as int),
                ..old(self)@
            }),
            final(self)@.wf(),
    {
        self.grid.scroll_down(self.scroll_top, self.scroll_bot, n);
    }

    fn set_insert(&mut self, on: bool)
        requires
            old(self)@.wf(),
        ensures
            final(self)@ == (TermState {
                motion: Motion { insert: on, ..old(self)@.motion },
                ..old(self)@
            }),
            final(self)@.wf(),
    {
        self.motion.insert = on;
    }

    fn set_autowrap(&mut self, on: bool)
        requires
            old(self)@.wf(),
        ensures
            final(self)@ == (TermState {
                motion: Motion { autowrap: on, ..old(self)@.motion },
                ..old(self)@
            }),
            final(self)@.wf(),
    {
        self.motion.autowrap = on;
    }

    fn set_origin(&mut self, on: bool)
        requires
            old(self)@.wf(),
        ensures
            final(self)@ == (TermState {
                motion: Motion { origin: on, ..old(self)@.motion },
                ..old(self)@
            }).positioned(0, 0),
            final(self)@.wf(),
    {
        self.motion.origin = on;
        self.set_cursor_pos(0, 0);
    }

    fn reply(&mut self, bytes: &[u8])
        requires
            old(self)@.wf(),
        ensures
            final(self)@ == old(self)@.replied(bytes@),
            final(self)@.wf(),
    {
        append_bytes(&mut self.responses, bytes);
    }

    fn reply_primary(&mut self)
        requires
            old(self)@.wf(),
        ensures
            final(self)@ == old(self)@.replied(primary_attributes()),
            final(self)@.wf(),
    {
        let bytes: [u8; 9] = [0x1b, 0x5b, 0x3f, 0x36, 0x32, 0x3b, 0x32, 0x32, 0x63];
        assert(bytes@ =~= primary_attributes());
        self.reply(&bytes);
    }

    fn reply_secondary(&mut self)
        requires
            old(self)@.wf(),
        ensures
            final(self)@ == old(self)@.replied(secondary_attributes()),
            final(self)@.wf(),
    {
        let bytes: [u8; 10] = [0x1b, 0x5b, 0x3e, 0x31, 0x3b, 0x31, 0x30, 0x3b, 0x30, 0x63];
        assert(bytes@ =~= secondary_attributes());
        self.reply(&bytes);
    }

    /// DSR: the status report or the cursor position report.
    fn report_status(&mut self, what: usize)
        requires
            old(self)@.wf(),
        ensures
            final(self)@ == (if what == 5 {
                old(self)@.replied(status_ok())
            } else if what == 6 {
                old(self)@.replied(
                    position_report(old(self)@.reported_row(), (old(self)@.x + 1) as nat),
                )
            } else {
                old(self)@
            }),
            final(self)@.wf(),
    {
        if what == 5 {
            let bytes: [u8; 4] = [0x1b, 0x5b, 0x30, 0x6e];
            assert(bytes@ =~= status_ok());
            self.reply(&bytes);
        } else if what == 6 {
            let bytes = self.position_reply();
            self.reply(bytes.as_slice());
        }
    }

    /// The bytes of the cursor position report.
    fn position_reply(&self) -> (bytes: Vec<u8>)
        requires
            self@.wf(),
        ensures
            bytes@ == position_report(self@.reported_row(), (self@.x + 1) as nat),
    {
        let row = if self.motion.origin {
            self.cursor_y.wrapping_sub(self.scroll_top)
        } else {
            self.cursor_y
        };
        let mut bytes: Vec<u8> = vec![0x1b, 0x5b];
        append_decimal(&mut bytes, row.wrapping_add(1) as u64);
        bytes.push(0x3b);
        append_decimal(&mut bytes, (self.cursor_x + 1) as u64);
        bytes.push(0x52);
        assert(bytes@ =~= position_report(self@.reported_row(), (self@.x + 1) as nat));
        bytes
    }

    /// TBC: clears the tab stop at the cursor, or all of them.
    fn clear_tabs(&mut self, what: usize)
        requires
            old(self)@.wf(),
        ensures
            final(self)@ == (if what == 0 {
                TermState { tabstops: old(self)@.tabstops.update(old(self)@.x, false), ..old(self)@ }
            } else if what == 3 {
                TermState {
                    tabstops: Seq::new(old(self)@.tabstops.len(), |i: int| false),
                    ..old(self)@
                }
            } else {
                old(self)@
            }),
            final(self)@.wf(),
    {
        if what == 0 {
            self.tabstops.set(self.cursor_x, false);
        } else if what == 3 {
            let stops = vec![false; self.tabstops.len()];
            assert(stops@ =~= Seq::new(self.tabstops@.len(), |i: int| false));
            self.tabstops = stops;
        }
    }

    fn move_cursor(&mut self, dx: isize, dy: isize)
        requires
            old(self)@.wf(),
        ensures
            final(self)@ == old(self)@.moved(dx as int, dy as int),
            final(self)@.wf(),
    {
        // Vertical movement respects the scroll region when starting inside it.
        let inside = self.cursor_y >= self.scroll_top && self.cursor_y <= self.scroll_bot;
        let lo = if inside {
            self.scroll_top
        } else {
            0
        };
        let hi = if inside {
            self.scroll_bot
        } else {
            self.rows() - 1
        };
        self.cursor_x = moved_within(self.cursor_x, dx, 0, self.cols() - 1);
        self.cursor_y = moved_within(self.cursor_y, dy, lo, hi);
        self.pending_wrap = false;
    }

    pub(crate) fn set_cursor_pos(&mut self, x: usize, y: usize)
        requires
            old(self)@.wf(),
            y <= u16::MAX,
        ensures
            final(self)@ == old(self)@.positioned(x as int, y as int),
            final(self)@.wf(),
    {
        let row = if self.motion.origin {
            at_most(self.scroll_top + y, self.scroll_bot)
        } else {
            at_most(y, self.rows() - 1)
        };
        self.cursor_x = at_most(x, self.cols() - 1);
        self.cursor_y = row;
        self.pending_wrap = false;
    }

    /// VPA: the cursor's row, in origin mode counted from the scroll region.
    fn set_cursor_row(&mut self, y: usize)
        requires
            old(self)@.wf(),
            y <= u16::MAX,
        ensures
            final(self)@ == (TermState {
                y: min(
                    if old(self)@.motion.origin {
                        old(self)@.top + y
                    } else {
                        y as int
                    },
                    old(self)@.rows() - 1,
                ),
                pending_wrap: false,
                ..old(self)@
            }),
            final(self)@.wf(),
    {
        let row = if self.motion.origin {
            self.scroll_top + y
        } else {
            y
        };
        self.cursor_y = at_most(row, self.rows() - 1);
        self.pending_wrap = false;
    }

    /// DECSTBM: the scroll region from row `top` to the row before `end`, or
    /// to the last row where `end` is 0.
    fn set_scroll_region(&mut self, top: usize, end: usize)
        requires
            old(self)@.wf(),
        ensures
            final(self)@ == old(self)@.region_set(
                top as int,
                if end == 0 {
                    old(self)@.rows() - 1
                } else {
                    end - 1
                },
            ),
            final(self)@.wf(),
    {
        let bot = if end == 0 {
            self.rows() - 1
        } else {
            end - 1
        };
        if top < bot && bot < self.rows() {
            self.scroll_top = top;
            self.scroll_bot = bot;
            self.set_cursor_pos(0, 0);
        }
    }

    fn dec_mode(&mut self, params: &[u16], set: bool)
        requires
            old(self)@.wf(),
        ensures
            final(self)@ == old(self)@.dec_modes(params@, set),
            final(self)@.wf(),
    {
        let ghost before = self@;
        for i in 0..params.len()
            invariant
                self@ == before.dec_modes(params@.take(i as int), set),
                self@.wf(),
        {
            assert(params@.take(i + 1).drop_last() =~= params@.take(i as int));
            self.set_dec_mode(params[i], set);
        }
        assert(params@.take(params@.len() as int) =~= params@);
    }

    /// The modes that the embedder looks at.
    fn modes(&self) -> (m: Modes)
        ensures
            m == self@.modes,
    {
        Modes {
            show_cursor: self.show_cursor,
            bracketed_paste: self.bracketed_paste,
            app_cursor: self.app_cursor,
            app_keypad: self.app_keypad,
            focus_events: self.focus_events,
            mouse_mode: self.mouse_mode,
            mouse_sgr: self.mouse_sgr,
        }
    }

    fn set_modes(&mut self, modes: Modes)
        requires
            old(self)@.wf(),
        ensures
            final(self)@ == (TermState { modes, ..old(self)@ }),
            final(self)@.wf(),
    {
        self.show_cursor = modes.show_cursor;
        self.bracketed_paste = modes.bracketed_paste;
        self.app_cursor = modes.app_cursor;
        self.app_keypad = modes.app_keypad;
        self.focus_events = modes.focus_events;
        self.mouse_mode = modes.mouse_mode;
        self.mouse_sgr = modes.mouse_sgr;
    }

    fn set_dec_mode(&mut self, p: u16, set: bool)
        requires
            old(self)@.wf(),
        ensures
            final(self)@ == old(self)@.dec_mode_one(p, set),
            final(self)@.wf(),
    {
        if let Some(modes) = with_dec_mode(self.modes(), p, set) {
            self.set_modes(modes);
            return;
        }
        match p {
            6 => self.set_origin(set),
            7 => self.set_autowrap(set),
            47 | 1047 => self.set_alt_screen(set, false),
            1048 => {
                if set {
                    self.save_cursor();
                } else {
                    self.restore_cursor();
                }
            },
            1049 => self.set_alt_screen(set, true),
            _ => {},
        }
    }

    /// Enters or leaves the alternate screen, saving or restoring the cursor
    /// with it.
    pub fn set_alt_screen(&mut self, enter: bool, with_cursor: bool)
        requires
            old(self)@.wf(),
        ensures
            final(self)@ == old(self)@.alt_switched(enter, with_cursor),
            final(self)@.wf(),
    {
        if enter && !self.alt_active {
            if with_cursor {
                self.save_cursor();
            }
            self.enter_alt();
        } else if !enter && self.alt_active {
            self.leave_alt();
            if with_cursor {
                self.restore_cursor();
            }
            self.pending_wrap = false;
        }
    }

    /// Stashes the primary screen and starts an empty one.
    fn enter_alt(&mut self)
        requires
            old(self)@.wf(),
            !old(self)@.alt_active,
        ensures
            final(self)@ == (TermState {
                grid: GridState::blank(old(self)@.cols(), old(self)@.rows()),
                saved_primary: Some(old(self)@.grid),
                alt_active: true,
                x: 0,
                y: 0,
                pending_wrap: false,
                ..old(self)@
            }),
            final(self)@.wf(),
    {
        let mut screen = Grid::new(self.cols(), self.rows());
        std::mem::swap(&mut screen, &mut self.grid);
        self.saved_primary = Some(screen);
        self.alt_active = true;
        self.cursor_x = 0;
        self.cursor_y = 0;
        self.pending_wrap = false;
    }

    /// Brings the primary screen back.
    fn leave_alt(&mut self)
        requires
            old(self)@.wf(),
            old(self)@.alt_active,
        ensures
            final(self)@ == (TermState {
                grid: old(self)@.saved_primary->0,
                saved_primary: None,
                alt_active: false,
                ..old(self)@
            }),
            final(self)@.wf(),
    {
        if let Some(primary) = self.saved_primary.take() {
            self.grid = primary;
        }
        self.alt_active = false;
    }
}

} // verus!
