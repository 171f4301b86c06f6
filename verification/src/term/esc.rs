//! Escape sequences without parameters.

use vstd::prelude::*;

use super::{SavedCursor, Term};
use crate::cell::Cell;
use crate::grid::{at_most, Grid};
#[allow(unused_imports)]
use crate::cell::default_cell;
#[allow(unused_imports)]
use crate::grid::lines_fit;

verus! {

/// A line of the screen alignment pattern.
fn alignment_line(cols: usize) -> (line: Vec<Cell>)
    ensures
        line@ == Seq::new(cols as nat, |x: int| Cell { ch: 'E', ..default_cell() }),
{
    let cell = Cell { ch: 'E', ..Cell::default() };
    let line = vec![cell; cols];
    assert(line@ =~= Seq::new(cols as nat, |x: int| Cell { ch: 'E', ..default_cell() }));
    line
}

impl Grid {
    /// DECALN screen alignment test: fills the grid with `E`.
    pub(crate) fn fill_alignment(&mut self)
        requires
            old(self)@.wf(),
        ensures
            final(self)@ == old(self)@.aligned(),
            final(self)@.wf(),
    {
        let ghost target = self@.aligned();
        proof {
            reveal(lines_fit);
        }
        let rows = self.rows;
        let cols = self.cols;
        for y in 0..rows
            invariant
                self.rows == rows,
                self.cols == cols,
                self.lines@.len() == rows,
                target.lines.len() == rows,
                forall|k: int|
                    0 <= k < rows ==> #[trigger] target.lines[k] == Seq::new(
                        cols as nat,
                        |x: int| Cell { ch: 'E', ..default_cell() },
                    ),
                forall|k: int| 0 <= k < y ==> (#[trigger] self.lines@[k])@ == target.lines[k],
        {
            self.lines.set(y, alignment_line(cols));
        }
        assert(self@.lines =~= target.lines);
    }
}

impl Term {
    pub fn esc_dispatch(&mut self, intermediates: &[u8], byte: u8)
        requires
            old(self)@.wf(),
        ensures
            final(self)@ == old(self)@.escaped(intermediates@, byte),
            final(self)@.wf(),
    {
        if intermediates.len() == 0 {
            self.esc_plain(byte);
        } else {
            match intermediates[0] {
                0x28 => {
                    self.charsets.g0_linedraw = byte == 0x30;
                },
                0x29 => {
                    self.charsets.g1_linedraw = byte == 0x30;
                },
                0x23 => {
                    if byte == 0x38 {
                        self.grid.fill_alignment();
                    }
                },
                _ => {},
            }
        }
    }

    /// The escape sequences without intermediates.
    fn esc_plain(&mut self, byte: u8)
        requires
            old(self)@.wf(),
        ensures
            final(self)@ == old(self)@.escaped(Seq::empty(), byte),
            final(self)@.wf(),
    {
        match byte {
            // 7
            0x37 => self.save_cursor(),
            // 8
            0x38 => self.restore_cursor(),
            // D, IND
            0x44 => self.linefeed_no_capture(),
            // E, NEL
            0x45 => {
                self.cursor_x = 0;
                self.linefeed_no_capture();
            },
            // H
            0x48 => {
                self.tabstops.set(self.cursor_x, true);
            },
            // M
            0x4d => self.reverse_index(),
            // c
            0x63 => self.full_reset(),
            // =
            0x3d => {
                self.app_keypad = true;
            },
            // >
            0x3e => {
                self.app_keypad = false;
            },
            _ => {},
        }
    }

    fn reverse_index(&mut self)
        requires
            old(self)@.wf(),
        ensures
            final(self)@ == old(self)@.reverse_fed(),
            final(self)@.wf(),
    {
        if self.cursor_y == self.scroll_top {
            self.grid.scroll_down(self.scroll_top, self.scroll_bot, 1);
        } else {
            self.cursor_y = self.cursor_y.saturating_sub(1);
        }
        self.pending_wrap = false;
    }

    pub(crate) fn save_cursor(&mut self)
        requires
            old(self)@.wf(),
        ensures
            final(self)@ == old(self)@.cursor_saved(),
            final(self)@.wf(),
    {
        self.saved_cursor = Some(
            SavedCursor {
                x: self.cursor_x,
                y: self.cursor_y,
                pen: self.pen,
                origin_mode: self.motion.origin,
                pending_wrap: self.pending_wrap,
            },
        );
    }

    pub(crate) fn restore_cursor(&mut self)
        requires
            old(self)@.wf(),
        ensures
            final(self)@ == old(self)@.cursor_restored(),
            final(self)@.wf(),
    {
        if let Some(sc) = self.saved_cursor {
            self.cursor_x = at_most(sc.x, self.cols() - 1);
            self.cursor_y = at_most(sc.y, self.rows() - 1);
            self.pen = sc.pen;
            self.motion.origin = sc.origin_mode;
            self.pending_wrap = sc.pending_wrap;
        }
    }

    fn full_reset(&mut self)
        requires
            old(self)@.wf(),
        ensures
            final(self)@ == old(self)@.reset(),
            final(self)@.wf(),
    {
        let mut fresh = Term::new(self.cols(), self.rows(), self.max_scrollback);
        std::mem::swap(&mut fresh.blocks, &mut self.blocks);
        *self = fresh;
    }
}

} // verus!
