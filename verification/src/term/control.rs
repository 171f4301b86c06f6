//! C0 controls, line feeds and scrolling.

use std::collections::VecDeque;

use vstd::prelude::*;

#[allow(unused_imports)]
use super::Charsets;
use super::model::TermState;
#[allow(unused_imports)]
use super::model::{keep_last, next_stop};
use super::{Term, TermEvent};
use crate::cell::Cell;
use crate::grid::at_most;
#[allow(unused_imports)]
use crate::grid::{cells_of, max};

verus! {

/// Appends `lines` and drops the oldest lines beyond the last `max_lines`.
fn push_lines(scrollback: &mut VecDeque<Vec<Cell>>, lines: Vec<Vec<Cell>>, max_lines: usize)
    requires
        old(scrollback)@.len() <= max_lines,
        max_lines > 0,
    ensures
        cells_of(final(scrollback)@) == keep_last(
            cells_of(old(scrollback)@) + cells_of(lines@),
            max_lines as int,
        ),
{
    let ghost all = cells_of(scrollback@) + cells_of(lines@);
    let ghost held = scrollback@.len() as int;
    assert(cells_of(scrollback@) =~= all.take(held));
    for line in it: lines
        invariant
            it.seq() == lines@,
            max_lines > 0,
            scrollback@.len() <= max_lines,
            0 <= held,
            all.len() == held + lines@.len(),
            forall|k: int| 0 <= k < lines@.len() ==> all[held + k] == (#[trigger] lines@[k])@,
            cells_of(scrollback@) == keep_last(all.take(held + it.index()), max_lines as int),
    {
        let ghost k = it.index() as int;
        let ghost so_far = all.take(held + k);
        assert(lines@[k] == line);
        assert(all.take(held + k + 1) =~= so_far.push(line@));
        if scrollback.len() >= max_lines {
            let ghost full = scrollback@;
            scrollback.pop_front();
            assert(cells_of(scrollback@) =~= cells_of(full).skip(1));
        }
        let ghost kept = scrollback@;
        scrollback.push_back(line);
        assert(cells_of(scrollback@) =~= cells_of(kept).push(line@));
        assert(cells_of(scrollback@) =~= keep_last(so_far.push(line@), max_lines as int));
    }
    assert(all.take(all.len() as int) =~= all);
}

/// The first tab stop from column `from` on, or the last column.
fn find_stop(stops: &Vec<bool>, from: usize) -> (x: usize)
    requires
        0 < stops@.len(),
        from <= stops@.len(),
    ensures
        x == next_stop(stops@, from as int),
        x < stops@.len(),
{
    let last = stops.len() - 1;
    let mut x = from;
    while x < last && !stops[x]
        invariant
            last == stops@.len() - 1,
            from <= x <= stops@.len(),
            next_stop(stops@, from as int) == next_stop(stops@, x as int),
        decreases stops@.len() - x,
    {
        x += 1;
    }
    if x < last {
        x
    } else {
        last
    }
}

impl Term {
    pub fn control(&mut self, byte: u8)
        requires
            old(self)@.wf(),
        ensures
            final(self)@ == old(self)@.controlled(byte),
            final(self)@.wf(),
    {
        proof {
            self@.lemma_controlled_wf(byte);
        }
        match byte {
            0x07 => {
                self.push_event(TermEvent::Bell);
            },
            // BS
            0x08 => {
                self.backspace();
            },
            0x09 => {
                self.horizontal_tab();
            },
            // LF / VT / FF
            0x0a..=0x0c => {
                self.linefeed();
            },
            // CR
            0x0d => {
                self.put_column(0);
            },
            // SO
            0x0e => {
                self.select_g1(true);
            },
            // SI
            0x0f => {
                self.select_g1(false);
            },
            _ => {},
        }
    }

    /// Puts the cursor into a column.
    pub(crate) fn put_column(&mut self, x: usize)
        requires
            old(self)@.wf(),
            x < old(self)@.cols(),
        ensures
            final(self)@ == (TermState { x: x as int, pending_wrap: false, ..old(self)@ }),
            final(self)@.wf(),
    {
        self.cursor_x = x;
        self.pending_wrap = false;
    }

    fn select_g1(&mut self, on: bool)
        requires
            old(self)@.wf(),
        ensures
            final(self)@ == (TermState {
                charsets: Charsets { g1_active: on, ..old(self)@.charsets },
                ..old(self)@
            }),
            final(self)@.wf(),
    {
        self.charsets.g1_active = on;
    }

    fn linefeed(&mut self)
        requires
            old(self)@.wf(),
        ensures
            final(self)@ == old(self)@.captured('\n').line_fed(),
            final(self)@.wf(),
    {
        self.capture_output('\n');
        self.linefeed_no_capture();
    }

    fn backspace(&mut self)
        ensures
            final(self)@ == (TermState {
                x: max(old(self)@.x - 1, 0),
                pending_wrap: false,
                ..old(self)@
            }),
    {
        self.cursor_x = self.cursor_x.saturating_sub(1);
        self.pending_wrap = false;
    }

    fn horizontal_tab(&mut self)
        requires
            old(self)@.wf(),
        ensures
            final(self)@ == (TermState {
                x: next_stop(old(self)@.tabstops, old(self)@.x + 1),
                pending_wrap: false,
                ..old(self)@
            }),
    {
        self.cursor_x = find_stop(&self.tabstops, self.cursor_x + 1);
        self.pending_wrap = false;
    }

    /// Gives `ch` to the running command, unless the alt screen is active.
    pub(crate) fn capture_output(&mut self, ch: char)
        requires
            old(self)@.wf(),
        ensures
            final(self)@ == old(self)@.captured(ch),
            final(self)@.wf(),
    {
        proof {
            self@.lemma_captured_wf(ch);
        }
        if !self.alt_active {
            self.blocks.capture(ch);
        }
    }

    pub(crate) fn linefeed_no_capture(&mut self)
        requires
            old(self)@.wf(),
        ensures
            final(self)@ == old(self)@.line_fed(),
            final(self)@.wf(),
    {
        proof {
            self@.lemma_line_fed_wf();
        }
        if self.cursor_y == self.scroll_bot {
            self.scroll_region_up(1);
            self.pending_wrap = false;
            return;
        }
        self.cursor_y = at_most(self.cursor_y + 1, self.rows() - 1);
        self.pending_wrap = false;
    }

    /// Only a full-screen region feeds scrollback, and never on the alt
    /// screen (matching conventional terminal behavior).
    pub(crate) fn scroll_region_up(&mut self, n: usize)
        requires
            old(self)@.wf(),
        ensures
            final(self)@ == old(self)@.scrolled(n as int),
            final(self)@.wf(),
    {
        proof {
            self@.lemma_scrolled_wf(n as int);
        }
        let evicted = self.grid.scroll_up(self.scroll_top, self.scroll_bot, n);
        if !self.alt_active && self.scroll_top == 0 && self.scroll_bot == self.rows() - 1 {
            if self.max_scrollback > 0 {
                push_lines(&mut self.scrollback, evicted, self.max_scrollback);
            } else {
                assert(self@.scrollback =~= keep_last(
                    self@.scrollback + cells_of(evicted@),
                    self@.max_scrollback,
                ));
            }
        }
    }
}

} // verus!
