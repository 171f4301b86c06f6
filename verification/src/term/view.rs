//! What the embedder reads off the screen.

use std::collections::VecDeque;

use vstd::prelude::*;

use super::{Term, TermEvent};
#[allow(unused_imports)]
use super::event_states;
#[allow(unused_imports)]
use super::model::TermState;
use crate::cell::Cell;
use crate::grid::at_most;
#[allow(unused_imports)]
use crate::grid::line_text;

verus! {

/// The texts of strings.
pub open spec fn texts(lines: Seq<String>) -> Seq<Seq<char>> {
    Seq::new(lines.len(), |i: int| lines[i]@)
}

impl TermState {
    /// The text of the screen, row by row.
    pub open spec fn screen(self) -> Seq<Seq<char>> {
        Seq::new(self.grid.lines.len(), |y: int| line_text(self.grid.lines[y]))
    }
}

impl Term {
    /// Plain-text snapshot of the visible screen (one string per row).
    pub fn screen_text(&self) -> (lines: Vec<String>)
        requires
            self@.wf(),
        ensures
            texts(lines@) == self@.screen(),
    {
        let mut lines: Vec<String> = Vec::new();
        let rows = self.rows();
        for y in 0..rows
            invariant
                self@.wf(),
                rows == self@.rows(),
                lines@.len() == y,
                forall|k: int|
                    0 <= k < y ==> (#[trigger] lines@[k])@ == line_text(self@.grid.lines[k]),
        {
            lines.push(self.grid.row_text(y));
        }
        assert(texts(lines@) =~= self@.screen());
        lines
    }

    /// Hands over the bytes to write back and the events that wait, and forgets
    /// them.
    pub fn take_output(&mut self) -> (out: (Vec<u8>, VecDeque<TermEvent>))
        requires
            old(self)@.wf(),
        ensures
            out.0@ == old(self)@.responses,
            event_states(out.1@) == old(self)@.events,
            final(self)@ == (TermState {
                responses: Seq::empty(),
                events: Seq::empty(),
                ..old(self)@
            }),
            final(self)@.wf(),
    {
        let mut responses: Vec<u8> = Vec::new();
        let mut events: VecDeque<TermEvent> = VecDeque::new();
        std::mem::swap(&mut responses, &mut self.responses);
        std::mem::swap(&mut events, &mut self.events);
        assert(self@.events =~= Seq::empty());
        (responses, events)
    }

    /// Row `idx` of the composed view when scrolled back `offset` lines:
    /// the first rows reach into scrollback.
    pub fn view_line(&self, offset: usize, idx: usize) -> (line: Option<&[Cell]>)
        requires
            self@.wf(),
        ensures
            line is Some <==> self@.view_row(offset as int, idx as int) is Some,
            line matches Some(l) ==> l@ == self@.view_row(offset as int, idx as int)->0,
    {
        let held = self.scrollback.len();
        let back = at_most(offset, held);
        if idx >= back {
            let y = idx - back;
            if y < self.rows() {
                Some(self.grid.line(y))
            } else {
                None
            }
        } else {
            assert(self@.scrollback[held - back + idx] == self.scrollback@[held - back + idx]@);
            Some(self.scrollback[held - back + idx].as_slice())
        }
    }
}

} // verus!
