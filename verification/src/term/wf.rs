//! Every operation keeps a terminal well-formed.

use vstd::prelude::*;

#[allow(unused_imports)]
use crate::blocks::BlocksState;
#[allow(unused_imports)]
use crate::grid::{lines_fit, max};
#[allow(unused_imports)]
use super::model::{next_stop, TermState};

verus! {

/// A tab lands on the line, not before `i` unless `i` lies beyond it.
pub proof fn lemma_next_stop(stops: Seq<bool>, i: int)
    requires
        0 < stops.len(),
        0 <= i <= stops.len(),
    ensures
        0 <= next_stop(stops, i) < stops.len(),
        i < stops.len() ==> i <= next_stop(stops, i),
    decreases stops.len() - i,
{
    if i < stops.len() - 1 && !stops[i] {
        lemma_next_stop(stops, i + 1);
    }
}

impl TermState {
    pub proof fn lemma_fresh_wf(cols: int, rows: int, max_scrollback: int)
        requires
            cols <= isize::MAX,
            rows <= isize::MAX,
            0 <= max_scrollback <= usize::MAX,
        ensures
            TermState::fresh(cols, rows, max_scrollback).wf(),
    {
        reveal(lines_fit);
        reveal(BlocksState::wf);
    }

    pub proof fn lemma_resized_wf(self, cols: int, rows: int)
        requires
            self.wf(),
            cols <= isize::MAX,
            rows <= isize::MAX,
        ensures
            self.resized(cols, rows).wf(),
    {
        let c = max(cols, 2);
        let r = max(rows, 1);
        self.grid.lemma_resized_wf(c, r);
        if let Some(g) = self.saved_primary {
            g.lemma_resized_wf(c, r);
        }
        assert(lines_fit(self.resized(cols, rows).scrollback, c)) by {
            reveal(lines_fit);
        }
    }

    pub proof fn lemma_captured_wf(self, ch: char)
        requires
            self.wf(),
        ensures
            self.captured(ch).wf(),
    {
        self.blocks.lemma_captured_wf(ch);
    }

    pub proof fn lemma_scrolled_wf(self, n: int)
        requires
            self.wf(),
            0 <= n,
        ensures
            self.scrolled(n).wf(),
    {
        self.grid.lemma_scrolled_wf(self.top, self.bot, n);
        assert(lines_fit(self.scrolled(n).scrollback, self.cols())) by {
            reveal(lines_fit);
        }
    }

    pub proof fn lemma_line_fed_wf(self)
        requires
            self.wf(),
        ensures
            self.line_fed().wf(),
    {
        self.lemma_scrolled_wf(1);
    }

    pub proof fn lemma_wrapped_wf(self)
        requires
            self.wf(),
        ensures
            self.wrapped().wf(),
    {
        TermState { x: 0, ..self }.lemma_line_fed_wf();
    }

    pub proof fn lemma_fitted_wf(self, w: int)
        requires
            self.wf(),
        ensures
            self.fitted(w).wf(),
            w == 2 ==> self.fitted(w).x + 2 <= self.cols(),
    {
        TermState { x: 0, ..self }.lemma_line_fed_wf();
    }

    pub proof fn lemma_controlled_wf(self, byte: u8)
        requires
            self.wf(),
        ensures
            self.controlled(byte).wf(),
    {
        if 0x0a <= byte <= 0x0c {
            self.lemma_captured_wf('\n');
            self.captured('\n').lemma_line_fed_wf();
        } else if byte == 0x09 {
            lemma_next_stop(self.tabstops, self.x + 1);
        }
    }
}

} // verus!
