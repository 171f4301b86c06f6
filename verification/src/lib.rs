//! mimi: a terminal emulator whose every command is a block.
//!
//! The emulation engine is built from first principles: a byte-at-a-time VT
//! state machine (`parser`) drives a screen model (`term` + `grid`). The
//! embedder feeds PTY bytes into [`Emulator::process`] and reads the resulting
//! screen state and events.
//!
//! Semantic command blocks (OSC 133 / OSC 633 shell integration) are first
//! class: every command a shell runs becomes a [`blocks::Block`] with its
//! command line, cwd, output, and exit code — the substrate for agentic
//! workflows.

use vstd::prelude::*;

pub mod agent;
pub mod atlas;
pub mod blocks;
pub mod cell;
pub mod clock;
pub mod config;
pub mod ctl;
pub mod frame;
pub mod grid;
pub mod input;
pub mod json;
pub mod launch;
pub mod osc;
pub mod palette;
pub mod parser;
pub mod pty;
pub mod selection;
pub mod stdx;
pub mod term;
pub mod text;
pub mod width;
pub mod window;

pub use cell::flags;
pub use cell::{Cell, Color};
pub use grid::Grid;
pub use parser::Parser;
pub use term::{Term, TermEvent};

#[allow(unused_imports)]
use parser::model::{EmulatorState, ParserState};
#[allow(unused_imports)]
use parser::pair;
#[allow(unused_imports)]
use term::model::TermState;

verus! {

/// Parser + terminal bundled together so embedders hold a single object
/// behind a lock and feed it raw PTY bytes.
pub struct Emulator {
    pub parser: Parser,
    pub term: Term,
}

impl View for Emulator {
    type V = EmulatorState;

    open spec fn view(&self) -> EmulatorState {
        pair(self.parser, self.term)
    }
}

impl Emulator {
    pub fn new(cols: usize, rows: usize, scrollback: usize) -> (e: Self)
        requires
            cols <= isize::MAX,
            rows <= isize::MAX,
        ensures
            e@.parser == ParserState::fresh(),
            e@.term == TermState::fresh(cols as int, rows as int, scrollback as int),
            e@.wf(),
    {
        Emulator { parser: Parser::new(), term: Term::new(cols, rows, scrollback) }
    }

    /// Feed raw bytes from the PTY. Returns true if anything visible may
    /// have changed (used to coalesce redraws). At which moment each byte that
    /// ends an operating system command came, the clock says.
    pub fn process(&mut self, bytes: &[u8]) -> (changed: bool)
        requires
            old(self)@.wf(),
        ensures
            changed == (bytes@.len() > 0),
            exists|clock: Seq<u64>|
                clock.len() == bytes@.len() && final(self)@ == #[trigger] old(self)@.run(
                    bytes@,
                    clock,
                ),
            final(self)@.wf(),
    {
        let ghost before = self@;
        let ghost mut clock: Seq<u64> = Seq::empty();
        for i in 0..bytes.len()
            invariant
                clock.len() == i,
                self@ == before.run(bytes@.take(i as int), clock),
                self@.wf(),
        {
            let ghost cur = self@;
            self.parser.advance(&mut self.term, bytes[i]);
            proof {
                let now = choose|now: u64| self@ == #[trigger] cur.advanced(bytes@[i as int], now);
                before.lemma_run_push(bytes@.take(i as int), clock, bytes@[i as int], now);
                assert(bytes@.take(i + 1) =~= bytes@.take(i as int).push(bytes@[i as int]));
                clock = clock.push(now);
            }
        }
        assert(bytes@.take(bytes@.len() as int) =~= bytes@);
        bytes.len() > 0
    }
}

} // verus!
