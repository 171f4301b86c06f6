//! What holds of every state that an emulator can come to.

use vstd::prelude::*;

#[allow(unused_imports)]
use super::State;
#[allow(unused_imports)]
use super::model::{decoded, replacement, EmulatorState, ParserState};
use crate::term::keeps::{
    keeps, lemma_controlled, lemma_csi, lemma_escaped, lemma_osc, lemma_printed, lemma_resized,
};
use crate::term::laws::law_bounded;
use crate::term::model::TermState;
#[allow(unused_imports)]
use crate::term::model::MAX_EVENTS;

verus! {

/// Whether `f`, which came of `e`, is well-formed and has the same bound on its
/// scrollback.
spec fn stays(e: EmulatorState, f: EmulatorState) -> bool {
    f.parser.wf() && keeps(e.term, f.term)
}

proof fn lemma_ground_fresh(e: EmulatorState, byte: u8)
    requires
        e.wf(),
        e.parser.state == State::Ground,
        e.parser.utf8_need == 0,
    ensures
        stays(e, e.ground_fresh(byte)),
{
    lemma_controlled(e.term, byte);
    lemma_printed(e.term, byte as char);
    lemma_printed(e.term, replacement());
    assert(keeps(e.term, e.term)) by {
        reveal(keeps);
    }
}

proof fn lemma_ground(e: EmulatorState, byte: u8)
    requires
        e.wf(),
        e.parser.state == State::Ground,
    ensures
        stays(e, e.ground(byte)),
{
    reveal(keeps);
    if e.parser.utf8_need == 0 {
        lemma_ground_fresh(e, byte);
    } else {
        lemma_printed(e.term, decoded(e.parser.utf8.push(byte)));
        lemma_printed(e.term, replacement());
        lemma_ground_fresh(e.between_chars().printed(replacement()), byte);
    }
}

proof fn lemma_escape(e: EmulatorState, byte: u8)
    requires
        e.wf(),
        e.parser.intermediates.len() == 0,
    ensures
        stays(e, e.escape(byte)),
{
    lemma_controlled(e.term, byte);
    lemma_escaped(e.term, Seq::empty(), byte);
    assert(keeps(e.term, e.term)) by {
        reveal(keeps);
    }
}

proof fn lemma_escape_int(e: EmulatorState, byte: u8)
    requires
        e.wf(),
        e.parser.state == State::EscapeInt,
    ensures
        stays(e, e.escape_int(byte)),
{
    lemma_controlled(e.term, byte);
    lemma_escaped(e.term, e.parser.intermediates, byte);
    assert(keeps(e.term, e.term)) by {
        reveal(keeps);
    }
}

proof fn lemma_csi_byte(e: EmulatorState, byte: u8)
    requires
        e.wf(),
    ensures
        e.parser.state == State::Csi ==> stays(e, e.csi(byte)),
        stays(e, e.csi_ignore(byte)),
{
    let p = e.parser;
    lemma_controlled(e.term, byte);
    lemma_csi(e.term, p.private, p.params, p.intermediates, byte);
    assert(keeps(e.term, e.term)) by {
        reveal(keeps);
    }
}

proof fn lemma_osc_byte(e: EmulatorState, byte: u8, now: u64)
    requires
        e.wf(),
    ensures
        stays(e, e.osc_put(byte, now)),
        stays(e, e.osc_esc(byte, now)),
{
    lemma_osc(e.term, e.parser.osc, now);
    let aborted = EmulatorState {
        parser: ParserState { osc: Seq::empty(), ..e.parser }.escape_entered(),
        ..e
    };
    lemma_escape(aborted, byte);
    assert(keeps(e.term, e.term)) by {
        reveal(keeps);
    }
}

proof fn lemma_advanced(e: EmulatorState, byte: u8, now: u64)
    requires
        e.wf(),
    ensures
        stays(e, e.advanced(byte, now)),
{
    reveal(EmulatorState::advanced);
    assert(keeps(e.term, e.term)) by {
        reveal(keeps);
    }
    match e.parser.state {
        State::Ground => lemma_ground(e, byte),
        State::Escape => lemma_escape(e, byte),
        State::EscapeInt => lemma_escape_int(e, byte),
        State::Csi => lemma_csi_byte(e, byte),
        State::CsiIgnore => lemma_csi_byte(e, byte),
        State::Osc => lemma_osc_byte(e, byte, now),
        State::OscEsc => lemma_osc_byte(e, byte, now),
        State::Str => {},
        State::StrEsc => {},
    }
}

/// Whatever is fed to an emulator, it stays well-formed, and the bound on its
/// scrollback stays the configured one.
pub proof fn law_stream_keeps_bounds(e: EmulatorState, bytes: Seq<u8>, clock: Seq<u64>)
    requires
        e.wf(),
        clock.len() == bytes.len(),
    ensures
        e.run(bytes, clock).wf(),
        e.run(bytes, clock).term.max_scrollback == e.term.max_scrollback,
    decreases bytes.len(),
{
    if bytes.len() > 0 {
        law_stream_keeps_bounds(e, bytes.drop_last(), clock.drop_last());
        let mid = e.run(bytes.drop_last(), clock.drop_last());
        lemma_advanced(mid, bytes.last(), clock.last());
        reveal(keeps);
    }
}

/// A resize keeps an emulator well-formed, and the bound on its scrollback as it
/// is.
pub proof fn law_resize_keeps_bounds(s: TermState, cols: int, rows: int)
    requires
        s.wf(),
        cols <= isize::MAX,
        rows <= isize::MAX,
    ensures
        s.resized(cols, rows).wf(),
        s.resized(cols, rows).max_scrollback == s.max_scrollback,
{
    lemma_resized(s, cols, rows);
    reveal(keeps);
}

/// What an embedder does with an emulator: it feeds bytes, each at its moment,
/// or resizes the screen.
pub enum Call {
    Process(Seq<u8>, Seq<u64>),
    Resize(int, int),
}

impl Call {
    /// Every byte has its moment, and the size is one that a machine can hold.
    pub open spec fn fits(self) -> bool {
        match self {
            Call::Process(bytes, clock) => bytes.len() == clock.len(),
            Call::Resize(cols, rows) => cols <= isize::MAX && rows <= isize::MAX,
        }
    }
}

impl EmulatorState {
    /// A new emulator.
    pub open spec fn fresh(cols: int, rows: int, scrollback: int) -> EmulatorState {
        EmulatorState {
            parser: ParserState::fresh(),
            term: TermState::fresh(cols, rows, scrollback),
        }
    }

    /// The emulator after `calls`, one after the other.
    pub open spec fn after(self, calls: Seq<Call>) -> EmulatorState
        decreases calls.len(),
    {
        if calls.len() == 0 {
            self
        } else {
            let e = self.after(calls.drop_last());
            match calls.last() {
                Call::Process(bytes, clock) => e.run(bytes, clock),
                Call::Resize(cols, rows) => EmulatorState {
                    term: e.term.resized(cols, rows),
                    ..e
                },
            }
        }
    }
}

proof fn lemma_after(e: EmulatorState, calls: Seq<Call>)
    requires
        e.wf(),
        forall|i: int| 0 <= i < calls.len() ==> (#[trigger] calls[i]).fits(),
    ensures
        e.after(calls).wf(),
        e.after(calls).term.max_scrollback == e.term.max_scrollback,
    decreases calls.len(),
{
    if calls.len() > 0 {
        let init = calls.drop_last();
        assert forall|i: int| 0 <= i < init.len() implies (#[trigger] init[i]).fits() by {
            assert(init[i] == calls[i]);
        }
        lemma_after(e, init);
        let mid = e.after(init);
        assert(calls[calls.len() - 1].fits());
        match calls.last() {
            Call::Process(bytes, clock) => law_stream_keeps_bounds(mid, bytes, clock),
            Call::Resize(cols, rows) => law_resize_keeps_bounds(mid.term, cols, rows),
        }
    }
}

/// Whatever is done with a new emulator: the screen has at least 2 columns and 1
/// row; it has as many lines as rows, each with a cell for every column; the
/// cursor and the scroll region lie on it; there is a tab stop setting for every
/// column; the scrollback is never longer than configured, and its lines are as
/// wide as the screen; no more events wait than their bound; and the primary
/// screen is stashed exactly while the alternate one is shown.
pub proof fn law_every_state_is_bounded(
    cols: int,
    rows: int,
    scrollback: int,
    calls: Seq<Call>,
    i: int,
)
    requires
        0 <= cols <= isize::MAX,
        0 <= rows <= isize::MAX,
        0 <= scrollback <= usize::MAX,
        forall|k: int| 0 <= k < calls.len() ==> (#[trigger] calls[k]).fits(),
    ensures
        ({
            let e = EmulatorState::fresh(cols, rows, scrollback).after(calls);
            let t = e.term;
            &&& e.wf()
            &&& t.cols() >= 2
            &&& t.rows() >= 1
            &&& t.grid.lines.len() == t.rows()
            &&& 0 <= i < t.rows() ==> t.grid.lines[i].len() == t.cols()
            &&& 0 <= t.x < t.cols()
            &&& 0 <= t.y < t.rows()
            &&& 0 <= t.top <= t.bot < t.rows()
            &&& t.tabstops.len() == t.cols()
            &&& t.max_scrollback == scrollback
            &&& t.scrollback.len() <= scrollback
            &&& 0 <= i < t.scrollback.len() ==> t.scrollback[i].len() == t.cols()
            &&& t.events.len() <= MAX_EVENTS
            &&& t.alt_active <==> t.saved_primary is Some
        }),
{
    let e = EmulatorState::fresh(cols, rows, scrollback);
    TermState::lemma_fresh_wf(cols, rows, scrollback);
    lemma_after(e, calls);
    law_bounded(e.after(calls).term, i);
}

} // verus!
