//! The terminal screen model: cursor, modes, scroll regions, alt screen,
//! scrollback, and dispatch targets for the parser.

use std::collections::VecDeque;

use vstd::prelude::*;

use crate::blocks::BlockStore;
#[allow(unused_imports)]
use crate::blocks::text_of;
use crate::cell::Cell;
use crate::grid::{at_least, at_most, resize_line, Grid};
use crate::stdx::deque_get_mut;
#[allow(unused_imports)]
use crate::grid::{cells_of, fit_line, min, GridState};

pub mod capture_laws;
pub mod control;
pub mod csi;
pub mod edit;
pub mod edit_laws;
pub mod esc;
pub mod keeps;
pub mod laws;
pub mod mode_laws;
pub mod model;
pub mod motion_laws;
pub mod osc;
pub mod osc_laws;
pub mod print;
pub mod print_laws;
pub mod sgr;
pub mod sgr_laws;
pub mod view;
pub mod wf;

use model::MAX_EVENTS;
#[allow(unused_imports)]
use model::{default_stops, CursorState, EventState, TermState};

verus! {

/// Events surfaced to the embedder (window title, bell, block lifecycle...).
#[derive(Clone, Debug, PartialEq)]
pub enum TermEvent {
    Title(String),
    Bell,
    CwdChanged(String),
    BlockStarted(u64),
    BlockFinished(u64),
}

impl View for TermEvent {
    type V = EventState;

    open spec fn view(&self) -> EventState {
        match self {
            TermEvent::Title(s) => EventState::Title(s@),
            TermEvent::Bell => EventState::Bell,
            TermEvent::CwdChanged(s) => EventState::CwdChanged(s@),
            TermEvent::BlockStarted(id) => EventState::BlockStarted(*id),
            TermEvent::BlockFinished(id) => EventState::BlockFinished(*id),
        }
    }
}

/// What DECSC keeps of the cursor.
#[derive(Clone, Copy)]
pub struct SavedCursor {
    pub x: usize,
    pub y: usize,
    pub pen: Cell,
    pub origin_mode: bool,
    pub pending_wrap: bool,
}

impl View for SavedCursor {
    type V = CursorState;

    open spec fn view(&self) -> CursorState {
        CursorState {
            x: self.x as int,
            y: self.y as int,
            pen: self.pen,
            origin_mode: self.origin_mode,
            pending_wrap: self.pending_wrap,
        }
    }
}

/// Modes that the embedder looks at.
#[derive(Clone, Copy, PartialEq, Eq, Debug, Structural)]
pub struct Modes {
    pub show_cursor: bool,
    pub bracketed_paste: bool,
    pub app_cursor: bool,
    pub app_keypad: bool,
    pub focus_events: bool,
    /// 0, 1000, 1002 or 1003.
    pub mouse_mode: u16,
    pub mouse_sgr: bool,
}

/// Modes of the cursor: whether it wraps at the end of a line, counts rows
/// from the scroll region, and pushes the rest of the line on when printing.
#[derive(Clone, Copy, PartialEq, Eq, Debug, Structural)]
pub struct Motion {
    pub autowrap: bool,
    pub origin: bool,
    pub insert: bool,
}

/// DEC line drawing for G0/G1, selected via SI/SO.
#[derive(Clone, Copy, PartialEq, Eq, Debug, Structural)]
pub struct Charsets {
    pub g0_linedraw: bool,
    pub g1_linedraw: bool,
    pub g1_active: bool,
}

pub struct Term {
    pub grid: Grid,
    /// Primary screen stashed while the alt screen is active.
    pub saved_primary: Option<Grid>,
    pub alt_active: bool,
    pub scrollback: VecDeque<Vec<Cell>>,
    pub max_scrollback: usize,
    pub cursor_x: usize,
    pub cursor_y: usize,
    /// Current SGR attributes, applied to printed cells.
    pub pen: Cell,
    pub saved_cursor: Option<SavedCursor>,
    pub pending_wrap: bool,
    pub scroll_top: usize,
    pub scroll_bot: usize,
    pub show_cursor: bool,
    pub bracketed_paste: bool,
    pub app_cursor: bool,
    pub app_keypad: bool,
    pub focus_events: bool,
    /// 0, 1000, 1002 or 1003.
    pub mouse_mode: u16,
    pub mouse_sgr: bool,
    pub motion: Motion,
    pub tabstops: Vec<bool>,
    pub charsets: Charsets,
    pub title: String,
    pub cwd: Option<String>,
    pub events: VecDeque<TermEvent>,
    /// Bytes the emulator wants written back to the PTY (DA/DSR replies).
    pub responses: Vec<u8>,
    pub blocks: BlockStore,
}

/// The values of the events.
pub open spec fn event_states(events: Seq<TermEvent>) -> Seq<EventState> {
    Seq::new(events.len(), |i: int| events[i]@)
}

/// The value of an optional grid.
pub open spec fn grid_of(grid: Option<Grid>) -> Option<GridState> {
    match grid {
        Some(g) => Some(g@),
        None => None,
    }
}

/// The value of an optional saved cursor.
pub open spec fn cursor_of(cursor: Option<SavedCursor>) -> Option<CursorState> {
    match cursor {
        Some(c) => Some(c@),
        None => None,
    }
}

/// The modes that the embedder looks at.
pub open spec fn modes_of(term: Term) -> Modes {
    Modes {
        show_cursor: term.show_cursor,
        bracketed_paste: term.bracketed_paste,
        app_cursor: term.app_cursor,
        app_keypad: term.app_keypad,
        focus_events: term.focus_events,
        mouse_mode: term.mouse_mode,
        mouse_sgr: term.mouse_sgr,
    }
}

impl View for Term {
    type V = TermState;

    open spec fn view(&self) -> TermState {
        TermState {
            grid: self.grid@,
            saved_primary: grid_of(self.saved_primary),
            alt_active: self.alt_active,
            scrollback: cells_of(self.scrollback@),
            max_scrollback: self.max_scrollback as int,
            x: self.cursor_x as int,
            y: self.cursor_y as int,
            pen: self.pen,
            saved_cursor: cursor_of(self.saved_cursor),
            pending_wrap: self.pending_wrap,
            top: self.scroll_top as int,
            bot: self.scroll_bot as int,
            modes: modes_of(*self),
            motion: self.motion,
            tabstops: self.tabstops@,
            charsets: self.charsets,
            title: self.title@,
            cwd: text_of(self.cwd),
            events: event_states(self.events@),
            responses: self.responses@,
            blocks: self.blocks@,
        }
    }
}

fn default_tabstops(cols: usize) -> (stops: Vec<bool>)
    ensures
        stops@ == default_stops(cols as int),
{
    let mut stops: Vec<bool> = Vec::new();
    for i in 0..cols
        invariant
            stops@ == default_stops(i as int),
    {
        stops.push(i % 8 == 0 && i != 0);
        assert(stops@ =~= default_stops(i + 1));
    }
    stops
}

impl Term {
    pub fn new(cols: usize, rows: usize, max_scrollback: usize) -> (term: Self)
        requires
            cols <= isize::MAX,
            rows <= isize::MAX,
        ensures
            term@ == TermState::fresh(cols as int, rows as int, max_scrollback as int),
            term@.wf(),
    {
        proof {
            TermState::lemma_fresh_wf(cols as int, rows as int, max_scrollback as int);
        }
        let cols = at_least(cols, 2);
        let rows = at_least(rows, 1);
        Term {
            grid: Grid::new(cols, rows),
            saved_primary: None,
            alt_active: false,
            scrollback: VecDeque::new(),
            max_scrollback,
            cursor_x: 0,
            cursor_y: 0,
            pen: Cell::default(),
            saved_cursor: None,
            pending_wrap: false,
            scroll_top: 0,
            scroll_bot: rows - 1,
            show_cursor: true,
            bracketed_paste: false,
            app_cursor: false,
            app_keypad: false,
            focus_events: false,
            mouse_mode: 0,
            mouse_sgr: false,
            motion: Motion { autowrap: true, origin: false, insert: false },
            tabstops: default_tabstops(cols),
            charsets: Charsets { g0_linedraw: false, g1_linedraw: false, g1_active: false },
            title: String::new(),
            cwd: None,
            events: VecDeque::new(),
            responses: Vec::new(),
            blocks: BlockStore::default(),
        }
    }

    pub fn cols(&self) -> (n: usize)
        ensures
            n == self@.cols(),
    {
        self.grid.cols
    }

    pub fn rows(&self) -> (n: usize)
        ensures
            n == self@.rows(),
    {
        self.grid.rows
    }

    pub fn resize(&mut self, cols: usize, rows: usize)
        requires
            old(self)@.wf(),
            cols <= isize::MAX,
            rows <= isize::MAX,
        ensures
            final(self)@ == old(self)@.resized(cols as int, rows as int),
            final(self)@.wf(),
    {
        proof {
            self@.lemma_resized_wf(cols as int, rows as int);
        }
        let cols = at_least(cols, 2);
        let rows = at_least(rows, 1);
        if cols == self.cols() && rows == self.rows() {
            return;
        }
        self.resize_lines(cols, rows);
        self.fit_cursor(cols, rows);
    }

    /// Brings the screen, the stashed one and the scrollback to a new size.
    fn resize_lines(&mut self, cols: usize, rows: usize)
        requires
            old(self)@.wf(),
        ensures
            final(self)@ == (TermState {
                grid: old(self)@.grid.resized(cols as int, rows as int),
                saved_primary: match old(self)@.saved_primary {
                    Some(g) => Some(g.resized(cols as int, rows as int)),
                    None => None,
                },
                scrollback: Seq::new(
                    old(self)@.scrollback.len(),
                    |i: int| fit_line(old(self)@.scrollback[i], cols as int),
                ),
                tabstops: default_stops(cols as int),
                ..old(self)@
            }),
    {
        self.grid.resize(cols, rows);
        resize_stash(&mut self.saved_primary, cols, rows);
        resize_lines(&mut self.scrollback, cols);
        self.tabstops = default_tabstops(cols);
    }

    /// Draws the cursor in to the new size, with the whole screen as the scroll
    /// region.
    fn fit_cursor(&mut self, cols: usize, rows: usize)
        requires
            0 < cols,
            0 < rows,
        ensures
            final(self)@ == (TermState {
                top: 0,
                bot: rows - 1,
                x: min(old(self)@.x, cols - 1),
                y: min(old(self)@.y, rows - 1),
                pending_wrap: false,
                ..old(self)@
            }),
    {
        self.scroll_top = 0;
        self.scroll_bot = rows - 1;
        self.cursor_x = at_most(self.cursor_x, cols - 1);
        self.cursor_y = at_most(self.cursor_y, rows - 1);
        self.pending_wrap = false;
    }

    /// Bounded so a hostile stream can't balloon memory if the embedder
    /// stalls.
    pub fn push_event(&mut self, ev: TermEvent)
        ensures
            final(self)@ == old(self)@.with_event(ev@),
            old(self)@.wf() ==> final(self)@.wf(),
    {
        if self.events.len() < MAX_EVENTS {
            let ghost held = self.events@;
            self.events.push_back(ev);
            assert(event_states(self.events@) =~= event_states(held).push(ev@));
        }
    }
}

/// Resizes the grid, where there is one.
fn resize_stash(grid: &mut Option<Grid>, cols: usize, rows: usize)
    ensures
        grid_of(*final(grid)) == (match grid_of(*old(grid)) {
            Some(g) => Some(g.resized(cols as int, rows as int)),
            None => None,
        }),
{
    if let Some(g) = grid {
        g.resize(cols, rows);
    }
}

/// Cuts or pads every line to `cols` cells.
fn resize_lines(lines: &mut VecDeque<Vec<Cell>>, cols: usize)
    ensures
        cells_of(final(lines)@) == Seq::new(
            old(lines)@.len(),
            |i: int| fit_line(cells_of(old(lines)@)[i], cols as int),
        ),
{
    let ghost before = lines@;
    let n = lines.len();
    for i in 0..n
        invariant
            n == before.len(),
            lines@.len() == before.len(),
            forall|k: int|
                0 <= k < i ==> (#[trigger] lines@[k])@ == fit_line(before[k]@, cols as int),
            forall|k: int| i <= k < before.len() ==> lines@[k] == before[k],
    {
        if let Some(line) = deque_get_mut(lines, i) {
            resize_line(line, cols);
        }
    }
}

} // verus!
