//! The terminal as a mathematical value, and what each operation makes of it.

use vstd::prelude::*;

#[allow(unused_imports)]
use super::{Charsets, Modes, Motion};
#[allow(unused_imports)]
use crate::blocks::BlocksState;
use crate::cell::{blank_cell, default_cell, flags, Cell, Color};
use crate::grid::{fit_line, lines_fit, max, min, shift_cells_right, GridState};
use crate::osc::{
    decode_633_text, file_url_path, read_exit_code,
};
use crate::stdx::lossy_text;
use crate::text::{after, ascii, before, decimal};
use crate::width::columns_of;

verus! {

/// An event as a mathematical value.
pub enum EventState {
    Title(Seq<char>),
    Bell,
    CwdChanged(Seq<char>),
    BlockStarted(u64),
    BlockFinished(u64),
}

/// What DECSC keeps of the cursor.
pub struct CursorState {
    pub x: int,
    pub y: int,
    pub pen: Cell,
    pub origin_mode: bool,
    pub pending_wrap: bool,
}

/// How many events wait for the embedder before new ones are dropped.
pub const MAX_EVENTS: usize = 1024;

#[verifier::ext_equal]
pub struct TermState {
    pub grid: GridState,
    pub saved_primary: Option<GridState>,
    pub alt_active: bool,
    pub scrollback: Seq<Seq<Cell>>,
    pub max_scrollback: int,
    pub x: int,
    pub y: int,
    pub pen: Cell,
    pub saved_cursor: Option<CursorState>,
    pub pending_wrap: bool,
    pub top: int,
    pub bot: int,
    pub modes: Modes,
    pub motion: Motion,
    pub tabstops: Seq<bool>,
    pub charsets: Charsets,
    pub title: Seq<char>,
    pub cwd: Option<Seq<char>>,
    pub events: Seq<EventState>,
    pub responses: Seq<u8>,
    pub blocks: BlocksState,
}

/// `v`, or the bound that it lies beyond.
pub open spec fn clamp(v: int, lo: int, hi: int) -> int {
    if v < lo {
        lo
    } else if v > hi {
        hi
    } else {
        v
    }
}

/// The last `n` of `s`.
pub open spec fn keep_last<T>(s: Seq<T>, n: int) -> Seq<T> {
    if s.len() <= n {
        s
    } else {
        s.skip(s.len() - n)
    }
}

/// A tab stop in every eighth column but the first.
pub open spec fn default_stops(cols: int) -> Seq<bool> {
    Seq::new(cols as nat, |i: int| i % 8 == 0 && i != 0)
}

/// The first tab stop from column `i` on; the last column where there is none
/// before it.
pub open spec fn next_stop(stops: Seq<bool>, i: int) -> int
    decreases stops.len() - i,
{
    if i >= stops.len() - 1 {
        stops.len() - 1
    } else if stops[i] {
        i
    } else {
        next_stop(stops, i + 1)
    }
}

/// The last tab stop before column `x`; the first column where there is none.
pub open spec fn prev_stop(stops: Seq<bool>, x: int) -> int
    decreases x,
{
    if x <= 0 {
        0
    } else if stops[x - 1] {
        x - 1
    } else {
        prev_stop(stops, x - 1)
    }
}

/// The column reached from `x` by going back `n` tab stops.
pub open spec fn back_stops(stops: Seq<bool>, x: int, n: nat) -> int
    decreases n,
{
    if n == 0 {
        x
    } else {
        back_stops(stops, prev_stop(stops, x), (n - 1) as nat)
    }
}

/// The DEC Special Graphics character in the place of `ch`.
pub open spec fn line_drawing(ch: char) -> char {
    if ch == 'j' {
        '┘'
    } else if ch == 'k' {
        '┐'
    } else if ch == 'l' {
        '┌'
    } else if ch == 'm' {
        '└'
    } else if ch == 'n' {
        '┼'
    } else if ch == 'q' {
        '─'
    } else if ch == 't' {
        '├'
    } else if ch == 'u' {
        '┤'
    } else if ch == 'v' {
        '┴'
    } else if ch == 'w' {
        '┬'
    } else if ch == 'x' {
        '│'
    } else if ch == 'a' {
        '▒'
    } else if ch == 'f' {
        '°'
    } else if ch == 'g' {
        '±'
    } else if ch == 'y' {
        '≤'
    } else if ch == 'z' {
        '≥'
    } else if ch == '{' {
        'π'
    } else if ch == '|' {
        '≠'
    } else if ch == '}' {
        '£'
    } else if ch == '~' {
        '·'
    } else if ch == '`' {
        '◆'
    } else if ch == '0' {
        '█'
    } else {
        ch
    }
}

/// Parameter `i` of a control sequence; 0 where there is none.
pub open spec fn param(params: Seq<u16>, i: int) -> int {
    if 0 <= i < params.len() {
        params[i] as int
    } else {
        0
    }
}

/// Parameter `i` of a control sequence, counted from 1.
pub open spec fn count(params: Seq<u16>, i: int) -> int {
    max(param(params, i), 1)
}

/// A color component: 255 at most.
pub open spec fn component(v: u16) -> u8 {
    if v <= 255 {
        v as u8
    } else {
        255
    }
}

/// The color that follows an SGR 38 or 48 in `rest`, and how many parameters
/// it takes up: `5;n` or `2;r;g;b`. Anything else swallows the rest.
pub open spec fn extended_color(rest: Seq<u16>) -> (Option<Color>, int) {
    if rest.len() >= 2 && rest[0] == 5 {
        (Some(Color::Indexed(component(rest[1]))), 2)
    } else if rest.len() >= 4 && rest[0] == 2 {
        (Some(Color::Rgb(component(rest[1]), component(rest[2]), component(rest[3]))), 4)
    } else {
        (None, rest.len() as int)
    }
}

/// The pen after the SGR parameter `p`, for every `p` that takes no others.
pub open spec fn sgr_one(pen: Cell, p: u16) -> Cell {
    if p == 0 {
        Cell { fg: Color::Default, bg: Color::Default, flags: 0, ..pen }
    } else if p == 1 {
        Cell { flags: pen.flags | flags::BOLD, ..pen }
    } else if p == 2 {
        Cell { flags: pen.flags | flags::DIM, ..pen }
    } else if p == 3 {
        Cell { flags: pen.flags | flags::ITALIC, ..pen }
    } else if p == 4 {
        Cell { flags: pen.flags | flags::UNDERLINE, ..pen }
    } else if p == 7 {
        Cell { flags: pen.flags | flags::INVERSE, ..pen }
    } else if p == 8 {
        Cell { flags: pen.flags | flags::HIDDEN, ..pen }
    } else if p == 9 {
        Cell { flags: pen.flags | flags::STRIKETHROUGH, ..pen }
    } else if p == 21 || p == 22 {
        Cell { flags: pen.flags & !(flags::BOLD | flags::DIM), ..pen }
    } else if p == 23 {
        Cell { flags: pen.flags & !flags::ITALIC, ..pen }
    } else if p == 24 {
        Cell { flags: pen.flags & !flags::UNDERLINE, ..pen }
    } else if p == 27 {
        Cell { flags: pen.flags & !flags::INVERSE, ..pen }
    } else if p == 28 {
        Cell { flags: pen.flags & !flags::HIDDEN, ..pen }
    } else if p == 29 {
        Cell { flags: pen.flags & !flags::STRIKETHROUGH, ..pen }
    } else if 30 <= p <= 37 {
        Cell { fg: Color::Indexed((p - 30) as u8), ..pen }
    } else if p == 39 {
        Cell { fg: Color::Default, ..pen }
    } else if 40 <= p <= 47 {
        Cell { bg: Color::Indexed((p - 40) as u8), ..pen }
    } else if p == 49 {
        Cell { bg: Color::Default, ..pen }
    } else if 90 <= p <= 97 {
        Cell { fg: Color::Indexed((p - 90 + 8) as u8), ..pen }
    } else if 100 <= p <= 107 {
        Cell { bg: Color::Indexed((p - 100 + 8) as u8), ..pen }
    } else {
        pen
    }
}

/// The pen with the foreground (SGR 38) or background (SGR 48) color set.
pub open spec fn with_color(pen: Cell, p: u16, color: Option<Color>) -> Cell {
    match color {
        Some(c) => if p == 38 {
            Cell { fg: c, ..pen }
        } else {
            Cell { bg: c, ..pen }
        },
        None => pen,
    }
}

/// The pen after the SGR parameters `params`, in their order.
pub open spec fn sgr_all(pen: Cell, params: Seq<u16>) -> Cell
    decreases params.len(),
{
    if params.len() == 0 {
        pen
    } else if params[0] == 38 || params[0] == 48 {
        let (color, used) = extended_color(params.skip(1));
        sgr_all(with_color(pen, params[0], color), params.skip(1 + used))
    } else {
        sgr_all(sgr_one(pen, params[0]), params.skip(1))
    }
}

/// The reply to a primary device attributes request.
pub open spec fn primary_attributes() -> Seq<u8> {
    seq![0x1b, 0x5b, 0x3f, 0x36, 0x32, 0x3b, 0x32, 0x32, 0x63]
}

/// The reply to a secondary device attributes request.
pub open spec fn secondary_attributes() -> Seq<u8> {
    seq![0x1b, 0x5b, 0x3e, 0x31, 0x3b, 0x31, 0x30, 0x3b, 0x30, 0x63]
}

/// The reply to a status request: no malfunction.
pub open spec fn status_ok() -> Seq<u8> {
    seq![0x1b, 0x5b, 0x30, 0x6e]
}

/// The reply to a cursor position request.
pub open spec fn position_report(row: nat, col: nat) -> Seq<u8> {
    seq![0x1bu8, 0x5b] + ascii(decimal(row)) + seq![0x3bu8] + ascii(decimal(col)) + seq![0x52u8]
}

/// `v` as a machine word: what lies beyond its range wraps around.
pub open spec fn as_word(v: int) -> int {
    if v < 0 {
        v + usize::MAX + 1
    } else if v > usize::MAX {
        v - usize::MAX - 1
    } else {
        v
    }
}

impl TermState {
    /// An empty screen of `cols` by `rows`, at least 2 by 1.
    pub open spec fn fresh(cols: int, rows: int, max_scrollback: int) -> TermState {
        let c = max(cols, 2);
        let r = max(rows, 1);
        TermState {
            grid: GridState::blank(c, r),
            saved_primary: None,
            alt_active: false,
            scrollback: Seq::empty(),
            max_scrollback,
            x: 0,
            y: 0,
            pen: default_cell(),
            saved_cursor: None,
            pending_wrap: false,
            top: 0,
            bot: r - 1,
            modes: Modes {
                show_cursor: true,
                bracketed_paste: false,
                app_cursor: false,
                app_keypad: false,
                focus_events: false,
                mouse_mode: 0,
                mouse_sgr: false,
            },
            motion: Motion { autowrap: true, origin: false, insert: false },
            tabstops: default_stops(c),
            charsets: Charsets { g0_linedraw: false, g1_linedraw: false, g1_active: false },
            title: Seq::empty(),
            cwd: None,
            events: Seq::empty(),
            responses: Seq::empty(),
            blocks: BlocksState::empty(),
        }
    }

    pub open spec fn cols(self) -> int {
        self.grid.cols
    }

    pub open spec fn rows(self) -> int {
        self.grid.rows
    }

    /// The dimensions agree, the cursor stands on the screen, the scroll
    /// region lies on it, and everything that is kept stays within its bound.
    pub open spec fn wf(self) -> bool {
        &&& self.grid.wf()
        &&& 2 <= self.cols() <= isize::MAX
        &&& 1 <= self.rows() <= isize::MAX
        &&& self.alt_active == (self.saved_primary is Some)
        &&& self.saved_primary matches Some(g) ==> {
            &&& g.wf()
            &&& g.cols == self.cols()
            &&& g.rows == self.rows()
        }
        &&& self.scrollback.len() <= self.max_scrollback <= usize::MAX
        &&& lines_fit(self.scrollback, self.cols())
        &&& 0 <= self.x < self.cols()
        &&& 0 <= self.y < self.rows()
        &&& 0 <= self.top <= self.bot < self.rows()
        &&& self.saved_cursor matches Some(c) ==> 0 <= c.x && 0 <= c.y
        &&& self.tabstops.len() == self.cols()
        &&& self.events.len() <= MAX_EVENTS
        &&& self.blocks.wf()
    }

    /// The same terminal at another size: what is on the screen, on the
    /// stashed screen and in the scrollback keeps its place.
    pub open spec fn resized(self, cols: int, rows: int) -> TermState {
        let c = max(cols, 2);
        let r = max(rows, 1);
        if c == self.cols() && r == self.rows() {
            self
        } else {
            TermState {
                grid: self.grid.resized(c, r),
                saved_primary: match self.saved_primary {
                    Some(g) => Some(g.resized(c, r)),
                    None => None,
                },
                scrollback: Seq::new(
                    self.scrollback.len(),
                    |i: int| fit_line(self.scrollback[i], c),
                ),
                tabstops: default_stops(c),
                top: 0,
                bot: r - 1,
                x: min(self.x, c - 1),
                y: min(self.y, r - 1),
                pending_wrap: false,
                ..self
            }
        }
    }

    /// One more event, unless too many wait.
    pub open spec fn with_event(self, ev: EventState) -> TermState {
        if self.events.len() < MAX_EVENTS {
            TermState { events: self.events.push(ev), ..self }
        } else {
            self
        }
    }

    /// More bytes to write back.
    pub open spec fn replied(self, bytes: Seq<u8>) -> TermState {
        TermState { responses: self.responses + bytes, ..self }
    }

    // ---- Printing -----------------------------------------------------------

    /// `ch` in the active character set.
    pub open spec fn mapped(self, ch: char) -> char {
        let drawing = if self.charsets.g1_active {
            self.charsets.g1_linedraw
        } else {
            self.charsets.g0_linedraw
        };
        if drawing {
            line_drawing(ch)
        } else {
            ch
        }
    }

    /// `ch` added to the output of the running command; the alternate screen
    /// is not captured.
    pub open spec fn captured(self, ch: char) -> TermState {
        if self.alt_active {
            self
        } else {
            TermState { blocks: self.blocks.captured(ch), ..self }
        }
    }

    /// The cursor on the next line if a wrap is due.
    pub open spec fn wrapped(self) -> TermState {
        if self.pending_wrap && self.motion.autowrap {
            TermState { x: 0, ..self }.line_fed()
        } else {
            self
        }
    }

    /// Room for a glyph of `w` columns: a wide one that does not fit wraps
    /// early, or is drawn back without autowrap.
    pub open spec fn fitted(self, w: int) -> TermState {
        if w == 2 && self.x + 2 > self.cols() {
            if self.motion.autowrap {
                TermState { x: 0, ..self }.line_fed()
            } else {
                TermState { x: self.cols() - 2, ..self }
            }
        } else {
            self
        }
    }

    /// In insert mode, the rest of the line moved right by `w` columns.
    pub open spec fn opened(self, w: int) -> TermState {
        if self.motion.insert {
            TermState {
                grid: self.grid.with_line(
                    self.y,
                    shift_cells_right(self.grid.lines[self.y], self.x, w),
                ),
                ..self
            }
        } else {
            self
        }
    }

    /// `ch` drawn with the pen at the cursor, in `w` columns.
    pub open spec fn drawn(self, ch: char, w: int) -> TermState {
        let g = if w == 2 {
            self.grid.with_cell(
                self.x,
                self.y,
                Cell { ch, flags: self.pen.flags | flags::WIDE, ..self.pen },
            ).with_cell(
                self.x + 1,
                self.y,
                Cell { ch: ' ', flags: self.pen.flags | flags::WIDE_SPACER, ..self.pen },
            )
        } else {
            self.grid.with_cell(self.x, self.y, Cell { ch, ..self.pen })
        };
        TermState { grid: g, ..self }
    }

    /// The cursor `w` columns on; at the end of the line a wrap falls due.
    pub open spec fn stepped(self, w: int) -> TermState {
        if self.x + w >= self.cols() {
            TermState { x: self.cols() - 1, pending_wrap: true, ..self }
        } else {
            TermState { x: self.x + w, ..self }
        }
    }

    /// `ch` printed in `w` columns. Characters of no width print nothing.
    pub open spec fn printed_as(self, ch: char, w: int) -> TermState {
        let c = self.mapped(ch);
        if w == 0 {
            self
        } else {
            self.captured(c).wrapped().fitted(w).opened(w).drawn(c, w).stepped(w)
        }
    }

    /// `ch` printed in as many columns as it takes.
    pub open spec fn printed(self, ch: char) -> TermState {
        self.printed_as(ch, columns_of(self.mapped(ch)))
    }

    // ---- C0 controls --------------------------------------------------------

    /// The control character `byte` executed.
    pub open spec fn controlled(self, byte: u8) -> TermState {
        if byte == 0x07 {
            self.with_event(EventState::Bell)
        } else if byte == 0x08 {
            TermState { x: max(self.x - 1, 0), pending_wrap: false, ..self }
        } else if byte == 0x09 {
            TermState { x: next_stop(self.tabstops, self.x + 1), pending_wrap: false, ..self }
        } else if 0x0a <= byte <= 0x0c {
            self.captured('\n').line_fed()
        } else if byte == 0x0d {
            TermState { x: 0, pending_wrap: false, ..self }
        } else if byte == 0x0e {
            TermState { charsets: Charsets { g1_active: true, ..self.charsets }, ..self }
        } else if byte == 0x0f {
            TermState { charsets: Charsets { g1_active: false, ..self.charsets }, ..self }
        } else {
            self
        }
    }

    /// The cursor one line down; at the bottom of the scroll region, the
    /// region scrolls instead.
    pub open spec fn line_fed(self) -> TermState {
        if self.y == self.bot {
            TermState { pending_wrap: false, ..self.scrolled(1) }
        } else if self.y + 1 < self.rows() {
            TermState { y: self.y + 1, pending_wrap: false, ..self }
        } else {
            TermState { pending_wrap: false, ..self }
        }
    }

    /// Whether lines that leave the scroll region go to the scrollback: only
    /// from the full primary screen.
    pub open spec fn feeds_scrollback(self) -> bool {
        &&& !self.alt_active
        &&& self.top == 0
        &&& self.bot == self.rows() - 1
    }

    /// The scroll region moved up by `n` lines.
    pub open spec fn scrolled(self, n: int) -> TermState {
        TermState {
            grid: self.grid.scrolled_up(self.top, self.bot, n),
            scrollback: if self.feeds_scrollback() {
                keep_last(
                    self.scrollback + self.grid.evicted(self.top, self.bot, n),
                    self.max_scrollback,
                )
            } else {
                self.scrollback
            },
            ..self
        }
    }

    // ---- ESC dispatch -------------------------------------------------------

    /// The escape sequence `ESC intermediates byte` executed.
    pub open spec fn escaped(self, intermediates: Seq<u8>, byte: u8) -> TermState {
        if intermediates.len() == 0 {
            if byte == 0x37 {  // 7
                self.cursor_saved()
            } else if byte == 0x38 {  // 8
                self.cursor_restored()
            } else if byte == 0x44 {  // D
                self.line_fed()
            } else if byte == 0x45 {  // E
                TermState { x: 0, ..self }.line_fed()
            } else if byte == 0x48 {  // H
                TermState { tabstops: self.tabstops.update(self.x, true), ..self }
            } else if byte == 0x4d {  // M
                self.reverse_fed()
            } else if byte == 0x63 {  // c
                self.reset()
            } else if byte == 0x3d {  // =
                TermState { modes: Modes { app_keypad: true, ..self.modes }, ..self }
            } else if byte == 0x3e {  // >
                TermState { modes: Modes { app_keypad: false, ..self.modes }, ..self }
            } else {
                self
            }
        } else if intermediates[0] == 0x28 {  // (
            TermState { charsets: Charsets { g0_linedraw: byte == 0x30, ..self.charsets }, ..self }
        } else if intermediates[0] == 0x29 {  // )
            TermState { charsets: Charsets { g1_linedraw: byte == 0x30, ..self.charsets }, ..self }
        } else if intermediates[0] == 0x23 && byte == 0x38 {  // # 8
            TermState { grid: self.grid.aligned(), ..self }
        } else {
            self
        }
    }

    /// The cursor one line up; at the top of the scroll region, the region
    /// scrolls down instead.
    pub open spec fn reverse_fed(self) -> TermState {
        if self.y == self.top {
            TermState {
                grid: self.grid.scrolled_down(self.top, self.bot, 1),
                pending_wrap: false,
                ..self
            }
        } else {
            TermState { y: max(self.y - 1, 0), pending_wrap: false, ..self }
        }
    }

    pub open spec fn cursor_saved(self) -> TermState {
        TermState {
            saved_cursor: Some(
                CursorState {
                    x: self.x,
                    y: self.y,
                    pen: self.pen,
                    origin_mode: self.motion.origin,
                    pending_wrap: self.pending_wrap,
                },
            ),
            ..self
        }
    }

    /// The saved cursor back, drawn in to the screen's size.
    pub open spec fn cursor_restored(self) -> TermState {
        match self.saved_cursor {
            Some(c) => TermState {
                x: min(c.x, self.cols() - 1),
                y: min(c.y, self.rows() - 1),
                pen: c.pen,
                motion: Motion { origin: c.origin_mode, ..self.motion },
                pending_wrap: c.pending_wrap,
                ..self
            },
            None => self,
        }
    }

    /// A fresh terminal of the same size that keeps the command blocks.
    pub open spec fn reset(self) -> TermState {
        TermState {
            blocks: self.blocks,
            ..TermState::fresh(self.cols(), self.rows(), self.max_scrollback)
        }
    }

    // ---- CSI dispatch -------------------------------------------------------

    /// The cursor moved by `dx`, `dy`: on the screen, and vertically within
    /// the scroll region when it starts in it.
    pub open spec fn moved(self, dx: int, dy: int) -> TermState {
        let (lo, hi) = if self.top <= self.y <= self.bot {
            (self.top, self.bot)
        } else {
            (0, self.rows() - 1)
        };
        TermState {
            x: clamp(self.x + dx, 0, self.cols() - 1),
            y: clamp(self.y + dy, lo, hi),
            pending_wrap: false,
            ..self
        }
    }

    /// The cursor put at `x`, `y`; in origin mode `y` counts within the scroll
    /// region.
    pub open spec fn positioned(self, x: int, y: int) -> TermState {
        TermState {
            x: min(x, self.cols() - 1),
            y: if self.motion.origin {
                min(self.top + y, self.bot)
            } else {
                min(y, self.rows() - 1)
            },
            pending_wrap: false,
            ..self
        }
    }

    /// Part of the line erased: from the cursor (0), up to it (1), all (2).
    pub open spec fn line_erased(self, mode: int) -> TermState {
        let g = if mode == 0 {
            self.grid.cleared(self.y, self.x, self.cols(), self.pen.bg)
        } else if mode == 1 {
            self.grid.cleared(self.y, 0, self.x + 1, self.pen.bg)
        } else if mode == 2 {
            self.grid.cleared(self.y, 0, self.cols(), self.pen.bg)
        } else {
            self.grid
        };
        TermState { grid: g, pending_wrap: false, ..self }
    }

    /// Part of the screen erased: from the cursor (0), up to it (1), all (2),
    /// all with the scrollback (3).
    pub open spec fn display_erased(self, mode: int) -> TermState {
        let bg = self.pen.bg;
        if mode == 0 {
            let s = self.line_erased(0);
            TermState { grid: s.grid.cleared_rows(self.y + 1, self.rows(), bg), ..s }
        } else if mode == 1 {
            let s = self.line_erased(1);
            TermState { grid: s.grid.cleared_rows(0, self.y, bg), ..s }
        } else if mode == 2 {
            TermState {
                grid: self.grid.cleared_rows(0, self.rows(), bg),
                pending_wrap: false,
                ..self
            }
        } else if mode == 3 {
            TermState {
                grid: self.grid.cleared_rows(0, self.rows(), bg),
                scrollback: Seq::empty(),
                pending_wrap: false,
                ..self
            }
        } else {
            TermState { pending_wrap: false, ..self }
        }
    }

    /// `n` blank lines inserted at the cursor, within the scroll region.
    pub open spec fn lines_inserted(self, n: int) -> TermState {
        if self.top <= self.y <= self.bot {
            TermState {
                grid: self.grid.scrolled_down(self.y, self.bot, n),
                x: 0,
                pending_wrap: false,
                ..self
            }
        } else {
            self
        }
    }

    /// `n` lines deleted at the cursor, within the scroll region.
    pub open spec fn lines_deleted(self, n: int) -> TermState {
        if self.top <= self.y <= self.bot {
            TermState {
                grid: self.grid.scrolled_up(self.y, self.bot, n),
                x: 0,
                pending_wrap: false,
                ..self
            }
        } else {
            self
        }
    }

    /// `n` cells deleted at the cursor; the rest of the line closes up.
    pub open spec fn chars_deleted(self, n: int) -> TermState {
        let line = self.grid.lines[self.y];
        TermState {
            grid: self.grid.with_line(self.y, delete_cells(line, self.x, n, self.pen.bg)),
            ..self
        }
    }

    /// `n` blank cells inserted at the cursor; what runs off the line is lost.
    pub open spec fn chars_inserted(self, n: int) -> TermState {
        let line = self.grid.lines[self.y];
        TermState {
            grid: self.grid.with_line(self.y, insert_cells(line, self.x, n, self.pen.bg)),
            ..self
        }
    }

    /// `n` cells erased from the cursor on.
    pub open spec fn chars_erased(self, n: int) -> TermState {
        TermState { grid: self.grid.cleared(self.y, self.x, self.x + n, self.pen.bg), ..self }
    }

    /// The pen after the SGR parameters `params`; none is a reset.
    pub open spec fn styled(self, params: Seq<u16>) -> TermState {
        let all = if params.len() == 0 {
            seq![0u16]
        } else {
            params
        };
        TermState { pen: sgr_all(self.pen, all), ..self }
    }

    /// The scroll region set to the rows `top..=bot`, if that is a region of
    /// two rows or more on the screen.
    pub open spec fn region_set(self, top: int, bot: int) -> TermState {
        if top < bot < self.rows() {
            TermState { top, bot, ..self }.positioned(0, 0)
        } else {
            self
        }
    }

    /// The DEC private mode `p` set or reset.
    pub open spec fn dec_mode_one(self, p: u16, set: bool) -> TermState {
        if p == 1 {
            TermState { modes: Modes { app_cursor: set, ..self.modes }, ..self }
        } else if p == 6 {
            TermState { motion: Motion { origin: set, ..self.motion }, ..self }.positioned(0, 0)
        } else if p == 7 {
            TermState { motion: Motion { autowrap: set, ..self.motion }, ..self }
        } else if p == 25 {
            TermState { modes: Modes { show_cursor: set, ..self.modes }, ..self }
        } else if p == 47 || p == 1047 {
            self.alt_switched(set, false)
        } else if p == 1048 {
            if set {
                self.cursor_saved()
            } else {
                self.cursor_restored()
            }
        } else if p == 1049 {
            self.alt_switched(set, true)
        } else if p == 1000 || p == 1002 || p == 1003 {
            TermState { modes: Modes { mouse_mode: if set { p } else { 0 }, ..self.modes }, ..self }
        } else if p == 1004 {
            TermState { modes: Modes { focus_events: set, ..self.modes }, ..self }
        } else if p == 1006 {
            TermState { modes: Modes { mouse_sgr: set, ..self.modes }, ..self }
        } else if p == 2004 {
            TermState { modes: Modes { bracketed_paste: set, ..self.modes }, ..self }
        } else {
            self
        }
    }

    /// The DEC private modes `params` set or reset, in their order.
    pub open spec fn dec_modes(self, params: Seq<u16>, set: bool) -> TermState
        decreases params.len(),
    {
        if params.len() == 0 {
            self
        } else {
            self.dec_modes(params.drop_last(), set).dec_mode_one(params.last(), set)
        }
    }

    /// The alternate screen entered or left. It starts empty, and the primary
    /// screen comes back as it was.
    pub open spec fn alt_switched(self, enter: bool, with_cursor: bool) -> TermState {
        if enter && !self.alt_active {
            let s = if with_cursor {
                self.cursor_saved()
            } else {
                self
            };
            TermState {
                grid: GridState::blank(self.cols(), self.rows()),
                saved_primary: Some(self.grid),
                alt_active: true,
                x: 0,
                y: 0,
                pending_wrap: false,
                ..s
            }
        } else if !enter && self.alt_active {
            let s = TermState {
                grid: match self.saved_primary {
                    Some(g) => g,
                    None => self.grid,
                },
                saved_primary: None,
                alt_active: false,
                ..self
            };
            let s = if with_cursor {
                s.cursor_restored()
            } else {
                s
            };
            TermState { pending_wrap: false, ..s }
        } else {
            self
        }
    }

    /// The cursor's row as it is reported: counted from 1, in origin mode from
    /// the top of the scroll region. It is counted in machine words: above the
    /// region, where a restored cursor can stand, the number wraps around.
    pub open spec fn reported_row(self) -> nat {
        let row = if self.motion.origin {
            as_word(self.y - self.top)
        } else {
            self.y
        };
        as_word(row + 1) as nat
    }

    /// The control sequence executed. Sequences with intermediates are
    /// accepted and do nothing.
    pub open spec fn csi(
        self,
        private: u8,
        params: Seq<u16>,
        intermediates: Seq<u8>,
        action: u8,
    ) -> TermState {
        if intermediates.len() > 0 {
            self
        } else if private == 0x3f {  // ?
            if action == 0x68 {  // h
                self.dec_modes(params, true)
            } else if action == 0x6c {  // l
                self.dec_modes(params, false)
            } else if action == 0x63 {  // c
                self.replied(primary_attributes())
            } else {
                self
            }
        } else if private != 0 {
            if private == 0x3e && action == 0x63 {  // > c
                self.replied(secondary_attributes())
            } else {
                self
            }
        } else {
            self.csi_plain(params, action)
        }
    }

    /// A control sequence without private marker or intermediates executed.
    pub open spec fn csi_plain(self, params: Seq<u16>, action: u8) -> TermState {
        let n = count(params, 0);
        if action == 0x41 {  // A
            self.moved(0, -n)
        } else if action == 0x42 {  // B
            self.moved(0, n)
        } else if action == 0x43 {  // C
            self.moved(n, 0)
        } else if action == 0x44 {  // D
            self.moved(-n, 0)
        } else if action == 0x45 {  // E
            TermState { x: 0, ..self }.moved(0, n)
        } else if action == 0x46 {  // F
            TermState { x: 0, ..self }.moved(0, -n)
        } else if action == 0x47 {  // G
            TermState { x: min(n - 1, self.cols() - 1), pending_wrap: false, ..self }
        } else if action == 0x48 || action == 0x66 {  // H f
            self.positioned(count(params, 1) - 1, n - 1)
        } else if action == 0x64 {  // d
            let y = if self.motion.origin {
                self.top + n - 1
            } else {
                n - 1
            };
            TermState { y: min(y, self.rows() - 1), pending_wrap: false, ..self }
        } else if action == 0x4a {  // J
            self.display_erased(param(params, 0))
        } else if action == 0x4b {  // K
            self.line_erased(param(params, 0))
        } else if action == 0x4c {  // L
            self.lines_inserted(n)
        } else if action == 0x4d {  // M
            self.lines_deleted(n)
        } else if action == 0x50 {  // P
            self.chars_deleted(n)
        } else if action == 0x40 {  // @
            self.chars_inserted(n)
        } else if action == 0x58 {  // X
            self.chars_erased(n)
        } else if action == 0x53 {  // S
            self.scrolled(n)
        } else if action == 0x54 {  // T
            TermState { grid: self.grid.scrolled_down(self.top, self.bot, n), ..self }
        } else if action == 0x6d {  // m
            self.styled(params)
        } else if action == 0x72 {  // r
            let bot = if param(params, 1) == 0 {
                self.rows() - 1
            } else {
                param(params, 1) - 1
            };
            self.region_set(n - 1, bot)
        } else if action == 0x67 {  // g
            if param(params, 0) == 0 {
                TermState { tabstops: self.tabstops.update(self.x, false), ..self }
            } else if param(params, 0) == 3 {
                TermState {
                    tabstops: Seq::new(self.tabstops.len(), |i: int| false),
                    ..self
                }
            } else {
                self
            }
        } else if action == 0x68 {  // h
            if params.contains(4) {
                TermState { motion: Motion { insert: true, ..self.motion }, ..self }
            } else {
                self
            }
        } else if action == 0x6c {  // l
            if params.contains(4) {
                TermState { motion: Motion { insert: false, ..self.motion }, ..self }
            } else {
                self
            }
        } else if action == 0x6e {  // n
            if param(params, 0) == 5 {
                self.replied(status_ok())
            } else if param(params, 0) == 6 {
                self.replied(position_report(self.reported_row(), (self.x + 1) as nat))
            } else {
                self
            }
        } else if action == 0x63 {  // c
            self.replied(primary_attributes())
        } else if action == 0x73 {  // s
            self.cursor_saved()
        } else if action == 0x75 {  // u
            self.cursor_restored()
        } else if action == 0x5a {  // Z
            TermState {
                x: back_stops(self.tabstops, self.x, n as nat),
                pending_wrap: false,
                ..self
            }
        } else {
            self
        }
    }

    // ---- OSC dispatch -------------------------------------------------------

    /// The working directory changed to `path`.
    pub open spec fn cwd_changed(self, path: Seq<char>) -> TermState {
        TermState { cwd: Some(path), ..self }.with_event(EventState::CwdChanged(path))
    }

    /// A command started at `now`.
    pub open spec fn command_started(self, now: u64) -> TermState {
        let id = self.blocks.next_id;
        TermState { blocks: self.blocks.started(self.cwd, now), ..self }.with_event(
            EventState::BlockStarted(id),
        )
    }

    /// The running command finished at `now`.
    pub open spec fn command_finished(self, exit: Option<i32>, now: u64) -> TermState {
        match self.blocks.running {
            Some(i) => TermState { blocks: self.blocks.finished(exit, now), ..self }.with_event(
                EventState::BlockFinished(self.blocks.blocks[i].id),
            ),
            None => self,
        }
    }

    /// A semantic prompt mark (OSC 133) received at `now`: C before a command
    /// runs, D with its exit code behind it.
    pub open spec fn semantic(self, rest: Seq<char>, now: u64) -> TermState {
        let mark = before(rest, ';');
        if mark == "C"@ {
            self.command_started(now)
        } else if mark == "D"@ {
            self.command_finished(read_exit_code(after(rest, ';')), now)
        } else {
            self
        }
    }

    /// A VS Code shell integration mark (OSC 633) received at `now`: E reports
    /// the command line, P the working directory, C and D are as in OSC 133.
    pub open spec fn vscode(self, rest: Seq<char>, now: u64) -> TermState {
        let mark = before(rest, ';');
        let arg = after(rest, ';');
        if mark == "E"@ {
            match arg {
                Some(a) => TermState {
                    blocks: self.blocks.with_pending(decode_633_text(before(a, ';'))),
                    ..self
                },
                None => self,
            }
        } else if mark == "P"@ {
            match arg {
                Some(a) => if "Cwd="@.is_prefix_of(a) {
                    self.cwd_changed(a.skip("Cwd="@.len() as int))
                } else {
                    self
                },
                None => self,
            }
        } else if mark == "C"@ {
            self.command_started(now)
        } else if mark == "D"@ {
            self.semantic(rest, now)
        } else {
            self
        }
    }

    /// The operating system command `text` received at `now`.
    pub open spec fn osc_text(self, text: Seq<char>, now: u64) -> TermState {
        let code = before(text, ';');
        let rest = match after(text, ';') {
            Some(r) => r,
            None => Seq::empty(),
        };
        if code == "0"@ || code == "2"@ {
            TermState { title: rest, ..self }.with_event(EventState::Title(rest))
        } else if code == "7"@ {
            match file_url_path(rest) {
                Some(path) => self.cwd_changed(path),
                None => self,
            }
        } else if code == "133"@ {
            self.semantic(rest, now)
        } else if code == "633"@ {
            self.vscode(rest, now)
        } else if code == "10"@ && rest == "?"@ {
            self.replied(ascii("\x1b]10;rgb:d6d6/dbdb/e1e1\x1b\\"@))
        } else if code == "11"@ && rest == "?"@ {
            self.replied(ascii("\x1b]11;rgb:0e0e/1111/1616\x1b\\"@))
        } else {
            self
        }
    }

    /// The operating system command `bytes` received at `now`.
    pub open spec fn osc(self, bytes: Seq<u8>, now: u64) -> TermState {
        self.osc_text(lossy_text(bytes), now)
    }

    // ---- Read side ----------------------------------------------------------

    /// Row `idx` of the view scrolled back by `offset` lines.
    pub open spec fn view_row(self, offset: int, idx: int) -> Option<Seq<Cell>> {
        let back = min(offset, self.scrollback.len() as int);
        if idx >= back {
            if idx - back < self.rows() {
                Some(self.grid.lines[idx - back])
            } else {
                None
            }
        } else {
            Some(self.scrollback[self.scrollback.len() - back + idx])
        }
    }
}

/// `line` with `n` cells deleted at `x` and blanks coming in at its end.
pub open spec fn delete_cells(line: Seq<Cell>, x: int, n: int, bg: Color) -> Seq<Cell> {
    Seq::new(
        line.len(),
        |i: int|
            if i < x {
                line[i]
            } else if i + n < line.len() {
                line[i + n]
            } else {
                blank_cell(bg)
            },
    )
}

/// `line` with `n` blanks inserted at `x`.
pub open spec fn insert_cells(line: Seq<Cell>, x: int, n: int, bg: Color) -> Seq<Cell> {
    Seq::new(
        line.len(),
        |i: int|
            if i < x {
                line[i]
            } else if i < x + n {
                blank_cell(bg)
            } else {
                line[i - n]
            },
    )
}

impl GridState {
    /// The screen alignment pattern.
    pub open spec fn aligned(self) -> GridState {
        GridState {
            lines: Seq::new(
                self.rows as nat,
                |y: int| Seq::new(self.cols as nat, |x: int| Cell { ch: 'E', ..default_cell() }),
            ),
            ..self
        }
    }
}

} // verus!
