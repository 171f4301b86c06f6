//! What holds of the terminal as a whole.

use vstd::prelude::*;

#[allow(unused_imports)]
use super::model::{param, TermState, MAX_EVENTS};
use crate::cell::Cell;
#[allow(unused_imports)]
use crate::cell::default_cell;
#[allow(unused_imports)]
use crate::grid::{lemma_line_fits, max, min};
#[allow(unused_imports)]
use crate::width::columns_of;

verus! {

/// The cursor stands on the screen, the scroll region lies on it, every line
/// of the screen and of the scrollback is as wide as the screen, and what is
/// kept for the embedder stays within its bound.
pub proof fn law_bounded(s: TermState, i: int)
    requires
        s.wf(),
    ensures
        0 <= s.x < s.cols(),
        0 <= s.y < s.rows(),
        0 <= s.top <= s.bot < s.rows(),
        s.grid.lines.len() == s.rows(),
        0 <= i < s.rows() ==> s.grid.lines[i].len() == s.cols(),
        s.scrollback.len() <= s.max_scrollback,
        0 <= i < s.scrollback.len() ==> s.scrollback[i].len() == s.cols(),
        s.events.len() <= MAX_EVENTS,
{
    if 0 <= i < s.rows() {
        lemma_line_fits(s.grid.lines, s.cols(), i);
    }
    if 0 <= i < s.scrollback.len() {
        lemma_line_fits(s.scrollback, s.cols(), i);
    }
}

impl TermState {
    /// What the alternate screen must not touch is as in `o`.
    pub open spec fn same_behind(self, o: TermState) -> bool {
        &&& self.alt_active == o.alt_active
        &&& self.saved_primary == o.saved_primary
        &&& self.scrollback == o.scrollback
        &&& self.blocks == o.blocks
        &&& self.saved_cursor == o.saved_cursor
        &&& self.cols() == o.cols()
        &&& self.rows() == o.rows()
    }
}

/// Whether the DEC private mode `p` switches screens or saves the cursor.
pub open spec fn touches_behind(p: u16) -> bool {
    p == 47 || p == 1047 || p == 1048 || p == 1049
}

/// Whether one of the DEC private modes `params` does.
pub open spec fn switches_or_saves(params: Seq<u16>) -> bool {
    exists|i: int| 0 <= i < params.len() && touches_behind(#[trigger] params[i])
}

/// On the alternate screen, printing, controls, moving, erasing, inserting,
/// deleting and scrolling leave the stashed screen, the scrollback and the
/// command blocks alone.
pub proof fn law_alt_screen_isolated(
    s: TermState,
    ch: char,
    byte: u8,
    n: int,
    x: int,
    y: int,
)
    requires
        s.alt_active,
    ensures
        s.printed(ch).same_behind(s),
        s.controlled(byte).same_behind(s),
        s.scrolled(n).same_behind(s),
        s.line_fed().same_behind(s),
        s.reverse_fed().same_behind(s),
        s.moved(x, y).same_behind(s),
        s.positioned(x, y).same_behind(s),
        s.line_erased(n).same_behind(s),
        n != 3 ==> s.display_erased(n).same_behind(s),
        s.lines_inserted(n).same_behind(s),
        s.lines_deleted(n).same_behind(s),
        s.chars_inserted(n).same_behind(s),
        s.chars_deleted(n).same_behind(s),
        s.chars_erased(n).same_behind(s),
{
}

proof fn lemma_dec_modes_behind(s: TermState, params: Seq<u16>, set: bool)
    requires
        s.alt_active,
        !switches_or_saves(params),
    ensures
        s.dec_modes(params, set).same_behind(s),
    decreases params.len(),
{
    if params.len() > 0 {
        let init = params.drop_last();
        assert forall|i: int| 0 <= i < init.len() implies !touches_behind(#[trigger] init[i]) by {
            assert(init[i] == params[i]);
        }
        lemma_dec_modes_behind(s, init, set);
        assert(!touches_behind(params[params.len() - 1]));
    }
}

/// On the alternate screen a control sequence leaves what is behind it alone,
/// unless it erases the scrollback, saves the cursor or switches screens.
pub proof fn law_sequences_stay_on_the_alt_screen(
    s: TermState,
    private: u8,
    params: Seq<u16>,
    intermediates: Seq<u8>,
    action: u8,
)
    requires
        s.alt_active,
        private == 0 ==> action != 0x73,
        private == 0 && action == 0x4a ==> param(params, 0) != 3,
        private == 0x3f ==> !switches_or_saves(params),
    ensures
        s.csi(private, params, intermediates, action).same_behind(s),
{
    if private == 0x3f {
        lemma_dec_modes_behind(s, params, true);
        lemma_dec_modes_behind(s, params, false);
    }
}

/// Whoever enters the alternate screen and leaves it again finds the primary
/// screen, the cursor, the pen, the scrollback and the command blocks as they
/// were, whatever happened in between that left them alone.
pub proof fn law_alt_screen_gives_back(s: TermState, t: TermState)
    requires
        s.wf(),
        !s.alt_active,
        t.same_behind(s.alt_switched(true, true)),
    ensures
        ({
            let back = t.alt_switched(false, true);
            &&& back.grid == s.grid
            &&& back.saved_primary == s.saved_primary
            &&& !back.alt_active
            &&& !back.pending_wrap
            &&& back.scrollback == s.scrollback
            &&& back.blocks == s.blocks
            &&& back.x == s.x
            &&& back.y == s.y
            &&& back.pen == s.pen
            &&& back.motion.origin == s.motion.origin
        }),
{
}

/// What a program writes to the screen: a character or a C0 control.
pub enum Output {
    Print(char),
    Control(u8),
}

impl TermState {
    /// `out` written to the screen, one after the other.
    pub open spec fn written(self, out: Seq<Output>) -> TermState
        decreases out.len(),
    {
        if out.len() == 0 {
            self
        } else {
            let s = self.written(out.drop_last());
            match out.last() {
                Output::Print(ch) => s.printed(ch),
                Output::Control(byte) => s.controlled(byte),
            }
        }
    }
}

proof fn lemma_written_behind(s: TermState, out: Seq<Output>)
    requires
        s.alt_active,
    ensures
        s.written(out).same_behind(s),
    decreases out.len(),
{
    if out.len() > 0 {
        let t = s.written(out.drop_last());
        lemma_written_behind(s, out.drop_last());
        match out.last() {
            Output::Print(ch) => law_alt_screen_isolated(t, ch, 0, 0, 0, 0),
            Output::Control(byte) => law_alt_screen_isolated(t, ' ', byte, 0, 0, 0),
        }
    }
}

/// Entering the alternate screen, writing anything there and leaving it again
/// gives back the primary screen, the cursor, the pen, the scrollback and the
/// command blocks as they were, with no wrap due.
pub proof fn law_alt_screen_round_trip(s: TermState, out: Seq<Output>)
    requires
        s.wf(),
        !s.alt_active,
    ensures
        ({
            let back = s.alt_switched(true, true).written(out).alt_switched(false, true);
            &&& back.grid == s.grid
            &&& back.saved_primary == s.saved_primary
            &&& !back.alt_active
            &&& !back.pending_wrap
            &&& back.scrollback == s.scrollback
            &&& back.blocks == s.blocks
            &&& back.x == s.x
            &&& back.y == s.y
            &&& back.pen == s.pen
            &&& back.motion.origin == s.motion.origin
        }),
{
    let alt = s.alt_switched(true, true);
    lemma_written_behind(alt, out);
    law_alt_screen_gives_back(s, alt.written(out));
}

/// Entering the alternate screen while on it, or leaving it while on the
/// primary one, does nothing; nor does a second switch the same way.
pub proof fn law_alt_switch_idempotent(s: TermState, enter: bool, c0: bool, c1: bool)
    ensures
        enter == s.alt_active ==> s.alt_switched(enter, c0) == s,
        s.alt_switched(enter, c0).alt_switched(enter, c1) == s.alt_switched(enter, c0),
{
}

/// A saved cursor comes back with its position, pen and origin mode, whatever
/// happened in between, as long as the saved cursor and the size are the same.
pub proof fn law_cursor_comes_back(s: TermState, t: TermState)
    requires
        s.wf(),
        t.saved_cursor == s.cursor_saved().saved_cursor,
        t.cols() == s.cols(),
        t.rows() == s.rows(),
    ensures
        t.cursor_restored().x == s.x,
        t.cursor_restored().y == s.y,
        t.cursor_restored().pen == s.pen,
        t.cursor_restored().motion.origin == s.motion.origin,
        t.cursor_restored().pending_wrap == s.pending_wrap,
{
}

/// A full reset gives the terminal that a start at this size would give, but
/// for the command blocks, which stay. A second reset does nothing.
pub proof fn law_reset(s: TermState)
    requires
        s.wf(),
    ensures
        s.reset().blocks == s.blocks,
        s.reset() == (TermState {
            blocks: s.blocks,
            ..TermState::fresh(s.cols(), s.rows(), s.max_scrollback)
        }),
        s.reset().cols() == s.cols(),
        s.reset().rows() == s.rows(),
        s.reset().reset() == s.reset(),
{
}

/// What lies on the screen both before and after a resize keeps its place; what
/// is new is blank. The stashed screen and the scrollback keep theirs too.
pub proof fn law_resize_keeps_content(s: TermState, cols: int, rows: int, x: int, y: int)
    requires
        s.wf(),
        0 <= x < max(cols, 2),
        0 <= y,
    ensures
        s.resized(cols, rows).cols() == max(cols, 2),
        s.resized(cols, rows).rows() == max(rows, 1),
        s.resized(cols, rows).scrollback.len() == s.scrollback.len(),
        y < max(rows, 1) ==> s.resized(cols, rows).grid.at(x, y) == (if x < s.cols() && y < s.rows() {
            s.grid.at(x, y)
        } else {
            default_cell()
        }),
        y < max(rows, 1) && s.alt_active ==> s.resized(cols, rows).saved_primary->0.at(x, y) == (
        if x < s.cols() && y < s.rows() {
            s.saved_primary->0.at(x, y)
        } else {
            default_cell()
        }),
        y < s.scrollback.len() ==> s.resized(cols, rows).scrollback[y][x] == (if x < s.cols() {
            s.scrollback[y][x]
        } else {
            default_cell()
        }),
        s.resized(s.cols(), s.rows()) == s,
{
    if y < s.rows() {
        lemma_line_fits(s.grid.lines, s.cols(), y);
        if s.alt_active {
            lemma_line_fits(s.saved_primary->0.lines, s.cols(), y);
        }
    }
    if y < s.scrollback.len() {
        lemma_line_fits(s.scrollback, s.cols(), y);
    }
}

/// The view is one piece: scrolled back by `offset` lines, it shows the
/// scrollback and the screen one after the other, from `offset` lines before
/// the screen on.
pub proof fn law_view_is_continuous(s: TermState, offset: int, idx: int)
    requires
        s.wf(),
        0 <= offset,
        0 <= idx,
    ensures
        ({
            let all = s.scrollback + s.grid.lines;
            let first = s.scrollback.len() - min(offset, s.scrollback.len() as int);
            s.view_row(offset, idx) == (if first + idx < all.len() {
                Some(all[first + idx])
            } else {
                None
            })
        }),
{
}

/// Scrolling moves the lines of the scroll region and no others, and where it
/// feeds the scrollback, the lines that leave the screen are the last ones
/// there, in their order.
pub proof fn law_scroll(s: TermState, n: int, y: int)
    requires
        s.wf(),
        0 <= n <= s.bot - s.top + 1,
        0 <= y < s.rows(),
    ensures
        !(s.top <= y <= s.bot) ==> s.scrolled(n).grid.lines[y] == s.grid.lines[y],
        s.top <= y && y + n <= s.bot ==> s.scrolled(n).grid.lines[y] == s.grid.lines[y + n],
        !s.feeds_scrollback() ==> s.scrolled(n).scrollback == s.scrollback,
        s.feeds_scrollback() && n <= s.max_scrollback && y < n ==> {
            let sb = s.scrolled(n).scrollback;
            sb[sb.len() - n + y] == s.grid.lines[y]
        },
{
}

/// A wide glyph never straddles the end of a line: its two cells stand beside
/// each other, and the second one is its spacer.
pub proof fn law_wide_glyph_is_whole(s: TermState, ch: char)
    requires
        s.wf(),
        columns_of(s.mapped(ch)) == 2,
    ensures
        ({
            let c = s.mapped(ch);
            let at = s.captured(c).wrapped().fitted(2);
            let end = s.printed(ch);
            &&& at.x + 1 < s.cols()
            &&& end.grid.at(at.x, at.y) == (Cell {
                ch: c,
                flags: s.pen.flags | crate::cell::flags::WIDE,
                ..s.pen
            })
            &&& end.grid.at(at.x + 1, at.y) == (Cell {
                ch: ' ',
                flags: s.pen.flags | crate::cell::flags::WIDE_SPACER,
                ..s.pen
            })
        }),
{
    let c = s.mapped(ch);
    s.lemma_captured_wf(c);
    let a = s.captured(c);
    a.lemma_wrapped_wf();
    let b = a.wrapped();
    b.lemma_fitted_wf(2);
    let at = b.fitted(2);
    lemma_line_fits(at.grid.lines, at.cols(), at.y);
}

/// Setting the pen back forgets every color and attribute.
pub proof fn law_sgr_reset(s: TermState, params: Seq<u16>)
    ensures
        s.styled(Seq::empty()).pen == (Cell { ch: s.pen.ch, ..default_cell() }),
        s.styled(params).styled(seq![0u16]).pen == (Cell {
            ch: s.styled(params).pen.ch,
            ..default_cell()
        }),
{
    reveal_with_fuel(super::model::sgr_all, 2);
    assert(seq![0u16].skip(1) =~= Seq::<u16>::empty());
}

} // verus!
