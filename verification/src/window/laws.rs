//! What holds of keys, wheel and mouse.

use vstd::prelude::*;

#[allow(unused_imports)]
use super::{absolute_row, key_action, wheel, WheelState};
#[allow(unused_imports)]
use super::events::{EffectState, EventState, WindowModel};
#[allow(unused_imports)]
use crate::input::{KeyState, Mods};
#[allow(unused_imports)]
use crate::term::model::TermState;

verus! {

/// While the command key is held nothing is written to the shell, and without
/// it no shortcut of the window is taken.
pub proof fn law_shortcuts_need_the_command_key(key: KeyState, mods: Mods, app_cursor: bool)
    ensures
        mods.super_key ==> !(key_action(key, mods, app_cursor) is Send),
        !mods.super_key ==> !(key_action(key, mods, app_cursor) is Quit) && !(key_action(
            key,
            mods,
            app_cursor,
        ) is Copy) && !(key_action(key, mods, app_cursor) is Paste) && !(key_action(
            key,
            mods,
            app_cursor,
        ) is ClearScrollback),
{
}

/// The view is never scrolled past the oldest line or past the live screen.
pub proof fn law_view_stays_within(t: TermState, lines: int, cell: (int, int), offset: int)
    ensures
        wheel(t, lines, cell, offset) matches WheelState::View(n) ==> 0 <= n
            <= t.scrollback.len(),
{
}

/// Where the view is within its bounds, scrolling up and down again by as much
/// leads back, unless it ran into a bound.
pub proof fn law_scrolling_leads_back(t: TermState, lines: int, cell: (int, int), offset: int)
    requires
        !t.alt_active,
        t.modes.mouse_mode == 0,
        0 <= offset <= t.scrollback.len(),
        0 <= offset + lines <= t.scrollback.len(),
    ensures
        wheel(t, lines, cell, offset) == WheelState::View(offset + lines),
        wheel(t, -lines, cell, offset + lines) == WheelState::View(offset),
{
}

/// The rows of the view have different absolute indices, in their order.
pub proof fn law_rows_in_order(t: TermState, offset: int, r0: int, r1: int)
    requires
        0 <= offset,
        r0 < r1,
    ensures
        absolute_row(t, offset, r0) < absolute_row(t, offset, r1),
        offset == 0 ==> absolute_row(t, offset, r0) == t.scrollback.len() + r0,
{
}

/// Whatever writes to the shell brings the view back to the live screen.
pub proof fn law_writing_shows_the_live_screen(
    w: WindowModel,
    t: TermState,
    ev: EventState,
    i: int,
)
    requires
        0 <= i < w.stepped(t, ev).1.len(),
        w.stepped(t, ev).1[i] is Write,
    ensures
        w.stepped(t, ev).0.view.offset == 0,
{
}

/// A view that is scrolled back no further than there are lines stays so,
/// whatever happens in the window.
pub proof fn law_view_stays_on_the_lines(w: WindowModel, t: TermState, ev: EventState)
    requires
        t.wf(),
        w.view.offset <= t.scrollback.len(),
    ensures
        w.stepped(t, ev).0.view.offset <= w.terminal_after(t, ev).scrollback.len(),
{
}

/// What happens in the window changes nothing of the terminal but its
/// scrollback, and that only while the command key is held.
pub proof fn law_window_leaves_the_terminal(w: WindowModel, t: TermState, ev: EventState)
    ensures
        !w.mods.super_key ==> w.terminal_after(t, ev) == t,
        w.terminal_after(t, ev) == (TermState {
            scrollback: w.terminal_after(t, ev).scrollback,
            ..t
        }),
{
}

/// The window ends when it is closed, when the shell ends and with the
/// shortcut for it, and not otherwise.
pub proof fn law_end_of_the_window(w: WindowModel, t: TermState, ev: EventState)
    ensures
        w.stepped(t, ev).1.contains(EffectState::Exit) <==> (ev is CloseRequested
            || ev is ChildExited || (w.mods.super_key && ev == EventState::KeyPressed(
            KeyState::Character("q"@),
        ))),
{
    let out = w.stepped(t, ev).1;
    reveal_strlit("c");
    reveal_strlit("v");
    reveal_strlit("=");
    reveal_strlit("+");
    reveal_strlit("-");
    reveal_strlit("0");
    reveal_strlit("k");
    reveal_strlit("q");
    assert("q"@[0] == 'q' && "c"@[0] == 'c' && "v"@[0] == 'v' && "="@[0] == '=' && "+"@[0] == '+'
        && "-"@[0] == '-' && "0"@[0] == '0' && "k"@[0] == 'k');
    if ev is CloseRequested {
        assert(out[1] == EffectState::Exit);
    } else if ev is ChildExited || (w.mods.super_key && ev == EventState::KeyPressed(
        KeyState::Character("q"@),
    )) {
        assert(out[0] == EffectState::Exit);
    }
}

/// A click selects nothing.
pub proof fn law_click_selects_nothing(w: WindowModel, t: TermState)
    ensures
        ({
            let held = w.stepped(t, EventState::LeftPressed).0;
            let after = held.stepped(t, EventState::LeftReleased).0;
            after.view.selection is None && !after.view.selecting
        }),
{
}

} // verus!
