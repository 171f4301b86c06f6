//! What holds of using the window: what keys, wheel, mouse and focus do.

use vstd::prelude::*;

#[allow(unused_imports)]
use super::events::{EffectState, EventState, WindowModel, Zoom};
#[allow(unused_imports)]
use super::{title_of, wheel, Viewport, WheelState};
#[allow(unused_imports)]
use crate::input::key_laws::{bare, sent};
#[allow(unused_imports)]
use crate::input::{key_bytes, paste_bytes, KeyState, Mods, NamedKey};
#[allow(unused_imports)]
use crate::parser::sequence_laws::{written_csi, written_params};
#[allow(unused_imports)]
use crate::term::model::TermState;
#[allow(unused_imports)]
use crate::text::{ascii, decimal};

verus! {

/// What pressing the key of a text with the command key does.
pub open spec fn shortcut(w: WindowModel, t: TermState, text: Seq<char>) -> Seq<EffectState> {
    w.stepped(t, EventState::KeyPressed(KeyState::Character(text))).1
}

/// The one-letter texts of the shortcuts are what they look like.
proof fn lemma_letters()
    ensures
        "c"@ == seq!['c'],
        "v"@ == seq!['v'],
        "="@ == seq!['='],
        "+"@ == seq!['+'],
        "-"@ == seq!['-'],
        "0"@ == seq!['0'],
        "k"@ == seq!['k'],
        "q"@ == seq!['q'],
{
    reveal_strlit("c");
    reveal_strlit("v");
    reveal_strlit("=");
    reveal_strlit("+");
    reveal_strlit("-");
    reveal_strlit("0");
    reveal_strlit("k");
    reveal_strlit("q");
    assert("c"@ =~= seq!['c']);
    assert("v"@ =~= seq!['v']);
    assert("="@ =~= seq!['=']);
    assert("+"@ =~= seq!['+']);
    assert("-"@ =~= seq!['-']);
    assert("0"@ =~= seq!['0']);
    assert("k"@ =~= seq!['k']);
    assert("q"@ =~= seq!['q']);
}

/// With the command key, c copies what is selected, v asks for the clipboard,
/// = and + zoom in, - out and 0 back, k forgets the scrollback and q quits; no
/// other key does anything.
pub proof fn law_shortcuts(w: WindowModel, t: TermState, text: Seq<char>)
    requires
        w.mods.super_key,
    ensures
        w.view.selection matches Some(s) ==> shortcut(w, t, seq!['c']) == seq![
            EffectState::Copy(t.selected_text(s)),
        ],
        w.view.selection is None ==> shortcut(w, t, seq!['c']).len() == 0,
        shortcut(w, t, seq!['v']) == seq![EffectState::Paste],
        shortcut(w, t, seq!['=']) == seq![EffectState::Zoom(Zoom::In)],
        shortcut(w, t, seq!['+']) == seq![EffectState::Zoom(Zoom::In)],
        shortcut(w, t, seq!['-']) == seq![EffectState::Zoom(Zoom::Out)],
        shortcut(w, t, seq!['0']) == seq![EffectState::Zoom(Zoom::Reset)],
        shortcut(w, t, seq!['q']) == seq![EffectState::Exit],
        shortcut(w, t, seq!['k']) == seq![EffectState::Redraw],
        w.terminal_after(
            t,
            EventState::KeyPressed(KeyState::Character(seq!['k'])),
        ).scrollback.len() == 0,
        w.stepped(t, EventState::KeyPressed(KeyState::Character(seq!['k']))).0.view.offset == 0,
        text.len() != 1 || (text[0] != 'c' && text[0] != 'v' && text[0] != '=' && text[0] != '+'
            && text[0] != '-' && text[0] != '0' && text[0] != 'k' && text[0] != 'q') ==> shortcut(
            w,
            t,
            text,
        ).len() == 0 && w.terminal_after(t, EventState::KeyPressed(KeyState::Character(text)))
            == t,
{
    lemma_letters();
    assert(seq!['c'][0] == 'c' && seq!['v'][0] == 'v' && seq!['='][0] == '=' && seq!['+'][0] == '+'
        && seq!['-'][0] == '-' && seq!['0'][0] == '0' && seq!['k'][0] == 'k' && seq!['q'][0]
        == 'q');
}

/// Shift and a page key turn the view by a screen: up towards the oldest line,
/// down towards the live screen, and nothing is written.
pub proof fn law_page_keys(w: WindowModel, t: TermState)
    requires
        t.wf(),
        t.scrollback.len() <= usize::MAX,
        w.mods.shift,
        !w.mods.super_key,
        !t.alt_active,
        t.modes.mouse_mode == 0,
        w.view.offset <= t.scrollback.len(),
    ensures
        w.stepped(t, EventState::KeyPressed(KeyState::Named(NamedKey::PageUp))).0.view.offset == (
        if w.view.offset + t.rows() <= t.scrollback.len() {
            w.view.offset + t.rows()
        } else {
            t.scrollback.len() as int
        }),
        w.stepped(t, EventState::KeyPressed(KeyState::Named(NamedKey::PageDown))).0.view.offset == (
        if w.view.offset >= t.rows() {
            w.view.offset - t.rows()
        } else {
            0
        }),
{
}

/// Any other key is written to the shell as it is encoded, once; the selection
/// is gone and the live screen is shown. A key that sends nothing does nothing.
pub proof fn law_typing(w: WindowModel, t: TermState, key: KeyState)
    requires
        !w.mods.super_key,
        !w.mods.shift || (key != KeyState::Named(NamedKey::PageUp) && key != KeyState::Named(
            NamedKey::PageDown,
        )),
    ensures
        match key_bytes(key, w.mods, t.modes.app_cursor) {
            Some(bytes) => {
                let (next, out) = w.stepped(t, EventState::KeyPressed(key));
                &&& out.len() >= 1 && out[0] == EffectState::Write(bytes, 1)
                &&& w.view.offset == 0 ==> out.len() == 1
                &&& w.view.offset > 0 ==> out.len() == 2 && out[1] == EffectState::Redraw
                &&& next == (WindowModel {
                    view: Viewport { offset: 0, selection: None, ..w.view },
                    ..w
                })
            },
            None => w.stepped(t, EventState::KeyPressed(key)) == (w, Seq::<EffectState>::empty()),
        },
{
}

/// The clipboard's text is written to the shell between marks where the
/// application asked for them, and bare where not; an empty one is not written.
pub proof fn law_pasting(w: WindowModel, t: TermState, text: Seq<char>)
    ensures
        text.len() > 0 ==> w.stepped(t, EventState::Pasted(text)).1[0] == EffectState::Write(
            paste_bytes(text, t.modes.bracketed_paste),
            1,
        ),
        text.len() == 0 ==> w.stepped(t, EventState::Pasted(text)).1.len() == 0,
{
}

/// A full-screen application gets three arrow keys for each line that the wheel
/// turns: those of the arrow up where it turns up, down where down.
pub proof fn law_wheel_on_the_alternate_screen(
    t: TermState,
    lines: int,
    cell: (int, int),
    offset: int,
)
    requires
        t.alt_active,
        t.modes.mouse_mode == 0,
        lines >= 1,
    ensures
        wheel(t, lines, cell, offset) == WheelState::Send(
            sent(NamedKey::ArrowUp, bare(), false),
            3 * lines,
        ),
        wheel(t, -lines, cell, offset) == WheelState::Send(
            sent(NamedKey::ArrowDown, bare(), false),
            3 * lines,
        ),
{
}

/// An application that asked for SGR mouse reports gets one for each line that
/// the wheel turns: button 64 up and 65 down, with the column and the row of
/// the mouse counted from 1, on whichever screen. One that asked for the mouse
/// but not for these reports gets none.
pub proof fn law_wheel_reports(
    t: TermState,
    lines: int,
    row: u16,
    col: u16,
    offset: int,
)
    requires
        t.modes.mouse_mode != 0,
        lines >= 1,
        row < 0xffff,
        col < 0xffff,
    ensures
        t.modes.mouse_sgr ==> {
            let r = (row + 1) as u16;
            let c = (col + 1) as u16;
            let cell = (row as int, col as int);
            &&& wheel(t, lines, cell, offset) == WheelState::Send(
                written_csi(0x3c, seq![64u16, c, r], 0x4d),
                lines,
            )
            &&& wheel(t, -lines, cell, offset) == WheelState::Send(
                written_csi(0x3c, seq![65u16, c, r], 0x4d),
                lines,
            )
        },
        !t.modes.mouse_sgr && !t.alt_active ==> wheel(
            t,
            lines,
            (row as int, col as int),
            offset,
        ) is View,
{
    let r = (row + 1) as u16;
    let c = (col + 1) as u16;
    lemma_report(64, c, r);
    lemma_report(65, c, r);
}

proof fn lemma_report(button: u16, col: u16, row: u16)
    ensures
        written_csi(0x3c, seq![button, col, row], 0x4d) == seq![0x1bu8, 0x5b, 0x3c] + ascii(
            decimal(button as nat),
        ) + seq![0x3bu8] + ascii(decimal(col as nat)) + seq![0x3bu8] + ascii(decimal(row as nat))
            + seq![0x4du8],
{
    reveal_with_fuel(written_params, 4);
    assert(seq![button, col, row].drop_last() =~= seq![button, col]);
    assert(seq![button, col].drop_last() =~= seq![button]);
    assert(written_csi(0x3c, seq![button, col, row], 0x4d) =~= seq![0x1bu8, 0x5b, 0x3c] + ascii(
        decimal(button as nat),
    ) + seq![0x3bu8] + ascii(decimal(col as nat)) + seq![0x3bu8] + ascii(decimal(row as nat))
        + seq![0x4du8]);
}

/// Dragging the mouse from one cell to another selects from the line that is
/// shown under the first to the one under the second, whatever the view is
/// scrolled back, and letting go keeps that.
pub proof fn law_dragging_selects(
    w: WindowModel,
    t: TermState,
    from: (usize, usize),
    to: (usize, usize),
)
    requires
        t.wf(),
        from.0 < t.rows(),
        to.0 < t.rows(),
        t.scrollback.len() + t.rows() <= usize::MAX,
        !w.view.selecting,
        from != to,
    ensures
        ({
            let down = w.stepped(t, EventState::CursorMoved(from)).0.stepped(
                t,
                EventState::LeftPressed,
            ).0;
            let dragged = down.stepped(t, EventState::CursorMoved(to)).0;
            let up = dragged.stepped(t, EventState::LeftReleased).0;
            let held = t.scrollback.len() as int;
            let back = if w.view.offset <= held {
                w.view.offset as int
            } else {
                held
            };
            &&& up.view.selection matches Some(s) && {
                &&& s.start == ((held - back + from.0) as usize, from.1)
                &&& s.end == ((held - back + to.0) as usize, to.1)
                &&& t.view_row(w.view.offset as int, from.0 as int) == Some(
                    t.all_lines()[s.start.0 as int],
                )
                &&& t.view_row(w.view.offset as int, to.0 as int) == Some(
                    t.all_lines()[s.end.0 as int],
                )
            }
            &&& !up.view.selecting && up.view.offset == w.view.offset
        }),
{
}

/// Moving the mouse without the button selects nothing, and does not change
/// what is selected.
pub proof fn law_moving_selects_nothing(w: WindowModel, t: TermState, cell: (usize, usize))
    requires
        !w.view.selecting,
    ensures
        w.stepped(t, EventState::CursorMoved(cell)).0 == (WindowModel {
            view: Viewport { mouse_cell: cell, ..w.view },
            ..w
        }),
        w.stepped(t, EventState::CursorMoved(cell)).1.len() == 0,
{
}

/// An application that asked for it is told of the focus: CSI I when the window
/// gets it, CSI O when it loses it. Another is not. Either way the window
/// remembers it and is drawn anew.
pub proof fn law_focus(w: WindowModel, t: TermState, focused: bool)
    ensures
        w.stepped(t, EventState::Focused(focused)).0.focused == focused,
        w.stepped(t, EventState::Focused(focused)).1.last() == EffectState::Redraw,
        t.modes.focus_events ==> w.stepped(t, EventState::Focused(focused)).1[0]
            == EffectState::Write(
            seq![
                0x1bu8,
                0x5b,
                if focused {
                    0x49
                } else {
                    0x4f
                },
            ],
            1,
        ),
        !t.modes.focus_events ==> w.stepped(t, EventState::Focused(focused)).1 == seq![
            EffectState::Redraw,
        ],
{
}

/// The window is called what the application says, or else by its directory,
/// and by its own name where neither is known. It is told so once.
pub proof fn law_window_title(w: WindowModel, t: TermState)
    ensures
        t.title.len() > 0 ==> title_of(t) == t.title + " — mimi"@,
        t.title.len() == 0 ==> (t.cwd matches Some(cwd) ==> title_of(t) == cwd + " — mimi"@),
        t.title.len() == 0 && t.cwd is None ==> title_of(t) == "mimi"@,
        w.last_title != title_of(t) ==> w.stepped(t, EventState::Wake).1 == seq![
            EffectState::SetTitle(title_of(t)),
            EffectState::Redraw,
        ],
        w.stepped(t, EventState::Wake).0.last_title == title_of(t),
        w.last_title == title_of(t) ==> w.stepped(t, EventState::Wake).1 == seq![
            EffectState::Redraw,
        ],
{
}

/// The modifiers are those that were last reported.
pub proof fn law_modifiers(w: WindowModel, t: TermState, mods: Mods)
    ensures
        w.stepped(t, EventState::ModifiersChanged(mods)).0 == (WindowModel { mods, ..w }),
        w.stepped(t, EventState::ModifiersChanged(mods)).1.len() == 0,
{
}

/// The window is drawn anew where what it shows changes: when the view moves,
/// when the selection does, and not otherwise.
pub proof fn law_redrawing(w: WindowModel, t: TermState, lines: int, cell: (usize, usize))
    requires
        t.wf(),
        !t.alt_active,
        t.modes.mouse_mode == 0,
        lines != 0,
        t.scrollback.len() + cell.0 <= usize::MAX,
    ensures
        ({
            let (turned, out) = w.stepped(t, EventState::Wheel(lines));
            out == (if turned.view.offset != w.view.offset {
                seq![EffectState::Redraw]
            } else {
                Seq::empty()
            })
        }),
        ({
            let (moved, out) = w.stepped(t, EventState::CursorMoved(cell));
            out == (if moved.view.selection != w.view.selection {
                seq![EffectState::Redraw]
            } else {
                Seq::empty()
            })
        }),
        w.stepped(t, EventState::LeftPressed).1 == seq![EffectState::Redraw],
        ({
            let (up, out) = w.stepped(t, EventState::LeftReleased);
            out == (if up.view.selection != w.view.selection {
                seq![EffectState::Redraw]
            } else {
                Seq::empty()
            })
        }),
        w.stepped(t, EventState::Wheel(0)) == (w, Seq::<EffectState>::empty()),
{
}

/// Closing the window hangs up on the shell and ends; where the shell ended
/// first, there is nothing to hang up on.
pub proof fn law_closing(w: WindowModel, t: TermState)
    ensures
        w.stepped(t, EventState::CloseRequested) == (
            w,
            seq![EffectState::Kill, EffectState::Exit],
        ),
        w.stepped(t, EventState::ChildExited) == (w, seq![EffectState::Exit]),
{
}

/// A window opens on the live screen, with the focus, no key held, nothing
/// selected and no title yet.
pub proof fn law_fresh_window()
    ensures
        ({
            let w = WindowModel::fresh();
            &&& w.view.offset == 0 && w.view.selection is None && !w.view.selecting
            &&& w.mods == bare()
            &&& w.focused
            &&& w.last_title.len() == 0
        }),
{
}

} // verus!
