//! What the window does with keys, wheel and mouse.

use vstd::prelude::*;

use crate::grid::at_most;
#[allow(unused_imports)]
use crate::grid::min;
use crate::input::{encode_key, Key, Mods, NamedKey};
#[allow(unused_imports)]
use crate::input::{key_bytes, KeyState};
use crate::selection::Selection;
use crate::term::Term;
#[allow(unused_imports)]
use crate::term::model::{clamp, TermState};
use crate::text::{append_bytes, append_decimal, append_text, chars_of, text_eq};
#[allow(unused_imports)]
use crate::text::{ascii, decimal};

pub mod events;
pub mod laws;
pub mod use_laws;

verus! {

// ---- Keys -------------------------------------------------------------------

/// What a key press does.
pub enum KeyAction {
    /// Copy the selection to the clipboard.
    Copy,
    /// Paste the clipboard.
    Paste,
    ZoomIn,
    ZoomOut,
    ZoomReset,
    ClearScrollback,
    Quit,
    /// Scroll the view up by a page.
    PageUp,
    /// Scroll the view down by a page.
    PageDown,
    /// Write the bytes to the shell.
    Send(Vec<u8>),
    Nothing,
}

/// What a key press does, as a mathematical value.
pub enum KeyActionState {
    Copy,
    Paste,
    ZoomIn,
    ZoomOut,
    ZoomReset,
    ClearScrollback,
    Quit,
    PageUp,
    PageDown,
    Send(Seq<u8>),
    Nothing,
}

impl View for KeyAction {
    type V = KeyActionState;

    open spec fn view(&self) -> KeyActionState {
        match self {
            KeyAction::Copy => KeyActionState::Copy,
            KeyAction::Paste => KeyActionState::Paste,
            KeyAction::ZoomIn => KeyActionState::ZoomIn,
            KeyAction::ZoomOut => KeyActionState::ZoomOut,
            KeyAction::ZoomReset => KeyActionState::ZoomReset,
            KeyAction::ClearScrollback => KeyActionState::ClearScrollback,
            KeyAction::Quit => KeyActionState::Quit,
            KeyAction::PageUp => KeyActionState::PageUp,
            KeyAction::PageDown => KeyActionState::PageDown,
            KeyAction::Send(v) => KeyActionState::Send(v@),
            KeyAction::Nothing => KeyActionState::Nothing,
        }
    }
}

/// What the command key does with a character.
pub open spec fn command_action(s: Seq<char>) -> KeyActionState {
    if s == "c"@ {
        KeyActionState::Copy
    } else if s == "v"@ {
        KeyActionState::Paste
    } else if s == "="@ || s == "+"@ {
        KeyActionState::ZoomIn
    } else if s == "-"@ {
        KeyActionState::ZoomOut
    } else if s == "0"@ {
        KeyActionState::ZoomReset
    } else if s == "k"@ {
        KeyActionState::ClearScrollback
    } else if s == "q"@ {
        KeyActionState::Quit
    } else {
        KeyActionState::Nothing
    }
}

/// What a key press does: shortcuts with the command key, paging with Shift,
/// the shell's bytes otherwise.
pub open spec fn key_action(key: KeyState, mods: Mods, app_cursor: bool) -> KeyActionState {
    if mods.super_key {
        match key {
            KeyState::Character(s) => command_action(s),
            _ => KeyActionState::Nothing,
        }
    } else if mods.shift && key == KeyState::Named(NamedKey::PageUp) {
        KeyActionState::PageUp
    } else if mods.shift && key == KeyState::Named(NamedKey::PageDown) {
        KeyActionState::PageDown
    } else {
        match key_bytes(key, mods, app_cursor) {
            Some(bytes) => KeyActionState::Send(bytes),
            None => KeyActionState::Nothing,
        }
    }
}

fn handle_cmd_key(s: &str) -> (a: KeyAction)
    ensures
        a@ == command_action(s@),
{
    let cs = chars_of(s);
    let c = cs.as_slice();
    if text_eq(c, "c") {
        KeyAction::Copy
    } else if text_eq(c, "v") {
        KeyAction::Paste
    } else if text_eq(c, "=") || text_eq(c, "+") {
        KeyAction::ZoomIn
    } else if text_eq(c, "-") {
        KeyAction::ZoomOut
    } else if text_eq(c, "0") {
        KeyAction::ZoomReset
    } else if text_eq(c, "k") {
        KeyAction::ClearScrollback
    } else if text_eq(c, "q") {
        KeyAction::Quit
    } else {
        KeyAction::Nothing
    }
}

/// Decides what a key press does.
pub fn press_key(key: &Key, mods: Mods, app_cursor: bool) -> (a: KeyAction)
    ensures
        a@ == key_action(key@, mods, app_cursor),
{
    if mods.super_key {
        return match key {
            Key::Character(s) => handle_cmd_key(s.as_str()),
            _ => KeyAction::Nothing,
        };
    }
    // PageUp/PageDown with shift scroll the view (classic).
    if mods.shift {
        if let Key::Named(NamedKey::PageUp) = key {
            return KeyAction::PageUp;
        }
        if let Key::Named(NamedKey::PageDown) = key {
            return KeyAction::PageDown;
        }
    }
    match encode_key(key, mods, app_cursor) {
        Some(bytes) => KeyAction::Send(bytes),
        None => KeyAction::Nothing,
    }
}

// ---- Wheel ------------------------------------------------------------------

/// What the wheel does.
pub enum Wheel {
    /// Write the bytes to the shell so many times.
    Send(Vec<u8>, u128),
    /// Scroll the view to so many lines back.
    View(usize),
}

/// What the wheel does, as a mathematical value.
pub enum WheelState {
    Send(Seq<u8>, int),
    View(int),
}

impl View for Wheel {
    type V = WheelState;

    open spec fn view(&self) -> WheelState {
        match self {
            Wheel::Send(v, n) => WheelState::Send(v@, *n as int),
            Wheel::View(n) => WheelState::View(*n as int),
        }
    }
}

/// The report of the wheel (button 64 up / 65 down) over a cell.
pub open spec fn wheel_report(up: bool, row: int, col: int) -> Seq<u8> {
    seq![0x1bu8, 0x5b, 0x3c] + ascii(
        decimal(
            if up {
                64
            } else {
                65
            },
        ),
    ) + seq![0x3bu8] + ascii(decimal((col + 1) as nat)) + seq![0x3bu8] + ascii(
        decimal((row + 1) as nat),
    ) + seq![0x4du8]
}

pub open spec fn abs(v: int) -> int {
    if v < 0 {
        -v
    } else {
        v
    }
}

/// What turning the wheel by `lines` does: an app that asked for it gets
/// reports, a full-screen app gets arrow keys, otherwise the view scrolls.
pub open spec fn wheel(
    t: TermState,
    lines: int,
    cell: (int, int),
    view_offset: int,
) -> WheelState {
    if t.modes.mouse_mode != 0 && t.modes.mouse_sgr {
        WheelState::Send(wheel_report(lines > 0, cell.0, cell.1), abs(lines))
    } else if t.alt_active {
        WheelState::Send(
            if lines > 0 {
                seq![0x1bu8, 0x5b, 0x41]
            } else {
                seq![0x1bu8, 0x5b, 0x42]
            },
            abs(lines) * 3,
        )
    } else {
        WheelState::View(clamp(view_offset + lines, 0, t.scrollback.len() as int))
    }
}

fn magnitude(v: isize) -> (r: u128)
    ensures
        r == abs(v as int),
{
    let wide: i128 = v as i128;
    if wide < 0 {
        (-wide) as u128
    } else {
        wide as u128
    }
}

fn wheel_bytes(up: bool, row: usize, col: usize) -> (v: Vec<u8>)
    requires
        row < usize::MAX,
        col < usize::MAX,
    ensures
        v@ == wheel_report(up, row as int, col as int),
{
    let mut v: Vec<u8> = vec![0x1b, 0x5b, 0x3c];
    append_decimal(
        &mut v,
        if up {
            64
        } else {
            65
        },
    );
    v.push(0x3b);
    append_decimal(&mut v, (col + 1) as u64);
    v.push(0x3b);
    append_decimal(&mut v, (row + 1) as u64);
    v.push(0x4d);
    assert(v@ =~= wheel_report(up, row as int, col as int));
    v
}

/// Decides what turning the wheel by `lines` over `cell` (row, col) does.
pub fn scroll_view(term: &Term, lines: isize, cell: (usize, usize), view_offset: usize) -> (w:
    Wheel)
    requires
        cell.0 < usize::MAX,
        cell.1 < usize::MAX,
    ensures
        w@ == wheel(
            term@,
            lines as int,
            (cell.0 as int, cell.1 as int),
            view_offset as int,
        ),
{
    if term.mouse_mode != 0 && term.mouse_sgr {
        return Wheel::Send(wheel_bytes(lines > 0, cell.0, cell.1), magnitude(lines));
    }
    if term.alt_active {
        let arrow: Vec<u8> = if lines > 0 {
            vec![0x1b, 0x5b, 0x41]
        } else {
            vec![0x1b, 0x5b, 0x42]
        };
        assert(arrow@ =~= if lines > 0 {
            seq![0x1bu8, 0x5b, 0x41]
        } else {
            seq![0x1bu8, 0x5b, 0x42]
        });
        return Wheel::Send(arrow, magnitude(lines) * 3);
    }
    let held = term.scrollback.len();
    let target: i128 = view_offset as i128 + lines as i128;
    Wheel::View(
        if target < 0 {
            0
        } else if target > held as i128 {
            held
        } else {
            target as usize
        },
    )
}

// ---- Mouse and view ---------------------------------------------------------

/// What the window remembers of the view and the mouse.
pub struct Viewport {
    /// How many lines the view is scrolled back.
    pub offset: usize,
    pub selection: Option<Selection>,
    /// Whether the button is held.
    pub selecting: bool,
    /// The cell under the mouse: (row, col).
    pub mouse_cell: (usize, usize),
}

/// The absolute index of a row of the view.
pub open spec fn absolute_row(t: TermState, offset: int, row: int) -> int {
    t.scrollback.len() - min(offset, t.scrollback.len() as int) + row
}

impl Viewport {
    pub fn new() -> (v: Viewport)
        ensures
            v.offset == 0,
            v.selection is None,
            !v.selecting,
            v.mouse_cell == (0usize, 0usize),
    {
        Viewport { offset: 0, selection: None, selecting: false, mouse_cell: (0, 0) }
    }

    pub fn abs_row(&self, term: &Term, screen_row: usize) -> (r: usize)
        requires
            term@.scrollback.len() + screen_row <= usize::MAX,
        ensures
            r == absolute_row(term@, self.offset as int, screen_row as int),
    {
        let held = term.scrollback.len();
        held - at_most(self.offset, held) + screen_row
    }

    /// Typing snaps the view back to the live screen. Says whether it moved.
    pub fn typed(&mut self) -> (redraw: bool)
        ensures
            *final(self) == (Viewport { offset: 0, ..*old(self) }),
            redraw == (old(self).offset != 0),
    {
        let moved = self.offset != 0;
        self.offset = 0;
        moved
    }

    /// A key that writes to the shell drops the selection.
    pub fn key_sent(&mut self)
        ensures
            *final(self) == (Viewport { selection: None, ..*old(self) }),
    {
        self.selection = None;
    }

    /// Scrolls the view. Says whether it moved.
    pub fn scroll_to(&mut self, offset: usize) -> (redraw: bool)
        ensures
            *final(self) == (Viewport { offset, ..*old(self) }),
            redraw == (old(self).offset != offset),
    {
        let moved = self.offset != offset;
        self.offset = offset;
        moved
    }

    /// The mouse moves to a cell; while the button is held, the selection
    /// follows. Says whether it changed.
    pub fn mouse_moved(&mut self, term: &Term, cell: (usize, usize)) -> (redraw: bool)
        requires
            term@.scrollback.len() + cell.0 <= usize::MAX,
        ensures
            ({
                let end = (
                    absolute_row(term@, old(self).offset as int, cell.0 as int) as usize,
                    cell.1,
                );
                let dragged = old(self).selecting && (old(self).selection matches Some(s) && s.end
                    != end);
                &&& redraw == dragged
                &&& *final(self) == (Viewport {
                    mouse_cell: cell,
                    selection: if dragged {
                        Some(Selection { end, ..old(self).selection->0 })
                    } else {
                        old(self).selection
                    },
                    ..*old(self)
                })
            }),
    {
        self.mouse_cell = cell;
        if !self.selecting {
            return false;
        }
        let row = self.abs_row(term, cell.0);
        if let Some(s) = self.selection {
            if s.end.0 != row || s.end.1 != cell.1 {
                self.selection = Some(Selection { start: s.start, end: (row, cell.1) });
                return true;
            }
        }
        false
    }

    /// The button goes down: a selection starts in the cell under the mouse.
    pub fn mouse_pressed(&mut self, term: &Term)
        requires
            term@.scrollback.len() + old(self).mouse_cell.0 <= usize::MAX,
        ensures
            ({
                let at = (
                    absolute_row(
                        term@,
                        old(self).offset as int,
                        old(self).mouse_cell.0 as int,
                    ) as usize,
                    old(self).mouse_cell.1,
                );
                *final(self) == (Viewport {
                    selection: Some(Selection { start: at, end: at }),
                    selecting: true,
                    ..*old(self)
                })
            }),
    {
        let at = (self.abs_row(term, self.mouse_cell.0), self.mouse_cell.1);
        self.selection = Some(Selection { start: at, end: at });
        self.selecting = true;
    }

    /// The button goes up. A click without drag clears the selection; says
    /// whether it did.
    pub fn mouse_released(&mut self) -> (redraw: bool)
        ensures
            ({
                let click = old(self).selection matches Some(s) && s.start == s.end;
                &&& redraw == click
                &&& *final(self) == (Viewport {
                    selecting: false,
                    selection: if click {
                        None
                    } else {
                        old(self).selection
                    },
                    ..*old(self)
                })
            }),
    {
        self.selecting = false;
        if let Some(s) = self.selection {
            if s.start.0 == s.end.0 && s.start.1 == s.end.1 {
                self.selection = None;
                return true;
            }
        }
        false
    }
}

// ---- Title and focus --------------------------------------------------------

/// The window's title: the terminal's, or else its directory, or else the name
/// alone.
pub open spec fn title_of(t: TermState) -> Seq<char> {
    if t.title.len() > 0 {
        t.title + " — mimi"@
    } else {
        match t.cwd {
            Some(cwd) => cwd + " — mimi"@,
            None => "mimi"@,
        }
    }
}

/// `head` followed by the name.
fn with_name(head: &str) -> (s: String)
    ensures
        s@ == head@ + " — mimi"@,
{
    let mut s = head.to_owned();
    let name = chars_of(" — mimi");
    append_text(&mut s, name.as_slice());
    s
}

pub fn window_title(term: &Term) -> (s: String)
    ensures
        s@ == title_of(term@),
{
    let title = chars_of(term.title.as_str());
    if title.len() > 0 {
        with_name(term.title.as_str())
    } else {
        match &term.cwd {
            Some(cwd) => with_name(cwd.as_str()),
            None => "mimi".to_owned(),
        }
    }
}

/// What is written to the shell when the window gets or loses the focus.
pub fn focus_report(term: &Term, focused: bool) -> (r: Option<Vec<u8>>)
    ensures
        crate::input::bytes_of(r) == (if !term@.modes.focus_events {
            None
        } else if focused {
            Some(seq![0x1bu8, 0x5b, 0x49])
        } else {
            Some(seq![0x1bu8, 0x5b, 0x4f])
        }),
{
    if !term.focus_events {
        return None;
    }
    let mut v: Vec<u8> = Vec::new();
    let bytes: [u8; 3] = if focused {
        [0x1b, 0x5b, 0x49]
    } else {
        [0x1b, 0x5b, 0x4f]
    };
    append_bytes(&mut v, &bytes);
    assert(v@ =~= if focused {
        seq![0x1bu8, 0x5b, 0x49]
    } else {
        seq![0x1bu8, 0x5b, 0x4f]
    });
    Some(v)
}

} // verus!
