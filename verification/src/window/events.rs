//! The window as a state machine: what happens in it, and what is to be done
//! about that.

use vstd::prelude::*;

use super::{
    focus_report, press_key, scroll_view, window_title, KeyAction, Viewport, Wheel,
};
#[allow(unused_imports)]
use super::{absolute_row, key_action, title_of, wheel, KeyActionState, WheelState};
use crate::input::{encode_paste, Key, Mods};
#[allow(unused_imports)]
use crate::input::{paste_bytes, KeyState};
use crate::selection::{selection_text, Selection};
#[allow(unused_imports)]
use crate::term::model::TermState;
use crate::text::{chars_of, text_eq};
use crate::Emulator;

verus! {

/// What happens in a window.
pub enum Event {
    CloseRequested,
    /// The shell ended.
    ChildExited,
    /// The shell wrote something.
    Wake,
    ModifiersChanged(Mods),
    Focused(bool),
    /// A key goes down.
    KeyPressed(Key),
    /// The clipboard's text, where it was asked for.
    Pasted(String),
    /// The wheel turns by so many lines, up where that is positive.
    Wheel(isize),
    /// The mouse moves to a cell (row, col).
    CursorMoved((usize, usize)),
    LeftPressed,
    LeftReleased,
}

/// What happens in a window, as a mathematical value.
pub enum EventState {
    CloseRequested,
    ChildExited,
    Wake,
    ModifiersChanged(Mods),
    Focused(bool),
    KeyPressed(KeyState),
    Pasted(Seq<char>),
    Wheel(int),
    CursorMoved((usize, usize)),
    LeftPressed,
    LeftReleased,
}

impl View for Event {
    type V = EventState;

    open spec fn view(&self) -> EventState {
        match self {
            Event::CloseRequested => EventState::CloseRequested,
            Event::ChildExited => EventState::ChildExited,
            Event::Wake => EventState::Wake,
            Event::ModifiersChanged(m) => EventState::ModifiersChanged(*m),
            Event::Focused(b) => EventState::Focused(*b),
            Event::KeyPressed(k) => EventState::KeyPressed(k@),
            Event::Pasted(s) => EventState::Pasted(s@),
            Event::Wheel(n) => EventState::Wheel(*n as int),
            Event::CursorMoved(c) => EventState::CursorMoved(*c),
            Event::LeftPressed => EventState::LeftPressed,
            Event::LeftReleased => EventState::LeftReleased,
        }
    }
}

/// How the font size changes.
#[derive(Clone, Copy, PartialEq, Eq, Debug, Structural)]
pub enum Zoom {
    In,
    Out,
    Reset,
}

/// What is to be done.
pub enum Effect {
    /// Hang up on the shell.
    Kill,
    Exit,
    Redraw,
    /// Write the bytes to the shell so many times.
    Write(Vec<u8>, u128),
    /// Put the text into the clipboard.
    Copy(String),
    /// Ask for the clipboard's text.
    Paste,
    Zoom(Zoom),
    SetTitle(String),
}

/// What is to be done, as a mathematical value.
pub enum EffectState {
    Kill,
    Exit,
    Redraw,
    Write(Seq<u8>, int),
    Copy(Seq<char>),
    Paste,
    Zoom(Zoom),
    SetTitle(Seq<char>),
}

impl View for Effect {
    type V = EffectState;

    open spec fn view(&self) -> EffectState {
        match self {
            Effect::Kill => EffectState::Kill,
            Effect::Exit => EffectState::Exit,
            Effect::Redraw => EffectState::Redraw,
            Effect::Write(v, n) => EffectState::Write(v@, *n as int),
            Effect::Copy(s) => EffectState::Copy(s@),
            Effect::Paste => EffectState::Paste,
            Effect::Zoom(z) => EffectState::Zoom(*z),
            Effect::SetTitle(s) => EffectState::SetTitle(s@),
        }
    }
}

/// The values of a list of effects.
pub open spec fn effects_of(v: Seq<Effect>) -> Seq<EffectState> {
    Seq::new(v.len(), |i: int| v[i]@)
}

/// What a window remembers.
pub struct WindowState {
    pub view: Viewport,
    pub mods: Mods,
    pub focused: bool,
    /// The title that was last set.
    pub last_title: String,
}

/// What a window remembers, as a mathematical value.
pub struct WindowModel {
    pub view: Viewport,
    pub mods: Mods,
    pub focused: bool,
    pub last_title: Seq<char>,
}

impl View for WindowState {
    type V = WindowModel;

    open spec fn view(&self) -> WindowModel {
        WindowModel {
            view: self.view,
            mods: self.mods,
            focused: self.focused,
            last_title: self.last_title@,
        }
    }
}

/// A redraw where one is needed.
pub open spec fn redraw_if(needed: bool) -> Seq<EffectState> {
    if needed {
        seq![EffectState::Redraw]
    } else {
        Seq::empty()
    }
}

/// Whether a cell can be numbered from 1, and from the oldest line.
pub open spec fn in_range(t: TermState, cell: (usize, usize)) -> bool {
    &&& cell.0 < usize::MAX
    &&& cell.1 < usize::MAX
    &&& t.scrollback.len() + cell.0 <= usize::MAX
}

impl WindowModel {
    /// A window that has just opened.
    pub open spec fn fresh() -> WindowModel {
        WindowModel {
            view: Viewport { offset: 0, selection: None, selecting: false, mouse_cell: (0, 0) },
            mods: Mods { shift: false, alt: false, control: false, super_key: false },
            focused: true,
            last_title: Seq::empty(),
        }
    }

    /// The window with the view scrolled so many lines back.
    pub open spec fn at_offset(self, offset: int) -> WindowModel {
        WindowModel { view: Viewport { offset: offset as usize, ..self.view }, ..self }
    }

    /// The window with another selection.
    pub open spec fn with_selection(self, selection: Option<Selection>) -> WindowModel {
        WindowModel { view: Viewport { selection, ..self.view }, ..self }
    }

    /// The cell as a position in the lines of the terminal.
    pub open spec fn position(self, t: TermState, cell: (usize, usize)) -> (usize, usize) {
        (absolute_row(t, self.view.offset as int, cell.0 as int) as usize, cell.1)
    }

    /// The bytes go to the shell `times` times. Typing snaps the view back to
    /// the live screen.
    pub open spec fn wrote(self, bytes: Seq<u8>, times: int) -> (WindowModel, Seq<EffectState>) {
        if times <= 0 {
            (self, Seq::empty())
        } else {
            (
                self.at_offset(0),
                seq![EffectState::Write(bytes, times)] + redraw_if(self.view.offset != 0),
            )
        }
    }

    /// The wheel turns, or a page is turned.
    pub open spec fn scrolled(self, t: TermState, lines: int) -> (
        WindowModel,
        Seq<EffectState>,
    ) {
        let cell = (self.view.mouse_cell.0 as int, self.view.mouse_cell.1 as int);
        match wheel(t, lines, cell, self.view.offset as int) {
            WheelState::Send(bytes, times) => self.wrote(bytes, times),
            WheelState::View(n) => (self.at_offset(n), redraw_if(n != self.view.offset)),
        }
    }

    /// A key goes down.
    pub open spec fn pressed(self, t: TermState, key: KeyState) -> (
        WindowModel,
        Seq<EffectState>,
    ) {
        match key_action(key, self.mods, t.modes.app_cursor) {
            KeyActionState::Copy => (
                self,
                match self.view.selection {
                    Some(s) => seq![EffectState::Copy(t.selected_text(s))],
                    None => Seq::empty(),
                },
            ),
            KeyActionState::Paste => (self, seq![EffectState::Paste]),
            KeyActionState::ZoomIn => (self, seq![EffectState::Zoom(Zoom::In)]),
            KeyActionState::ZoomOut => (self, seq![EffectState::Zoom(Zoom::Out)]),
            KeyActionState::ZoomReset => (self, seq![EffectState::Zoom(Zoom::Reset)]),
            KeyActionState::ClearScrollback => (self.at_offset(0), seq![EffectState::Redraw]),
            KeyActionState::Quit => (self, seq![EffectState::Exit]),
            KeyActionState::PageUp => self.scrolled(t, t.rows()),
            KeyActionState::PageDown => self.scrolled(t, -t.rows()),
            KeyActionState::Send(bytes) => self.with_selection(None).wrote(bytes, 1),
            KeyActionState::Nothing => (self, Seq::empty()),
        }
    }

    /// The mouse moves; while the button is held, the selection follows.
    pub open spec fn moved(self, t: TermState, cell: (usize, usize)) -> (
        WindowModel,
        Seq<EffectState>,
    ) {
        let end = self.position(t, cell);
        let dragged = self.view.selecting && (self.view.selection matches Some(s) && s.end != end);
        let w = WindowModel { view: Viewport { mouse_cell: cell, ..self.view }, ..self };
        (
            if dragged {
                w.with_selection(Some(Selection { end, ..self.view.selection->0 }))
            } else {
                w
            },
            redraw_if(dragged),
        )
    }

    /// The button goes down: a selection starts.
    pub open spec fn grabbed(self, t: TermState) -> WindowModel {
        let at = self.position(t, self.view.mouse_cell);
        WindowModel {
            view: Viewport {
                selection: Some(Selection { start: at, end: at }),
                selecting: true,
                ..self.view
            },
            ..self
        }
    }

    /// The button goes up. A click without drag clears the selection.
    pub open spec fn released(self) -> (WindowModel, Seq<EffectState>) {
        let click = self.view.selection matches Some(s) && s.start == s.end;
        let w = WindowModel { view: Viewport { selecting: false, ..self.view }, ..self };
        (
            if click {
                w.with_selection(None)
            } else {
                w
            },
            redraw_if(click),
        )
    }

    /// The window gets or loses the focus; an app that asked for it is told.
    pub open spec fn focus_set(self, t: TermState, focused: bool) -> (
        WindowModel,
        Seq<EffectState>,
    ) {
        let w = WindowModel { focused, ..self };
        if t.modes.focus_events {
            let (v, out) = w.wrote(
                if focused {
                    seq![0x1bu8, 0x5b, 0x49]
                } else {
                    seq![0x1bu8, 0x5b, 0x4f]
                },
                1,
            );
            (v, out.push(EffectState::Redraw))
        } else {
            (w, seq![EffectState::Redraw])
        }
    }

    /// The shell wrote something: the title follows. The view keeps its place.
    pub open spec fn woken(self, t: TermState) -> (WindowModel, Seq<EffectState>) {
        let title = title_of(t);
        if title != self.last_title {
            (
                WindowModel { last_title: title, ..self },
                seq![EffectState::SetTitle(title), EffectState::Redraw],
            )
        } else {
            (self, seq![EffectState::Redraw])
        }
    }

    /// The window after `ev`, and what is to be done.
    pub open spec fn stepped(self, t: TermState, ev: EventState) -> (
        WindowModel,
        Seq<EffectState>,
    ) {
        match ev {
            EventState::CloseRequested => (self, seq![EffectState::Kill, EffectState::Exit]),
            EventState::ChildExited => (self, seq![EffectState::Exit]),
            EventState::Wake => self.woken(t),
            EventState::ModifiersChanged(mods) => (WindowModel { mods, ..self }, Seq::empty()),
            EventState::Focused(focused) => self.focus_set(t, focused),
            EventState::KeyPressed(key) => self.pressed(t, key),
            EventState::Pasted(text) => if text.len() > 0 {
                self.wrote(paste_bytes(text, t.modes.bracketed_paste), 1)
            } else {
                (self, Seq::empty())
            },
            EventState::Wheel(lines) => if lines != 0 {
                self.scrolled(t, lines)
            } else {
                (self, Seq::empty())
            },
            EventState::CursorMoved(cell) => self.moved(t, cell),
            EventState::LeftPressed => (self.grabbed(t), seq![EffectState::Redraw]),
            EventState::LeftReleased => self.released(),
        }
    }

    /// The terminal after `ev`: one shortcut forgets the scrollback, nothing
    /// else touches it.
    pub open spec fn terminal_after(self, t: TermState, ev: EventState) -> TermState {
        match ev {
            EventState::KeyPressed(key) => if key_action(
                key,
                self.mods,
                t.modes.app_cursor,
            ) is ClearScrollback {
                TermState { scrollback: Seq::empty(), ..t }
            } else {
                t
            },
            _ => t,
        }
    }
}

/// A redraw where one is needed.
fn redraw_where(needed: bool) -> (out: Vec<Effect>)
    ensures
        effects_of(out@) == redraw_if(needed),
{
    let mut out: Vec<Effect> = Vec::new();
    if needed {
        out.push(Effect::Redraw);
    }
    assert(effects_of(out@) =~= redraw_if(needed));
    out
}

/// One thing to do.
fn only(e: Effect) -> (out: Vec<Effect>)
    ensures
        effects_of(out@) == seq![e@],
{
    let ghost v = e@;
    let mut out: Vec<Effect> = Vec::new();
    out.push(e);
    assert(effects_of(out@) =~= seq![v]);
    out
}

/// One thing more to do.
fn also(out: Vec<Effect>, e: Effect) -> (all: Vec<Effect>)
    ensures
        effects_of(all@) == effects_of(out@).push(e@),
{
    let ghost before = effects_of(out@);
    let ghost v = e@;
    let mut all = out;
    all.push(e);
    assert(effects_of(all@) =~= before.push(v));
    all
}

/// Nothing to do.
fn nothing() -> (out: Vec<Effect>)
    ensures
        effects_of(out@) == Seq::<EffectState>::empty(),
{
    let out: Vec<Effect> = Vec::new();
    assert(effects_of(out@) =~= Seq::<EffectState>::empty());
    out
}

impl WindowState {
    pub fn new() -> (w: WindowState)
        ensures
            w@ == WindowModel::fresh(),
    {
        let w = WindowState {
            view: Viewport::new(),
            mods: Mods { shift: false, alt: false, control: false, super_key: false },
            focused: true,
            last_title: String::new(),
        };
        assert(w.last_title@ =~= Seq::<char>::empty());
        w
    }

    fn write(&mut self, bytes: Vec<u8>, times: u128) -> (out: Vec<Effect>)
        ensures
            (final(self)@, effects_of(out@)) == old(self)@.wrote(bytes@, times as int),
    {
        if times == 0 {
            return nothing();
        }
        let ghost sent = bytes@;
        let moved = self.view.typed();
        let mut out = only(Effect::Write(bytes, times));
        if moved {
            out = also(out, Effect::Redraw);
        }
        assert(effects_of(out@) =~= seq![EffectState::Write(sent, times as int)] + redraw_if(
            moved,
        ));
        out
    }

    fn scroll(&mut self, emu: &Emulator, lines: isize) -> (out: Vec<Effect>)
        requires
            in_range(emu@.term, old(self).view.mouse_cell),
        ensures
            (final(self)@, effects_of(out@)) == old(self)@.scrolled(emu@.term, lines as int),
    {
        match scroll_view(&emu.term, lines, self.view.mouse_cell, self.view.offset) {
            Wheel::Send(bytes, times) => self.write(bytes, times),
            Wheel::View(n) => redraw_where(self.view.scroll_to(n)),
        }
    }

    /// Forgets the scrollback, and shows the live screen.
    fn forget(&mut self, emu: &mut Emulator) -> (out: Vec<Effect>)
        requires
            old(emu)@.wf(),
        ensures
            final(self)@ == old(self)@.at_offset(0),
            effects_of(out@) == seq![EffectState::Redraw],
            final(emu)@.term == (TermState { scrollback: Seq::empty(), ..old(emu)@.term }),
            final(emu)@.parser == old(emu)@.parser,
            final(emu)@.wf(),
    {
        emu.term.clear_scrollback();
        self.view.scroll_to(0);
        only(Effect::Redraw)
    }

    fn press(&mut self, emu: &mut Emulator, key: &Key) -> (out: Vec<Effect>)
        requires
            old(emu)@.wf(),
            in_range(old(emu)@.term, old(self).view.mouse_cell),
        ensures
            (final(self)@, effects_of(out@)) == old(self)@.pressed(old(emu)@.term, key@),
            final(emu)@.term == old(self)@.terminal_after(
                old(emu)@.term,
                EventState::KeyPressed(key@),
            ),
            final(emu)@.parser == old(emu)@.parser,
            final(emu)@.wf(),
    {
        match press_key(key, self.mods, emu.term.app_cursor) {
            KeyAction::Copy => match self.view.selection {
                Some(s) => only(Effect::Copy(selection_text(emu, s))),
                None => nothing(),
            },
            KeyAction::Paste => only(Effect::Paste),
            KeyAction::ZoomIn => only(Effect::Zoom(Zoom::In)),
            KeyAction::ZoomOut => only(Effect::Zoom(Zoom::Out)),
            KeyAction::ZoomReset => only(Effect::Zoom(Zoom::Reset)),
            KeyAction::ClearScrollback => self.forget(emu),
            KeyAction::Quit => only(Effect::Exit),
            KeyAction::PageUp => {
                let rows = emu.term.rows();
                self.scroll(emu, rows as isize)
            },
            KeyAction::PageDown => {
                let rows = emu.term.rows();
                self.scroll(emu, -(rows as isize))
            },
            KeyAction::Send(bytes) => {
                self.view.key_sent();
                self.write(bytes, 1)
            },
            KeyAction::Nothing => nothing(),
        }
    }

    fn set_focus(&mut self, emu: &Emulator, focused: bool) -> (out: Vec<Effect>)
        ensures
            (final(self)@, effects_of(out@)) == old(self)@.focus_set(emu@.term, focused),
    {
        self.focused = focused;
        match focus_report(&emu.term, focused) {
            Some(bytes) => {
                let out = self.write(bytes, 1);
                also(out, Effect::Redraw)
            },
            None => only(Effect::Redraw),
        }
    }

    fn wake(&mut self, emu: &Emulator) -> (out: Vec<Effect>)
        ensures
            (final(self)@, effects_of(out@)) == old(self)@.woken(emu@.term),
    {
        let title = window_title(&emu.term);
        let shown = chars_of(title.as_str());
        if text_eq(shown.as_slice(), self.last_title.as_str()) {
            return only(Effect::Redraw);
        }
        let out = also(only(Effect::SetTitle(title.clone())), Effect::Redraw);
        assert(effects_of(out@) =~= seq![EffectState::SetTitle(title@), EffectState::Redraw]);
        self.last_title = title;
        out
    }

    /// Takes in what happened and says what is to be done about it, in order.
    pub fn handle(&mut self, emu: &mut Emulator, ev: Event) -> (out: Vec<Effect>)
        requires
            old(emu)@.wf(),
            in_range(old(emu)@.term, old(self).view.mouse_cell),
            ev matches Event::CursorMoved(cell) ==> in_range(old(emu)@.term, cell),
        ensures
            (final(self)@, effects_of(out@)) == old(self)@.stepped(old(emu)@.term, ev@),
            final(emu)@.term == old(self)@.terminal_after(old(emu)@.term, ev@),
            final(emu)@.parser == old(emu)@.parser,
            final(emu)@.wf(),
    {
        match ev {
            Event::CloseRequested => {
                let out = also(only(Effect::Kill), Effect::Exit);
                assert(effects_of(out@) =~= seq![EffectState::Kill, EffectState::Exit]);
                out
            },
            Event::ChildExited => only(Effect::Exit),
            Event::Wake => self.wake(emu),
            Event::ModifiersChanged(mods) => {
                self.mods = mods;
                nothing()
            },
            Event::Focused(focused) => self.set_focus(emu, focused),
            Event::KeyPressed(key) => self.press(emu, &key),
            Event::Pasted(text) => {
                let cs = chars_of(text.as_str());
                if cs.len() > 0 {
                    let bytes = encode_paste(text.as_str(), emu.term.bracketed_paste);
                    self.write(bytes, 1)
                } else {
                    nothing()
                }
            },
            Event::Wheel(lines) => if lines != 0 {
                self.scroll(emu, lines)
            } else {
                nothing()
            },
            Event::CursorMoved(cell) => redraw_where(self.view.mouse_moved(&emu.term, cell)),
            Event::LeftPressed => {
                self.view.mouse_pressed(&emu.term);
                only(Effect::Redraw)
            },
            Event::LeftReleased => redraw_where(self.view.mouse_released()),
        }
    }
}

} // verus!
