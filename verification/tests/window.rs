use mimi::atlas::{grown_capacity, Placement, ShelfPacker};
use mimi::config::Config;
use mimi::frame::{FrameInput, LineMark};
use mimi::input::{Key, Mods, NamedKey};
use mimi::palette::{Palette, Shade};
use mimi::selection::{selection_text, Selection};
use mimi::window::events::{Effect, Event, WindowState, Zoom};
use mimi::window::{focus_report, press_key, scroll_view, window_title, KeyAction, Viewport, Wheel};
use mimi::Emulator;

const PLAIN: Mods = Mods { shift: false, alt: false, control: false, super_key: false };

fn emu(text: &str) -> Emulator {
    let mut e = Emulator::new(6, 2, 100);
    e.process(text.as_bytes());
    e
}

fn sel(a: (usize, usize), b: (usize, usize)) -> Selection {
    Selection { start: a, end: b }
}

#[test]
fn selection_order() {
    let s = sel((2, 1), (1, 5));
    assert_eq!(s.normalized(), sel((1, 5), (2, 1)));
    assert_eq!(s.normalized().normalized(), s.normalized());
    assert!(s.contains(1, 5) && s.contains(1, 9) && s.contains(2, 0) && s.contains(2, 1));
    assert!(!s.contains(1, 4) && !s.contains(2, 2) && !s.contains(0, 5) && !s.contains(3, 0));
    let back = sel((1, 5), (2, 1));
    for row in 0..4 {
        for col in 0..8 {
            assert_eq!(s.contains(row, col), back.contains(row, col));
        }
    }
}

#[test]
fn selected_text() {
    let e = emu("one\r\ntwo  x\r\nlast日");
    // one line of scrollback, two on the screen
    assert_eq!(e.term.scrollback.len(), 1);
    assert_eq!(selection_text(&e, sel((0, 0), (2, 99))), "one\ntwo  x\nlast日");
    assert_eq!(selection_text(&e, sel((2, 2), (0, 1))), "ne\ntwo  x\nlas");
    assert_eq!(selection_text(&e, sel((1, 0), (1, 4))), "two");
    assert_eq!(selection_text(&e, sel((1, 9), (1, 5))), "x");
    // rows that do not exist add nothing
    assert_eq!(selection_text(&e, sel((2, 0), (9, 0))), "last日\n");
    assert_eq!(selection_text(&e, sel((7, 0), (usize::MAX, 0))), "");
}

fn press(key: Key, mods: Mods) -> KeyAction {
    press_key(&key, mods, false)
}

#[test]
fn shortcuts() {
    let cmd = Mods { super_key: true, ..PLAIN };
    let ch = |s: &str| press(Key::Character(s.to_string()), cmd);
    assert!(matches!(ch("c"), KeyAction::Copy));
    assert!(matches!(ch("v"), KeyAction::Paste));
    assert!(matches!(ch("="), KeyAction::ZoomIn));
    assert!(matches!(ch("+"), KeyAction::ZoomIn));
    assert!(matches!(ch("-"), KeyAction::ZoomOut));
    assert!(matches!(ch("0"), KeyAction::ZoomReset));
    assert!(matches!(ch("k"), KeyAction::ClearScrollback));
    assert!(matches!(ch("q"), KeyAction::Quit));
    assert!(matches!(ch("x"), KeyAction::Nothing));
    assert!(matches!(press(Key::Named(NamedKey::Enter), cmd), KeyAction::Nothing));
}

#[test]
fn paging_and_typing() {
    let shift = Mods { shift: true, ..PLAIN };
    assert!(matches!(press(Key::Named(NamedKey::PageUp), shift), KeyAction::PageUp));
    assert!(matches!(press(Key::Named(NamedKey::PageDown), shift), KeyAction::PageDown));
    match press(Key::Named(NamedKey::PageUp), PLAIN) {
        KeyAction::Send(b) => assert_eq!(b, b"\x1b[5~"),
        _ => panic!("not sent"),
    }
    assert!(matches!(press(Key::Other, PLAIN), KeyAction::Nothing));
}

#[test]
fn wheel_scrolls_the_view() {
    let e = emu("1\r\n2\r\n3\r\n4\r\n5");
    let to = |lines: isize, from: usize| match scroll_view(&e.term, lines, (0, 0), from) {
        Wheel::View(n) => n,
        _ => panic!("not a view"),
    };
    assert_eq!(to(2, 0), 2);
    assert_eq!(to(-1, 2), 1);
    assert_eq!(to(99, 1), 3);
    assert_eq!(to(isize::MIN, 1), 0);
    assert_eq!(to(isize::MAX, 3), 3);
}

#[test]
fn wheel_reaches_full_screen_apps() {
    let e = emu("\x1b[?1049h");
    match scroll_view(&e.term, -2, (0, 0), 0) {
        Wheel::Send(b, n) => assert_eq!((b.as_slice(), n), (&b"\x1b[B"[..], 6)),
        _ => panic!("not sent"),
    }
    let e = emu("\x1b[?1049h\x1b[?1000h\x1b[?1006h");
    match scroll_view(&e.term, 3, (4, 9), 0) {
        Wheel::Send(b, n) => assert_eq!((b.as_slice(), n), (&b"\x1b[<64;10;5M"[..], 3)),
        _ => panic!("not sent"),
    }
    match scroll_view(&e.term, isize::MIN, (0, 0), 0) {
        Wheel::Send(b, n) => {
            assert_eq!((b.as_slice(), n), (&b"\x1b[<65;1;1M"[..], isize::MIN.unsigned_abs() as u128))
        }
        _ => panic!("not sent"),
    }
    // without SGR reports the wheel is not reported
    let e = emu("\x1b[?1000h");
    assert!(matches!(scroll_view(&e.term, 1, (0, 0), 0), Wheel::View(0)));
}

#[test]
fn drag_and_click() {
    let e = emu("1\r\n2\r\n3");
    let mut v = Viewport::new();
    v.scroll_to(1);
    assert!(!v.mouse_moved(&e.term, (1, 2)));
    v.mouse_pressed(&e.term);
    assert_eq!(v.selection, Some(sel((1, 2), (1, 2))));
    assert!(!v.mouse_moved(&e.term, (1, 2)));
    assert!(v.mouse_moved(&e.term, (0, 3)));
    assert_eq!(v.selection, Some(sel((1, 2), (0, 3))));
    assert!(!v.mouse_released());
    assert!(!v.mouse_moved(&e.term, (1, 1)));
    assert_eq!(v.selection, Some(sel((1, 2), (0, 3))));
    // a click clears it
    v.mouse_pressed(&e.term);
    assert!(v.mouse_released());
    assert_eq!(v.selection, None);
    assert!(!v.mouse_released());
    // typing snaps back
    assert!(v.typed());
    assert!(!v.typed());
    assert_eq!(v.offset, 0);
    assert_eq!(v.abs_row(&e.term, 1), 2);
    v.mouse_pressed(&e.term);
    v.key_sent();
    assert_eq!(v.selection, None);
    assert!(v.scroll_to(1));
    assert!(!v.scroll_to(1));
}

fn show(effects: Vec<Effect>) -> Vec<String> {
    let name = |e: &Effect| match e {
        Effect::Kill => "kill".to_string(),
        Effect::Exit => "exit".to_string(),
        Effect::Redraw => "redraw".to_string(),
        Effect::Write(b, n) => format!("{n}x{:?}", String::from_utf8_lossy(b)),
        Effect::Copy(s) => format!("copy {s}"),
        Effect::Paste => "paste".to_string(),
        Effect::Zoom(Zoom::In) => "zoom in".to_string(),
        Effect::Zoom(Zoom::Out) => "zoom out".to_string(),
        Effect::Zoom(Zoom::Reset) => "zoom reset".to_string(),
        Effect::SetTitle(s) => format!("title {s}"),
    };
    effects.iter().map(name).collect()
}

fn character(s: &str) -> Event {
    Event::KeyPressed(Key::Character(s.to_string()))
}

#[test]
fn window_shortcuts() {
    let mut e = emu("1\r\n2\r\n3\r\n4");
    let mut w = WindowState::new();
    let cmd = Mods { super_key: true, ..PLAIN };
    assert!(show(w.handle(&mut e, Event::ModifiersChanged(cmd))).is_empty());
    assert!(show(w.handle(&mut e, character("c"))).is_empty());
    w.handle(&mut e, Event::LeftPressed);
    assert_eq!(show(w.handle(&mut e, character("c"))), ["copy 3"]);
    assert_eq!(show(w.handle(&mut e, character("v"))), ["paste"]);
    assert_eq!(show(w.handle(&mut e, character("="))), ["zoom in"]);
    assert_eq!(show(w.handle(&mut e, character("-"))), ["zoom out"]);
    assert_eq!(show(w.handle(&mut e, character("0"))), ["zoom reset"]);
    assert!(show(w.handle(&mut e, character("x"))).is_empty());
    assert_eq!(e.term.scrollback.len(), 2);
    assert_eq!(show(w.handle(&mut e, Event::Wheel(2))), ["redraw"]);
    assert_eq!(w.view.offset, 2);
    assert_eq!(show(w.handle(&mut e, character("k"))), ["redraw"]);
    assert_eq!((w.view.offset, e.term.scrollback.len()), (0, 0));
    assert_eq!(show(w.handle(&mut e, character("q"))), ["exit"]);
    assert_eq!(show(w.handle(&mut e, Event::CloseRequested)), ["kill", "exit"]);
    assert_eq!(show(w.handle(&mut e, Event::ChildExited)), ["exit"]);
}

#[test]
fn typing_and_paging_in_the_window() {
    let mut e = emu("1\r\n2\r\n3\r\n4\r\n5");
    let mut w = WindowState::new();
    let shift = Mods { shift: true, ..PLAIN };
    w.handle(&mut e, Event::ModifiersChanged(shift));
    let up = || Event::KeyPressed(Key::Named(NamedKey::PageUp));
    let down = || Event::KeyPressed(Key::Named(NamedKey::PageDown));
    assert_eq!(show(w.handle(&mut e, up())), ["redraw"]);
    assert_eq!(w.view.offset, 2);
    assert_eq!(show(w.handle(&mut e, up())), ["redraw"]);
    assert!(show(w.handle(&mut e, up())).is_empty());
    assert_eq!(w.view.offset, 3);
    assert_eq!(show(w.handle(&mut e, down())), ["redraw"]);
    assert_eq!(w.view.offset, 1);
    w.handle(&mut e, Event::LeftPressed);
    assert!(w.view.selection.is_some());
    assert_eq!(show(w.handle(&mut e, character("A"))), ["1x\"A\"", "redraw"]);
    assert_eq!((w.view.offset, w.view.selection), (0, None));
    assert_eq!(show(w.handle(&mut e, character("A"))), ["1x\"A\""]);
    assert!(show(w.handle(&mut e, Event::Pasted(String::new()))).is_empty());
    assert_eq!(show(w.handle(&mut e, Event::Pasted("a\nb".to_string()))), ["1x\"a\\rb\""]);
    assert!(show(w.handle(&mut e, Event::Wheel(0))).is_empty());
    e.process(b"\x1b[?1049h");
    assert_eq!(show(w.handle(&mut e, Event::Wheel(1))), ["3x\"\\u{1b}[A\""]);
}

#[test]
fn mouse_focus_and_title_in_the_window() {
    let mut e = emu("ab");
    let mut w = WindowState::new();
    assert!(show(w.handle(&mut e, Event::CursorMoved((0, 1)))).is_empty());
    assert_eq!(show(w.handle(&mut e, Event::LeftPressed)), ["redraw"]);
    assert_eq!(show(w.handle(&mut e, Event::CursorMoved((1, 2)))), ["redraw"]);
    assert_eq!(w.view.selection, Some(sel((0, 1), (1, 2))));
    assert!(show(w.handle(&mut e, Event::LeftReleased)).is_empty());
    w.handle(&mut e, Event::LeftPressed);
    assert_eq!(show(w.handle(&mut e, Event::LeftReleased)), ["redraw"]);
    assert_eq!(w.view.selection, None);
    assert_eq!(show(w.handle(&mut e, Event::Focused(false))), ["redraw"]);
    assert!(!w.focused);
    e.process(b"\x1b[?1004h");
    assert_eq!(show(w.handle(&mut e, Event::Focused(true))), ["1x\"\\u{1b}[I\"", "redraw"]);
    assert_eq!(show(w.handle(&mut e, Event::Wake)), ["title mimi", "redraw"]);
    assert_eq!(show(w.handle(&mut e, Event::Wake)), ["redraw"]);
}

#[test]
fn titles() {
    let mut e = emu("");
    assert_eq!(window_title(&e.term), "mimi");
    e.process(b"\x1b]7;file:///tmp\x07");
    assert_eq!(window_title(&e.term), "/tmp — mimi");
    e.process(b"\x1b]2;vim\x07");
    assert_eq!(window_title(&e.term), "vim — mimi");
}

#[test]
fn focus_reports() {
    let mut e = emu("");
    assert_eq!(focus_report(&e.term, true), None);
    e.process(b"\x1b[?1004h");
    assert_eq!(focus_report(&e.term, true), Some(b"\x1b[I".to_vec()));
    assert_eq!(focus_report(&e.term, false), Some(b"\x1b[O".to_vec()));
}

#[test]
fn frame_cells() {
    let mut e = Emulator::new(4, 1, 10);
    e.process("\x1b[4ma\x1b[0;7mb\x1b[0;44m日".as_bytes());
    let p = Palette::new(&Config::default());
    let full = |color| Shade { color, dim: false };
    let frame = |selection, focused| {
        FrameInput { term: &e.term, view_offset: 0, selection, focused }.render(&p)
    };
    let d = frame(None, true);
    // the spacer right of the wide glyph is not drawn
    assert_eq!(d.iter().map(|c| c.col).collect::<Vec<_>>(), vec![0, 1, 2]);
    assert_eq!((d[0].glyph, d[0].line, d[0].fill), (Some('a'), Some(LineMark::Underline), None));
    assert_eq!((d[1].fill, d[1].ink), (Some(full(p.fg)), full(p.bg)));
    assert!(d[2].wide);
    assert_eq!(d[2].fill, Some(full(p.colors[4])));
    // selecting inverts
    let d = frame(Some(sel((0, 0), (0, 1))), true);
    assert_eq!((d[0].fill, d[0].ink), (Some(full(p.fg)), full(p.bg)));
    assert_eq!((d[1].fill, d[1].ink), (None, full(p.fg)));
}

#[test]
fn frame_cursor() {
    let mut e = Emulator::new(3, 2, 10);
    e.process(b"x\x1b[8mh\x1b[0;9ms\r\n\n\x1b[1;1H");
    let p = Palette::new(&Config::default());
    let full = |color| Shade { color, dim: false };
    let frame = |view_offset, focused| {
        FrameInput { term: &e.term, view_offset, selection: None, focused }.render(&p)
    };
    let d = frame(0, true);
    assert_eq!((d[0].fill, d[0].ink, d[0].bar), (Some(full(p.cursor)), full(p.bg), false));
    let d = frame(0, false);
    assert_eq!((d[0].fill, d[0].bar), (None, true));
    // scrolled back there is no cursor; the hidden cell shows no glyph
    let d = frame(1, true);
    assert!(d.iter().all(|c| !c.bar && c.fill.is_none()));
    assert_eq!(d[0].glyph, Some('x'));
    assert_eq!(d[1].glyph, None);
    assert_eq!(d[2].line, Some(LineMark::Strikethrough));
    e.process(b"\x1b[?25l");
    let d = FrameInput { term: &e.term, view_offset: 0, selection: None, focused: false }.render(&p);
    assert!(d.iter().all(|c| !c.bar));
}

#[test]
fn glyph_shelves() {
    let mut s = ShelfPacker::new();
    let at = |x, y, restarted| Placement { x, y, restarted };
    assert_eq!(s.place(10, 20), at(0, 0, false));
    assert_eq!(s.place(2000, 5), at(11, 0, false));
    assert_eq!(s.place(100, 30), at(0, 21, false));
    assert_eq!(s.place(2048, 2048), at(0, 0, true));
    assert_eq!(s.place(1, 1), at(0, 0, true));
    // no two glyphs touch until the atlas starts over
    let mut s = ShelfPacker::new();
    let mut rects: Vec<(u32, u32, u32, u32)> = Vec::new();
    for i in 0..4000u32 {
        let (w, h) = (7 + i % 40, 9 + (i * 7) % 50);
        let p = s.place(w, h);
        if p.restarted {
            rects.clear();
        }
        assert!(p.x + w <= 2048 && p.y + h <= 2048);
        for (x, y, rw, rh) in &rects {
            let apart = p.x + w <= *x || x + rw <= p.x || p.y + h <= *y || y + rh <= p.y;
            assert!(apart);
        }
        rects.push((p.x, p.y, w, h));
    }
}

#[test]
fn buffers_grow_by_powers_of_two() {
    assert_eq!(grown_capacity(4096, 4096), 4096);
    assert_eq!(grown_capacity(4096, 4097), 8192);
    assert_eq!(grown_capacity(0, 1), 1);
    assert_eq!(grown_capacity(3, 0), 3);
    assert_eq!(grown_capacity(100, 1 << 20), 1 << 20);
}
