use mimi::blocks::OUTPUT_CAP;
use mimi::clock::stamp;
use mimi::{flags, Color, Emulator, Grid, Parser, Term, TermEvent};

fn emu(cols: usize, rows: usize) -> Emulator {
    Emulator::new(cols, rows, 100)
}

fn feed(e: &mut Emulator, s: &str) {
    e.process(s.as_bytes());
}

fn row(e: &Emulator, y: usize) -> String {
    e.term.grid.row_text(y)
}

fn responses(e: &mut Emulator) -> String {
    String::from_utf8(std::mem::take(&mut e.term.responses)).unwrap()
}

#[test]
fn split_reads_make_no_difference() {
    let text = "a\x1b[31mé\x1b[2;3H日\x1b]0;t\x07\x1b[?1049hx\x1b[?1049l\x1b[6n";
    let bytes = text.as_bytes();
    let mut whole = emu(10, 4);
    whole.process(bytes);
    for cut in 0..bytes.len() + 1 {
        let mut parts = emu(10, 4);
        parts.process(&bytes[..cut]);
        parts.process(&bytes[cut..]);
        assert_eq!(parts.term.screen_text(), whole.term.screen_text());
        assert_eq!(parts.term.responses, whole.term.responses);
        assert_eq!(parts.term.title, "t");
        assert_eq!(
            (parts.term.cursor_x, parts.term.cursor_y),
            (whole.term.cursor_x, whole.term.cursor_y)
        );
    }
}

#[test]
fn process_says_whether_anything_came() {
    let mut e = emu(4, 2);
    assert!(!e.process(b""));
    assert!(e.process(b"\x00"));
}

#[test]
fn broken_utf8_is_replaced() {
    let mut e = emu(10, 2);
    e.process(&[0xe6, 0x97, b'x']);
    assert_eq!(row(&e, 0), "\u{fffd}x");
    let mut e = emu(10, 2);
    e.process(&[0xff, 0x80, 0xc0, 0xed, 0xa0, 0x80]);
    assert_eq!(row(&e, 0), "\u{fffd}\u{fffd}\u{fffd}\u{fffd}");
}

#[test]
fn every_width_of_utf8() {
    let mut e = emu(20, 1);
    feed(&mut e, "aé日😀~");
    assert_eq!(row(&e, 0), "aé日😀~");
    assert_eq!(e.term.cursor_x, 7);
}

#[test]
fn combining_marks_print_nothing() {
    let mut e = emu(10, 1);
    feed(&mut e, "e\u{301}x");
    assert_eq!(row(&e, 0), "ex");
}

#[test]
fn wide_char_wraps_early_or_is_drawn_back() {
    let mut e = emu(3, 2);
    feed(&mut e, "ab日");
    assert_eq!(row(&e, 0), "ab");
    assert_eq!(row(&e, 1), "日");
    let mut e = emu(3, 2);
    feed(&mut e, "\x1b[?7lab日");
    assert_eq!(row(&e, 0), "a日");
    assert_eq!(row(&e, 1), "");
}

#[test]
fn no_autowrap_overwrites_last_column() {
    let mut e = emu(3, 2);
    feed(&mut e, "\x1b[?7labcdef");
    assert_eq!(row(&e, 0), "abf");
}

#[test]
fn insert_mode_pushes_the_line() {
    let mut e = emu(6, 1);
    feed(&mut e, "abc\r\x1b[4hXY\x1b[4lZ");
    assert_eq!(row(&e, 0), "XYZbc");
    let mut e = emu(6, 1);
    feed(&mut e, "abcdef\r\x1b[4h日");
    assert_eq!(row(&e, 0), "日abcd");
}

#[test]
fn tab_stops() {
    let mut e = emu(20, 1);
    feed(&mut e, "\tx");
    assert_eq!(e.term.cursor_x, 9);
    feed(&mut e, "\t\t\t");
    assert_eq!(e.term.cursor_x, 19);
    feed(&mut e, "\x1b[Z");
    assert_eq!(e.term.cursor_x, 16);
    feed(&mut e, "\x1b[9Z");
    assert_eq!(e.term.cursor_x, 0);
    feed(&mut e, "\x1b[4G\x1bH\r\t");
    assert_eq!(e.term.cursor_x, 3);
    feed(&mut e, "\x1b[g\r\t");
    assert_eq!(e.term.cursor_x, 8);
    feed(&mut e, "\x1b[3g\r\t");
    assert_eq!(e.term.cursor_x, 19);
}

#[test]
fn backspace_and_carriage_return() {
    let mut e = emu(5, 1);
    feed(&mut e, "ab\x08c\rX\x08\x08Y");
    assert_eq!(row(&e, 0), "Yc");
}

#[test]
fn line_feed_outside_the_region_stops_at_the_edge() {
    let mut e = emu(5, 4);
    feed(&mut e, "\x1b[1;2r\x1b[4;1Hx\n\n\ny");
    assert_eq!(e.term.cursor_y, 3);
    assert_eq!(row(&e, 3), "xy");
}

#[test]
fn reverse_index_scrolls_down_at_the_top() {
    let mut e = emu(5, 3);
    feed(&mut e, "1\r\n2\r\n3\x1b[H\x1bM");
    assert_eq!(e.term.screen_text(), vec!["", "1", "2"]);
    feed(&mut e, "\x1b[2;1H\x1bM");
    assert_eq!(e.term.cursor_y, 0);
}

#[test]
fn scroll_commands() {
    let mut e = emu(5, 3);
    feed(&mut e, "1\r\n2\r\n3\x1b[S");
    assert_eq!(e.term.screen_text(), vec!["2", "3", ""]);
    assert_eq!(e.term.scrollback.len(), 1);
    feed(&mut e, "\x1b[T");
    assert_eq!(e.term.screen_text(), vec!["", "2", "3"]);
    feed(&mut e, "\x1b[99T");
    assert_eq!(e.term.screen_text(), vec!["", "", ""]);
}

#[test]
fn scrollback_keeps_the_newest() {
    let mut e = Emulator::new(4, 1, 2);
    feed(&mut e, "a\r\nb\r\nc\r\nd\r\ne");
    assert_eq!(e.term.scrollback.len(), 2);
    assert_eq!(e.term.view_line(2, 0).unwrap()[0].ch, 'c');
    assert_eq!(e.term.view_line(2, 1).unwrap()[0].ch, 'd');
    assert_eq!(e.term.view_line(2, 2).unwrap()[0].ch, 'e');
    assert!(e.term.view_line(2, 3).is_none());
    assert_eq!(e.term.view_line(99, 0).unwrap()[0].ch, 'c');
    assert_eq!(e.term.view_line(0, 0).unwrap()[0].ch, 'e');
    assert!(e.term.view_line(0, 1).is_none());
    let mut none = Emulator::new(4, 1, 0);
    feed(&mut none, "a\r\nb");
    assert_eq!(none.term.scrollback.len(), 0);
}

#[test]
fn alt_screen_and_regions_do_not_feed_scrollback() {
    let mut e = emu(4, 2);
    feed(&mut e, "\x1b[?1049ha\r\nb\r\nc\r\nd\x1b[?1049l");
    assert_eq!(e.term.scrollback.len(), 0);
    let mut e = emu(4, 3);
    feed(&mut e, "\x1b[1;2r\x1b[2;1H\n\n\n");
    assert_eq!(e.term.scrollback.len(), 0);
}

#[test]
fn alt_screen_variants() {
    let mut e = emu(4, 2);
    feed(&mut e, "ab\x1b[?47h");
    assert!(e.term.alt_active);
    feed(&mut e, "\x1b[?1049h\x1b[?1047l");
    assert!(!e.term.alt_active);
    // 47 does not save the cursor
    assert_eq!(row(&e, 0), "ab");
    assert_eq!(e.term.cursor_x, 0);
    feed(&mut e, "\x1b[?1049l");
    assert_eq!(e.term.cursor_x, 0);
}

#[test]
fn saved_cursor_comes_back() {
    let mut e = emu(10, 4);
    feed(&mut e, "\x1b[2;3H\x1b[1;31m\x1b7\x1b[0m\x1b[Hx\x1b8y");
    let c = e.term.grid.cell(2, 1);
    assert_eq!((c.ch, c.fg), ('y', Color::Indexed(1)));
    assert_ne!(c.flags & flags::BOLD, 0);
    // drawn in to a smaller screen
    feed(&mut e, "\x1b[4;9H\x1b[s");
    e.term.resize(5, 2);
    feed(&mut e, "\x1b[u");
    assert_eq!((e.term.cursor_x, e.term.cursor_y), (4, 1));
    feed(&mut e, "\x1b[H\x1b[?1048h\x1b[2;2H\x1b[?1048l");
    assert_eq!((e.term.cursor_x, e.term.cursor_y), (0, 0));
}

#[test]
fn origin_mode_counts_from_the_region() {
    let mut e = emu(10, 5);
    feed(&mut e, "\x1b[2;4r\x1b[?6h");
    assert_eq!((e.term.cursor_x, e.term.cursor_y), (0, 1));
    feed(&mut e, "\x1b[9;2H");
    assert_eq!((e.term.cursor_x, e.term.cursor_y), (1, 3));
    feed(&mut e, "\x1b[6n");
    assert_eq!(responses(&mut e), "\x1b[3;2R");
    feed(&mut e, "\x1b[2d");
    assert_eq!(e.term.cursor_y, 2);
    feed(&mut e, "\x1b[?6l");
    assert_eq!((e.term.cursor_x, e.term.cursor_y), (0, 0));
}

#[test]
fn cursor_moves_stay_on_the_screen() {
    let mut e = emu(5, 4);
    feed(&mut e, "\x1b[99;99H");
    assert_eq!((e.term.cursor_x, e.term.cursor_y), (4, 3));
    feed(&mut e, "\x1b[99A\x1b[99D");
    assert_eq!((e.term.cursor_x, e.term.cursor_y), (0, 0));
    feed(&mut e, "\x1b[65535B\x1b[65535C");
    assert_eq!((e.term.cursor_x, e.term.cursor_y), (4, 3));
    feed(&mut e, "\x1b[2F");
    assert_eq!((e.term.cursor_x, e.term.cursor_y), (0, 1));
    feed(&mut e, "\x1b[3C\x1b[E");
    assert_eq!((e.term.cursor_x, e.term.cursor_y), (0, 2));
    // inside a region, moves stop at its edges
    feed(&mut e, "\x1b[2;3r\x1b[2;1H\x1b[9A");
    assert_eq!(e.term.cursor_y, 1);
    feed(&mut e, "\x1b[9B");
    assert_eq!(e.term.cursor_y, 2);
}

#[test]
fn bad_scroll_regions_are_ignored() {
    let mut e = emu(5, 4);
    feed(&mut e, "\x1b[3;2rx\x1b[2;9ry");
    assert_eq!(row(&e, 0), "xy");
    assert_eq!(e.term.scroll_bot, 3);
    feed(&mut e, "\x1b[2r");
    assert_eq!((e.term.scroll_top, e.term.scroll_bot), (1, 3));
}

#[test]
fn erase_variants() {
    let fill = "aaaa\r\nbbbb\r\ncccc";
    let mut e = emu(4, 3);
    feed(&mut e, fill);
    feed(&mut e, "\x1b[2;2H\x1b[J");
    assert_eq!(e.term.screen_text(), vec!["aaaa", "b", ""]);
    let mut e = emu(4, 3);
    feed(&mut e, fill);
    feed(&mut e, "\x1b[2;2H\x1b[1J");
    assert_eq!(e.term.screen_text(), vec!["", "  bb", "cccc"]);
    feed(&mut e, "\x1b[3;3H\x1b[1K");
    assert_eq!(row(&e, 2), "   c");
    feed(&mut e, "\x1b[2K");
    assert_eq!(row(&e, 2), "");
    let mut e = emu(4, 1);
    feed(&mut e, "abcd\x1b[1;2H\x1b[2X");
    assert_eq!(row(&e, 0), "a  d");
    feed(&mut e, "\x1b[9J\x1b[9K");
    assert_eq!(row(&e, 0), "a  d");
}

#[test]
fn erasing_keeps_the_background() {
    let mut e = emu(4, 2);
    feed(&mut e, "\x1b[44m\x1b[K\x1b[2@");
    assert_eq!(e.term.grid.cell(3, 0).bg, Color::Indexed(4));
    assert_eq!(e.term.grid.cell(0, 0).bg, Color::Indexed(4));
    // scrolling does not
    feed(&mut e, "\x1b[S");
    assert_eq!(e.term.grid.cell(0, 1).bg, Color::Default);
}

#[test]
fn delete_lines_within_the_region() {
    let mut e = emu(3, 4);
    feed(&mut e, "1\r\n2\r\n3\r\n4\x1b[1;3r\x1b[2;1H\x1b[M");
    assert_eq!(e.term.screen_text(), vec!["1", "3", "", "4"]);
    feed(&mut e, "\x1b[4;1H\x1b[M");
    assert_eq!(e.term.screen_text(), vec!["1", "3", "", "4"]);
    assert_eq!(e.term.scrollback.len(), 0);
}

#[test]
fn sgr_attributes() {
    let mut e = emu(20, 1);
    feed(&mut e, "\x1b[1;2;3;4;7;8;9ma");
    let all = flags::BOLD
        | flags::DIM
        | flags::ITALIC
        | flags::UNDERLINE
        | flags::INVERSE
        | flags::HIDDEN
        | flags::STRIKETHROUGH;
    assert_eq!(e.term.grid.cell(0, 0).flags, all);
    feed(&mut e, "\x1b[22;23;24;27;28;29mb");
    assert_eq!(e.term.grid.cell(1, 0).flags, 0);
    feed(&mut e, "\x1b[97;107mc\x1b[39;49md");
    let c = e.term.grid.cell(2, 0);
    assert_eq!((c.fg, c.bg), (Color::Indexed(15), Color::Indexed(15)));
    let d = e.term.grid.cell(3, 0);
    assert_eq!((d.fg, d.bg), (Color::Default, Color::Default));
    feed(&mut e, "\x1b[48;2;300;0;7;4me");
    let c = e.term.grid.cell(4, 0);
    assert_eq!((c.bg, c.flags), (Color::Rgb(255, 0, 7), flags::UNDERLINE));
    // an extended color that is cut short swallows the rest
    feed(&mut e, "\x1b[0;38;5mf\x1b[38;9;1mg");
    assert_eq!(e.term.grid.cell(5, 0).fg, Color::Default);
    assert_eq!(e.term.grid.cell(6, 0).flags, 0);
    feed(&mut e, "\x1b[1m\x1b[mh");
    assert_eq!(e.term.grid.cell(7, 0).flags, 0);
}

#[test]
fn too_many_parameters_are_given_up() {
    let mut e = emu(10, 2);
    let seq = format!("\x1b[{}1mx", "0;".repeat(40));
    feed(&mut e, &seq);
    assert_eq!(e.term.grid.cell(0, 0).flags, 0);
    feed(&mut e, "\x1b[0?5my\x1b[5\x18z");
    assert_eq!(row(&e, 0), "xyz");
}

#[test]
fn parameters_saturate() {
    let mut e = emu(10, 2);
    feed(&mut e, "\x1b[99999999999G");
    assert_eq!(e.term.cursor_x, 9);
}

#[test]
fn controls_execute_inside_sequences() {
    let mut e = emu(10, 2);
    feed(&mut e, "ab\x1b[3\r1mX");
    assert_eq!(row(&e, 0), "Xb");
    assert_eq!(e.term.grid.cell(0, 0).fg, Color::Indexed(1));
    feed(&mut e, "\x1b\x08c");
    assert_eq!(row(&e, 0), "");
}

#[test]
fn strings_are_discarded() {
    let mut e = emu(10, 1);
    feed(&mut e, "\x1bPq#0\x1bx junk\x1b\\a\x1b_apc\x07b\x1bXsos\x1b\\c");
    assert_eq!(row(&e, 0), "abc");
}

#[test]
fn aborted_osc_starts_a_new_sequence() {
    let mut e = emu(10, 1);
    feed(&mut e, "\x1b]0;no\x1b[31mr\x1b]0;no\x18k");
    assert_eq!(e.term.title, "");
    assert_eq!(row(&e, 0), "rk");
    assert_eq!(e.term.grid.cell(0, 0).fg, Color::Indexed(1));
}

#[test]
fn device_replies() {
    let mut e = emu(10, 3);
    feed(&mut e, "\x1b[5n");
    assert_eq!(responses(&mut e), "\x1b[0n");
    feed(&mut e, "\x1b[c\x1b[?c");
    assert_eq!(responses(&mut e), "\x1b[?62;22c\x1b[?62;22c");
    feed(&mut e, "\x1b[>c\x1b[=c");
    assert_eq!(responses(&mut e), "\x1b[>1;10;0c");
    feed(&mut e, "\x1b]10;?\x07\x1b]11;?\x1b\\\x1b]10;x\x07");
    assert_eq!(
        responses(&mut e),
        "\x1b]10;rgb:d6d6/dbdb/e1e1\x1b\\\x1b]11;rgb:0e0e/1111/1616\x1b\\"
    );
    feed(&mut e, "\x1b[2 q");
    assert_eq!(responses(&mut e), "");
}

#[test]
fn shift_in_and_out() {
    let mut e = emu(10, 1);
    feed(&mut e, "\x1b)0q\x0eq\x0fq\x1b)B\x0eq");
    assert_eq!(row(&e, 0), "q─qq");
}

#[test]
fn alignment_pattern() {
    let mut e = emu(3, 2);
    feed(&mut e, "\x1b[31m\x1b#8");
    assert_eq!(e.term.screen_text(), vec!["EEE", "EEE"]);
    assert_eq!(e.term.grid.cell(2, 1).fg, Color::Default);
}

#[test]
fn mouse_and_focus_modes() {
    let mut e = emu(3, 2);
    feed(&mut e, "\x1b[?1002;1006;1004h");
    assert_eq!(e.term.mouse_mode, 1002);
    assert!(e.term.mouse_sgr && e.term.focus_events);
    feed(&mut e, "\x1b[?1000l\x1b=");
    assert_eq!(e.term.mouse_mode, 0);
    assert!(e.term.app_keypad);
    feed(&mut e, "\x1b>");
    assert!(!e.term.app_keypad);
}

#[test]
fn events_are_bounded() {
    let mut e = emu(3, 2);
    feed(&mut e, &"\x07".repeat(2000));
    assert_eq!(e.term.events.len(), 1024);
    assert_eq!(e.term.events[0], TermEvent::Bell);
}

#[test]
fn osc_titles_and_directories() {
    let mut e = emu(10, 1);
    feed(&mut e, "\x1b]2;a;b\x07");
    assert_eq!(e.term.title, "a;b");
    feed(&mut e, "\x1b]0\x07");
    assert_eq!(e.term.title, "");
    e.process(b"\x1b]2;x\xffy\x07");
    assert_eq!(e.term.title, "x\u{fffd}y");
    feed(&mut e, "\x1b]7;file:///a%2Fb%c3%a9\x07");
    assert_eq!(e.term.cwd.as_deref(), Some("/a/bé"));
    for bad in ["file://host", "http://x/y", "file:///%zz", "file:///%ff"] {
        feed(&mut e, &format!("\x1b]7;{bad}\x07"));
        assert_eq!(e.term.cwd.as_deref(), Some("/a/bé"));
    }
    feed(&mut e, "\x1b]7;file:///tail%4\x07");
    assert_eq!(e.term.cwd.as_deref(), Some("/tail%4"));
    feed(&mut e, "\x1b]633;P;Cwd=/p;q\x07");
    assert_eq!(e.term.cwd.as_deref(), Some("/p;q"));
    assert!(e.term.events.contains(&TermEvent::CwdChanged("/p;q".into())));
}

#[test]
fn escaped_command_lines() {
    let mut e = emu(10, 1);
    let mut command = |text: &str| {
        feed(&mut e, &format!("\x1b]633;E;{text}\x07\x1b]633;C\x07"));
        e.term.blocks.last().unwrap().command.clone()
    };
    assert_eq!(command("a\\\\b\\x0ac;nonce"), "a\\b\nc");
    assert_eq!(command("\\q\\"), "\\q\\");
    assert_eq!(command("x\\xzzy"), "xy");
    assert_eq!(command("x\\x4"), "x");
    assert_eq!(command("\\xe9"), "é");
}

#[test]
fn command_marks() {
    let mut e = emu(10, 1);
    feed(&mut e, "\x1b]133;D;0\x07");
    assert!(e.term.blocks.is_empty() && e.term.events.is_empty());
    feed(&mut e, "\x1b]133;C\x07a");
    assert!(e.term.blocks.is_capturing());
    // a new command ends one that never saw its end
    feed(&mut e, "\x1b]133;C\x07b\x1b]633;D;-7;x\x07");
    let ids: Vec<u64> = e.term.blocks.iter().map(|b| b.id).collect();
    assert_eq!(ids, vec![0, 1]);
    let first = e.term.blocks.get(0).unwrap();
    assert_eq!((first.exit, first.running, first.output.as_str()), (None, false, "a"));
    assert!(first.ended_ms.is_some());
    let second = e.term.blocks.get(1).unwrap();
    assert_eq!((second.exit, second.output.as_str()), (Some(-7), "b"));
    feed(&mut e, "\x1b]133;C\x07\x1b]133;D;no\x07\x1b]133;C\x07\x1b]133;D\x07");
    assert_eq!(e.term.blocks.get(2).unwrap().exit, None);
    assert_eq!(e.term.blocks.get(3).unwrap().exit, None);
    assert!(e.term.blocks.get(4).is_none());
    assert_eq!(e.term.blocks.next_id(), 4);
}

#[test]
fn blocks_are_stamped_with_the_given_moment() {
    let mut p = Parser::new();
    let mut t = Term::new(10, 2, 5);
    for (i, b) in b"\x1b]133;C\x07x\x1b]133;D;3\x1b\\".iter().enumerate() {
        p.advance_at(&mut t, *b, 1000 + i as u64);
    }
    let b = t.blocks.last().unwrap();
    assert_eq!((b.started_ms, b.ended_ms, b.exit), (1007, Some(1019), Some(3)));
    t.osc_dispatch_at(b"133;C", 5);
    assert_eq!(t.blocks.last().unwrap().started_ms, 5);
}

#[test]
fn clock_is_read() {
    let mut e = emu(10, 1);
    feed(&mut e, "\x1b]133;C\x07\x1b]133;D;0\x07");
    let b = e.term.blocks.last().unwrap();
    // some moment after 2020
    assert!(b.started_ms > 1_577_836_800_000);
    assert!(b.ended_ms.unwrap() >= b.started_ms);
}

#[test]
fn old_blocks_go() {
    let mut t = Term::new(10, 2, 0);
    for i in 0..600u64 {
        t.osc_dispatch_at(b"133;C", i);
        t.osc_dispatch_at(b"133;D;0", i);
    }
    assert_eq!(t.blocks.len(), 512);
    assert!(t.blocks.get(87).is_none());
    assert_eq!(t.blocks.get(88).unwrap().started_ms, 88);
    assert_eq!(t.blocks.last().unwrap().id, 599);
    assert_eq!(t.blocks.ended_since(599).unwrap().id, 599);
    assert!(t.blocks.ended_since(600).is_none());
}

#[test]
fn resize_keeps_scrollback_and_stash() {
    let mut e = emu(4, 2);
    feed(&mut e, "abcd\r\nef\r\ngh\x1b[?1049hzz");
    e.term.resize(6, 3);
    assert_eq!(e.term.scrollback[0].len(), 6);
    assert_eq!(e.term.scrollback[0][3].ch, 'd');
    assert_eq!(row(&e, 0), "zz");
    feed(&mut e, "\x1b[?1049l");
    assert_eq!(e.term.screen_text(), vec!["ef", "gh", ""]);
    e.term.resize(0, 0);
    assert_eq!((e.term.cols(), e.term.rows()), (2, 1));
    assert_eq!(row(&e, 0), "ef");
}

#[test]
fn smallest_terminal() {
    let mut e = Emulator::new(0, 0, 1);
    assert_eq!((e.term.cols(), e.term.rows()), (2, 1));
    feed(&mut e, "abc日");
    assert_eq!(row(&e, 0), "日");
}

#[test]
fn grid_operations() {
    let mut g = Grid::new(3, 3);
    for (y, ch) in ['a', 'b', 'c'].iter().enumerate() {
        g.cell_mut(0, y).ch = *ch;
    }
    let out = g.scroll_up(0, 1, 5);
    assert_eq!(out.len(), 2);
    assert_eq!(out[1][0].ch, 'b');
    assert_eq!(g.row_text(2), "c");
    g.scroll_down(1, 2, 1);
    assert_eq!(g.row_text(2), "");
    g.set_cell(2, 0, mimi::Cell::blank_with_bg(Color::Indexed(3)));
    assert_eq!(g.line(0)[2].bg, Color::Indexed(3));
    g.clear_all(Color::Rgb(1, 2, 3));
    assert_eq!(g.cell(1, 1).bg, Color::Rgb(1, 2, 3));
    assert_eq!(g.take_lines().len(), 3);
}

#[test]
fn output_is_taken_once() {
    let mut e = emu(10, 2);
    feed(&mut e, "\x1b[5n\x07");
    let (bytes, events) = e.term.take_output();
    assert_eq!(bytes, b"\x1b[0n");
    assert_eq!(events, vec![TermEvent::Bell]);
    let (bytes, events) = e.term.take_output();
    assert!(bytes.is_empty() && events.is_empty());
}

#[test]
fn stamps_keep_the_low_bits() {
    assert_eq!(stamp(Some(1234)), 1234);
    assert_eq!(stamp(Some((1u128 << 64) + 5)), 5);
    assert_eq!(stamp(None), 0);
}

#[test]
fn scrollback_can_be_forgotten() {
    let mut e = emu(4, 1);
    feed(&mut e, "a\r\nb\r\nc");
    assert_eq!(e.term.scrollback.len(), 2);
    e.term.clear_scrollback();
    assert!(e.term.scrollback.is_empty());
    assert_eq!(row(&e, 0), "c");
}

#[test]
fn sequences_on_the_alt_screen_leave_the_primary_alone() {
    let mut e = emu(6, 2);
    feed(&mut e, "a\r\nb\r\n\x1b[31mcd");
    let (screen, held) = (e.term.screen_text(), e.term.scrollback.clone());
    let at = (e.term.cursor_x, e.term.cursor_y);
    feed(&mut e, "\x1b[?1049h\x1b[0;4mxyz\x1b[2J\x1b[5;5H\x1b[L\x1b[?25;7l\x1b[9S\r\n\n\n\x1b[1;1r");
    assert!(e.term.alt_active);
    feed(&mut e, "\x1b[?1049l");
    assert_eq!(e.term.screen_text(), screen);
    assert_eq!(e.term.scrollback, held);
    assert_eq!((e.term.cursor_x, e.term.cursor_y), at);
}

#[test]
fn captured_output_stays_within_the_cap() {
    let mut e = emu(10, 2);
    e.term.blocks.start_at(None, 0);
    for _ in 0..OUTPUT_CAP - 1 {
        e.term.blocks.capture('x');
    }
    assert!(!e.term.blocks.last().unwrap().output_truncated);
    // two bytes do not fit any more, and nothing is captured behind them
    e.term.blocks.capture('é');
    e.term.blocks.capture('y');
    let b = e.term.blocks.last().unwrap();
    assert!(b.output_truncated);
    assert_eq!(b.output.len(), OUTPUT_CAP - 1);
    assert!(b.output.ends_with('x'));
    // filled to the last byte
    e.term.blocks.start_at(None, 0);
    for _ in 0..OUTPUT_CAP - 2 {
        e.term.blocks.capture('x');
    }
    e.term.blocks.capture('é');
    let b = e.term.blocks.last().unwrap();
    assert_eq!((b.output.len(), b.output_truncated), (OUTPUT_CAP, false));
    e.term.blocks.capture('z');
    let b = e.term.blocks.last().unwrap();
    assert_eq!((b.output.len(), b.output_truncated), (OUTPUT_CAP, true));
}

#[test]
fn private_markers_only_before_digits() {
    for late in ["\x1b[0?25l", "\x1b[00?25l", "\x1b[;?25l", "\x1b[1?25l", "\x1b[??25l"] {
        let mut e = emu(10, 3);
        feed(&mut e, late);
        assert!(e.term.show_cursor, "{late:?}");
        feed(&mut e, "a");
        assert_eq!(row(&e, 0), "a");
    }
    let mut e = emu(10, 3);
    feed(&mut e, "\x1b[0m\x1b[?25l");
    assert!(!e.term.show_cursor);
}

#[test]
fn row_above_the_region_is_counted_in_machine_words() {
    let mut e = emu(10, 5);
    feed(&mut e, "\x1b[?6h\x1b7\x1b[3;5r\x1b8\x1b[6n");
    let row = 0usize.wrapping_sub(2).wrapping_add(1);
    assert_eq!((e.term.cursor_y, responses(&mut e)), (0, format!("\x1b[{row};1R")));
}

#[test]
fn printing_in_given_columns() {
    let mut t = Term::new(6, 2, 10);
    t.print_as('a', 1);
    t.print_as('b', 2);
    t.print_as('c', 0);
    t.print_as('d', 3);
    assert_eq!(t.grid.row_text(0), "abd");
    assert!(t.grid.cell(1, 0).flags & flags::WIDE != 0);
    assert!(t.grid.cell(2, 0).flags & flags::WIDE_SPACER != 0);
    assert_eq!(t.cursor_x, 5);
}

#[test]
fn marks_of_both_protocols_are_the_same() {
    for rest in ["A", "B;x", "C", "C;x", "D", "D;3;x", "D;"] {
        let mut ended = Vec::new();
        for code in ["133", "633"] {
            let mut t = Term::new(6, 2, 10);
            t.blocks.start_at(None, 1);
            t.osc_dispatch_at(format!("{code};{rest}").as_bytes(), 2);
            let b = t.blocks.last().unwrap();
            ended.push((t.blocks.len(), b.running, b.exit, b.ended_ms, t.events.clone()));
        }
        assert_eq!(ended[0], ended[1], "{rest}");
    }
}

#[test]
fn alt_screen_gives_back_after_controls() {
    let mut e = emu(4, 2);
    feed(&mut e, "abcd");
    let screen = e.term.screen_text();
    feed(&mut e, "\x1b[?1049hxyz\r\n\n\n\t\x08\x0e\x07日\x1b[?1049l");
    assert_eq!(e.term.screen_text(), screen);
    assert_eq!((e.term.cursor_x, e.term.cursor_y), (3, 0));
    // no wrap is due
    feed(&mut e, "e");
    assert_eq!(row(&e, 0), "abce");
    let events = e.term.events.len();
    feed(&mut e, "\x1b[?1049l");
    assert_eq!((row(&e, 0).as_str(), e.term.events.len()), ("abce", events));
}

#[test]
fn moments_only_change_stamps() {
    let bytes = b"\x1b]633;E;ls\x07\x1b]133;C\x07out\r\n\x1b]133;D;2\x07$ ";
    let run = |moment: u64, cut: usize| {
        let mut p = Parser::new();
        let mut t = Term::new(10, 3, 10);
        for (i, b) in bytes.iter().enumerate() {
            p.advance_at(&mut t, *b, if i < cut { moment } else { moment + 7 });
        }
        t
    };
    let (a, b) = (run(5, 3), run(900, 25));
    assert_eq!(a.screen_text(), b.screen_text());
    assert_eq!(a.events, b.events);
    let (x, y) = (a.blocks.last().unwrap(), b.blocks.last().unwrap());
    assert_eq!((&x.command, &x.output, x.exit), (&y.command, &y.output, y.exit));
    assert_ne!(x.started_ms, y.started_ms);
}

#[test]
fn bounds_hold_whatever_comes() {
    let mut e = Emulator::new(7, 3, 4);
    let mut seed: u32 = 12345;
    for round in 0..400usize {
        let mut bytes = Vec::new();
        for _ in 0..60 {
            seed = seed.wrapping_mul(1664525).wrapping_add(1013904223);
            let pool = b"\x1b[;?0123456789HJKLMPSTrhlmsuc78DE\r\n\t\x08ab\xc3\xa9]\x07()#";
            bytes.push(pool[(seed >> 16) as usize % pool.len()]);
        }
        e.process(&bytes);
        if round % 7 == 0 {
            e.term.resize(round % 13, round % 5);
        }
        let t = &e.term;
        assert!(t.cols() >= 2 && t.rows() >= 1);
        assert!(t.cursor_x < t.cols() && t.cursor_y < t.rows());
        assert!(t.scroll_top <= t.scroll_bot && t.scroll_bot < t.rows());
        assert_eq!((t.max_scrollback, t.tabstops.len()), (4, t.cols()));
        assert!(t.scrollback.len() <= 4 && t.events.len() <= 1024);
        assert!(t.scrollback.iter().all(|l| l.len() == t.cols()));
        assert_eq!(t.grid.lines.len(), t.rows());
        assert!(t.grid.lines.iter().all(|l| l.len() == t.cols()));
        assert_eq!(t.alt_active, t.saved_primary.is_some());
    }
}
