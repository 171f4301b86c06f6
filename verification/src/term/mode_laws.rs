//! What holds of the modes, of what the terminal answers, and of how it starts.

use vstd::prelude::*;

use super::model::TermState;
#[allow(unused_imports)]
use super::model::{primary_attributes, secondary_attributes, status_ok, EventState};
#[allow(unused_imports)]
use super::{Modes, Motion};
#[allow(unused_imports)]
use crate::cell::{Cell, Color};
#[allow(unused_imports)]
use crate::config::{ConfigState, Rgb};
#[allow(unused_imports)]
use crate::parser::sequence_laws::{written_csi, written_params};
#[allow(unused_imports)]
use crate::text::{ascii, decimal, lemma_split};

verus! {

/// The DEC private mode `p` set or reset by its control sequence.
pub open spec fn with_mode(s: TermState, p: u16, set: bool) -> TermState {
    s.csi(
        0x3f,
        seq![p],
        Seq::empty(),
        if set {
            0x68
        } else {
            0x6c
        },
    )
}

proof fn lemma_one_mode(s: TermState, p: u16, set: bool)
    ensures
        with_mode(s, p, set) == s.dec_mode_one(p, set),
{
    reveal_with_fuel(TermState::dec_modes, 2);
    assert(seq![p].drop_last() =~= Seq::empty());
}

/// Each private mode is its own switch: 1 the application's cursor keys, 7
/// autowrap, 25 the visible cursor, 1004 focus events, 1006 SGR mouse reports,
/// 2004 bracketed paste. Setting turns it on, resetting off, and nothing else
/// changes.
pub proof fn law_switches(s: TermState, set: bool)
    ensures
        with_mode(s, 1, set) == (TermState { modes: Modes { app_cursor: set, ..s.modes }, ..s }),
        with_mode(s, 7, set) == (TermState { motion: Motion { autowrap: set, ..s.motion }, ..s }),
        with_mode(s, 25, set) == (TermState { modes: Modes { show_cursor: set, ..s.modes }, ..s }),
        with_mode(s, 1004, set) == (TermState {
            modes: Modes { focus_events: set, ..s.modes },
            ..s
        }),
        with_mode(s, 1006, set) == (TermState { modes: Modes { mouse_sgr: set, ..s.modes }, ..s }),
        with_mode(s, 2004, set) == (TermState {
            modes: Modes { bracketed_paste: set, ..s.modes },
            ..s
        }),
{
    lemma_one_mode(s, 1, set);
    lemma_one_mode(s, 7, set);
    lemma_one_mode(s, 25, set);
    lemma_one_mode(s, 1004, set);
    lemma_one_mode(s, 1006, set);
    lemma_one_mode(s, 2004, set);
}

/// The modes 1000, 1002 and 1003 are the ways to report the mouse: one of them
/// at a time, none after a reset.
pub proof fn law_mouse_modes(s: TermState, p: u16, q: u16)
    requires
        p == 1000 || p == 1002 || p == 1003,
        q == 1000 || q == 1002 || q == 1003,
    ensures
        with_mode(s, p, true) == (TermState { modes: Modes { mouse_mode: p, ..s.modes }, ..s }),
        with_mode(s, p, false) == (TermState { modes: Modes { mouse_mode: 0, ..s.modes }, ..s }),
        with_mode(with_mode(s, p, true), q, true) == with_mode(s, q, true),
{
    lemma_one_mode(s, p, true);
    lemma_one_mode(s, p, false);
    lemma_one_mode(s, q, true);
    lemma_one_mode(with_mode(s, p, true), q, true);
}

/// Mode 6 makes rows count in the scroll region, and takes the cursor home
/// there, or on the screen.
pub proof fn law_origin_mode(s: TermState, set: bool)
    requires
        s.wf(),
    ensures
        with_mode(s, 6, set) == (TermState {
            motion: Motion { origin: set, ..s.motion },
            x: 0,
            y: if set {
                s.top
            } else {
                0
            },
            pending_wrap: false,
            ..s
        }),
{
    lemma_one_mode(s, 6, set);
}

/// The modes 47 and 1047 show an empty alternate screen, with the cursor in its
/// first cell, and the primary one again, where it was. 1049 saves the cursor
/// before and restores it behind that; 1048 does only this.
pub proof fn law_alternate_screen_modes(s: TermState, set: bool, x: int, y: int)
    requires
        s.wf(),
        0 <= x < s.cols(),
        0 <= y < s.rows(),
    ensures
        with_mode(s, 1047, set) == with_mode(s, 47, set),
        with_mode(s, 1048, true) == s.escaped(Seq::empty(), 0x37),
        with_mode(s, 1048, false) == s.escaped(Seq::empty(), 0x38),
        !s.alt_active ==> {
            let alt = with_mode(s, 47, true);
            let saved = with_mode(s, 1049, true);
            let none = Cell { ch: ' ', fg: Color::Default, bg: Color::Default, flags: 0 };
            &&& alt.alt_active && alt.x == 0 && alt.y == 0 && !alt.pending_wrap
            &&& alt.grid.at(x, y) == none
            &&& alt.saved_cursor == s.saved_cursor
            &&& alt.scrollback == s.scrollback && alt.pen == s.pen && alt.blocks == s.blocks
            &&& with_mode(alt, 47, false) == (TermState {
                x: 0,
                y: 0,
                pending_wrap: false,
                ..s
            })
            &&& saved == with_mode(s.escaped(Seq::empty(), 0x37), 47, true)
            &&& with_mode(saved, 1049, false) == (TermState {
                pending_wrap: false,
                saved_cursor: saved.saved_cursor,
                ..s
            })
            &&& with_mode(s, 47, false) == s
            &&& with_mode(s, 1049, false) == s
        },
{
    lemma_one_mode(s, 47, set);
    lemma_one_mode(s, 1047, set);
    lemma_one_mode(s, 1048, true);
    lemma_one_mode(s, 1048, false);
    lemma_one_mode(s, 47, true);
    lemma_one_mode(s, 47, false);
    lemma_one_mode(s, 1049, true);
    lemma_one_mode(s, 1049, false);
    lemma_one_mode(s.escaped(Seq::empty(), 0x37), 47, true);
    lemma_one_mode(with_mode(s, 47, true), 47, false);
    lemma_one_mode(with_mode(s, 1049, true), 1049, false);
}

/// Any other private mode does nothing.
pub proof fn law_other_modes(s: TermState, p: u16, set: bool)
    requires
        p != 1 && p != 6 && p != 7 && p != 25 && p != 47 && p != 1047 && p != 1048 && p != 1049 && p
            != 1000 && p != 1002 && p != 1003 && p != 1004 && p != 1006 && p != 2004,
    ensures
        with_mode(s, p, set) == s,
{
    lemma_one_mode(s, p, set);
}

/// Several modes in one sequence are as many sequences.
pub proof fn law_modes_in_order(s: TermState, params: Seq<u16>, p: u16, set: bool)
    ensures
        ({
            let action: u8 = if set {
                0x68
            } else {
                0x6c
            };
            s.csi(0x3f, params.push(p), Seq::empty(), action) == with_mode(
                s.csi(0x3f, params, Seq::empty(), action),
                p,
                set,
            )
        }),
{
    let action: u8 = if set {
        0x68
    } else {
        0x6c
    };
    lemma_one_mode(s.csi(0x3f, params, Seq::empty(), action), p, set);
    assert(params.push(p).drop_last() =~= params);
}

/// SM and RM 4 are insert mode, among whatever other modes they name; ESC = and
/// ESC > are the application's keypad.
pub proof fn law_other_switches(s: TermState, params: Seq<u16>)
    ensures
        params.contains(4) ==> s.csi_plain(params, 0x68) == (TermState {
            motion: Motion { insert: true, ..s.motion },
            ..s
        }),
        params.contains(4) ==> s.csi_plain(params, 0x6c) == (TermState {
            motion: Motion { insert: false, ..s.motion },
            ..s
        }),
        !params.contains(4) ==> s.csi_plain(params, 0x68) == s && s.csi_plain(params, 0x6c) == s,
        s.escaped(Seq::empty(), 0x3d) == (TermState {
            modes: Modes { app_keypad: true, ..s.modes },
            ..s
        }),
        s.escaped(Seq::empty(), 0x3e) == (TermState {
            modes: Modes { app_keypad: false, ..s.modes },
            ..s
        }),
        s.escaped(Seq::empty(), 0x63) == s.reset(),
{
}

/// The terminal answers what it is: a VT220 with color to a primary attributes
/// request, its version to a secondary one, and that all is well to a status
/// request. The answers are control sequences.
pub proof fn law_answers(s: TermState, params: Seq<u16>)
    ensures
        s.csi_plain(params, 0x63) == s.replied(written_csi(0x3f, seq![62u16, 22], 0x63)),
        s.csi(0x3f, params, Seq::empty(), 0x63) == s.replied(
            written_csi(0x3f, seq![62u16, 22], 0x63),
        ),
        s.csi(0x3e, params, Seq::empty(), 0x63) == s.replied(
            written_csi(0x3e, seq![1u16, 10, 0], 0x63),
        ),
        s.csi_plain(seq![5u16], 0x6e) == s.replied(written_csi(0, seq![0u16], 0x6e)),
{
    reveal_with_fuel(written_params, 4);
    reveal_with_fuel(decimal, 3);
    assert(seq![62u16, 22].drop_last() =~= seq![62u16]);
    assert(seq![1u16, 10, 0].drop_last() =~= seq![1u16, 10]);
    assert(seq![1u16, 10].drop_last() =~= seq![1u16]);
    assert(ascii(decimal(62)) =~= seq![0x36u8, 0x32]);
    assert(ascii(decimal(22)) =~= seq![0x32u8, 0x32]);
    assert(ascii(decimal(1)) =~= seq![0x31u8]);
    assert(ascii(decimal(10)) =~= seq![0x31u8, 0x30]);
    assert(ascii(decimal(0)) =~= seq![0x30u8]);
    assert(written_csi(0x3f, seq![62u16, 22], 0x63) =~= primary_attributes());
    assert(written_csi(0x3e, seq![1u16, 10, 0], 0x63) =~= secondary_attributes());
    assert(written_csi(0, seq![0u16], 0x6e) =~= status_ok());
}

/// Answers go out in the order of the requests, and nothing else changes.
pub proof fn law_answers_are_appended(s: TermState, bytes: Seq<u8>, more: Seq<u8>)
    ensures
        s.replied(bytes) == (TermState { responses: s.responses + bytes, ..s }),
        s.replied(bytes).replied(more) == s.replied(bytes + more),
{
    assert((s.responses + bytes) + more =~= s.responses + (bytes + more));
}

/// Two hexadecimal digits, in small letters.
pub open spec fn hex_byte(v: u8) -> Seq<u8> {
    seq![hex_letter(v / 16), hex_letter(v % 16)]
}

pub open spec fn hex_letter(d: u8) -> u8 {
    (if d < 10 {
        0x30 + d
    } else {
        0x61 + d - 10
    }) as u8
}

/// A color as an answer writes it, two digits of each part twice over.
pub open spec fn written_color(c: Rgb) -> Seq<u8> {
    hex_byte(c.r) + hex_byte(c.r) + seq![0x2fu8] + hex_byte(c.g) + hex_byte(c.g) + seq![0x2fu8]
        + hex_byte(c.b) + hex_byte(c.b)
}

/// Asked for the colors of text and background, the terminal answers with the
/// default ones.
pub proof fn law_color_answers(s: TermState, now: u64)
    ensures
        s.osc_text("10;?"@, now) == s.replied(
            seq![0x1bu8, 0x5d, 0x31, 0x30, 0x3b, 0x72, 0x67, 0x62, 0x3a] + written_color(
                ConfigState::defaults().fg,
            ) + seq![0x1bu8, 0x5c],
        ),
        s.osc_text("11;?"@, now) == s.replied(
            seq![0x1bu8, 0x5d, 0x31, 0x31, 0x3b, 0x72, 0x67, 0x62, 0x3a] + written_color(
                ConfigState::defaults().bg,
            ) + seq![0x1bu8, 0x5c],
        ),
{
    reveal_strlit("0");
    reveal_strlit("2");
    reveal_strlit("7");
    reveal_strlit("10");
    reveal_strlit("11");
    reveal_strlit("133");
    reveal_strlit("633");
    reveal_strlit("?");
    reveal_strlit("10;?");
    reveal_strlit("11;?");
    lemma_split("10"@, ';', "?"@);
    lemma_split("11"@, ';', "?"@);
    assert("10;?"@ =~= "10"@ + seq![';'] + "?"@);
    assert("11;?"@ =~= "11"@ + seq![';'] + "?"@);
    assert("10"@.len() == 2 && "11"@.len() == 2 && "0"@.len() == 1 && "2"@.len() == 1 && "7"@.len()
        == 1 && "133"@.len() == 3 && "633"@.len() == 3);
    assert("10"@[1] == '0' && "11"@[1] == '1');
    lemma_text_color();
    lemma_background_color();
}

proof fn lemma_text_color()
    ensures
        ascii("\x1b]10;rgb:d6d6/dbdb/e1e1\x1b\\"@) == seq![
            0x1bu8,
            0x5d,
            0x31,
            0x30,
            0x3b,
            0x72,
            0x67,
            0x62,
            0x3a,
        ] + written_color(ConfigState::defaults().fg) + seq![0x1bu8, 0x5c],
{
    reveal_strlit("\x1b]10;rgb:d6d6/dbdb/e1e1\x1b\\");
    let c = ConfigState::defaults().fg;
    assert(hex_byte(c.r) =~= seq![0x64u8, 0x36]);
    assert(hex_byte(c.g) =~= seq![0x64u8, 0x62]);
    assert(hex_byte(c.b) =~= seq![0x65u8, 0x31]);
}

proof fn lemma_background_color()
    ensures
        ascii("\x1b]11;rgb:0e0e/1111/1616\x1b\\"@) == seq![
            0x1bu8,
            0x5d,
            0x31,
            0x31,
            0x3b,
            0x72,
            0x67,
            0x62,
            0x3a,
        ] + written_color(ConfigState::defaults().bg) + seq![0x1bu8, 0x5c],
{
    reveal_strlit("\x1b]11;rgb:0e0e/1111/1616\x1b\\");
    let c = ConfigState::defaults().bg;
    assert(hex_byte(c.r) =~= seq![0x30u8, 0x65]);
    assert(hex_byte(c.g) =~= seq![0x31u8, 0x31]);
    assert(hex_byte(c.b) =~= seq![0x31u8, 0x36]);
}

/// An event that the embedder is told of comes behind those that wait, in their
/// order; where 1024 of them wait it is dropped. A bell is one.
pub proof fn law_events_wait_in_order(s: TermState, ev: EventState)
    ensures
        s.events.len() < 1024 ==> s.with_event(ev) == (TermState {
            events: s.events.push(ev),
            ..s
        }),
        s.events.len() >= 1024 ==> s.with_event(ev) == s,
        s.controlled(0x07) == s.with_event(EventState::Bell),
{
}

/// A terminal starts empty: the cursor in the first cell and shown, the scroll
/// region the whole screen, autowrap on, every other mode off, and nothing
/// captured, said or answered.
pub proof fn law_fresh(cols: int, rows: int, max_scrollback: int, x: int, y: int)
    requires
        cols >= 2,
        rows >= 1,
        0 <= x < cols,
        0 <= y < rows,
    ensures
        ({
            let s = TermState::fresh(cols, rows, max_scrollback);
            let none = Cell { ch: ' ', fg: Color::Default, bg: Color::Default, flags: 0 };
            &&& s.cols() == cols && s.rows() == rows && s.max_scrollback == max_scrollback
            &&& s.grid.at(x, y) == none && s.pen == none
            &&& s.x == 0 && s.y == 0 && !s.pending_wrap && s.saved_cursor is None
            &&& s.top == 0 && s.bot == rows - 1
            &&& !s.alt_active && s.saved_primary is None && s.scrollback.len() == 0
            &&& s.motion.autowrap && !s.motion.origin && !s.motion.insert
            &&& s.modes.show_cursor && !s.modes.app_cursor && !s.modes.app_keypad
            &&& !s.modes.bracketed_paste && !s.modes.focus_events && s.modes.mouse_mode == 0
            &&& !s.modes.mouse_sgr
            &&& !s.charsets.g0_linedraw && !s.charsets.g1_linedraw && !s.charsets.g1_active
            &&& s.tabstops[x] == (x % 8 == 0 && x > 0)
            &&& s.title.len() == 0 && s.cwd is None && s.events.len() == 0 && s.responses.len() == 0
            &&& s.blocks.blocks.len() == 0 && s.blocks.running is None
        }),
        TermState::fresh(cols, 0, max_scrollback) == TermState::fresh(cols, 1, max_scrollback),
        TermState::fresh(0, rows, max_scrollback) == TermState::fresh(2, rows, max_scrollback),
        TermState::fresh(1, rows, max_scrollback) == TermState::fresh(2, rows, max_scrollback),
{
}

/// Resizing takes the scroll region back to the whole screen, sets the default
/// tab stops and keeps the cursor where it is, or on the edge.
pub proof fn law_resize_keeps_the_cursor(s: TermState, cols: int, rows: int, i: int)
    requires
        s.wf(),
        cols >= 2,
        rows >= 1,
        cols != s.cols() || rows != s.rows(),
    ensures
        ({
            let t = s.resized(cols, rows);
            &&& t.top == 0 && t.bot == rows - 1
            &&& t.x == (if s.x < cols {
                s.x
            } else {
                cols - 1
            })
            &&& t.y == (if s.y < rows {
                s.y
            } else {
                rows - 1
            })
            &&& !t.pending_wrap
            &&& 0 <= i < cols ==> t.tabstops[i] == (i % 8 == 0 && i > 0)
            &&& t.pen == s.pen && t.modes == s.modes && t.motion == s.motion
            &&& t.saved_cursor == s.saved_cursor && t.alt_active == s.alt_active
            &&& t.title == s.title && t.cwd == s.cwd && t.events == s.events
            &&& t.responses == s.responses && t.blocks == s.blocks && t.charsets == s.charsets
        }),
{
}

/// Control sequences with intermediate bytes do nothing, nor do those with a
/// private marker that are not known.
pub proof fn law_unknown_sequences(
    s: TermState,
    marker: u8,
    params: Seq<u16>,
    between: Seq<u8>,
    action: u8,
)
    ensures
        between.len() > 0 ==> s.csi(marker, params, between, action) == s,
        marker == 0x3f && action != 0x68 && action != 0x6c && action != 0x63 ==> s.csi(
            marker,
            params,
            between,
            action,
        ) == s,
        marker != 0 && marker != 0x3f && (marker != 0x3e || action != 0x63) ==> s.csi(
            marker,
            params,
            between,
            action,
        ) == s,
        between.len() == 0 ==> s.csi(0, params, between, action) == s.csi_plain(params, action),
{
}

/// Final bytes of control and escape sequences that are not known do nothing;
/// nor do control characters that are not.
pub proof fn law_unknown_final_bytes(s: TermState, params: Seq<u16>, byte: u8)
    ensures
        !(0x40 <= byte <= 0x48) && byte != 0x4a && byte != 0x4b && byte != 0x4c && byte != 0x4d
            && byte != 0x50 && byte != 0x53 && byte != 0x54 && byte != 0x58 && byte != 0x5a && byte
            != 0x63 && byte != 0x64 && byte != 0x66 && byte != 0x67 && byte != 0x68 && byte != 0x6c
            && byte != 0x6d && byte != 0x6e && byte != 0x72 && byte != 0x73 && byte != 0x75
            ==> s.csi_plain(params, byte) == s,
        byte != 0x37 && byte != 0x38 && byte != 0x44 && byte != 0x45 && byte != 0x48 && byte != 0x4d
            && byte != 0x63 && byte != 0x3d && byte != 0x3e ==> s.escaped(Seq::empty(), byte) == s,
        byte < 0x07 || byte > 0x0f ==> s.controlled(byte) == s,
        byte != 0x38 ==> s.escaped(seq![0x23u8], byte) == s,
        byte != 0x28 && byte != 0x29 && byte != 0x23 ==> s.escaped(seq![byte], 0x38) == s,
{
}

/// Erasing by a number that is not known erases nothing; no other request is
/// answered; no other tab stops are cleared.
pub proof fn law_unknown_numbers(s: TermState, n: u16)
    ensures
        n > 2 ==> s.csi_plain(seq![n], 0x4b) == (TermState { pending_wrap: false, ..s }),
        n > 3 ==> s.csi_plain(seq![n], 0x4a) == (TermState { pending_wrap: false, ..s }),
        n != 5 && n != 6 ==> s.csi_plain(seq![n], 0x6e) == s,
        n != 0 && n != 3 ==> s.csi_plain(seq![n], 0x67) == s,
{
}

} // verus!
