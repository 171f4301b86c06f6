//! What holds of the keys: what each of them sends, and what that does to a
//! terminal that it is written to.

use vstd::prelude::*;
#[allow(unused_imports)]
use vstd::utf8::encode_utf8;

#[allow(unused_imports)]
use super::{
    control_byte, control_bytes, key_bytes, modifier_code, normalized, paste_end, paste_start,
    KeyState, Mods, NamedKey,
};
#[allow(unused_imports)]
use crate::parser::model::EmulatorState;
#[allow(unused_imports)]
use crate::parser::sequence_laws::{
    law_bare_csi_executed, law_control_executed, written_csi, written_params,
};
#[allow(unused_imports)]
use crate::term::model::{back_stops, next_stop, prev_stop, TermState};
#[allow(unused_imports)]
use crate::text::{ascii, decimal};

verus! {

/// No modifier is held.
pub open spec fn bare() -> Mods {
    Mods { shift: false, alt: false, control: false, super_key: false }
}

/// What a named key sends.
pub open spec fn sent(key: NamedKey, mods: Mods, app_cursor: bool) -> Seq<u8> {
    key_bytes(KeyState::Named(key), mods, app_cursor)->0
}

/// The four arrow keys move the cursor one cell in their direction, and do
/// nothing else, where they are written back to the terminal: up to the edge of
/// the screen and, within the scroll region, of that.
pub proof fn law_arrow_keys_move(e: EmulatorState, clock: Seq<u64>)
    requires
        e.in_text(),
        e.term.wf(),
        clock.len() == 3,
    ensures
        ({
            let t = e.term;
            &&& e.run(sent(NamedKey::ArrowUp, bare(), false), clock).term == (TermState {
                y: if t.y == t.top || t.y == 0 {
                    t.y
                } else {
                    t.y - 1
                },
                pending_wrap: false,
                ..t
            })
            &&& e.run(sent(NamedKey::ArrowDown, bare(), false), clock).term == (TermState {
                y: if t.y == t.bot || t.y == t.rows() - 1 {
                    t.y
                } else {
                    t.y + 1
                },
                pending_wrap: false,
                ..t
            })
            &&& e.run(sent(NamedKey::ArrowRight, bare(), false), clock).term == (TermState {
                x: if t.x == t.cols() - 1 {
                    t.x
                } else {
                    t.x + 1
                },
                pending_wrap: false,
                ..t
            })
            &&& e.run(sent(NamedKey::ArrowLeft, bare(), false), clock).term == (TermState {
                x: if t.x == 0 {
                    t.x
                } else {
                    t.x - 1
                },
                pending_wrap: false,
                ..t
            })
        }),
{
    law_bare_csi_executed(e, 0x41, clock);
    law_bare_csi_executed(e, 0x42, clock);
    law_bare_csi_executed(e, 0x43, clock);
    law_bare_csi_executed(e, 0x44, clock);
}

/// The four arrow keys send four different sequences, whatever is held with
/// them.
pub proof fn law_arrow_keys_differ(mods: Mods, app_cursor: bool)
    requires
        !mods.super_key,
    ensures
        sent(NamedKey::ArrowUp, mods, app_cursor) != sent(NamedKey::ArrowDown, mods, app_cursor),
        sent(NamedKey::ArrowUp, mods, app_cursor) != sent(NamedKey::ArrowRight, mods, app_cursor),
        sent(NamedKey::ArrowUp, mods, app_cursor) != sent(NamedKey::ArrowLeft, mods, app_cursor),
        sent(NamedKey::ArrowDown, mods, app_cursor) != sent(NamedKey::ArrowRight, mods, app_cursor),
        sent(NamedKey::ArrowDown, mods, app_cursor) != sent(NamedKey::ArrowLeft, mods, app_cursor),
        sent(NamedKey::ArrowRight, mods, app_cursor) != sent(NamedKey::ArrowLeft, mods, app_cursor),
{
    law_cursor_keys(0, mods, app_cursor);
    law_cursor_keys(1, mods, app_cursor);
    law_cursor_keys(2, mods, app_cursor);
    law_cursor_keys(3, mods, app_cursor);
    assert(sent(NamedKey::ArrowUp, mods, app_cursor).last() == 0x41);
    assert(sent(NamedKey::ArrowDown, mods, app_cursor).last() == 0x42);
    assert(sent(NamedKey::ArrowRight, mods, app_cursor).last() == 0x43);
    assert(sent(NamedKey::ArrowLeft, mods, app_cursor).last() == 0x44);
}

/// Home, written back to the terminal, puts the cursor in the first column of
/// the first row; Enter in the first column; Tab at the next tab stop and
/// Shift+Tab at the one before. They do nothing else.
pub proof fn law_other_keys_move(e: EmulatorState, c1: Seq<u64>, c3: Seq<u64>)
    requires
        e.in_text(),
        e.term.wf(),
        c1.len() == 1,
        c3.len() == 3,
    ensures
        ({
            let t = e.term;
            let back = Mods { shift: true, ..bare() };
            &&& e.run(sent(NamedKey::Home, bare(), false), c3).term == (TermState {
                x: 0,
                y: if t.motion.origin {
                    t.top
                } else {
                    0
                },
                pending_wrap: false,
                ..t
            })
            &&& e.run(sent(NamedKey::Enter, bare(), false), c1).term == (TermState {
                x: 0,
                pending_wrap: false,
                ..t
            })
            &&& e.run(sent(NamedKey::Tab, bare(), false), c1).term == (TermState {
                x: next_stop(t.tabstops, t.x + 1),
                pending_wrap: false,
                ..t
            })
            &&& e.run(sent(NamedKey::Tab, back, false), c3).term == (TermState {
                x: prev_stop(t.tabstops, t.x),
                pending_wrap: false,
                ..t
            })
        }),
{
    law_bare_csi_executed(e, 0x48, c3);
    law_bare_csi_executed(e, 0x5a, c3);
    law_control_executed(e, 0x0d, c1);
    law_control_executed(e, 0x09, c1);
    reveal_with_fuel(back_stops, 2);
}

/// The cursor keys with the final bytes of what they send.
pub open spec fn cursor_keys() -> Seq<(NamedKey, u8)> {
    seq![
        (NamedKey::ArrowUp, 0x41u8),
        (NamedKey::ArrowDown, 0x42),
        (NamedKey::ArrowRight, 0x43),
        (NamedKey::ArrowLeft, 0x44),
        (NamedKey::Home, 0x48),
        (NamedKey::End, 0x46),
    ]
}

/// The number that names the modifiers in a sequence: one more than the sum of
/// 1 for Shift, 2 for Alt and 4 for Ctrl.
pub open spec fn mods_number(mods: Mods) -> u16 {
    (1 + bit(mods.shift) + 2 * bit(mods.alt) + 4 * bit(mods.control)) as u16
}

pub open spec fn bit(b: bool) -> int {
    if b {
        1
    } else {
        0
    }
}

/// Two parameters and a final byte.
proof fn lemma_two_params(a: u16, b: u16, action: u8)
    ensures
        written_csi(0, seq![a, b], action) == seq![0x1bu8, 0x5b] + ascii(decimal(a as nat))
            + seq![0x3bu8] + ascii(decimal(b as nat)) + seq![action],
        written_csi(0, seq![a], action) == seq![0x1bu8, 0x5b] + ascii(decimal(a as nat))
            + seq![action],
{
    reveal_with_fuel(written_params, 3);
    assert(seq![a, b].drop_last() =~= seq![a]);
    assert(written_csi(0, seq![a, b], action) =~= seq![0x1bu8, 0x5b] + ascii(decimal(a as nat))
        + seq![0x3bu8] + ascii(decimal(b as nat)) + seq![action]);
}

/// A cursor key alone sends `CSI` and its final byte, or `SS3` and that where
/// the application asked for it; with modifiers it sends a control sequence
/// whose second parameter names them, whatever the application asked for.
pub proof fn law_cursor_keys(i: int, mods: Mods, app_cursor: bool)
    requires
        0 <= i < cursor_keys().len(),
        !mods.super_key,
    ensures
        key_bytes(KeyState::Named(cursor_keys()[i].0), mods, app_cursor) == Some(
            if mods != bare() {
                written_csi(0, seq![1u16, mods_number(mods)], cursor_keys()[i].1)
            } else if app_cursor {
                seq![0x1bu8, 0x4f, cursor_keys()[i].1]
            } else {
                seq![0x1bu8, 0x5b, cursor_keys()[i].1]
            },
        ),
{
    let last = cursor_keys()[i].1;
    lemma_two_params(1, mods_number(mods), last);
    assert(ascii(decimal(1)) =~= seq![0x31u8]);
    assert(seq![0x1bu8, 0x5b] + seq![0x31u8] + seq![0x3bu8] =~= seq![0x1bu8, 0x5b, 0x31, 0x3b]);
    assert(modifier_code(mods) == mods_number(mods));
}

/// The first four function keys.
pub open spec fn first_function_keys() -> Seq<NamedKey> {
    seq![NamedKey::F1, NamedKey::F2, NamedKey::F3, NamedKey::F4]
}

/// The first four function keys alone send `SS3` and a letter from P on; with
/// modifiers they send a control sequence as the cursor keys do.
pub proof fn law_first_function_keys(i: int, mods: Mods, app_cursor: bool)
    requires
        0 <= i < 4,
        !mods.super_key,
    ensures
        key_bytes(KeyState::Named(first_function_keys()[i]), mods, app_cursor) == Some(
            if mods != bare() {
                written_csi(0, seq![1u16, mods_number(mods)], (0x50 + i) as u8)
            } else {
                seq![0x1bu8, 0x4f, (0x50 + i) as u8]
            },
        ),
{
    lemma_two_params(1, mods_number(mods), (0x50 + i) as u8);
    assert(ascii(decimal(1)) =~= seq![0x31u8]);
    assert(seq![0x1bu8, 0x5b] + seq![0x31u8] + seq![0x3bu8] =~= seq![0x1bu8, 0x5b, 0x31, 0x3b]);
    assert(modifier_code(mods) == mods_number(mods));
}

/// The editing keys and the other function keys, with their numbers.
pub open spec fn numbered_keys() -> Seq<(NamedKey, u16)> {
    seq![
        (NamedKey::Insert, 2u16),
        (NamedKey::Delete, 3),
        (NamedKey::PageUp, 5),
        (NamedKey::PageDown, 6),
        (NamedKey::F5, 15),
        (NamedKey::F6, 17),
        (NamedKey::F7, 18),
        (NamedKey::F8, 19),
        (NamedKey::F9, 20),
        (NamedKey::F10, 21),
        (NamedKey::F11, 23),
        (NamedKey::F12, 24),
    ]
}

/// The other keys send a control sequence that ends in `~`: its first parameter
/// is their number, its second one names the modifiers, where there are any.
pub proof fn law_numbered_keys(i: int, mods: Mods, app_cursor: bool)
    requires
        0 <= i < numbered_keys().len(),
        !mods.super_key,
    ensures
        key_bytes(KeyState::Named(numbered_keys()[i].0), mods, app_cursor) == Some(
            if mods != bare() {
                written_csi(0, seq![numbered_keys()[i].1, mods_number(mods)], 0x7e)
            } else {
                written_csi(0, seq![numbered_keys()[i].1], 0x7e)
            },
        ),
{
    lemma_two_params(numbered_keys()[i].1, mods_number(mods), 0x7e);
    assert(modifier_code(mods) == mods_number(mods));
}

/// The keys that write a character send it: Enter a CR, Backspace a DEL, Tab a
/// tab, Escape an ESC and Space a space, or NUL with Ctrl. Keys that are not
/// known send nothing.
pub proof fn law_writing_keys(mods: Mods, app_cursor: bool)
    requires
        !mods.super_key,
    ensures
        !mods.alt ==> sent(NamedKey::Enter, mods, app_cursor) == seq![0x0du8],
        !mods.alt ==> sent(NamedKey::Backspace, mods, app_cursor) == seq![0x7fu8],
        !mods.shift ==> sent(NamedKey::Tab, mods, app_cursor) == seq![0x09u8],
        sent(NamedKey::Escape, mods, app_cursor) == seq![0x1bu8],
        !mods.control ==> sent(NamedKey::Space, mods, app_cursor) == seq![0x20u8],
        mods.control ==> sent(NamedKey::Space, mods, app_cursor) == seq![0u8],
        key_bytes(KeyState::Named(NamedKey::Other), mods, app_cursor) is None,
        key_bytes(KeyState::Other, mods, app_cursor) is None,
{
}

/// Alt puts an ESC in front of what Enter, Backspace and, without Ctrl, a
/// character send.
pub proof fn law_alt_puts_an_escape_in_front(s: Seq<char>, mods: Mods, app_cursor: bool)
    requires
        !mods.super_key,
    ensures
        ({
            let with = Mods { alt: true, ..mods };
            let without = Mods { alt: false, ..mods };
            &&& sent(NamedKey::Enter, with, app_cursor) == seq![0x1bu8] + sent(
                NamedKey::Enter,
                without,
                app_cursor,
            )
            &&& sent(NamedKey::Backspace, with, app_cursor) == seq![0x1bu8] + sent(
                NamedKey::Backspace,
                without,
                app_cursor,
            )
            &&& !mods.control ==> key_bytes(KeyState::Character(s), with, app_cursor) == Some(
                seq![0x1bu8] + key_bytes(KeyState::Character(s), without, app_cursor)->0,
            )
        }),
{
    let with = Mods { alt: true, ..mods };
    let without = Mods { alt: false, ..mods };
    assert(sent(NamedKey::Enter, with, app_cursor) =~= seq![0x1bu8] + sent(
        NamedKey::Enter,
        without,
        app_cursor,
    ));
    assert(sent(NamedKey::Backspace, with, app_cursor) =~= seq![0x1bu8] + sent(
        NamedKey::Backspace,
        without,
        app_cursor,
    ));
}

/// Whether Ctrl makes a control character of `c` by taking off its upper bits.
pub open spec fn controllable(c: char) -> bool {
    0x40 <= c as u32 <= 0x5f || 0x61 <= c as u32 <= 0x7a
}

proof fn lemma_control(c: char)
    requires
        controllable(c),
    ensures
        control_byte(c) == Some((c as u32 % 32) as u8),
{
    let u = c as u32;
    assert(u == 0x40 ==> c == '@');
    assert(u == 0x5b ==> c == '[');
    assert(u == 0x5c ==> c == '\\');
    assert(u == 0x5d ==> c == ']');
    assert(u == 0x5e ==> c == '^');
    assert(u == 0x5f ==> c == '_');
}

/// Ctrl takes the upper bits off every character of a text, from @ to _ and
/// from a to z; so a letter becomes its place in the alphabet. A space becomes
/// NUL and a slash what an underscore does; a text with any other character in
/// it is sent as it is.
pub proof fn law_control_takes_bits_off(s: Seq<char>, i: int, mods: Mods, app_cursor: bool)
    requires
        mods.control,
        !mods.super_key,
        0 <= i < s.len(),
    ensures
        (forall|k: int| 0 <= k < s.len() ==> controllable(#[trigger] s[k])) ==> {
            let out = key_bytes(KeyState::Character(s), mods, app_cursor)->0;
            out.len() == s.len() && out[i] == s[i] as u32 % 32
        },
        !controllable(s[i]) && s[i] != ' ' && s[i] != '/' ==> key_bytes(
            KeyState::Character(s),
            mods,
            app_cursor,
        ) == Some(encode_utf8(s)),
        s == seq![' '] ==> key_bytes(KeyState::Character(s), mods, app_cursor) == Some(seq![0u8]),
        s == seq!['/'] ==> key_bytes(KeyState::Character(s), mods, app_cursor) == Some(
            seq![0x1fu8],
        ),
{
    let out = control_bytes(s);
    if forall|k: int| 0 <= k < s.len() ==> controllable(#[trigger] s[k]) {
        assert forall|k: int| 0 <= k < s.len() implies control_byte(#[trigger] s[k]) is Some by {
            lemma_control(s[k]);
        }
        lemma_control(s[i]);
    }
    if !controllable(s[i]) && s[i] != ' ' && s[i] != '/' {
        assert(control_byte(s[i]) is None);
    }
    if s == seq![' '] {
        assert(out =~= seq![0u8]);
    }
    if s == seq!['/'] {
        assert(out =~= seq![0x1fu8]);
    }
}

/// Lines are pasted one behind the other with a CR between them, whether they
/// end in LF or in CR LF.
pub proof fn law_pasted_lines(a: Seq<char>, b: Seq<char>)
    ensures
        a.len() == 0 || a.last() != '\r' ==> normalized(a.push('\n') + b) == normalized(a).push(
            '\r',
        ) + normalized(b),
        normalized(a.push('\r').push('\n') + b) == normalized(a).push('\r') + normalized(b),
{
    assert(a.push('\n').drop_last() =~= a);
    assert(a.push('\r').drop_last() =~= a);
    assert(a.push('\r').push('\n').drop_last() =~= a.push('\r'));
    assert(a.push('\r').push('\n')[a.len() as int] == '\r');
    assert(normalized(a.push('\r')) == normalized(a).push('\r'));
    assert(normalized(a.push('\r').push('\n')) == normalized(a.push('\r')));
    lemma_pasted_behind(a.push('\n'), b);
    lemma_pasted_behind(a.push('\r').push('\n'), b);
}

/// What stands behind a text that does not end in CR is pasted as it is alone.
proof fn lemma_pasted_behind(a: Seq<char>, b: Seq<char>)
    requires
        a.len() > 0,
        a.last() != '\r',
    ensures
        normalized(a + b) == normalized(a) + normalized(b),
    decreases b.len(),
{
    if b.len() == 0 {
        assert(a + b =~= a);
        assert(normalized(a) + normalized(b) =~= normalized(a));
    } else {
        let init = b.drop_last();
        lemma_pasted_behind(a, init);
        assert((a + b).drop_last() =~= a + init);
        assert((a + b).last() == b.last());
        let at = (a + b).len() - 2;
        if b.len() >= 2 {
            assert((a + b)[at] == b[b.len() - 2]);
        } else {
            assert((a + b)[at] == a.last());
        }
        assert(normalized(a + b) =~= normalized(a) + normalized(b));
    }
}

/// The marks around a bracketed paste are control sequences: 200 in front of
/// it, 201 behind.
pub proof fn law_paste_marks()
    ensures
        paste_start() == written_csi(0, seq![200u16], 0x7e),
        paste_end() == written_csi(0, seq![201u16], 0x7e),
{
    reveal_with_fuel(decimal, 4);
    lemma_two_params(200, 0, 0x7e);
    lemma_two_params(201, 0, 0x7e);
    assert(ascii(decimal(200)) =~= seq![0x32u8, 0x30, 0x30]);
    assert(ascii(decimal(201)) =~= seq![0x32u8, 0x30, 0x31]);
}

} // verus!
