//! Keyboard -> terminal byte encoding (xterm-compatible).

use vstd::prelude::*;
#[allow(unused_imports)]
use vstd::utf8::encode_utf8;

use crate::text::{append_bytes, append_decimal, chars_of, string_of};
#[allow(unused_imports)]
use crate::text::{ascii, decimal};

pub mod key_laws;
pub mod laws;

verus! {

/// The modifier keys that are held.
#[derive(Clone, Copy, PartialEq, Eq, Debug, Structural)]
pub struct Mods {
    pub shift: bool,
    pub alt: bool,
    pub control: bool,
    pub super_key: bool,
}

/// A key that has a name.
#[derive(Clone, Copy, PartialEq, Eq, Debug, Structural)]
pub enum NamedKey {
    Enter,
    Backspace,
    Tab,
    Escape,
    Space,
    ArrowUp,
    ArrowDown,
    ArrowRight,
    ArrowLeft,
    Home,
    End,
    PageUp,
    PageDown,
    Insert,
    Delete,
    F1,
    F2,
    F3,
    F4,
    F5,
    F6,
    F7,
    F8,
    F9,
    F10,
    F11,
    F12,
    /// Any other one; it produces nothing.
    Other,
}

/// A key, as the keyboard layout has it.
pub enum Key {
    Named(NamedKey),
    /// A key that writes a text.
    Character(String),
    /// Any other one; it produces nothing.
    Other,
}

/// A key as a mathematical value.
pub enum KeyState {
    Named(NamedKey),
    Character(Seq<char>),
    Other,
}

impl View for Key {
    type V = KeyState;

    open spec fn view(&self) -> KeyState {
        match self {
            Key::Named(n) => KeyState::Named(*n),
            Key::Character(s) => KeyState::Character(s@),
            Key::Other => KeyState::Other,
        }
    }
}

/// Modifier code for `CSI 1;<code> X` style sequences.
pub open spec fn modifier_code(mods: Mods) -> nat {
    1 + (if mods.shift {
        1nat
    } else {
        0
    }) + (if mods.alt {
        2nat
    } else {
        0
    }) + (if mods.control {
        4nat
    } else {
        0
    })
}

/// Modifier code for `CSI 1;<code> X` style sequences.
pub fn mod_code(mods: Mods) -> (code: u8)
    ensures
        code == modifier_code(mods),
        1 <= code <= 8,
{
    let mut code: u8 = 1;
    if mods.shift {
        code = code + 1;
    }
    if mods.alt {
        code = code + 2;
    }
    if mods.control {
        code = code + 4;
    }
    code
}

/// `CSI 1;<code> <last>`
pub open spec fn modified(mods: Mods, last: u8) -> Seq<u8> {
    seq![0x1bu8, 0x5b, 0x31, 0x3b] + ascii(decimal(modifier_code(mods))) + seq![last]
}

/// A cursor key: `CSI <last>`, in application mode `SS3 <last>`, with modifiers
/// `CSI 1;<code> <last>`.
pub open spec fn cursor_key(mods: Mods, app_cursor: bool, last: u8) -> Seq<u8> {
    if modifier_code(mods) != 1 {
        modified(mods, last)
    } else if app_cursor {
        seq![0x1bu8, 0x4f, last]
    } else {
        seq![0x1bu8, 0x5b, last]
    }
}

/// One of the first four function keys: `SS3 <last>`, with modifiers
/// `CSI 1;<code> <last>`.
pub open spec fn function_key(mods: Mods, last: u8) -> Seq<u8> {
    if modifier_code(mods) != 1 {
        modified(mods, last)
    } else {
        seq![0x1bu8, 0x4f, last]
    }
}

/// An editing or function key: `CSI <n> ~`, with modifiers `CSI <n>;<code> ~`.
pub open spec fn tilde_key(mods: Mods, n: nat) -> Seq<u8> {
    if modifier_code(mods) != 1 {
        seq![0x1bu8, 0x5b] + ascii(decimal(n)) + seq![0x3bu8] + ascii(decimal(modifier_code(mods)))
            + seq![0x7eu8]
    } else {
        seq![0x1bu8, 0x5b] + ascii(decimal(n)) + seq![0x7eu8]
    }
}

/// The bytes of a named key.
pub open spec fn named_bytes(key: NamedKey, mods: Mods, app_cursor: bool) -> Option<Seq<u8>> {
    match key {
        NamedKey::Enter => Some(
            if mods.alt {
                seq![0x1bu8, 0x0d]
            } else {
                seq![0x0du8]
            },
        ),
        NamedKey::Backspace => Some(
            if mods.alt {
                seq![0x1bu8, 0x7f]
            } else {
                seq![0x7fu8]
            },
        ),
        NamedKey::Tab => Some(
            if mods.shift {
                seq![0x1bu8, 0x5b, 0x5a]
            } else {
                seq![0x09u8]
            },
        ),
        NamedKey::Escape => Some(seq![0x1bu8]),
        NamedKey::Space => Some(
            if mods.control {
                seq![0u8]
            } else {
                seq![0x20u8]
            },
        ),
        NamedKey::ArrowUp => Some(cursor_key(mods, app_cursor, 0x41)),
        NamedKey::ArrowDown => Some(cursor_key(mods, app_cursor, 0x42)),
        NamedKey::ArrowRight => Some(cursor_key(mods, app_cursor, 0x43)),
        NamedKey::ArrowLeft => Some(cursor_key(mods, app_cursor, 0x44)),
        NamedKey::Home => Some(cursor_key(mods, app_cursor, 0x48)),
        NamedKey::End => Some(cursor_key(mods, app_cursor, 0x46)),
        NamedKey::PageUp => Some(tilde_key(mods, 5)),
        NamedKey::PageDown => Some(tilde_key(mods, 6)),
        NamedKey::Insert => Some(tilde_key(mods, 2)),
        NamedKey::Delete => Some(tilde_key(mods, 3)),
        NamedKey::F1 => Some(function_key(mods, 0x50)),
        NamedKey::F2 => Some(function_key(mods, 0x51)),
        NamedKey::F3 => Some(function_key(mods, 0x52)),
        NamedKey::F4 => Some(function_key(mods, 0x53)),
        NamedKey::F5 => Some(tilde_key(mods, 15)),
        NamedKey::F6 => Some(tilde_key(mods, 17)),
        NamedKey::F7 => Some(tilde_key(mods, 18)),
        NamedKey::F8 => Some(tilde_key(mods, 19)),
        NamedKey::F9 => Some(tilde_key(mods, 20)),
        NamedKey::F10 => Some(tilde_key(mods, 21)),
        NamedKey::F11 => Some(tilde_key(mods, 23)),
        NamedKey::F12 => Some(tilde_key(mods, 24)),
        NamedKey::Other => None,
    }
}

/// The C0 byte that Ctrl makes of a character.
pub open spec fn control_byte(c: char) -> Option<u8> {
    if 'a' <= c <= 'z' {
        Some((c as u32 - 'a' as u32 + 1) as u8)
    } else if 'A' <= c <= 'Z' {
        Some((c as u32 - 'A' as u32 + 1) as u8)
    } else if c == '@' || c == ' ' {
        Some(0u8)
    } else if c == '[' {
        Some(0x1bu8)
    } else if c == '\\' {
        Some(0x1cu8)
    } else if c == ']' {
        Some(0x1du8)
    } else if c == '^' {
        Some(0x1eu8)
    } else if c == '_' || c == '/' {
        Some(0x1fu8)
    } else {
        None
    }
}

/// What Ctrl makes of a text: a C0 byte of each character, or, where one has
/// none, the text itself.
pub open spec fn control_bytes(s: Seq<char>) -> Seq<u8> {
    if forall|i: int| 0 <= i < s.len() ==> control_byte(#[trigger] s[i]) is Some {
        Seq::new(s.len(), |i: int| control_byte(s[i])->0)
    } else {
        encode_utf8(s)
    }
}

/// What a key press sends to the shell; nothing for the keys that the app
/// handles itself.
pub open spec fn key_bytes(key: KeyState, mods: Mods, app_cursor: bool) -> Option<Seq<u8>> {
    if mods.super_key {
        None
    } else {
        match key {
            KeyState::Named(named) => named_bytes(named, mods, app_cursor),
            KeyState::Character(s) => Some(
                if mods.control {
                    control_bytes(s)
                } else if mods.alt {
                    seq![0x1bu8] + encode_utf8(s)
                } else {
                    encode_utf8(s)
                },
            ),
            KeyState::Other => None,
        }
    }
}

/// The bytes of an optional sequence.
pub open spec fn bytes_of(v: Option<Vec<u8>>) -> Option<Seq<u8>> {
    match v {
        Some(v) => Some(v@),
        None => None,
    }
}

fn modified_seq(mods: Mods, last: u8) -> (v: Vec<u8>)
    ensures
        v@ == modified(mods, last),
{
    let mut v: Vec<u8> = vec![0x1b, 0x5b, 0x31, 0x3b];
    append_decimal(&mut v, mod_code(mods) as u64);
    v.push(last);
    assert(v@ =~= modified(mods, last));
    v
}

fn cursor_seq(mods: Mods, app_cursor: bool, last: u8) -> (v: Vec<u8>)
    ensures
        v@ == cursor_key(mods, app_cursor, last),
{
    if mod_code(mods) != 1 {
        return modified_seq(mods, last);
    }
    let v: Vec<u8> = if app_cursor {
        vec![0x1b, 0x4f, last]
    } else {
        vec![0x1b, 0x5b, last]
    };
    assert(v@ =~= cursor_key(mods, app_cursor, last));
    v
}

fn function_seq(mods: Mods, last: u8) -> (v: Vec<u8>)
    ensures
        v@ == function_key(mods, last),
{
    if mod_code(mods) != 1 {
        return modified_seq(mods, last);
    }
    let v: Vec<u8> = vec![0x1b, 0x4f, last];
    assert(v@ =~= function_key(mods, last));
    v
}

fn tilde_seq(mods: Mods, n: u8) -> (v: Vec<u8>)
    ensures
        v@ == tilde_key(mods, n as nat),
{
    let mut v: Vec<u8> = vec![0x1b, 0x5b];
    append_decimal(&mut v, n as u64);
    let code = mod_code(mods);
    if code != 1 {
        v.push(0x3b);
        append_decimal(&mut v, code as u64);
    }
    v.push(0x7e);
    assert(v@ =~= tilde_key(mods, n as nat));
    v
}

/// A copy of the bytes.
fn bytes(b: &[u8]) -> (v: Vec<u8>)
    ensures
        v@ == b@,
{
    let mut v: Vec<u8> = Vec::new();
    append_bytes(&mut v, b);
    assert(v@ =~= b@);
    v
}

fn encode_named(key: NamedKey, mods: Mods, app_cursor: bool) -> (r: Option<Vec<u8>>)
    ensures
        bytes_of(r) == named_bytes(key, mods, app_cursor),
{
    let v: Vec<u8> = match key {
        NamedKey::Enter => if mods.alt {
            vec![0x1b, 0x0d]
        } else {
            vec![0x0d]
        },
        NamedKey::Backspace => if mods.alt {
            vec![0x1b, 0x7f]
        } else {
            vec![0x7f]
        },
        NamedKey::Tab => if mods.shift {
            vec![0x1b, 0x5b, 0x5a]
        } else {
            vec![0x09]
        },
        NamedKey::Escape => vec![0x1b],
        NamedKey::Space => if mods.control {
            vec![0]
        } else {
            vec![0x20]
        },
        NamedKey::ArrowUp => cursor_seq(mods, app_cursor, 0x41),
        NamedKey::ArrowDown => cursor_seq(mods, app_cursor, 0x42),
        NamedKey::ArrowRight => cursor_seq(mods, app_cursor, 0x43),
        NamedKey::ArrowLeft => cursor_seq(mods, app_cursor, 0x44),
        NamedKey::Home => cursor_seq(mods, app_cursor, 0x48),
        NamedKey::End => cursor_seq(mods, app_cursor, 0x46),
        NamedKey::PageUp => tilde_seq(mods, 5),
        NamedKey::PageDown => tilde_seq(mods, 6),
        NamedKey::Insert => tilde_seq(mods, 2),
        NamedKey::Delete => tilde_seq(mods, 3),
        NamedKey::F1 => function_seq(mods, 0x50),
        NamedKey::F2 => function_seq(mods, 0x51),
        NamedKey::F3 => function_seq(mods, 0x52),
        NamedKey::F4 => function_seq(mods, 0x53),
        NamedKey::F5 => tilde_seq(mods, 15),
        NamedKey::F6 => tilde_seq(mods, 17),
        NamedKey::F7 => tilde_seq(mods, 18),
        NamedKey::F8 => tilde_seq(mods, 19),
        NamedKey::F9 => tilde_seq(mods, 20),
        NamedKey::F10 => tilde_seq(mods, 21),
        NamedKey::F11 => tilde_seq(mods, 23),
        NamedKey::F12 => tilde_seq(mods, 24),
        NamedKey::Other => {
            return None;
        },
    };
    assert(v@ =~= named_bytes(key, mods, app_cursor)->0);
    Some(v)
}

/// Ctrl+letter -> C0 byte.
fn control_code(c: char) -> (b: Option<u8>)
    ensures
        b == control_byte(c),
{
    match c {
        'a'..='z' => Some((c as u32 - 'a' as u32 + 1) as u8),
        'A'..='Z' => Some((c as u32 - 'A' as u32 + 1) as u8),
        '@' | ' ' => Some(0),
        '[' => Some(0x1b),
        '\\' => Some(0x1c),
        ']' => Some(0x1d),
        '^' => Some(0x1e),
        '_' | '/' => Some(0x1f),
        _ => None,
    }
}

fn encode_control(s: &str) -> (v: Vec<u8>)
    ensures
        v@ == control_bytes(s@),
{
    let cs = chars_of(s);
    let mut out: Vec<u8> = Vec::new();
    for i in 0..cs.len()
        invariant
            cs@ == s@,
            out@.len() == i,
            forall|k: int| 0 <= k < i ==> control_byte(#[trigger] s@[k]) is Some,
            forall|k: int| 0 <= k < i ==> #[trigger] out@[k] == control_byte(s@[k])->0,
    {
        match control_code(cs[i]) {
            Some(b) => {
                out.push(b);
            },
            None => {
                assert(control_byte(s@[i as int]) is None);
                return bytes(s.as_bytes());
            },
        }
    }
    assert(out@ =~= control_bytes(s@));
    out
}

/// Encode a key press into the bytes to write to the PTY.
/// `app_cursor` is DECCKM. Returns None for keys the app layer handles
/// (cmd shortcuts) or that produce nothing.
pub fn encode_key(key: &Key, mods: Mods, app_cursor: bool) -> (r: Option<Vec<u8>>)
    ensures
        bytes_of(r) == key_bytes(key@, mods, app_cursor),
{
    // cmd-anything is an app-level shortcut, never sent to the shell.
    if mods.super_key {
        return None;
    }
    match key {
        Key::Named(named) => encode_named(*named, mods, app_cursor),
        Key::Character(s) => {
            if mods.control {
                Some(encode_control(s.as_str()))
            } else if mods.alt {
                let mut out: Vec<u8> = vec![0x1b];
                append_bytes(&mut out, s.as_str().as_bytes());
                assert(out@ =~= seq![0x1bu8] + encode_utf8(s@));
                Some(out)
            } else {
                Some(bytes(s.as_str().as_bytes()))
            }
        },
        Key::Other => None,
    }
}

/// The text with every line end, CR LF or LF, as a single CR.
pub open spec fn normalized(s: Seq<char>) -> Seq<char>
    decreases s.len(),
{
    if s.len() == 0 {
        Seq::empty()
    } else if s.last() != '\n' {
        normalized(s.drop_last()).push(s.last())
    } else if s.len() >= 2 && s[s.len() - 2] == '\r' {
        normalized(s.drop_last())
    } else {
        normalized(s.drop_last()).push('\r')
    }
}

pub open spec fn paste_start() -> Seq<u8> {
    seq![0x1bu8, 0x5b, 0x32, 0x30, 0x30, 0x7e]
}

pub open spec fn paste_end() -> Seq<u8> {
    seq![0x1bu8, 0x5b, 0x32, 0x30, 0x31, 0x7e]
}

/// What pasting `text` sends to the shell.
pub open spec fn paste_bytes(text: Seq<char>, bracketed: bool) -> Seq<u8> {
    if bracketed {
        paste_start() + encode_utf8(normalized(text)) + paste_end()
    } else {
        encode_utf8(normalized(text))
    }
}

/// Normalize newlines to CR as terminals expect.
fn normalize(text: &str) -> (s: String)
    ensures
        s@ == normalized(text@),
{
    let cs = chars_of(text);
    let mut out: Vec<char> = Vec::new();
    for i in 0..cs.len()
        invariant
            cs@ == text@,
            out@ == normalized(cs@.take(i as int)),
    {
        let ghost upto = cs@.take(i + 1);
        assert(upto.drop_last() =~= cs@.take(i as int));
        let c = cs[i];
        if c != '\n' {
            out.push(c);
        } else if i == 0 || cs[i - 1] != '\r' {
            out.push('\r');
        }
    }
    assert(cs@.take(cs@.len() as int) =~= cs@);
    string_of(out.as_slice())
}

/// Wrap pasted text for the shell (bracketed paste when enabled).
pub fn encode_paste(text: &str, bracketed: bool) -> (v: Vec<u8>)
    ensures
        v@ == paste_bytes(text@, bracketed),
{
    let text = normalize(text);
    if bracketed {
        let mut v: Vec<u8> = vec![0x1b, 0x5b, 0x32, 0x30, 0x30, 0x7e];
        append_bytes(&mut v, text.as_str().as_bytes());
        let end: [u8; 6] = [0x1b, 0x5b, 0x32, 0x30, 0x31, 0x7e];
        append_bytes(&mut v, &end);
        assert(v@ =~= paste_start() + encode_utf8(text@) + paste_end());
        v
    } else {
        bytes(text.as_str().as_bytes())
    }
}

} // verus!
