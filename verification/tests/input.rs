use mimi::input::{encode_key, encode_paste, mod_code, Key, Mods, NamedKey};

const PLAIN: Mods = Mods { shift: false, alt: false, control: false, super_key: false };

fn named(key: NamedKey, mods: Mods, app_cursor: bool) -> Option<Vec<u8>> {
    encode_key(&Key::Named(key), mods, app_cursor)
}

fn typed(text: &str, mods: Mods) -> Option<Vec<u8>> {
    encode_key(&Key::Character(text.to_string()), mods, false)
}

#[test]
fn paste_encoding() {
    assert_eq!(encode_paste("a\nb", false), b"a\rb".to_vec());
    let b = encode_paste("x", true);
    assert!(b.starts_with(b"\x1b[200~") && b.ends_with(b"\x1b[201~"));
}

#[test]
fn paste_line_ends() {
    assert_eq!(encode_paste("a\r\nb\r\n\n\rc", false), b"a\rb\r\r\rc".to_vec());
    assert_eq!(encode_paste("\n", false), b"\r".to_vec());
    assert_eq!(encode_paste("", false), b"".to_vec());
    assert_eq!(encode_paste("é", true), "\x1b[200~é\x1b[201~".as_bytes().to_vec());
    // the same as replacing CR LF first and LF afterwards
    for text in ["\r\r\n\n", "x\n\r\ny", "\n\r", "\r\n\r\n"] {
        let two_steps = text.replace("\r\n", "\r").replace('\n', "\r");
        assert_eq!(encode_paste(text, false), two_steps.into_bytes());
    }
}

#[test]
fn modifier_codes() {
    assert_eq!(mod_code(PLAIN), 1);
    assert_eq!(mod_code(Mods { shift: true, ..PLAIN }), 2);
    assert_eq!(mod_code(Mods { alt: true, ..PLAIN }), 3);
    assert_eq!(mod_code(Mods { control: true, ..PLAIN }), 5);
    assert_eq!(mod_code(Mods { shift: true, alt: true, control: true, super_key: false }), 8);
}

#[test]
fn cursor_and_function_keys() {
    assert_eq!(named(NamedKey::ArrowUp, PLAIN, false), Some(b"\x1b[A".to_vec()));
    assert_eq!(named(NamedKey::ArrowUp, PLAIN, true), Some(b"\x1bOA".to_vec()));
    let ctrl = Mods { control: true, ..PLAIN };
    assert_eq!(named(NamedKey::ArrowLeft, ctrl, true), Some(b"\x1b[1;5D".to_vec()));
    assert_eq!(named(NamedKey::Home, PLAIN, false), Some(b"\x1b[H".to_vec()));
    assert_eq!(named(NamedKey::End, PLAIN, true), Some(b"\x1bOF".to_vec()));
    assert_eq!(named(NamedKey::F1, PLAIN, false), Some(b"\x1bOP".to_vec()));
    let shift = Mods { shift: true, ..PLAIN };
    assert_eq!(named(NamedKey::F4, shift, false), Some(b"\x1b[1;2S".to_vec()));
    assert_eq!(named(NamedKey::F5, PLAIN, false), Some(b"\x1b[15~".to_vec()));
    assert_eq!(named(NamedKey::F12, shift, false), Some(b"\x1b[24;2~".to_vec()));
    assert_eq!(named(NamedKey::Delete, PLAIN, false), Some(b"\x1b[3~".to_vec()));
    assert_eq!(named(NamedKey::PageDown, ctrl, false), Some(b"\x1b[6;5~".to_vec()));
    assert_eq!(named(NamedKey::Other, PLAIN, false), None);
    assert_eq!(encode_key(&Key::Other, PLAIN, false), None);
}

#[test]
fn editing_keys() {
    let alt = Mods { alt: true, ..PLAIN };
    let shift = Mods { shift: true, ..PLAIN };
    let ctrl = Mods { control: true, ..PLAIN };
    assert_eq!(named(NamedKey::Enter, PLAIN, false), Some(b"\r".to_vec()));
    assert_eq!(named(NamedKey::Enter, alt, false), Some(b"\x1b\r".to_vec()));
    assert_eq!(named(NamedKey::Backspace, PLAIN, false), Some(b"\x7f".to_vec()));
    assert_eq!(named(NamedKey::Backspace, alt, false), Some(b"\x1b\x7f".to_vec()));
    assert_eq!(named(NamedKey::Tab, PLAIN, false), Some(b"\t".to_vec()));
    assert_eq!(named(NamedKey::Tab, shift, false), Some(b"\x1b[Z".to_vec()));
    assert_eq!(named(NamedKey::Escape, PLAIN, false), Some(b"\x1b".to_vec()));
    assert_eq!(named(NamedKey::Space, PLAIN, false), Some(b" ".to_vec()));
    assert_eq!(named(NamedKey::Space, ctrl, false), Some(vec![0]));
}

#[test]
fn characters_with_modifiers() {
    let ctrl = Mods { control: true, ..PLAIN };
    let alt = Mods { alt: true, ..PLAIN };
    assert_eq!(typed("é", PLAIN), Some("é".as_bytes().to_vec()));
    assert_eq!(typed("x", alt), Some(b"\x1bx".to_vec()));
    assert_eq!(typed("c", ctrl), Some(vec![3]));
    assert_eq!(typed("C", ctrl), Some(vec![3]));
    assert_eq!(typed("@", ctrl), Some(vec![0]));
    assert_eq!(typed("[", ctrl), Some(vec![0x1b]));
    assert_eq!(typed("\\", ctrl), Some(vec![0x1c]));
    assert_eq!(typed("]", ctrl), Some(vec![0x1d]));
    assert_eq!(typed("^", ctrl), Some(vec![0x1e]));
    assert_eq!(typed("/", ctrl), Some(vec![0x1f]));
    // one that has no control code makes the whole text plain
    assert_eq!(typed("a1", ctrl), Some(b"a1".to_vec()));
    assert_eq!(typed("", ctrl), Some(vec![]));
}

#[test]
fn command_key_sends_nothing() {
    let cmd = Mods { super_key: true, ..PLAIN };
    assert_eq!(typed("c", cmd), None);
    assert_eq!(named(NamedKey::Enter, cmd, false), None);
}
