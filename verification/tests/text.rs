use mimi::osc::{decode_633, exit_code, parse_file_url, percent_decode};
use mimi::text::{
    chars_of, decimal_chars, hex_pair, parse_i32, parse_u64, parse_usize, split_first, string_of,
    strip_prefix, text_eq, trimmed,
};
use mimi::width::columns;

fn cs(s: &str) -> Vec<char> {
    s.chars().collect()
}

fn text(cs: &[char]) -> String {
    cs.iter().collect()
}

#[test]
fn characters_and_strings() {
    assert_eq!(chars_of("aé日"), vec!['a', 'é', '日']);
    assert_eq!(string_of(&['x', 'é']), "xé");
    assert!(text_eq(&cs("abc"), "abc"));
    assert!(!text_eq(&cs("abc"), "ab") && !text_eq(&cs("ab"), "ac"));
    assert_eq!(strip_prefix(&cs("Cwd=/x"), "Cwd=").map(text), Some("/x".to_string()));
    assert_eq!(strip_prefix(&cs("Cw"), "Cwd="), None);
}

#[test]
fn trimming_agrees_with_std() {
    for s in ["", " a ", "\t\u{a0}x\u{2003}", "\u{feff}y", "\u{85}z\n", "a b"] {
        assert_eq!(text(trimmed(&cs(s))), s.trim());
    }
}

#[test]
fn splitting() {
    let all = cs("a;b;c");
    let (head, tail) = split_first(&all, ';');
    assert_eq!((text(head), tail.map(text)), ("a".into(), Some("b;c".into())));
    let none = cs("abc");
    let (head, tail) = split_first(&none, ';');
    assert_eq!((text(head), tail.map(text)), ("abc".into(), None));
}

#[test]
fn numbers_agree_with_std() {
    let samples = [
        "", "0", "7", "+7", "-7", "-0", "--1", "+-1", "+", "-", "007", "4294967295", "2147483647",
        "2147483648", "-2147483648", "-2147483649", "18446744073709551615",
        "18446744073709551616", "99999999999999999999999", "1 ", " 1", "1_0", "0x1", "١",
    ];
    for s in samples {
        assert_eq!(parse_u64(&cs(s)), s.parse::<u64>().ok(), "{s:?}");
        assert_eq!(parse_usize(&cs(s)), s.parse::<usize>().ok(), "{s:?}");
        assert_eq!(parse_i32(&cs(s)), s.parse::<i32>().ok(), "{s:?}");
    }
    for n in [0, 9, 10, 65535, u64::MAX] {
        assert_eq!(text(&decimal_chars(n)), n.to_string());
    }
}

#[test]
fn hex_pairs_agree_with_std() {
    for pair in ["00", "fF", "3b", "+f", "-f", "g0", "0g", "é1", " 1", "++"] {
        let c = cs(pair);
        assert_eq!(hex_pair(c[0], c[1]), u8::from_str_radix(pair, 16).ok(), "{pair:?}");
    }
}

#[test]
fn percent_decoding() {
    assert_eq!(percent_decode(b"a%20b%C3%a9"), Some("a bé".as_bytes().to_vec()));
    assert_eq!(percent_decode(b"100%"), Some(b"100%".to_vec()));
    assert_eq!(percent_decode(b"%4"), Some(b"%4".to_vec()));
    assert_eq!(percent_decode(b"%zz"), None);
    assert_eq!(percent_decode(b"%25%32%35"), Some(b"%25".to_vec()));
}

#[test]
fn file_urls() {
    let path = |s: &str| parse_file_url(&cs(s));
    assert_eq!(path("file://h/a%20b").as_deref(), Some("/a b"));
    assert_eq!(path("file:///é").as_deref(), Some("/é"));
    assert_eq!(path("file://h"), None);
    assert_eq!(path("x"), None);
    assert_eq!(path("file:///%80"), None);
}

#[test]
fn command_line_escapes() {
    assert_eq!(decode_633(&cs("a\\x3b\\\\\\x0a")), "a;\\\n");
    assert_eq!(decode_633(&cs("\\x3")), "");
    assert_eq!(decode_633(&cs("\\n\\")), "\\n\\");
}

#[test]
fn exit_codes() {
    assert_eq!(exit_code(Some(&cs("3;x"))), Some(3));
    assert_eq!(exit_code(Some(&cs(""))), None);
    assert_eq!(exit_code(None), None);
}

#[test]
fn character_columns() {
    assert_eq!(columns('a'), 1);
    assert_eq!(columns('é'), 1);
    assert_eq!(columns('日'), 2);
    assert_eq!(columns('\u{301}'), 0);
    // characters without a width take a column
    assert_eq!(columns('\u{7}'), 1);
    assert_eq!(columns('\u{9f}'), 1);
}

#[test]
fn white_space_characters() {
    let listed = |u: u32| {
        matches!(
            u,
            0x09..=0x0d
                | 0x20
                | 0x85
                | 0xa0
                | 0x1680
                | 0x2000..=0x200a
                | 0x2028
                | 0x2029
                | 0x202f
                | 0x205f
                | 0x3000
        )
    };
    for c in '\0'..=char::MAX {
        assert_eq!(trimmed(&[c]).is_empty(), listed(c as u32), "{:x}", c as u32);
    }
}
