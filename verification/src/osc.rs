//! The texts inside operating system commands: file URLs, escaped command
//! lines, exit codes.

use vstd::prelude::*;
#[allow(unused_imports)]
use vstd::utf8::{decode_utf8, encode_utf8, valid_utf8};
use vstd::slice::slice_subrange;

use crate::text::{chars_of, find_char, hex_pair, parse_i32, split_first, string_of, strip_prefix};
#[allow(unused_imports)]
use crate::text::{before, find, lemma_find, read_hex_pair, read_i32};

pub mod laws;

verus! {

/// `%` and the two hexadecimal digits of a byte.
pub open spec fn percent_triple(b: u8) -> Seq<u8> {
    seq![0x25u8, hex_upper((b / 16) as int), hex_upper((b % 16) as int)]
}

/// The upper-case hexadecimal digit of `d`, as ASCII.
pub open spec fn hex_upper(d: int) -> u8 {
    if d < 10 {
        (d + 0x30) as u8
    } else {
        (d - 10 + 0x41) as u8
    }
}

/// The bytes `b` with every `%` and every byte that `keep` does not name
/// written as a percent triple.
pub open spec fn percent_encoded(b: Seq<u8>, keep: Set<u8>) -> Seq<u8>
    decreases b.len(),
{
    if b.len() == 0 {
        Seq::empty()
    } else if keep.contains(b[0]) && b[0] != 0x25 {
        seq![b[0]] + percent_encoded(b.skip(1), keep)
    } else {
        percent_triple(b[0]) + percent_encoded(b.skip(1), keep)
    }
}

/// The bytes `b` with each percent triple replaced by the byte that it writes.
/// A `%` in one of the last two places stands for itself; one before anything
/// else than two hexadecimal digits spoils the whole.
pub open spec fn percent_decoded(b: Seq<u8>) -> Option<Seq<u8>>
    decreases b.len(),
{
    if b.len() == 0 {
        Some(Seq::empty())
    } else if b[0] == 0x25 && b.len() > 2 {
        match (read_hex_pair(b[1] as char, b[2] as char), percent_decoded(b.skip(3))) {
            (Some(v), Some(rest)) => Some(seq![v] + rest),
            _ => None,
        }
    } else {
        match percent_decoded(b.skip(1)) {
            Some(rest) => Some(seq![b[0]] + rest),
            None => None,
        }
    }
}

/// Decoding gives back every sequence of bytes that was percent-encoded.
pub proof fn lemma_percent_round_trip(b: Seq<u8>, keep: Set<u8>)
    ensures
        percent_decoded(percent_encoded(b, keep)) == Some(b),
    decreases b.len(),
{
    if b.len() > 0 {
        let rest = percent_encoded(b.skip(1), keep);
        lemma_percent_round_trip(b.skip(1), keep);
        assert(seq![b[0]] + b.skip(1) =~= b);
        if keep.contains(b[0]) && b[0] != 0x25 {
            let e = seq![b[0]] + rest;
            assert(e.skip(1) =~= rest);
        } else {
            let e = percent_triple(b[0]) + rest;
            assert(e.skip(3) =~= rest);
            assert(e[1] == hex_upper((b[0] / 16) as int));
            assert(e[2] == hex_upper((b[0] % 16) as int));
            assert(read_hex_pair(e[1] as char, e[2] as char) == Some(b[0]));
        }
    } else {
        assert(percent_decoded(Seq::empty()) == Some(Seq::<u8>::empty()));
        assert(b =~= Seq::empty());
    }
}

/// Replaces each percent triple by the byte that it writes.
pub fn percent_decode(bytes: &[u8]) -> (r: Option<Vec<u8>>)
    ensures
        r is Some <==> percent_decoded(bytes@) is Some,
        r matches Some(out) ==> out@ == percent_decoded(bytes@)->0,
{
    let mut out: Vec<u8> = Vec::new();
    let mut i: usize = 0;
    assert(bytes@.skip(0) =~= bytes@);
    while i < bytes.len()
        invariant
            i <= bytes.len(),
            percent_decoded(bytes@) is Some <==> percent_decoded(bytes@.skip(i as int)) is Some,
            percent_decoded(bytes@.skip(i as int)) matches Some(rest) ==> percent_decoded(bytes@)
                == Some(out@ + rest),
        decreases bytes.len() - i,
    {
        let ghost rest = bytes@.skip(i as int);
        if bytes[i] == 0x25 && bytes.len() - i > 2 {
            assert(rest.skip(3) =~= bytes@.skip(i + 3));
            match hex_pair(bytes[i + 1] as char, bytes[i + 2] as char) {
                Some(v) => {
                    let ghost so_far = out@;
                    out.push(v);
                    assert forall|r: Seq<u8>| #[trigger] (out@ + r) == so_far + (seq![v] + r) by {
                        assert(out@ + r =~= so_far + (seq![v] + r));
                    }
                    i += 3;
                },
                None => {
                    return None;
                },
            }
        } else {
            assert(rest.skip(1) =~= bytes@.skip(i + 1));
            let ghost so_far = out@;
            out.push(bytes[i]);
            assert forall|r: Seq<u8>| #[trigger] (out@ + r) == so_far + (seq![rest[0]] + r) by {
                assert(out@ + r =~= so_far + (seq![rest[0]] + r));
            }
            i += 1;
        }
    }
    assert(out@ + Seq::<u8>::empty() =~= out@);
    Some(out)
}

/// The path of the URL `file://host/path`: what follows the host, with its
/// percent triples decoded, where that is UTF-8.
pub open spec fn file_url_path(url: Seq<char>) -> Option<Seq<char>> {
    if "file://"@.is_prefix_of(url) {
        let rest = url.skip("file://"@.len() as int);
        let n = find(rest, '/');
        if n < rest.len() {
            match percent_decoded(encode_utf8(rest.skip(n))) {
                Some(out) => if valid_utf8(out) {
                    Some(decode_utf8(out))
                } else {
                    None
                },
                None => None,
            }
        } else {
            None
        }
    } else {
        None
    }
}

/// `file://host/path` to the decoded path.
pub fn parse_file_url(url: &[char]) -> (r: Option<String>)
    ensures
        r is Some <==> file_url_path(url@) is Some,
        r matches Some(path) ==> path@ == file_url_path(url@)->0,
{
    let rest = match strip_prefix(url, "file://") {
        Some(rest) => rest,
        None => {
            return None;
        },
    };
    let n = find_char(rest, '/');
    if n >= rest.len() {
        return None;
    }
    let path = string_of(slice_subrange(rest, n, rest.len()));
    match percent_decode(path.as_str().as_bytes()) {
        Some(out) => match std::str::from_utf8(out.as_slice()) {
            Ok(s) => Some(string_of(chars_of(s).as_slice())),
            Err(_) => None,
        },
        None => None,
    }
}

/// The command line `s` in the escaping of OSC 633;E: a backslash is doubled,
/// a semicolon is written `\x3b` and a newline `\x0a`.
pub open spec fn escape_633(s: Seq<char>) -> Seq<char>
    decreases s.len(),
{
    if s.len() == 0 {
        Seq::empty()
    } else {
        let c = s[0];
        let head = if c == '\\' {
            seq!['\\', '\\']
        } else if c == ';' {
            seq!['\\', 'x', '3', 'b']
        } else if c == '\n' {
            seq!['\\', 'x', '0', 'a']
        } else {
            seq![c]
        };
        head + escape_633(s.skip(1))
    }
}

/// The text that `s` escapes: `\\` is a backslash, `\xHH` the character of that
/// code. An escape with bad digits is dropped, one cut short drops the rest; a
/// backslash before anything else stands for itself.
pub open spec fn decode_633_text(s: Seq<char>) -> Seq<char>
    decreases s.len(),
{
    if s.len() == 0 {
        Seq::empty()
    } else if s[0] != '\\' {
        seq![s[0]] + decode_633_text(s.skip(1))
    } else if s.len() == 1 {
        seq!['\\']
    } else if s[1] == '\\' {
        seq!['\\'] + decode_633_text(s.skip(2))
    } else if s[1] == 'x' {
        if s.len() < 4 {
            Seq::empty()
        } else {
            match read_hex_pair(s[2], s[3]) {
                Some(b) => seq![b as char] + decode_633_text(s.skip(4)),
                None => decode_633_text(s.skip(4)),
            }
        }
    } else {
        seq!['\\', s[1]] + decode_633_text(s.skip(2))
    }
}

/// Decoding gives back every command line that was escaped, and an escaped
/// command line holds no semicolon that could end it early.
pub proof fn lemma_633_round_trip(s: Seq<char>)
    ensures
        decode_633_text(escape_633(s)) == s,
        find(escape_633(s), ';') == escape_633(s).len(),
        before(escape_633(s), ';') == escape_633(s),
    decreases s.len(),
{
    let e = escape_633(s);
    if s.len() > 0 {
        let rest = escape_633(s.skip(1));
        lemma_633_round_trip(s.skip(1));
        lemma_find(rest, ';');
        assert(seq![s[0]] + s.skip(1) =~= s);
        if s[0] == '\\' {
            assert(e =~= seq!['\\', '\\'] + rest);
            assert(e.skip(2) =~= rest);
        } else if s[0] == ';' {
            assert(e =~= seq!['\\', 'x', '3', 'b'] + rest);
            assert(e.skip(4) =~= rest);
            assert(read_hex_pair('3', 'b') == Some(0x3bu8));
        } else if s[0] == '\n' {
            assert(e =~= seq!['\\', 'x', '0', 'a'] + rest);
            assert(e.skip(4) =~= rest);
            assert(read_hex_pair('0', 'a') == Some(0x0au8));
        } else {
            assert(e =~= seq![s[0]] + rest);
            assert(e.skip(1) =~= rest);
        }
        assert forall|i: int| 0 <= i < e.len() implies e[i] != ';' by {
            let k = e.len() - rest.len();
            if i >= k {
                assert(e[i] == rest[i - k]);
            }
        }
        crate::text::lemma_find_unique(e, ';', e.len() as int);
    } else {
        assert(s =~= Seq::empty());
    }
    assert(e.take(e.len() as int) =~= e);
}

/// Undo VS Code 633;E escaping: `\\` and `\x3b` (`;`) and `\x0a` (newline).
pub fn decode_633(cs: &[char]) -> (s: String)
    ensures
        s@ == decode_633_text(cs@),
{
    let mut out = String::new();
    let mut i: usize = 0;
    let n = cs.len();
    assert(cs@.skip(0) =~= cs@);
    assert(out@ + decode_633_text(cs@) =~= decode_633_text(cs@));
    while i < n
        invariant
            i <= n,
            n == cs.len(),
            out@ + decode_633_text(cs@.skip(i as int)) == decode_633_text(cs@),
        decreases n - i,
    {
        let ghost rest = cs@.skip(i as int);
        let ghost so_far = out@;
        let c = cs[i];
        if c != '\\' {
            out.push(c);
            i += 1;
            assert(rest.skip(1) =~= cs@.skip(i as int));
        } else if i + 1 == n {
            out.push('\\');
            i += 1;
            assert(decode_633_text(cs@.skip(i as int)) =~= Seq::empty());
        } else if cs[i + 1] == '\\' {
            out.push('\\');
            i += 2;
            assert(rest.skip(2) =~= cs@.skip(i as int));
        } else if cs[i + 1] == 'x' {
            if n - i < 4 {
                i = n;
                assert(cs@.skip(i as int) =~= Seq::empty());
            } else {
                assert(rest.skip(4) =~= cs@.skip(i + 4));
                match hex_pair(cs[i + 2], cs[i + 3]) {
                    Some(b) => {
                        out.push(b as char);
                    },
                    None => {},
                }
                i += 4;
            }
        } else {
            out.push('\\');
            out.push(cs[i + 1]);
            i += 2;
            assert(rest.skip(2) =~= cs@.skip(i as int));
        }
        assert(out@ + decode_633_text(cs@.skip(i as int)) =~= so_far + decode_633_text(rest));
    }
    assert(cs@.skip(i as int) =~= Seq::empty());
    assert(out@ + Seq::<char>::empty() =~= out@);
    out
}

/// The exit code at the start of the argument of a D mark, where it is one.
pub open spec fn read_exit_code(arg: Option<Seq<char>>) -> Option<i32> {
    match arg {
        Some(a) => read_i32(before(a, ';')),
        None => None,
    }
}

/// Reads the exit code at the start of the argument of a D mark.
pub fn exit_code(arg: Option<&[char]>) -> (r: Option<i32>)
    ensures
        r == (match arg {
            Some(a) => read_exit_code(Some(a@)),
            None => None,
        }),
{
    match arg {
        Some(a) => parse_i32(split_first(a, ';').0),
        None => None,
    }
}

} // verus!
