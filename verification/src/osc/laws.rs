//! What holds of the escapes in what the shell reports.

use vstd::prelude::*;

#[allow(unused_imports)]
use super::{decode_633_text, file_url_path, percent_decoded};
#[allow(unused_imports)]
use crate::text::{lemma_find_unique, read_hex_pair};

verus! {

/// A command line is read from its start: a plain character is itself, a double
/// backslash is one, and `\\x` with two hexadecimal digits is the character of
/// that code.
pub proof fn law_escapes_are_read(c: char, hi: char, lo: char, v: u8, rest: Seq<char>)
    requires
        read_hex_pair(hi, lo) == Some(v),
    ensures
        c != '\\' ==> decode_633_text(seq![c] + rest) == seq![c] + decode_633_text(rest),
        decode_633_text(seq!['\\', '\\'] + rest) == seq!['\\'] + decode_633_text(rest),
        decode_633_text(seq!['\\', 'x', hi, lo] + rest) == seq![v as char] + decode_633_text(rest),
{
    assert((seq![c] + rest).skip(1) =~= rest);
    assert((seq!['\\', '\\'] + rest).skip(2) =~= rest);
    assert((seq!['\\', 'x', hi, lo] + rest).skip(4) =~= rest);
}

/// What is no escape: one with digits that are none is dropped, one that is cut
/// short drops what is left, and a backslash before anything else, or at the
/// end, stands for itself.
pub proof fn law_broken_escapes(c: char, hi: char, lo: char, rest: Seq<char>)
    requires
        read_hex_pair(hi, lo) is None,
        c != 'x',
        c != '\\',
    ensures
        decode_633_text(seq!['\\', 'x', hi, lo] + rest) == decode_633_text(rest),
        decode_633_text(seq!['\\', 'x', hi]) == Seq::<char>::empty(),
        decode_633_text(seq!['\\', 'x']) == Seq::<char>::empty(),
        decode_633_text(seq!['\\', c] + rest) == seq!['\\', c] + decode_633_text(rest),
        decode_633_text(seq!['\\']) == seq!['\\'],
{
    assert((seq!['\\', 'x', hi, lo] + rest).skip(4) =~= rest);
    assert((seq!['\\', c] + rest).skip(2) =~= rest);
}

/// A percent sign and two hexadecimal digits are a byte, whatever stands around
/// them; with anything else behind it, it spoils the whole, but in one of the
/// last two places it stands for itself.
pub proof fn law_percent_signs(hi: u8, lo: u8, v: u8, rest: Seq<u8>, last: u8)
    requires
        last != 0x25,
    ensures
        read_hex_pair(hi as char, lo as char) == Some(v) ==> percent_decoded(
            seq![0x25u8, hi, lo] + rest,
        ) == (match percent_decoded(rest) {
            Some(out) => Some(seq![v] + out),
            None => None,
        }),
        read_hex_pair(hi as char, lo as char) is None ==> percent_decoded(
            seq![0x25u8, hi, lo] + rest,
        ) is None,
        percent_decoded(seq![0x25u8]) == Some(seq![0x25u8]),
        percent_decoded(seq![0x25u8, last]) == Some(seq![0x25u8, last]),
        percent_decoded(seq![last]) == Some(seq![last]),
{
    reveal_with_fuel(percent_decoded, 3);
    assert((seq![0x25u8, hi, lo] + rest).skip(3) =~= rest);
    assert(seq![0x25u8].skip(1) =~= Seq::empty());
    assert(seq![last].skip(1) =~= Seq::empty());
    assert(seq![0x25u8, last].skip(1) =~= seq![last]);
    assert(seq![0x25u8] + Seq::<u8>::empty() =~= seq![0x25u8]);
    assert(seq![last] + Seq::<u8>::empty() =~= seq![last]);
    assert(seq![0x25u8] + seq![last] =~= seq![0x25u8, last]);
}

/// Only file URLs with a path are directories.
pub proof fn law_no_directory(url: Seq<char>, host: Seq<char>)
    requires
        forall|i: int| 0 <= i < host.len() ==> host[i] != '/',
    ensures
        !"file://"@.is_prefix_of(url) ==> file_url_path(url) is None,
        file_url_path("file://"@ + host) is None,
{
    let rest = ("file://"@ + host).skip("file://"@.len() as int);
    assert(rest =~= host);
    lemma_find_unique(host, '/', host.len() as int);
}

} // verus!
