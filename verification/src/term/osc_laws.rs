//! What holds of operating system commands: what a shell reports comes back as
//! it was meant.

use vstd::prelude::*;
#[allow(unused_imports)]
use vstd::utf8::{
    encode_utf8, encode_utf8_decode_utf8, encode_utf8_valid_utf8, is_ascii_chars,
    is_ascii_chars_encode_utf8,
};

#[allow(unused_imports)]
use super::model::{EventState, TermState};
#[allow(unused_imports)]
use crate::osc::{escape_633, lemma_633_round_trip, lemma_percent_round_trip, percent_encoded};
#[allow(unused_imports)]
use crate::text::{
    before, decimal, is_digit, lemma_decimal_reads, lemma_find_unique, lemma_no_split, lemma_split,
    read_i32,
};

verus! {

/// A title reported with OSC 0 or OSC 2 is the title, to the letter.
pub proof fn law_title_reported(s: TermState, title: Seq<char>, now: u64)
    ensures
        s.osc_text("0;"@ + title, now) == (TermState { title, ..s }).with_event(
            EventState::Title(title),
        ),
        s.osc_text("2;"@ + title, now) == (TermState { title, ..s }).with_event(
            EventState::Title(title),
        ),
{
    reveal_strlit("0");
    reveal_strlit("2");
    reveal_strlit("0;");
    reveal_strlit("2;");
    lemma_split("0"@, ';', title);
    lemma_split("2"@, ';', title);
    assert("0;"@ + title =~= "0"@ + seq![';'] + title);
    assert("2;"@ + title =~= "2"@ + seq![';'] + title);
}

/// What `s.osc_text` makes of the command with the code 633.
proof fn lemma_633(s: TermState, rest: Seq<char>, now: u64)
    ensures
        s.osc_text("633;"@ + rest, now) == s.vscode(rest, now),
{
    reveal_strlit("0");
    reveal_strlit("2");
    reveal_strlit("7");
    reveal_strlit("133");
    reveal_strlit("633");
    reveal_strlit("633;");
    lemma_split("633"@, ';', rest);
    assert("633;"@ + rest =~= "633"@ + seq![';'] + rest);
    assert("633"@ != "0"@ && "633"@ != "2"@ && "633"@ != "7"@) by {
        assert("633"@.len() == 3);
    }
    assert("633"@[0] != "133"@[0]);
}

/// What `s.osc_text` makes of the command with the code 133.
proof fn lemma_133(s: TermState, rest: Seq<char>, now: u64)
    ensures
        s.osc_text("133;"@ + rest, now) == s.semantic(rest, now),
{
    reveal_strlit("0");
    reveal_strlit("2");
    reveal_strlit("7");
    reveal_strlit("133");
    reveal_strlit("133;");
    lemma_split("133"@, ';', rest);
    assert("133;"@ + rest =~= "133"@ + seq![';'] + rest);
    assert("133"@ != "0"@ && "133"@ != "2"@ && "133"@ != "7"@) by {
        assert("133"@.len() == 3);
    }
}

/// A command line reported with OSC 633;E, escaped as the protocol has it, is
/// the command line of the next block, to the letter: semicolons, newlines and
/// backslashes included.
pub proof fn law_command_reported(s: TermState, cmd: Seq<char>, now: u64)
    ensures
        s.osc_text("633;"@ + ("E;"@ + escape_633(cmd)), now) == (TermState {
            blocks: s.blocks.with_pending(cmd),
            ..s
        }),
{
    let arg = escape_633(cmd);
    lemma_633(s, "E;"@ + arg, now);
    reveal_strlit("E");
    reveal_strlit("E;");
    lemma_split("E"@, ';', arg);
    assert("E;"@ + arg =~= "E"@ + seq![';'] + arg);
    lemma_633_round_trip(cmd);
}

/// OSC 133;C and OSC 633;C both start a block.
pub proof fn law_command_starts(s: TermState, now: u64)
    ensures
        s.osc_text("133;"@ + "C"@, now) == s.command_started(now),
        s.osc_text("633;"@ + "C"@, now) == s.command_started(now),
{
    reveal_strlit("C");
    reveal_strlit("E");
    reveal_strlit("P");
    lemma_133(s, "C"@, now);
    lemma_633(s, "C"@, now);
    lemma_no_split("C"@, ';');
    assert("C"@[0] != "E"@[0] && "C"@[0] != "P"@[0]);
}

/// The marks A to D of OSC 633 are aliases of those of OSC 133, whatever stands
/// behind them.
pub proof fn law_marks_are_aliases(s: TermState, rest: Seq<char>, now: u64)
    requires
        ({
            let mark = before(rest, ';');
            mark == "A"@ || mark == "B"@ || mark == "C"@ || mark == "D"@
        }),
    ensures
        s.vscode(rest, now) == s.semantic(rest, now),
        s.osc_text("633;"@ + rest, now) == s.osc_text("133;"@ + rest, now),
{
    reveal_strlit("A");
    reveal_strlit("B");
    reveal_strlit("C");
    reveal_strlit("D");
    reveal_strlit("E");
    reveal_strlit("P");
    let mark = before(rest, ';');
    assert(mark[0] == 'A' || mark[0] == 'B' || mark[0] == 'C' || mark[0] == 'D');
    assert("E"@[0] == 'E' && "P"@[0] == 'P' && "C"@[0] == 'C' && "D"@[0] == 'D');
    lemma_633(s, rest, now);
    lemma_133(s, rest, now);
}

/// The decimal digits of a signed number.
pub open spec fn signed_decimal(v: i32) -> Seq<char> {
    if v < 0 {
        seq!['-'] + decimal((-(v as int)) as nat)
    } else {
        decimal(v as nat)
    }
}

proof fn lemma_signed_reads(v: i32)
    ensures
        read_i32(signed_decimal(v)) == Some(v),
        forall|i: int| 0 <= i < signed_decimal(v).len() ==> signed_decimal(v)[i] != ';',
{
    let t = signed_decimal(v);
    if v < 0 {
        let n = (-(v as int)) as nat;
        lemma_decimal_reads(n);
        assert(t.skip(1) =~= decimal(n));
    } else {
        lemma_decimal_reads(v as nat);
        assert(is_digit(t[0]));
    }
    assert forall|i: int| 0 <= i < t.len() implies t[i] != ';' by {
        if v < 0 && i > 0 {
            assert(is_digit(decimal((-(v as int)) as nat)[i - 1]));
        } else if v >= 0 {
            assert(is_digit(decimal(v as nat)[i]));
        }
    }
}

/// An exit code reported with OSC 133;D or OSC 633;D ends the running block
/// with that code.
pub proof fn law_exit_reported(s: TermState, exit: i32, now: u64)
    ensures
        s.osc_text("133;"@ + ("D;"@ + signed_decimal(exit)), now) == s.command_finished(
            Some(exit),
            now,
        ),
        s.osc_text("633;"@ + ("D;"@ + signed_decimal(exit)), now) == s.command_finished(
            Some(exit),
            now,
        ),
{
    let code = signed_decimal(exit);
    let rest = "D;"@ + code;
    reveal_strlit("C");
    reveal_strlit("D");
    reveal_strlit("D;");
    reveal_strlit("E");
    reveal_strlit("P");
    lemma_133(s, rest, now);
    lemma_633(s, rest, now);
    lemma_split("D"@, ';', code);
    assert(rest =~= "D"@ + seq![';'] + code);
    lemma_signed_reads(exit);
    lemma_no_split(code, ';');
    assert("D"@[0] != "C"@[0] && "D"@[0] != "E"@[0] && "D"@[0] != "P"@[0]);
}

/// The characters of ASCII bytes.
pub open spec fn ascii_chars(b: Seq<u8>) -> Seq<char> {
    Seq::new(b.len(), |i: int| b[i] as char)
}

proof fn lemma_encoded_is_ascii(b: Seq<u8>, keep: Set<u8>)
    requires
        forall|k: u8| keep.contains(k) ==> k < 0x80,
    ensures
        forall|i: int|
            0 <= i < percent_encoded(b, keep).len() ==> #[trigger] percent_encoded(b, keep)[i]
                < 0x80,
    decreases b.len(),
{
    if b.len() > 0 {
        let e = percent_encoded(b, keep);
        let rest = percent_encoded(b.skip(1), keep);
        lemma_encoded_is_ascii(b.skip(1), keep);
        assert forall|i: int| 0 <= i < e.len() implies #[trigger] e[i] < 0x80 by {
            let k = e.len() - rest.len();
            if i >= k {
                assert(e[i] == rest[i - k]);
            }
        }
    }
}

/// A directory reported with OSC 7, as a file URL with whatever is not plain
/// percent-encoded, is the working directory, to the letter. Which ASCII
/// characters the shell leaves plain is up to it.
pub proof fn law_directory_reported(
    s: TermState,
    host: Seq<char>,
    path: Seq<char>,
    keep: Set<u8>,
    now: u64,
)
    requires
        forall|i: int| 0 <= i < host.len() ==> host[i] != '/',
        path.len() > 0,
        path[0] == '/',
        keep.contains(0x2f),
        forall|k: u8| keep.contains(k) ==> k < 0x80,
    ensures
        s.osc_text(
            "7;"@ + ("file://"@ + host + ascii_chars(percent_encoded(encode_utf8(path), keep))),
            now,
        ) == s.cwd_changed(path),
{
    let bytes = percent_encoded(encode_utf8(path), keep);
    let tail = ascii_chars(bytes);
    let url = "file://"@ + host + tail;
    reveal_strlit("0");
    reveal_strlit("2");
    reveal_strlit("7");
    reveal_strlit("7;");
    lemma_split("7"@, ';', url);
    assert("7;"@ + url =~= "7"@ + seq![';'] + url);
    assert("7"@[0] != "0"@[0] && "7"@[0] != "2"@[0]);
    // The path starts where the host ends.
    assert(encode_utf8(path)[0] == 0x2f) by {
        assert('/' as u32 == 0x2f);
        assert(0x2fu32 & 0x7f == 0x2f) by (bit_vector);
        assert(vstd::utf8::encode_scalar(0x2f)[0] == 0x2f);
    }
    assert(bytes[0] == 0x2f);
    let rest = host + tail;
    assert(url.skip("file://"@.len() as int) =~= rest);
    assert(url.subrange(0, "file://"@.len() as int) =~= "file://"@);
    assert(rest[host.len() as int] == '/');
    assert forall|i: int| 0 <= i < host.len() implies rest[i] != '/' by {
        assert(rest[i] == host[i]);
    }
    lemma_find_unique(rest, '/', host.len() as int);
    assert(rest.skip(host.len() as int) =~= tail);
    // Its bytes are the encoded ones.
    lemma_encoded_is_ascii(encode_utf8(path), keep);
    assert(is_ascii_chars(tail));
    is_ascii_chars_encode_utf8(tail);
    assert(encode_utf8(tail) =~= bytes);
    lemma_percent_round_trip(encode_utf8(path), keep);
    encode_utf8_valid_utf8(path);
    encode_utf8_decode_utf8(path);
}

/// A directory that is reported is the working directory, and is announced.
pub proof fn law_directory_is_kept(s: TermState, path: Seq<char>)
    ensures
        s.cwd_changed(path).cwd == Some(path),
        s.events.len() < 1024 ==> s.cwd_changed(path) == (TermState {
            cwd: Some(path),
            events: s.events.push(EventState::CwdChanged(path)),
            ..s
        }),
{
}

/// The directory can be reported with OSC 633;P;Cwd= too, as it is.
pub proof fn law_directory_reported_plainly(s: TermState, path: Seq<char>, now: u64)
    ensures
        s.osc_text("633;"@ + ("P;"@ + ("Cwd="@ + path)), now) == s.cwd_changed(path),
{
    let arg = "Cwd="@ + path;
    lemma_633(s, "P;"@ + arg, now);
    reveal_strlit("E");
    reveal_strlit("P");
    reveal_strlit("P;");
    reveal_strlit("Cwd=");
    lemma_split("P"@, ';', arg);
    assert("P;"@ + arg =~= "P"@ + seq![';'] + arg);
    assert("P"@[0] != "E"@[0]);
    assert(arg.subrange(0, "Cwd="@.len() as int) =~= "Cwd="@);
    assert(arg.skip("Cwd="@.len() as int) =~= path);
}

/// A command that ends without an exit code, or with one that is no number,
/// ends all the same, with none.
pub proof fn law_exit_without_code(s: TermState, word: Seq<char>, now: u64)
    requires
        word.len() > 0,
        !is_digit(word[0]) && word[0] != '-' && word[0] != '+' && word[0] != ';',
    ensures
        s.osc_text("133;"@ + "D"@, now) == s.command_finished(None, now),
        s.osc_text("133;"@ + ("D;"@ + word), now) == s.command_finished(None, now),
{
    reveal_strlit("C");
    reveal_strlit("D");
    reveal_strlit("D;");
    lemma_133(s, "D"@, now);
    lemma_133(s, "D;"@ + word, now);
    lemma_no_split("D"@, ';');
    lemma_split("D"@, ';', word);
    assert("D;"@ + word =~= "D"@ + seq![';'] + word);
    assert("D"@[0] != "C"@[0]);
    crate::text::lemma_find(word, ';');
    assert(before(word, ';')[0] == word[0]);
}

/// Marks of OSC 133 other than C and D do nothing; nor does a command with a
/// code that is not known.
pub proof fn law_other_commands(s: TermState, rest: Seq<char>, text: Seq<char>, now: u64)
    ensures
        before(rest, ';') != "C"@ && before(rest, ';') != "D"@ ==> s.osc_text(
            "133;"@ + rest,
            now,
        ) == s,
        ({
            let code = before(text, ';');
            code != "0"@ && code != "2"@ && code != "7"@ && code != "10"@ && code != "11"@ && code
                != "133"@ && code != "633"@
        }) ==> s.osc_text(text, now) == s,
{
    lemma_133(s, rest, now);
}

} // verus!
