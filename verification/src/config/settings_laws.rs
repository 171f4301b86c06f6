//! What holds of the settings: each line sets what it names, to what it says,
//! and nothing else.

use vstd::prelude::*;

#[allow(unused_imports)]
use super::{comment_start, read_color, without_hashes, ConfigState, Rgb};
#[allow(unused_imports)]
use crate::stdx::white_space;
#[allow(unused_imports)]
use crate::text::laws::law_trim;
#[allow(unused_imports)]
use crate::text::{
    decimal, hex_value, is_digit, lemma_decimal_reads, lemma_no_split, lemma_split,
    read_unsigned, trim, trim_end,
};

verus! {

/// A hexadecimal digit, in small letters or in capitals.
pub open spec fn hex_char(d: int, capital: bool) -> char {
    if d < 10 {
        (0x30 + d) as char
    } else if capital {
        (0x41 + d - 10) as char
    } else {
        (0x61 + d - 10) as char
    }
}

/// A color as it is written: six hexadecimal digits.
pub open spec fn color_text(c: Rgb, capital: bool) -> Seq<char> {
    seq![
        hex_char(c.r as int / 16, capital),
        hex_char(c.r as int % 16, capital),
        hex_char(c.g as int / 16, capital),
        hex_char(c.g as int % 16, capital),
        hex_char(c.b as int / 16, capital),
        hex_char(c.b as int % 16, capital),
    ]
}

proof fn lemma_hex_char(d: int, capital: bool)
    requires
        0 <= d < 16,
    ensures
        hex_value(hex_char(d, capital)) == Some(d as u8),
        hex_char(d, capital) != '+',
        hex_char(d, capital) != '#',
        hex_char(d, capital) != '=',
        !white_space(hex_char(d, capital)),
{
}

/// Text without white space at its ends is not trimmed.
proof fn lemma_trimmed(s: Seq<char>)
    requires
        s.len() > 0,
        !white_space(s[0]),
        !white_space(s.last()),
    ensures
        trim(s) == s,
        trim_end(s) == s,
{
}

/// Every color can be written: six hexadecimal digits, small or capital, two
/// for each of red, green and blue, with a number sign in front or without.
pub proof fn law_colors_are_read(c: Rgb, capital: bool)
    ensures
        read_color(color_text(c, capital)) == Some(c),
        read_color(seq!['#'] + color_text(c, capital)) == Some(c),
{
    let t = color_text(c, capital);
    lemma_hex_char(c.r as int / 16, capital);
    lemma_hex_char(c.r as int % 16, capital);
    lemma_hex_char(c.g as int / 16, capital);
    lemma_hex_char(c.g as int % 16, capital);
    lemma_hex_char(c.b as int / 16, capital);
    lemma_hex_char(c.b as int % 16, capital);
    lemma_trimmed(t);
    let h = seq!['#'] + t;
    lemma_trimmed(h);
    assert(h.drop_first() =~= t);
    assert(without_hashes(t) == t);
    assert(without_hashes(h) == t) by {
        reveal_with_fuel(without_hashes, 2);
    }
}

/// The names of the settings are all different.
proof fn lemma_names()
    ensures
        "font_size"@.len() == 9,
        "font"@.len() == 4,
        "shell"@.len() == 5,
        "scrollback"@.len() == 10,
        "padding"@.len() == 7 && "padding"@[2] == 'd',
        "palette"@.len() == 7 && "palette"@[2] == 'l' && "palette"@[0] == 'p',
        "allow_agent_exec"@.len() == 16,
        "fg"@.len() == 2 && "fg"@[0] == 'f',
        "bg"@.len() == 2 && "bg"@[0] == 'b',
        "cursor"@.len() == 6,
        "font_size"@[0] == 'f',
        "scrollback"@[0] == 's',
        "palette"@ == seq!['p', 'a', 'l', 'e', 't', 't', 'e'],
{
    reveal_strlit("font_size");
    reveal_strlit("font");
    reveal_strlit("shell");
    reveal_strlit("scrollback");
    reveal_strlit("padding");
    reveal_strlit("palette");
    reveal_strlit("allow_agent_exec");
    reveal_strlit("fg");
    reveal_strlit("bg");
    reveal_strlit("cursor");
    assert("palette"@ =~= seq!['p', 'a', 'l', 'e', 't', 't', 'e']);
}

/// `fg`, `bg` and `cursor` each set their color and nothing else; what is no
/// color sets nothing.
pub proof fn law_color_settings(c: ConfigState, value: Seq<char>, color: Rgb)
    ensures
        read_color(value) == Some(color) ==> c.with("fg"@, value) == (ConfigState {
            fg: color,
            ..c
        }),
        read_color(value) == Some(color) ==> c.with("bg"@, value) == (ConfigState {
            bg: color,
            ..c
        }),
        read_color(value) == Some(color) ==> c.with("cursor"@, value) == (ConfigState {
            cursor: color,
            ..c
        }),
        read_color(value) is None ==> c.with("fg"@, value) == c && c.with("bg"@, value) == c
            && c.with("cursor"@, value) == c,
{
    lemma_names();
}

/// `font` and `shell` are paths, taken as they are; `scrollback` is a number of
/// lines, and what is no number sets nothing; `font_size` and `padding` are kept
/// in their order. Each sets nothing else.
pub proof fn law_other_settings(c: ConfigState, value: Seq<char>, n: nat)
    requires
        n <= usize::MAX,
    ensures
        c.with("font"@, value) == (ConfigState { font_path: Some(value), ..c }),
        c.with("shell"@, value) == (ConfigState { shell: Some(value), ..c }),
        c.with("scrollback"@, decimal(n)) == (ConfigState { scrollback: n as int, ..c }),
        read_unsigned(value, usize::MAX as nat) is None ==> c.with("scrollback"@, value) == c,
        c.with("font_size"@, value) == (ConfigState { font_size: c.font_size.push(value), ..c }),
        c.with("padding"@, value) == (ConfigState { padding: c.padding.push(value), ..c }),
        c.with("allow_agent_exec"@, value) == (ConfigState {
            allow_agent_exec: value != "false"@,
            ..c
        }),
{
    lemma_names();
    lemma_decimal_reads(n);
    assert(is_digit(decimal(n)[0]));
}

/// `palette0` to `palette15` each set the color of their number and nothing
/// else; there is no other.
pub proof fn law_palette_settings(c: ConfigState, n: nat, value: Seq<char>, color: Rgb)
    requires
        c.wf(),
        n <= usize::MAX,
        read_color(value) == Some(color),
    ensures
        n < 16 ==> c.with("palette"@ + decimal(n), value) == (ConfigState {
            palette: c.palette.update(n as int, color),
            ..c
        }),
        n >= 16 ==> c.with("palette"@ + decimal(n), value) == c,
{
    let key = "palette"@ + decimal(n);
    lemma_names();
    lemma_decimal_reads(n);
    assert(is_digit(decimal(n)[0]));
    assert(key.skip(7) =~= decimal(n));
    assert(key.subrange(0, 7) =~= "palette"@);
    assert(key[0] == 'p');
    reveal_strlit("font_size");
    reveal_strlit("scrollback");
    reveal_strlit("allow_agent_exec");
    assert("allow_agent_exec"@[0] == 'a');
}

/// A key that is not known sets nothing.
pub proof fn law_unknown_settings(c: ConfigState, key: Seq<char>, value: Seq<char>)
    requires
        key != "font_size"@ && key != "font"@ && key != "shell"@ && key != "scrollback"@ && key
            != "padding"@ && key != "allow_agent_exec"@ && key != "fg"@ && key != "bg"@ && key
            != "cursor"@,
        !"palette"@.is_prefix_of(key),
    ensures
        c.with(key, value) == c,
{
}

/// A line `key = value` sets the key to the value, whatever white space stands
/// around the two, and so does one without white space.
pub proof fn law_line_sets(
    c: ConfigState,
    key: Seq<char>,
    value: Seq<char>,
    before_key: Seq<char>,
    around: Seq<char>,
    end: Seq<char>,
)
    requires
        key.len() > 0,
        key[0] != '#',
        forall|i: int| 0 <= i < key.len() ==> #[trigger] key[i] != '=' && !white_space(key[i]),
        value.len() > 0,
        !white_space(value[0]),
        !white_space(value.last()),
        comment_start(value, 0) == value.len(),
        blank(before_key),
        blank(around),
        blank(end),
    ensures
        c.with_line(before_key + key + around + seq!['='] + around + value + end) == c.with(
            key,
            value,
        ),
{
    let line = before_key + key + around + seq!['='] + around + value + end;
    let head = key + around;
    let tail = around + value;
    let t = head + seq!['='] + tail;
    assert(line =~= before_key + t + end);
    assert(t[0] == key[0] && !white_space(key[0]));
    assert(t.last() == value.last());
    law_trim(before_key, t, end);
    assert forall|i: int| 0 <= i < head.len() implies head[i] != '=' by {
        if i < key.len() {
            assert(head[i] == key[i]);
        } else {
            assert(head[i] == around[i - key.len()]);
            assert(white_space(around[i - key.len()]));
        }
    }
    lemma_split(head, '=', tail);
    assert(!white_space(key[key.len() - 1]));
    assert(head =~= Seq::empty() + key + around);
    law_trim(Seq::empty(), key, around);
    assert(tail =~= around + value + Seq::empty());
    law_trim(around, value, Seq::empty());
    lemma_trimmed(value);
    assert(value.take(value.len() as int) =~= value);
}

/// There is nothing but white space in `s`.
pub open spec fn blank(s: Seq<char>) -> bool {
    forall|i: int| 0 <= i < s.len() ==> white_space(#[trigger] s[i])
}

/// The lines of a config are read one after the other, from the first to the
/// last; so of two that set the same the later one counts.
pub proof fn law_lines_in_order(c: ConfigState, line: Seq<char>, rest: Seq<char>)
    requires
        forall|i: int| 0 <= i < line.len() ==> line[i] != '\n',
    ensures
        c.with_text(line + seq!['\n'] + rest) == c.with_line(line).with_text(rest),
        c.with_text(line) == c.with_line(line),
{
    lemma_split(line, '\n', rest);
    lemma_no_split(line, '\n');
}

/// A color as one number: red, green and blue in the bytes from the third on.
pub open spec fn packed(c: Rgb) -> int {
    c.r as int * 0x10000 + c.g as int * 0x100 + c.b as int
}

/// The defaults: 10000 lines of scrollback, agents may type, the colors of the
/// dark theme, and nothing set of font, shell and padding.
pub proof fn law_defaults()
    ensures
        ({
            let d = ConfigState::defaults();
            &&& d.scrollback == 10000
            &&& d.allow_agent_exec
            &&& d.font_size.len() == 0 && d.padding.len() == 0
            &&& d.font_path is None && d.shell is None
            &&& packed(d.fg) == 0xd6dbe1
            &&& packed(d.bg) == 0x0e1116
            &&& packed(d.cursor) == 0xffb454
            &&& d.palette.len() == 16
            &&& d.palette.map_values(|c: Rgb| packed(c)) == seq![
                0x1c2128int,
                0xe86c75,
                0x8fc87f,
                0xe5c07b,
                0x6cb2f0,
                0xc792ea,
                0x66c7c4,
                0xd6dbe1,
                0x49525e,
                0xf28779,
                0xa5d696,
                0xf0d197,
                0x8ac4f2,
                0xd8aaf2,
                0x85d5d2,
                0xf0f2f5,
            ]
        }),
{
    let d = ConfigState::defaults();
    let p = d.palette.map_values(|c: Rgb| packed(c));
    assert(p.len() == 16);
    assert(p =~= seq![
        0x1c2128int,
        0xe86c75,
        0x8fc87f,
        0xe5c07b,
        0x6cb2f0,
        0xc792ea,
        0x66c7c4,
        0xd6dbe1,
        0x49525e,
        0xf28779,
        0xa5d696,
        0xf0d197,
        0x8ac4f2,
        0xd8aaf2,
        0x85d5d2,
        0xf0f2f5,
    ]);
}

/// What does not have six digits is no color, nor is what has anything else
/// among them.
pub proof fn law_other_text_is_no_color(s: Seq<char>, i: int)
    requires
        0 < i < s.len(),
        !white_space(s[0]),
        !white_space(s.last()),
        s[0] != '#',
    ensures
        s.len() != 6 ==> read_color(s) is None,
        hex_value(s[i]) is None ==> read_color(s) is None,
{
    lemma_trimmed(s);
    assert(without_hashes(s) == s);
}

/// Several number signs before a color are as good as none.
pub proof fn law_number_signs_before_a_color(s: Seq<char>)
    requires
        s.len() > 0,
        !white_space(s[0]),
        !white_space(s.last()),
    ensures
        read_color(seq!['#'] + s) == read_color(s),
{
    let h = seq!['#'] + s;
    lemma_trimmed(s);
    assert(h[0] == '#' && h.last() == s.last());
    lemma_trimmed(h);
    assert(h.drop_first() =~= s);
}

} // verus!
