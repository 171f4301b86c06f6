//! What holds of reading text.

use vstd::prelude::*;

#[allow(unused_imports)]
use super::{
    decimal, hex_value, is_digit, lemma_decimal_reads, read_hex_pair, read_i32, read_unsigned, trim,
    trim_end, trim_start,
};
#[allow(unused_imports)]
use crate::stdx::white_space;

verus! {

/// What is written in decimal is read as that number, with a plus sign before
/// it or without, up to the limit and not beyond it.
pub proof fn law_numbers_are_read(n: nat, max: nat)
    ensures
        n <= max ==> read_unsigned(decimal(n), max) == Some(n),
        n <= max ==> read_unsigned(seq!['+'] + decimal(n), max) == Some(n),
        n > max ==> read_unsigned(decimal(n), max) is None,
        n <= 0x7fff_ffff ==> read_i32(decimal(n)) == Some(n as i32),
        n <= 0x8000_0000 ==> read_i32(seq!['-'] + decimal(n)) == Some((-n) as i32),
        n > 0x7fff_ffff ==> read_i32(decimal(n)) is None,
        n > 0x8000_0000 ==> read_i32(seq!['-'] + decimal(n)) is None,
{
    lemma_decimal_reads(n);
    assert(is_digit(decimal(n)[0]));
    assert((seq!['+'] + decimal(n)).skip(1) =~= decimal(n));
    assert((seq!['-'] + decimal(n)).skip(1) =~= decimal(n));
}

/// What holds anything but digits is no number, nor is nothing, nor a sign
/// alone.
pub proof fn law_other_text_is_no_number(s: Seq<char>, max: nat, i: int)
    requires
        0 < i < s.len(),
        !is_digit(s[i]),
    ensures
        read_unsigned(s, max) is None,
        read_i32(s) is None,
        read_unsigned(Seq::empty(), max) is None,
        read_unsigned(seq!['+'], max) is None,
        read_i32(Seq::empty()) is None,
        read_i32(seq!['-']) is None,
{
    assert(s.skip(1)[i - 1] == s[i]);
    assert(seq!['+'].skip(1) =~= Seq::empty());
    assert(seq!['-'].skip(1) =~= Seq::empty());
}

/// Digits count tens: a number with a digit behind it is ten times as much and
/// that digit.
pub proof fn law_decimal(n: nat, d: nat)
    requires
        d < 10,
        n > 0,
    ensures
        decimal(10 * n + d) == decimal(n).push(('0' as u32 + d) as char),
        decimal(d) == seq![('0' as u32 + d) as char],
{
    assert((10 * n + d) / 10 == n && (10 * n + d) % 10 == d);
}

/// Two hexadecimal digits, small or capital, are a byte, the first one counting
/// sixteen.
pub proof fn law_hexadecimal(h: u8, l: u8, small: bool)
    requires
        h < 16,
        l < 16,
    ensures
        ({
            let a: u32 = if small {
                0x61
            } else {
                0x41
            };
            let hi = (if h < 10 {
                0x30 + h
            } else {
                a + h - 10
            }) as char;
            let lo = (if l < 10 {
                0x30 + l
            } else {
                a + l - 10
            }) as char;
            read_hex_pair(hi, lo) == Some((16 * h + l) as u8)
        }),
        hex_value('g') is None && hex_value('G') is None && hex_value('/') is None && hex_value(
            ':',
        ) is None && hex_value('@') is None && hex_value('`') is None,
{
}

/// Trimming takes the white space off both ends and leaves what lies between.
pub proof fn law_trim(a: Seq<char>, s: Seq<char>, b: Seq<char>)
    requires
        forall|i: int| 0 <= i < a.len() ==> white_space(#[trigger] a[i]),
        forall|i: int| 0 <= i < b.len() ==> white_space(#[trigger] b[i]),
        s.len() > 0,
        !white_space(s[0]),
        !white_space(s.last()),
    ensures
        trim(a + s + b) == s,
{
    lemma_trim_front(a, s + b);
    assert(a + s + b =~= a + (s + b));
    lemma_trim_back(s, b);
}

proof fn lemma_trim_front(a: Seq<char>, s: Seq<char>)
    requires
        forall|i: int| 0 <= i < a.len() ==> white_space(#[trigger] a[i]),
        s.len() > 0,
        !white_space(s[0]),
    ensures
        trim_start(a + s) == s,
    decreases a.len(),
{
    if a.len() > 0 {
        let rest = a.drop_first();
        assert((a + s)[0] == a[0] && white_space(a[0]));
        assert((a + s).drop_first() =~= rest + s);
        assert forall|i: int| 0 <= i < rest.len() implies white_space(#[trigger] rest[i]) by {
            assert(rest[i] == a[i + 1]);
        }
        lemma_trim_front(rest, s);
    } else {
        assert(a + s =~= s);
    }
}

proof fn lemma_trim_back(s: Seq<char>, b: Seq<char>)
    requires
        forall|i: int| 0 <= i < b.len() ==> white_space(#[trigger] b[i]),
        s.len() > 0,
        !white_space(s.last()),
    ensures
        trim_end(s + b) == s,
    decreases b.len(),
{
    if b.len() > 0 {
        let init = b.drop_last();
        assert((s + b).last() == b[b.len() - 1] && white_space(b[b.len() - 1]));
        assert((s + b).drop_last() =~= s + init);
        assert forall|i: int| 0 <= i < init.len() implies white_space(#[trigger] init[i]) by {
            assert(init[i] == b[i]);
        }
        lemma_trim_back(s, init);
    } else {
        assert(s + b =~= s);
    }
}

} // verus!
