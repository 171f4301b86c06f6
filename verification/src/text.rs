//! Text as slices of characters: trimming, splitting, comparing, numbers.

use vstd::prelude::*;
use vstd::slice::slice_subrange;

#[allow(unused_imports)]
use crate::stdx::white_space;

pub mod laws;

verus! {

/// The characters of `s`.
pub fn chars_of(s: &str) -> (cs: Vec<char>)
    ensures
        cs@ == s@,
{
    let mut cs: Vec<char> = Vec::new();
    for c in it: s.chars()
        invariant
            cs@ == it.seq().take(it.index() as int),
            it.seq() == s@,
    {
        cs.push(c);
    }
    cs
}

/// The string of the characters `cs`.
pub fn string_of(cs: &[char]) -> (s: String)
    ensures
        s@ == cs@,
{
    let mut s = String::new();
    for i in 0..cs.len()
        invariant
            s@ == cs@.take(i as int),
    {
        s.push(cs[i]);
    }
    assert(cs@.take(cs.len() as int) == cs@);
    s
}

/// Whether `cs` is the text `s`.
pub fn text_eq(cs: &[char], s: &str) -> (b: bool)
    ensures
        b == (cs@ == s@),
{
    let other = chars_of(s);
    if other.len() != cs.len() {
        return false;
    }
    for i in 0..cs.len()
        invariant
            other@ == s@,
            other.len() == cs.len(),
            forall|k: int| 0 <= k < i ==> cs@[k] == other@[k],
    {
        if cs[i] != other[i] {
            return false;
        }
    }
    assert(cs@ =~= other@);
    true
}

/// What is left of `cs` behind the prefix `s`, where it has that prefix.
pub fn strip_prefix<'a>(cs: &'a [char], s: &str) -> (rest: Option<&'a [char]>)
    ensures
        rest is Some <==> s@.is_prefix_of(cs@),
        rest matches Some(r) ==> r@ == cs@.skip(s@.len() as int),
{
    let other = chars_of(s);
    if other.len() > cs.len() {
        return None;
    }
    for i in 0..other.len()
        invariant
            other@ == s@,
            other.len() <= cs.len(),
            forall|k: int| 0 <= k < i ==> cs@[k] == other@[k],
    {
        if cs[i] != other[i] {
            assert(cs@.subrange(0, other@.len() as int)[i as int] != other@[i as int]);
            return None;
        }
    }
    assert(cs@.subrange(0, other@.len() as int) =~= other@);
    Some(slice_subrange(cs, other.len(), cs.len()))
}

/// How many characters stand before the first `sep`; all of them where there
/// is none.
pub open spec fn find(s: Seq<char>, sep: char) -> int
    decreases s.len(),
{
    if s.len() == 0 || s[0] == sep {
        0
    } else {
        1 + find(s.drop_first(), sep)
    }
}

/// What stands before the first `sep`.
pub open spec fn before(s: Seq<char>, sep: char) -> Seq<char> {
    s.take(find(s, sep))
}

/// What stands behind the first `sep`, if there is one.
pub open spec fn after(s: Seq<char>, sep: char) -> Option<Seq<char>> {
    if find(s, sep) < s.len() {
        Some(s.skip(find(s, sep) + 1))
    } else {
        None
    }
}

/// `find` is the least index that holds `sep`, or the length.
pub proof fn lemma_find(s: Seq<char>, sep: char)
    ensures
        0 <= find(s, sep) <= s.len(),
        find(s, sep) < s.len() ==> s[find(s, sep)] == sep,
        forall|i: int| 0 <= i < find(s, sep) ==> s[i] != sep,
    decreases s.len(),
{
    if s.len() > 0 && s[0] != sep {
        let t = s.drop_first();
        lemma_find(t, sep);
        assert forall|i: int| 0 <= i < find(s, sep) implies s[i] != sep by {
            if i > 0 {
                assert(s[i] == t[i - 1]);
            }
        }
    }
}

/// An index that holds `sep` and has none before it is what `find` gives.
pub proof fn lemma_find_unique(s: Seq<char>, sep: char, n: int)
    requires
        0 <= n <= s.len(),
        n < s.len() ==> s[n] == sep,
        forall|i: int| 0 <= i < n ==> s[i] != sep,
    ensures
        find(s, sep) == n,
{
    lemma_find(s, sep);
}

/// A text with `head`, which holds no `sep`, before a `sep` splits there.
pub proof fn lemma_split(head: Seq<char>, sep: char, tail: Seq<char>)
    requires
        forall|i: int| 0 <= i < head.len() ==> head[i] != sep,
    ensures
        before(head + seq![sep] + tail, sep) == head,
        after(head + seq![sep] + tail, sep) == Some(tail),
{
    let s = head + seq![sep] + tail;
    let n = head.len() as int;
    assert(s[n] == sep);
    assert forall|i: int| 0 <= i < n implies s[i] != sep by {
        assert(s[i] == head[i]);
    }
    lemma_find_unique(s, sep, n);
    assert(s.take(n) =~= head);
    assert(s.skip(n + 1) =~= tail);
}

/// A text without `sep` does not split.
pub proof fn lemma_no_split(s: Seq<char>, sep: char)
    requires
        forall|i: int| 0 <= i < s.len() ==> s[i] != sep,
    ensures
        before(s, sep) == s,
        after(s, sep) is None,
{
    lemma_find_unique(s, sep, s.len() as int);
    assert(s.take(s.len() as int) =~= s);
}

/// The index of the first `sep`, or the length.
pub fn find_char(cs: &[char], sep: char) -> (n: usize)
    ensures
        n == find(cs@, sep),
        n <= cs@.len(),
{
    let mut n: usize = 0;
    while n < cs.len() && cs[n] != sep
        invariant
            n <= cs.len(),
            forall|i: int| 0 <= i < n ==> cs@[i] != sep,
        decreases cs.len() - n,
    {
        n += 1;
    }
    proof {
        lemma_find_unique(cs@, sep, n as int);
    }
    n
}

/// The parts before and behind the first `sep`.
pub fn split_first<'a>(cs: &'a [char], sep: char) -> (r: (&'a [char], Option<&'a [char]>))
    ensures
        r.0@ == before(cs@, sep),
        r.1 is Some <==> after(cs@, sep) is Some,
        r.1 matches Some(a) ==> a@ == after(cs@, sep)->0,
{
    let n = find_char(cs, sep);
    let head = slice_subrange(cs, 0, n);
    if n < cs.len() {
        (head, Some(slice_subrange(cs, n + 1, cs.len())))
    } else {
        (head, None)
    }
}

/// `s` without the white space at its end.
pub open spec fn trim_end(s: Seq<char>) -> Seq<char>
    decreases s.len(),
{
    if s.len() > 0 && white_space(s.last()) {
        trim_end(s.drop_last())
    } else {
        s
    }
}

/// `s` without the white space at its start.
pub open spec fn trim_start(s: Seq<char>) -> Seq<char>
    decreases s.len(),
{
    if s.len() > 0 && white_space(s[0]) {
        trim_start(s.drop_first())
    } else {
        s
    }
}

/// `s` without the white space at both ends.
pub open spec fn trim(s: Seq<char>) -> Seq<char> {
    trim_end(trim_start(s))
}

/// Drops the white space at the end.
pub fn trimmed_end<'a>(cs: &'a [char]) -> (r: &'a [char])
    ensures
        r@ == trim_end(cs@),
{
    let mut n: usize = cs.len();
    assert(cs@.take(n as int) == cs@);
    while n > 0 && cs[n - 1].is_whitespace()
        invariant
            n <= cs.len(),
            trim_end(cs@) == trim_end(cs@.take(n as int)),
        decreases n,
    {
        assert(cs@.take(n as int).drop_last() == cs@.take(n - 1));
        n -= 1;
    }
    slice_subrange(cs, 0, n)
}

/// Drops the white space at the start.
pub fn trimmed_start<'a>(cs: &'a [char]) -> (r: &'a [char])
    ensures
        r@ == trim_start(cs@),
{
    let mut n: usize = 0;
    assert(cs@.skip(0) == cs@);
    while n < cs.len() && cs[n].is_whitespace()
        invariant
            n <= cs.len(),
            trim_start(cs@) == trim_start(cs@.skip(n as int)),
        decreases cs.len() - n,
    {
        assert(cs@.skip(n as int).drop_first() == cs@.skip(n + 1));
        n += 1;
    }
    slice_subrange(cs, n, cs.len())
}

/// Drops the white space at both ends.
pub fn trimmed<'a>(cs: &'a [char]) -> (r: &'a [char])
    ensures
        r@ == trim(cs@),
{
    trimmed_end(trimmed_start(cs))
}

/// Whether `c` is one of `0` to `9`.
pub open spec fn is_digit(c: char) -> bool {
    '0' <= c <= '9'
}

/// The number that the decimal digits `s` write.
pub open spec fn digits_value(s: Seq<char>) -> nat
    decreases s.len(),
{
    if s.len() == 0 {
        0
    } else {
        digits_value(s.drop_last()) * 10 + ((s.last() as u32) - ('0' as u32)) as nat
    }
}

/// The number that `s` writes in decimal digits, where `s` is nothing else and
/// the number is at most `max`.
pub open spec fn read_digits(s: Seq<char>, max: nat) -> Option<nat> {
    if s.len() > 0 && (forall|i: int| 0 <= i < s.len() ==> is_digit(#[trigger] s[i]))
        && digits_value(s) <= max {
        Some(digits_value(s))
    } else {
        None
    }
}

proof fn lemma_digits_grow(s: Seq<char>, n: int)
    requires
        0 <= n <= s.len(),
        forall|i: int| 0 <= i < s.len() ==> is_digit(#[trigger] s[i]),
    ensures
        digits_value(s.take(n)) <= digits_value(s),
    decreases s.len(),
{
    if n < s.len() {
        lemma_digits_grow(s.drop_last(), n);
        assert(s.drop_last().take(n) =~= s.take(n));
    } else {
        assert(s.take(n) =~= s);
    }
}

/// Reads decimal digits, and nothing else, as a number of at most 64 bits.
pub fn digits_u64(cs: &[char]) -> (r: Option<u64>)
    ensures
        r is Some <==> read_digits(cs@, u64::MAX as nat) is Some,
        r matches Some(v) ==> v == read_digits(cs@, u64::MAX as nat)->0,
{
    if cs.len() == 0 {
        return None;
    }
    for i in 0..cs.len()
        invariant
            forall|k: int| 0 <= k < i ==> is_digit(#[trigger] cs@[k]),
    {
        if !('0' <= cs[i] && cs[i] <= '9') {
            assert(!is_digit(cs@[i as int]));
            return None;
        }
    }
    let mut acc: u64 = 0;
    for i in 0..cs.len()
        invariant
            forall|k: int| 0 <= k < cs.len() ==> is_digit(#[trigger] cs@[k]),
            acc == digits_value(cs@.take(i as int)),
    {
        let ghost next = cs@.take(i + 1);
        assert(next.drop_last() == cs@.take(i as int));
        assert(is_digit(cs@[i as int]));
        proof {
            lemma_digits_grow(cs@, i + 1);
        }
        let digit: u64 = (cs[i] as u32 - '0' as u32) as u64;
        let tens: u64 = match acc.checked_mul(10) {
            Some(v) => v,
            None => {
                return None;
            },
        };
        acc = match tens.checked_add(digit) {
            Some(v) => v,
            None => {
                return None;
            },
        };
    }
    assert(cs@.take(cs.len() as int) == cs@);
    Some(acc)
}

/// What the standard library reads in `s` as an unsigned number of at most
/// `max`: decimal digits, after an optional plus sign.
pub open spec fn read_unsigned(s: Seq<char>, max: nat) -> Option<nat> {
    if s.len() > 0 && s[0] == '+' {
        read_digits(s.skip(1), max)
    } else {
        read_digits(s, max)
    }
}

/// Reads an unsigned number of 64 bits.
pub fn parse_u64(cs: &[char]) -> (r: Option<u64>)
    ensures
        r is Some <==> read_unsigned(cs@, u64::MAX as nat) is Some,
        r matches Some(v) ==> v == read_unsigned(cs@, u64::MAX as nat)->0,
{
    if cs.len() > 0 && cs[0] == '+' {
        digits_u64(slice_subrange(cs, 1, cs.len()))
    } else {
        digits_u64(cs)
    }
}

/// Reads an unsigned number of the machine's word size.
pub fn parse_usize(cs: &[char]) -> (r: Option<usize>)
    ensures
        r is Some <==> read_unsigned(cs@, usize::MAX as nat) is Some,
        r matches Some(v) ==> v == read_unsigned(cs@, usize::MAX as nat)->0,
{
    match parse_u64(cs) {
        Some(v) => if v <= usize::MAX as u64 {
            Some(v as usize)
        } else {
            None
        },
        None => None,
    }
}

/// What the standard library reads in `s` as a signed number of 32 bits:
/// decimal digits, after an optional sign.
pub open spec fn read_i32(s: Seq<char>) -> Option<i32> {
    if s.len() > 0 && s[0] == '-' {
        match read_digits(s.skip(1), 0x8000_0000) {
            Some(v) => Some((-v) as i32),
            None => None,
        }
    } else {
        match read_unsigned(s, 0x7fff_ffff) {
            Some(v) => Some(v as i32),
            None => None,
        }
    }
}

/// Reads a signed number of 32 bits.
pub fn parse_i32(cs: &[char]) -> (r: Option<i32>)
    ensures
        r == read_i32(cs@),
{
    if cs.len() > 0 && cs[0] == '-' {
        match digits_u64(slice_subrange(cs, 1, cs.len())) {
            Some(v) => if v <= 0x8000_0000 {
                Some((-(v as i64)) as i32)
            } else {
                None
            },
            None => None,
        }
    } else {
        match parse_u64(cs) {
            Some(v) => if v <= 0x7fff_ffff {
                Some(v as i32)
            } else {
                None
            },
            None => None,
        }
    }
}

/// The value of a hexadecimal digit.
pub open spec fn hex_value(c: char) -> Option<u8> {
    if '0' <= c <= '9' {
        Some(((c as u32) - ('0' as u32)) as u8)
    } else if 'a' <= c <= 'f' {
        Some(((c as u32) - ('a' as u32) + 10) as u8)
    } else if 'A' <= c <= 'F' {
        Some(((c as u32) - ('A' as u32) + 10) as u8)
    } else {
        None
    }
}

/// The value of a hexadecimal digit.
pub fn hex_digit(c: char) -> (r: Option<u8>)
    ensures
        r == hex_value(c),
        r matches Some(v) ==> v < 16,
{
    if '0' <= c && c <= '9' {
        Some((c as u32 - '0' as u32) as u8)
    } else if 'a' <= c && c <= 'f' {
        Some((c as u32 - 'a' as u32 + 10) as u8)
    } else if 'A' <= c && c <= 'F' {
        Some((c as u32 - 'A' as u32 + 10) as u8)
    } else {
        None
    }
}

/// What the standard library reads in the two characters as a hexadecimal
/// byte: two digits, or one after a plus sign.
pub open spec fn read_hex_pair(hi: char, lo: char) -> Option<u8> {
    if hi == '+' {
        hex_value(lo)
    } else {
        match (hex_value(hi), hex_value(lo)) {
            (Some(h), Some(l)) => Some((h * 16 + l) as u8),
            _ => None,
        }
    }
}

/// Reads two characters as a hexadecimal byte.
pub fn hex_pair(hi: char, lo: char) -> (r: Option<u8>)
    ensures
        r == read_hex_pair(hi, lo),
{
    if hi == '+' {
        return hex_digit(lo);
    }
    match (hex_digit(hi), hex_digit(lo)) {
        (Some(h), Some(l)) => Some(h * 16 + l),
        _ => None,
    }
}

/// The character of the digit `d`.
pub open spec fn digit_char(d: nat) -> char {
    (d + 0x30) as char
}

/// The decimal digits of `n`.
pub open spec fn decimal(n: nat) -> Seq<char>
    decreases n,
{
    if n < 10 {
        seq![digit_char(n)]
    } else {
        decimal(n / 10).push(digit_char(n % 10))
    }
}

/// The decimal digits of `n`.
pub fn decimal_chars(n: u64) -> (cs: Vec<char>)
    ensures
        cs@ == decimal(n as nat),
    decreases n,
{
    if n < 10 {
        let d = (n as u8 + 0x30) as char;
        let cs = vec![d];
        assert(cs@ =~= seq![digit_char(n as nat)]);
        cs
    } else {
        let mut cs = decimal_chars(n / 10);
        cs.push(((n % 10) as u8 + 0x30) as char);
        cs
    }
}

/// The digits of a number read back as that number, and nothing but digits are
/// among them.
pub proof fn lemma_decimal_reads(n: nat)
    ensures
        decimal(n).len() > 0,
        forall|i: int| 0 <= i < decimal(n).len() ==> is_digit(#[trigger] decimal(n)[i]),
        digits_value(decimal(n)) == n,
    decreases n,
{
    let d = decimal(n);
    if n < 10 {
        assert(d.drop_last() =~= Seq::<char>::empty());
        assert(digits_value(Seq::<char>::empty()) == 0);
    } else {
        lemma_decimal_reads(n / 10);
        assert(d.drop_last() =~= decimal(n / 10));
    }
}

/// The bytes of ASCII characters.
pub open spec fn ascii(s: Seq<char>) -> Seq<u8> {
    Seq::new(s.len(), |i: int| s[i] as u8)
}

/// Appends the bytes `more`.
pub fn append_bytes(out: &mut Vec<u8>, more: &[u8])
    ensures
        final(out)@ == old(out)@ + more@,
{
    let ghost before = out@;
    out.extend_from_slice(more);
    assert(out@ =~= before + more@);
}

/// Appends the decimal digits of `n`.
pub fn append_decimal(out: &mut Vec<u8>, n: u64)
    ensures
        final(out)@ == old(out)@ + ascii(decimal(n as nat)),
{
    let cs = decimal_chars(n);
    let ghost before = out@;
    for i in 0..cs.len()
        invariant
            cs@ == decimal(n as nat),
            out@ == before + ascii(decimal(n as nat)).take(i as int),
    {
        #[verifier::truncate]
        let b = cs[i] as u8;
        out.push(b);
        assert(out@ =~= before + ascii(decimal(n as nat)).take(i + 1));
    }
    assert(ascii(decimal(n as nat)).take(cs.len() as int) =~= ascii(decimal(n as nat)));
}

/// Appends the bytes of the ASCII text `s`.
pub fn append_ascii(out: &mut Vec<u8>, s: &str)
    ensures
        final(out)@ == old(out)@ + ascii(s@),
{
    let cs = chars_of(s);
    let ghost before = out@;
    for i in 0..cs.len()
        invariant
            cs@ == s@,
            out@ == before + ascii(s@).take(i as int),
    {
        #[verifier::truncate]
        let b = cs[i] as u8;
        out.push(b);
        assert(out@ =~= before + ascii(s@).take(i + 1));
    }
    assert(ascii(s@).take(cs.len() as int) =~= ascii(s@));
}

/// Appends the text `more`.
pub fn append_text(out: &mut String, more: &[char])
    ensures
        final(out)@ == old(out)@ + more@,
{
    let ghost before = out@;
    for i in 0..more.len()
        invariant
            out@ == before + more@.take(i as int),
    {
        out.push(more[i]);
        assert(out@ =~= before + more@.take(i + 1));
    }
    assert(more@.take(more.len() as int) =~= more@);
}

} // verus!
