//! What holds of the byte stream as a whole.

use vstd::prelude::*;
#[allow(unused_imports)]
use vstd::utf8::{
    encode_scalar, encode_utf8, encode_utf8_decode_utf8, encode_utf8_valid_utf8,
    has_width_1_encoding, has_width_2_encoding, has_width_3_encoding, has_width_4_encoding,
    last_continuation_byte, leading_byte_width_1, leading_byte_width_2, leading_byte_width_3,
    leading_byte_width_4, second_last_continuation_byte, third_last_continuation_byte,
};

use super::State;
#[allow(unused_imports)]
use super::model::{continues, decoded, sequence_length, EmulatorState, ParserState};

verus! {

/// How a stream is cut into reads makes no difference: feeding `a` and then
/// `b` is feeding both at once. Sequences and characters may be split anywhere.
pub proof fn law_split_reads(
    e: EmulatorState,
    a: Seq<u8>,
    b: Seq<u8>,
    clock_a: Seq<u64>,
    clock_b: Seq<u64>,
)
    requires
        a.len() == clock_a.len(),
        b.len() == clock_b.len(),
    ensures
        e.run(a + b, clock_a + clock_b) == e.run(a, clock_a).run(b, clock_b),
    decreases b.len(),
{
    if b.len() == 0 {
        assert(a + b =~= a);
        assert(clock_a + clock_b =~= clock_a);
    } else {
        law_split_reads(e, a, b.drop_last(), clock_a, clock_b.drop_last());
        assert((a + b).drop_last() =~= a + b.drop_last());
        assert((clock_a + clock_b).drop_last() =~= clock_a + clock_b.drop_last());
    }
}

/// The moment at which a byte comes matters only where it ends an operating
/// system command.
pub proof fn law_clock_only_for_commands(e: EmulatorState, byte: u8, t0: u64, t1: u64)
    requires
        !(e.parser.state == State::Osc && byte == 0x07),
        !(e.parser.state == State::OscEsc && byte == 0x5c),
    ensures
        e.advanced(byte, t0) == e.advanced(byte, t1),
{
    reveal(EmulatorState::advanced);
}

impl EmulatorState {
    /// The characters of `text` printed one after the other.
    pub open spec fn printed_all(self, text: Seq<char>) -> EmulatorState
        decreases text.len(),
    {
        if text.len() == 0 {
            self
        } else {
            self.printed(text[0]).printed_all(text.drop_first())
        }
    }

    /// The parser stands in text, between two characters.
    pub open spec fn in_text(self) -> bool {
        &&& self.parser.state == State::Ground
        &&& self.parser.utf8_need == 0
        &&& self.parser.utf8.len() == 0
    }

    proof fn lemma_run_one(self, byte: u8, now: u64)
        ensures
            self.run(seq![byte], seq![now]) == self.advanced(byte, now),
    {
        reveal_with_fuel(EmulatorState::run, 2);
    }
}

proof fn lemma_one_byte(c: u32)
    by (bit_vector)
    requires
        has_width_1_encoding(c),
    ensures
        leading_byte_width_1(c) == c,
{
}

proof fn lemma_two_bytes(c: u32)
    by (bit_vector)
    requires
        has_width_2_encoding(c),
    ensures
        0xc2 <= leading_byte_width_2(c) <= 0xdf,
        0x80 <= last_continuation_byte(c) <= 0xbf,
{
}

proof fn lemma_three_bytes(c: u32)
    by (bit_vector)
    requires
        has_width_3_encoding(c),
    ensures
        0xe0 <= leading_byte_width_3(c) <= 0xef,
        0x80 <= second_last_continuation_byte(c) <= 0xbf,
        0x80 <= last_continuation_byte(c) <= 0xbf,
{
}

proof fn lemma_four_bytes(c: u32)
    by (bit_vector)
    requires
        has_width_4_encoding(c),
    ensures
        0xf0 <= leading_byte_width_4(c) <= 0xf4,
        0x80 <= third_last_continuation_byte(c) <= 0xbf,
        0x80 <= second_last_continuation_byte(c) <= 0xbf,
        0x80 <= last_continuation_byte(c) <= 0xbf,
{
}

proof fn lemma_decoded(c: char)
    ensures
        decoded(encode_scalar(c as u32)) == c,
{
    let one = seq![c];
    reveal_with_fuel(encode_utf8, 2);
    assert(one.drop_first() =~= Seq::<char>::empty());
    assert(encode_utf8(one) =~= encode_scalar(c as u32));
    encode_utf8_valid_utf8(one);
    encode_utf8_decode_utf8(one);
}

proof fn lemma_started(e: EmulatorState, byte: u8, now: u64)
    requires
        e.in_text(),
        sequence_length(byte) > 0,
    ensures
        e.advanced(byte, now) == (EmulatorState {
            parser: ParserState {
                utf8: seq![byte],
                utf8_need: sequence_length(byte),
                ..e.parser
            },
            ..e
        }),
{
    reveal(EmulatorState::advanced);
}

proof fn lemma_continued(e: EmulatorState, byte: u8, now: u64)
    requires
        e.parser.state == State::Ground,
        e.parser.utf8_need > 0,
        continues(byte),
    ensures
        e.parser.utf8.len() + 1 == e.parser.utf8_need ==> e.advanced(byte, now)
            == e.between_chars().printed(decoded(e.parser.utf8.push(byte))),
        e.parser.utf8.len() + 1 != e.parser.utf8_need ==> e.advanced(byte, now) == (EmulatorState {
            parser: ParserState { utf8: e.parser.utf8.push(byte), ..e.parser },
            ..e
        }),
{
    reveal(EmulatorState::advanced);
}

/// Every character that is no C0 control and not DEL is printed once when its
/// UTF-8 encoding comes in, whatever its length.
pub proof fn law_char_prints_once(e: EmulatorState, c: char, clock: Seq<u64>)
    requires
        e.in_text(),
        c as u32 >= 0x20,
        c as u32 != 0x7f,
        clock.len() == encode_scalar(c as u32).len(),
    ensures
        e.run(encode_scalar(c as u32), clock) == e.printed(c),
        e.printed(c).in_text(),
{
    let u = c as u32;
    let bytes = encode_scalar(u);
    lemma_decoded(c);
    assert(e.parser.utf8 =~= Seq::empty());
    if has_width_1_encoding(u) {
        lemma_one_byte(u);
        assert(clock =~= seq![clock[0]]);
        e.lemma_run_one(bytes[0], clock[0]);
        reveal(EmulatorState::advanced);
        assert(bytes[0] as char == c);
    } else {
        lemma_tail(e, c, clock);
    }
}

/// The parser when `n` bytes of the character `c` have come in.
spec fn partway(e: EmulatorState, c: char, n: int) -> EmulatorState {
    let bytes = encode_scalar(c as u32);
    EmulatorState {
        parser: ParserState { utf8: bytes.take(n), utf8_need: bytes.len() as int, ..e.parser },
        ..e
    }
}

proof fn lemma_rest(e: EmulatorState, c: char, clock: Seq<u64>, n: int)
    requires
        e.in_text(),
        c as u32 >= 0x80,
        clock.len() == encode_scalar(c as u32).len(),
        1 <= n < encode_scalar(c as u32).len(),
    ensures
        e.run(encode_scalar(c as u32).take(n), clock.take(n)) == partway(e, c, n),
    decreases n,
{
    let u = c as u32;
    let bytes = encode_scalar(u);
    if has_width_2_encoding(u) {
        lemma_two_bytes(u);
    } else if has_width_3_encoding(u) {
        lemma_three_bytes(u);
    } else {
        lemma_four_bytes(u);
    }
    if n == 1 {
        assert(bytes.take(1) =~= seq![bytes[0]]);
        assert(clock.take(1) =~= seq![clock[0]]);
        e.lemma_run_one(bytes[0], clock[0]);
        lemma_started(e, bytes[0], clock[0]);
    } else {
        lemma_rest(e, c, clock, n - 1);
        assert(bytes.take(n) =~= bytes.take(n - 1).push(bytes[n - 1]));
        assert(clock.take(n) =~= clock.take(n - 1).push(clock[n - 1]));
        e.lemma_run_push(bytes.take(n - 1), clock.take(n - 1), bytes[n - 1], clock[n - 1]);
        lemma_continued(partway(e, c, n - 1), bytes[n - 1], clock[n - 1]);
    }
}

proof fn lemma_tail(e: EmulatorState, c: char, clock: Seq<u64>)
    requires
        e.in_text(),
        c as u32 >= 0x80,
        clock.len() == encode_scalar(c as u32).len(),
    ensures
        e.run(encode_scalar(c as u32), clock) == e.printed(c),
{
    let u = c as u32;
    let bytes = encode_scalar(u);
    let n = bytes.len() as int;
    if has_width_2_encoding(u) {
        lemma_two_bytes(u);
    } else if has_width_3_encoding(u) {
        lemma_three_bytes(u);
    } else {
        lemma_four_bytes(u);
    }
    lemma_rest(e, c, clock, n - 1);
    assert(bytes =~= bytes.take(n - 1).push(bytes[n - 1]));
    assert(clock =~= clock.take(n - 1).push(clock[n - 1]));
    e.lemma_run_push(bytes.take(n - 1), clock.take(n - 1), bytes[n - 1], clock[n - 1]);
    let p = partway(e, c, n - 1);
    lemma_continued(p, bytes[n - 1], clock[n - 1]);
    lemma_decoded(c);
    assert(p.between_chars().parser =~= e.parser);
}

/// A text without control characters is printed character by character.
pub proof fn law_text_prints(e: EmulatorState, text: Seq<char>, clock: Seq<u64>)
    requires
        e.in_text(),
        forall|i: int|
            0 <= i < text.len() ==> #[trigger] (text[i] as u32) >= 0x20 && text[i] as u32 != 0x7f,
        clock.len() == encode_utf8(text).len(),
    ensures
        e.run(encode_utf8(text), clock) == e.printed_all(text),
    decreases text.len(),
{
    if text.len() > 0 {
        let head = encode_scalar(text[0] as u32);
        let rest = text.drop_first();
        let k = head.len() as int;
        assert(text[0] as u32 >= 0x20);
        law_char_prints_once(e, text[0], clock.take(k));
        assert forall|i: int| 0 <= i < rest.len() implies #[trigger] (rest[i] as u32) >= 0x20
            && rest[i] as u32 != 0x7f by {
            assert(rest[i] == text[i + 1]);
            assert(text[i + 1] as u32 >= 0x20);
        }
        law_text_prints(e.printed(text[0]), rest, clock.skip(k));
        law_split_reads(e, head, encode_utf8(rest), clock.take(k), clock.skip(k));
        assert(clock.take(k) + clock.skip(k) =~= clock);
    }
}

} // verus!
