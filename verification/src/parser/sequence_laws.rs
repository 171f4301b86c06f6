//! What holds of whole sequences in the byte stream: a control sequence is
//! executed with the parameters that it writes, an operating system command
//! with the bytes that it holds.

use vstd::prelude::*;

use super::State;
use super::laws::law_split_reads;
#[allow(unused_imports)]
use super::model::{EmulatorState, ParserState, MAX_OSC, MAX_PARAMS};
#[allow(unused_imports)]
use crate::text::{ascii, decimal};

verus! {

/// The parameters of a control sequence as they are written: in decimal,
/// separated by semicolons.
pub open spec fn written_params(params: Seq<u16>) -> Seq<u8>
    decreases params.len(),
{
    if params.len() == 0 {
        Seq::empty()
    } else if params.len() == 1 {
        ascii(decimal(params[0] as nat))
    } else {
        written_params(params.drop_last()) + seq![0x3bu8] + ascii(decimal(params.last() as nat))
    }
}

/// A control sequence as it is written. The marker 0 stands for none.
pub open spec fn written_csi(marker: u8, params: Seq<u16>, action: u8) -> Seq<u8> {
    let head = if marker == 0 {
        seq![0x1bu8, 0x5b]
    } else {
        seq![0x1bu8, 0x5b, marker]
    };
    head + written_params(params) + seq![action]
}

/// An operating system command as it is written, ended by BEL or by ESC `\`.
pub open spec fn written_osc(body: Seq<u8>, bel: bool) -> Seq<u8> {
    let end = if bel {
        seq![0x07u8]
    } else {
        seq![0x1bu8, 0x5c]
    };
    seq![0x1bu8, 0x5d] + body + end
}

impl EmulatorState {
    /// The parser in the middle of a control sequence.
    spec fn inside_csi(
        self,
        marker: u8,
        params: Seq<u16>,
        has_params: bool,
    ) -> EmulatorState {
        EmulatorState {
            parser: ParserState {
                state: State::Csi,
                params,
                has_params,
                private: marker,
                intermediates: Seq::empty(),
                ..self.parser
            },
            ..self
        }
    }
}

impl EmulatorState {
    /// The parser in the middle of an operating system command.
    spec fn inside_osc(self, body: Seq<u8>) -> EmulatorState {
        EmulatorState {
            parser: ParserState {
                state: State::Osc,
                private: 0,
                intermediates: Seq::empty(),
                osc: body,
                ..self.parser
            },
            ..self
        }
    }
}

/// Whether `b` is neither BEL nor ESC nor one of the bytes that abort.
pub open spec fn osc_byte(b: u8) -> bool {
    b != 0x07 && b != 0x1b && b != 0x18 && b != 0x1a
}

proof fn step_escape(e: EmulatorState, now: u64)
    requires
        e.in_text(),
    ensures
        e.advanced(0x1b, now) == e.escape_entered(),
{
    reveal(EmulatorState::advanced);
}

proof fn step_csi(e: EmulatorState, now: u64)
    ensures
        e.escape_entered().advanced(0x5b, now) == e.inside_csi(0, seq![0u16], false),
{
    reveal(EmulatorState::advanced);
}

proof fn step_marker(e: EmulatorState, marker: u8, now: u64)
    requires
        0x3c <= marker <= 0x3f,
    ensures
        e.inside_csi(0, seq![0u16], false).advanced(marker, now) == e.inside_csi(
            marker,
            seq![0u16],
            false,
        ),
{
    reveal(EmulatorState::advanced);
}

proof fn step_digit(
    e: EmulatorState,
    marker: u8,
    params: Seq<u16>,
    seen: bool,
    v: u16,
    d: nat,
    now: u64,
)
    requires
        d <= 9,
        v * 10 + d <= 0xffff,
    ensures
        e.inside_csi(marker, params.push(v), seen).advanced((d + 0x30) as u8, now) == e.inside_csi(
            marker,
            params.push((v * 10 + d) as u16),
            true,
        ),
{
    reveal(EmulatorState::advanced);
    let value = (v * 10 + d) as u16;
    assert(params.push(v).drop_last().push(value) =~= params.push(value));
}

proof fn step_semicolon(e: EmulatorState, marker: u8, params: Seq<u16>, now: u64)
    requires
        params.len() < MAX_PARAMS,
    ensures
        e.inside_csi(marker, params, true).advanced(0x3b, now) == e.inside_csi(
            marker,
            params.push(0),
            true,
        ),
{
    reveal(EmulatorState::advanced);
}

proof fn step_action(e: EmulatorState, marker: u8, params: Seq<u16>, action: u8, now: u64)
    requires
        e.in_text(),
        0x40 <= action <= 0x7e,
    ensures
        e.inside_csi(marker, params, true).advanced(action, now).term == e.term.csi(
            marker,
            params,
            Seq::empty(),
            action,
        ),
        e.inside_csi(marker, params, true).advanced(action, now).in_text(),
{
    reveal(EmulatorState::advanced);
}

proof fn step_osc(e: EmulatorState, now: u64)
    ensures
        e.escape_entered().advanced(0x5d, now) == e.inside_osc(Seq::empty()),
{
    reveal(EmulatorState::advanced);
}

proof fn step_osc_byte(e: EmulatorState, body: Seq<u8>, byte: u8, now: u64)
    requires
        body.len() < MAX_OSC,
        osc_byte(byte),
    ensures
        e.inside_osc(body).advanced(byte, now) == e.inside_osc(body.push(byte)),
{
    reveal(EmulatorState::advanced);
}

proof fn step_bel(e: EmulatorState, body: Seq<u8>, now: u64)
    requires
        e.in_text(),
    ensures
        e.inside_osc(body).advanced(0x07, now).term == e.term.osc(body, now),
        e.inside_osc(body).advanced(0x07, now).in_text(),
{
    reveal(EmulatorState::advanced);
}

proof fn step_st(e: EmulatorState, body: Seq<u8>, t0: u64, t1: u64)
    requires
        e.in_text(),
    ensures
        e.inside_osc(body).advanced(0x1b, t0).advanced(0x5c, t1).term == e.term.osc(body, t1),
        e.inside_osc(body).advanced(0x1b, t0).advanced(0x5c, t1).in_text(),
{
    reveal(EmulatorState::advanced);
}

/// Two runs, one after the other.
proof fn lemma_then(
    e: EmulatorState,
    a: Seq<u8>,
    b: Seq<u8>,
    clock: Seq<u64>,
    mid: EmulatorState,
)
    requires
        clock.len() == a.len() + b.len(),
        e.run(a, clock.take(a.len() as int)) == mid,
    ensures
        e.run(a + b, clock) == mid.run(b, clock.skip(a.len() as int)),
{
    let k = a.len() as int;
    law_split_reads(e, a, b, clock.take(k), clock.skip(k));
    assert(clock.take(k) + clock.skip(k) =~= clock);
}

proof fn lemma_step(e: EmulatorState, byte: u8, clock: Seq<u64>)
    requires
        clock.len() == 1,
    ensures
        e.run(seq![byte], clock) == e.advanced(byte, clock[0]),
{
    reveal_with_fuel(EmulatorState::run, 2);
}

/// The digits of a number in a control sequence make its last parameter that
/// number.
proof fn lemma_digits(
    e: EmulatorState,
    marker: u8,
    params: Seq<u16>,
    seen: bool,
    n: nat,
    clock: Seq<u64>,
)
    requires
        n <= 0xffff,
        clock.len() == decimal(n).len(),
    ensures
        e.inside_csi(marker, params.push(0), seen).run(ascii(decimal(n)), clock) == e.inside_csi(
            marker,
            params.push(n as u16),
            true,
        ),
    decreases n,
{
    let start = e.inside_csi(marker, params.push(0), seen);
    let bytes = ascii(decimal(n));
    if n < 10 {
        assert(bytes =~= seq![(n + 0x30) as u8]);
        lemma_step(start, (n + 0x30) as u8, clock);
        step_digit(e, marker, params, seen, 0, n, clock[0]);
    } else {
        let k = decimal(n / 10).len() as int;
        let d = n % 10;
        assert(bytes =~= ascii(decimal(n / 10)) + seq![(d + 0x30) as u8]);
        lemma_digits(e, marker, params, seen, n / 10, clock.take(k));
        let mid = e.inside_csi(marker, params.push((n / 10) as u16), true);
        lemma_then(start, ascii(decimal(n / 10)), seq![(d + 0x30) as u8], clock, mid);
        lemma_step(mid, (d + 0x30) as u8, clock.skip(k));
        step_digit(e, marker, params, true, (n / 10) as u16, d, clock[k]);
    }
}

/// The written parameters, from the first one on, become the parameters.
proof fn lemma_params(e: EmulatorState, marker: u8, params: Seq<u16>, clock: Seq<u64>)
    requires
        1 <= params.len() <= MAX_PARAMS,
        clock.len() == written_params(params).len(),
    ensures
        e.inside_csi(marker, seq![0u16], false).run(written_params(params), clock) == e.inside_csi(
            marker,
            params,
            true,
        ),
    decreases params.len(),
{
    let start = e.inside_csi(marker, seq![0u16], false);
    if params.len() == 1 {
        assert(seq![0u16] =~= Seq::empty().push(0u16));
        lemma_digits(e, marker, Seq::empty(), false, params[0] as nat, clock);
        assert(Seq::empty().push(params[0]) =~= params);
    } else {
        let init = params.drop_last();
        let a = written_params(init);
        let b = seq![0x3bu8];
        let c = ascii(decimal(params.last() as nat));
        let ka = a.len() as int;
        assert(written_params(params) =~= (a + b) + c);
        lemma_params(e, marker, init, clock.take(ka));
        let mid = e.inside_csi(marker, init, true);
        let ab = clock.take(ka + 1);
        assert(ab.take(ka) =~= clock.take(ka));
        lemma_then(start, a, b, ab, mid);
        lemma_step(mid, 0x3b, ab.skip(ka));
        let next = e.inside_csi(marker, init.push(0), true);
        step_semicolon(e, marker, init, ab[ka]);
        lemma_then(start, a + b, c, clock, next);
        lemma_digits(e, marker, init, true, params.last() as nat, clock.skip(ka + 1));
        assert(init.push(params.last()) =~= params);
    }
}

/// A control sequence as it is written, up to its final byte.
spec fn written_head(marker: u8, params: Seq<u16>) -> Seq<u8> {
    let head = if marker == 0 {
        seq![0x1bu8, 0x5b]
    } else {
        seq![0x1bu8, 0x5b, marker]
    };
    head + written_params(params)
}

/// The parser in front of the final byte of a control sequence.
proof fn lemma_head(
    e: EmulatorState,
    marker: u8,
    params: Seq<u16>,
    clock: Seq<u64>,
)
    requires
        e.in_text(),
        marker == 0 || 0x3c <= marker <= 0x3f,
        1 <= params.len() <= MAX_PARAMS,
        clock.len() == written_head(marker, params).len(),
    ensures
        e.run(written_head(marker, params), clock) == e.inside_csi(marker, params, true),
{
    let esc = seq![0x1bu8];
    let bracket = seq![0x5bu8];
    let body = written_params(params);
    let c2 = clock.take(2);
    let inside = e.inside_csi(0, seq![0u16], false);
    // ESC [
    assert(e.run(esc + bracket, c2) == inside) by {
        let e1 = e.escape_entered();
        step_escape(e, c2[0]);
        lemma_step(e, 0x1b, c2.take(1));
        lemma_then(e, esc, bracket, c2, e1);
        lemma_step(e1, 0x5b, c2.skip(1));
        step_csi(e, c2[1]);
    }
    assert(esc + bracket =~= seq![0x1bu8, 0x5b]);
    let head = if marker == 0 {
        seq![0x1bu8, 0x5b]
    } else {
        seq![0x1bu8, 0x5b, marker]
    };
    let kh = head.len() as int;
    let marked = e.inside_csi(marker, seq![0u16], false);
    // the marker
    assert(e.run(head, clock.take(kh)) == marked) by {
        if marker != 0 {
            let c3 = clock.take(3);
            assert(c3.take(2) =~= c2);
            assert(head =~= seq![0x1bu8, 0x5b] + seq![marker]);
            lemma_then(e, seq![0x1bu8, 0x5b], seq![marker], c3, inside);
            lemma_step(inside, marker, c3.skip(2));
            step_marker(e, marker, c3[2]);
        }
    }
    // the parameters
    lemma_then(e, head, body, clock, marked);
    lemma_params(e, marker, params, clock.skip(kh));
}

/// A control sequence in the text is executed with its marker, its parameters
/// and its final byte; the parser is then back in the text.
pub proof fn law_csi_executed(
    e: EmulatorState,
    marker: u8,
    params: Seq<u16>,
    action: u8,
    clock: Seq<u64>,
)
    requires
        e.in_text(),
        marker == 0 || 0x3c <= marker <= 0x3f,
        1 <= params.len() <= MAX_PARAMS,
        0x40 <= action <= 0x7e,
        clock.len() == written_csi(marker, params, action).len(),
    ensures
        e.run(written_csi(marker, params, action), clock).term == e.term.csi(
            marker,
            params,
            Seq::empty(),
            action,
        ),
        e.run(written_csi(marker, params, action), clock).in_text(),
{
    let head = written_head(marker, params);
    let k = head.len() as int;
    let full = e.inside_csi(marker, params, true);
    lemma_head(e, marker, params, clock.take(k));
    lemma_then(e, head, seq![action], clock, full);
    lemma_step(full, action, clock.skip(k));
    step_action(e, marker, params, action, clock[k]);
}

proof fn step_late_marker(e: EmulatorState, params: Seq<u16>, private: u8, marker: u8, now: u64)
    requires
        0x3c <= marker <= 0x3f,
    ensures
        e.inside_csi(private, params, true).advanced(marker, now) == e.inside_csi(
            private,
            params,
            true,
        ).at(State::CsiIgnore),
{
    reveal(EmulatorState::advanced);
}

proof fn step_given_up(e: EmulatorState, action: u8, now: u64)
    requires
        e.parser.state == State::CsiIgnore,
        0x40 <= action <= 0x7e,
    ensures
        e.advanced(action, now) == e.at(State::Ground),
{
    reveal(EmulatorState::advanced);
}

proof fn lemma_ignored(e: EmulatorState, bytes: Seq<u8>, clock: Seq<u64>)
    requires
        e.parser.state == State::CsiIgnore,
        forall|i: int| 0 <= i < bytes.len() ==> 0x20 <= #[trigger] bytes[i] <= 0x3f,
        clock.len() == bytes.len(),
    ensures
        e.run(bytes, clock) == e,
    decreases bytes.len(),
{
    if bytes.len() > 0 {
        lemma_ignored(e, bytes.drop_last(), clock.drop_last());
        assert(0x20 <= bytes[bytes.len() - 1] <= 0x3f);
        reveal(EmulatorState::advanced);
    }
}

/// A private marker is only valid before any digits: behind the parameters it
/// makes the whole sequence do nothing.
pub proof fn law_late_marker_is_ignored(
    e: EmulatorState,
    params: Seq<u16>,
    marker: u8,
    rest: Seq<u8>,
    action: u8,
    clock: Seq<u64>,
)
    requires
        e.in_text(),
        1 <= params.len() <= MAX_PARAMS,
        0x3c <= marker <= 0x3f,
        forall|i: int| 0 <= i < rest.len() ==> 0x20 <= #[trigger] rest[i] <= 0x3f,
        0x40 <= action <= 0x7e,
        clock.len() == 2 + written_params(params).len() + 1 + rest.len() + 1,
    ensures
        ({
            let end = e.run(
                seq![0x1bu8, 0x5b] + written_params(params) + seq![marker] + rest + seq![action],
                clock,
            );
            end.term == e.term && end.in_text()
        }),
{
    let head = written_head(0, params);
    let k = head.len() as int;
    let full = e.inside_csi(0, params, true);
    let given_up = full.at(State::CsiIgnore);
    let c1 = clock.take(k + 1);
    let c2 = clock.take(k + 1 + rest.len());
    assert(c1.take(k) =~= clock.take(k));
    lemma_head(e, 0, params, clock.take(k));
    lemma_then(e, head, seq![marker], c1, full);
    lemma_step(full, marker, c1.skip(k));
    step_late_marker(e, params, 0, marker, c1[k]);
    assert(c2.take(k + 1) =~= c1);
    lemma_then(e, head + seq![marker], rest, c2, given_up);
    lemma_ignored(given_up, rest, c2.skip(k + 1));
    lemma_then(e, head + seq![marker] + rest, seq![action], clock, given_up);
    lemma_step(given_up, action, clock.skip(k + 1 + rest.len()));
    step_given_up(given_up, action, clock[k + 1 + rest.len()]);
}

proof fn lemma_osc_body(e: EmulatorState, body: Seq<u8>, clock: Seq<u64>)
    requires
        body.len() <= MAX_OSC,
        forall|i: int| 0 <= i < body.len() ==> osc_byte(#[trigger] body[i]),
        clock.len() == body.len(),
    ensures
        e.inside_osc(Seq::empty()).run(body, clock) == e.inside_osc(body),
    decreases body.len(),
{
    if body.len() == 0 {
        assert(body =~= Seq::empty());
    } else {
        let init = body.drop_last();
        lemma_osc_body(e, init, clock.drop_last());
        assert(osc_byte(body.last()));
        assert(init.push(body.last()) =~= body);
        step_osc_byte(e, init, body.last(), clock.last());
    }
}

/// An operating system command in the text is executed, at the moment of its
/// last byte, with the bytes that it holds; the parser is then back in the
/// text.
pub proof fn law_osc_executed(e: EmulatorState, body: Seq<u8>, bel: bool, clock: Seq<u64>)
    requires
        e.in_text(),
        body.len() <= MAX_OSC,
        forall|i: int| 0 <= i < body.len() ==> osc_byte(#[trigger] body[i]),
        clock.len() == written_osc(body, bel).len(),
    ensures
        e.run(written_osc(body, bel), clock).term == e.term.osc(body, clock.last()),
        e.run(written_osc(body, bel), clock).in_text(),
{
    let esc = seq![0x1bu8];
    let bracket = seq![0x5du8];
    let head = seq![0x1bu8, 0x5d];
    let c2 = clock.take(2);
    let inside = e.inside_osc(Seq::empty());
    assert(e.run(head, c2) == inside) by {
        let e1 = e.escape_entered();
        step_escape(e, c2[0]);
        lemma_step(e, 0x1b, c2.take(1));
        lemma_then(e, esc, bracket, c2, e1);
        lemma_step(e1, 0x5d, c2.skip(1));
        assert(esc + bracket =~= head);
        step_osc(e, c2[1]);
    }
    let kb = 2 + body.len();
    let cb = clock.take(kb as int);
    assert(cb.take(2) =~= c2);
    lemma_then(e, head, body, cb, inside);
    lemma_osc_body(e, body, cb.skip(2));
    let full = e.inside_osc(body);
    let tail = clock.skip(kb as int);
    if bel {
        lemma_then(e, head + body, seq![0x07u8], clock, full);
        lemma_step(full, 0x07, tail);
        step_bel(e, body, tail[0]);
    } else {
        lemma_then(e, head + body, seq![0x1bu8, 0x5c], clock, full);
        let f1 = full.advanced(0x1b, tail[0]);
        lemma_step(full, 0x1b, tail.take(1));
        lemma_then(full, seq![0x1bu8], seq![0x5cu8], tail, f1);
        lemma_step(f1, 0x5c, tail.skip(1));
        assert(seq![0x1bu8] + seq![0x5cu8] =~= seq![0x1bu8, 0x5c]);
        step_st(e, body, tail[0], tail[1]);
    }
}

proof fn step_bare_action(e: EmulatorState, action: u8, now: u64)
    requires
        e.in_text(),
        0x40 <= action <= 0x7e,
    ensures
        e.inside_csi(0, seq![0u16], false).advanced(action, now).term == e.term.csi_plain(
            seq![0u16],
            action,
        ),
        e.inside_csi(0, seq![0u16], false).advanced(action, now).in_text(),
{
    reveal(EmulatorState::advanced);
}

proof fn step_escape_end(e: EmulatorState, byte: u8, now: u64)
    requires
        e.in_text(),
        0x30 <= byte <= 0x7e,
        byte != 0x5b && byte != 0x5d && byte != 0x50 && byte != 0x58 && byte != 0x5e && byte
            != 0x5f,
    ensures
        e.escape_entered().advanced(byte, now).term == e.term.escaped(Seq::empty(), byte),
        e.escape_entered().advanced(byte, now).in_text(),
{
    reveal(EmulatorState::advanced);
}

impl EmulatorState {
    /// The parser behind an intermediate byte of an escape sequence.
    spec fn inside_escape(self, between: u8) -> EmulatorState {
        EmulatorState {
            parser: ParserState {
                state: State::EscapeInt,
                private: 0,
                intermediates: seq![between],
                ..self.parser
            },
            ..self
        }
    }
}

proof fn step_intermediate(e: EmulatorState, between: u8, now: u64)
    requires
        0x20 <= between <= 0x2f,
    ensures
        e.escape_entered().advanced(between, now) == e.inside_escape(between),
{
    reveal(EmulatorState::advanced);
    assert(Seq::<u8>::empty().push(between) =~= seq![between]);
}

proof fn step_escape_int_end(e: EmulatorState, between: u8, byte: u8, now: u64)
    requires
        e.in_text(),
        0x30 <= byte <= 0x7e,
    ensures
        e.inside_escape(between).advanced(byte, now).term == e.term.escaped(seq![between], byte),
        e.inside_escape(between).advanced(byte, now).in_text(),
{
    reveal(EmulatorState::advanced);
}

/// A control sequence without parameters in the text is executed as if its one
/// parameter were 0; the parser is then back in the text.
pub proof fn law_bare_csi_executed(e: EmulatorState, action: u8, clock: Seq<u64>)
    requires
        e.in_text(),
        0x40 <= action <= 0x7e,
        clock.len() == 3,
    ensures
        e.run(seq![0x1bu8, 0x5b, action], clock).term == e.term.csi_plain(seq![0u16], action),
        e.run(seq![0x1bu8, 0x5b, action], clock).in_text(),
{
    let c2 = clock.take(2);
    let e1 = e.escape_entered();
    let inside = e.inside_csi(0, seq![0u16], false);
    step_escape(e, c2[0]);
    lemma_step(e, 0x1b, c2.take(1));
    lemma_then(e, seq![0x1bu8], seq![0x5bu8], c2, e1);
    lemma_step(e1, 0x5b, c2.skip(1));
    step_csi(e, c2[1]);
    let head = seq![0x1bu8] + seq![0x5bu8];
    lemma_then(e, head, seq![action], clock, inside);
    assert(head + seq![action] =~= seq![0x1bu8, 0x5b, action]);
    lemma_step(inside, action, clock.skip(2));
    step_bare_action(e, action, clock[2]);
}

/// A control character in the text is executed; the parser stays in the text.
pub proof fn law_control_executed(e: EmulatorState, byte: u8, clock: Seq<u64>)
    requires
        e.in_text(),
        byte <= 0x1f,
        byte != 0x1b,
        clock.len() == 1,
    ensures
        e.run(seq![byte], clock) == e.controlled(byte),
        e.controlled(byte).in_text(),
{
    lemma_step(e, byte, clock);
    reveal(EmulatorState::advanced);
}

/// An escape sequence in the text is executed, be it one byte or a byte behind
/// an intermediate one; the parser is then back in the text.
pub proof fn law_escape_executed(
    e: EmulatorState,
    between: u8,
    byte: u8,
    c2: Seq<u64>,
    c3: Seq<u64>,
)
    requires
        e.in_text(),
        0x20 <= between <= 0x2f,
        0x30 <= byte <= 0x7e,
        c2.len() == 2,
        c3.len() == 3,
    ensures
        e.run(seq![0x1bu8, between, byte], c3).term == e.term.escaped(seq![between], byte),
        e.run(seq![0x1bu8, between, byte], c3).in_text(),
        byte != 0x5b && byte != 0x5d && byte != 0x50 && byte != 0x58 && byte != 0x5e && byte
            != 0x5f ==> e.run(seq![0x1bu8, byte], c2).term == e.term.escaped(Seq::empty(), byte)
            && e.run(seq![0x1bu8, byte], c2).in_text(),
{
    let e1 = e.escape_entered();
    if byte != 0x5b && byte != 0x5d && byte != 0x50 && byte != 0x58 && byte != 0x5e && byte
        != 0x5f {
        step_escape(e, c2[0]);
        lemma_step(e, 0x1b, c2.take(1));
        lemma_then(e, seq![0x1bu8], seq![byte], c2, e1);
        assert(seq![0x1bu8] + seq![byte] =~= seq![0x1bu8, byte]);
        lemma_step(e1, byte, c2.skip(1));
        step_escape_end(e, byte, c2[1]);
    }
    let head = seq![0x1bu8] + seq![between];
    let h2 = c3.take(2);
    let e2 = e.inside_escape(between);
    step_escape(e, h2[0]);
    lemma_step(e, 0x1b, h2.take(1));
    lemma_then(e, seq![0x1bu8], seq![between], h2, e1);
    lemma_step(e1, between, h2.skip(1));
    step_intermediate(e, between, h2[1]);
    lemma_then(e, head, seq![byte], c3, e2);
    assert(head + seq![byte] =~= seq![0x1bu8, between, byte]);
    lemma_step(e2, byte, c3.skip(2));
    step_escape_int_end(e, between, byte, c3[2]);
}

} // verus!
