//! What holds where the byte stream goes wrong: bytes that are no text, and
//! sequences that are broken off.

use vstd::prelude::*;
#[allow(unused_imports)]
use vstd::utf8::valid_utf8;

use super::State;
use super::model::EmulatorState;
#[allow(unused_imports)]
use super::model::ParserState;

verus! {

/// Every byte that can neither be text nor start a character of several bytes
/// is shown as U+FFFD; a DEL shows nothing.
pub proof fn law_stray_bytes(e: EmulatorState, byte: u8, now: u64)
    requires
        e.in_text(),
    ensures
        0x80 <= byte <= 0xc1 || byte >= 0xf5 ==> e.advanced(byte, now) == e.printed('\u{fffd}'),
        byte == 0x7f ==> e.advanced(byte, now) == e,
        0x20 <= byte <= 0x7e ==> e.advanced(byte, now) == e.printed(byte as char),
{
    reveal(EmulatorState::advanced);
}

/// A character that is broken off by a byte that does not continue it is shown
/// as U+FFFD, and that byte then does what it does in the text.
pub proof fn law_broken_character(e: EmulatorState, byte: u8, now: u64)
    requires
        e.parser.state == State::Ground,
        e.parser.utf8_need > 0,
        byte < 0x80 || byte > 0xbf,
    ensures
        ({
            let whole = EmulatorState {
                parser: ParserState { utf8: Seq::empty(), utf8_need: 0, ..e.parser },
                ..e
            };
            e.advanced(byte, now) == whole.printed('\u{fffd}').advanced(byte, now)
        }),
{
    reveal(EmulatorState::advanced);
}

/// CAN and SUB break a control sequence off: nothing is executed, and what
/// follows is text.
pub proof fn law_control_sequence_broken_off(e: EmulatorState, byte: u8, now: u64)
    requires
        e.parser.state == State::Csi || e.parser.state == State::CsiIgnore,
        byte == 0x18 || byte == 0x1a,
    ensures
        e.advanced(byte, now).term == e.term,
        e.advanced(byte, now).parser.state == State::Ground,
{
    reveal(EmulatorState::advanced);
}

/// The other control characters in a sequence are executed on the spot and do
/// not disturb it.
pub proof fn law_controls_inside_sequences(e: EmulatorState, byte: u8, now: u64)
    requires
        e.parser.state == State::Escape || e.parser.state == State::EscapeInt || e.parser.state
            == State::Csi || e.parser.state == State::CsiIgnore,
        byte <= 0x1f,
        byte != 0x1b,
        byte != 0x18,
        byte != 0x1a,
    ensures
        e.advanced(byte, now).term == e.term.controlled(byte),
        e.advanced(byte, now).parser == e.parser,
{
    reveal(EmulatorState::advanced);
}

/// An ESC starts afresh, wherever it comes but in a string.
pub proof fn law_escape_starts_afresh(e: EmulatorState, now: u64)
    requires
        e.parser.state == State::Escape || e.parser.state == State::EscapeInt || e.parser.state
            == State::Csi || e.parser.state == State::CsiIgnore,
    ensures
        e.advanced(0x1b, now).term == e.term,
        e.advanced(0x1b, now).parser.state == State::Escape,
        e.advanced(0x1b, now).parser.intermediates.len() == 0,
        e.advanced(0x1b, now).parser.private == 0,
{
    reveal(EmulatorState::advanced);
}

/// The strings of DCS, SOS, PM and APC show nothing, whatever they hold, up to
/// their end: BEL, or ESC and a backslash.
pub proof fn law_strings_show_nothing(e: EmulatorState, byte: u8, now: u64)
    ensures
        e.parser.state == State::Escape && (byte == 0x50 || byte == 0x58 || byte == 0x5e || byte
            == 0x5f) ==> e.advanced(byte, now) == e.at(State::Str),
        e.parser.state == State::Str || e.parser.state == State::StrEsc ==> e.advanced(
            byte,
            now,
        ).term == e.term,
        e.parser.state == State::Str ==> e.advanced(byte, now).parser.state == (if byte == 0x07 {
            State::Ground
        } else if byte == 0x1b {
            State::StrEsc
        } else {
            State::Str
        }),
        e.parser.state == State::StrEsc ==> e.advanced(byte, now).parser.state == (if byte
            == 0x5c {
            State::Ground
        } else {
            State::Str
        }),
{
    reveal(EmulatorState::advanced);
}

/// A control sequence with more than 32 parameters is given up: nothing of it
/// is executed.
pub proof fn law_too_many_parameters(e: EmulatorState, now: u64)
    requires
        e.parser.state == State::Csi,
        e.parser.params.len() == 32,
    ensures
        e.advanced(0x3b, now) == e.at(State::CsiIgnore),
{
    reveal(EmulatorState::advanced);
}

/// A parameter that is too large is 65535; a colon separates parameters as a
/// semicolon does.
pub proof fn law_large_parameters(e: EmulatorState, digit: u8, now: u64)
    requires
        e.parser.state == State::Csi,
        e.parser.params.len() > 0,
        0x30 <= digit <= 0x39,
    ensures
        e.advanced(digit, now).parser.params.last() == (if e.parser.params.last() * 10 + (digit
            - 0x30) <= 65535 {
            e.parser.params.last() * 10 + (digit - 0x30)
        } else {
            65535
        }),
        e.advanced(0x3a, now) == e.advanced(0x3b, now),
{
    reveal(EmulatorState::advanced);
}

/// An operating system command is cut after 256 KiB and executed all the same;
/// CAN, SUB and an ESC before anything but a backslash drop it.
pub proof fn law_operating_system_command_limits(e: EmulatorState, byte: u8, now: u64)
    requires
        e.parser.state == State::Osc,
    ensures
        e.parser.osc.len() == 256 * 1024 && byte != 0x07 && byte != 0x1b && byte != 0x18 && byte
            != 0x1a ==> e.advanced(byte, now) == e,
        byte == 0x18 || byte == 0x1a ==> e.advanced(byte, now).term == e.term && e.advanced(
            byte,
            now,
        ).parser.state == State::Ground,
{
    reveal(EmulatorState::advanced);
}

/// An ESC in an operating system command drops it where no backslash follows;
/// what follows does what it does behind any ESC.
pub proof fn law_operating_system_command_broken_off(e: EmulatorState, byte: u8, now: u64)
    requires
        e.parser.state == State::OscEsc,
        byte != 0x5c,
    ensures
        ({
            let fresh = EmulatorState {
                parser: ParserState {
                    state: State::Escape,
                    intermediates: Seq::empty(),
                    private: 0,
                    osc: Seq::empty(),
                    ..e.parser
                },
                ..e
            };
            e.advanced(byte, now) == fresh.advanced(byte, now)
        }),
{
    reveal(EmulatorState::advanced);
}

/// Bytes that have the shape of a character but are none are shown as one
/// U+FFFD.
pub proof fn law_ill_formed_character(e: EmulatorState, byte: u8, now: u64)
    requires
        e.parser.state == State::Ground,
        e.parser.utf8_need == e.parser.utf8.len() + 1,
        0x80 <= byte <= 0xbf,
        !valid_utf8(e.parser.utf8.push(byte)),
    ensures
        e.advanced(byte, now).term == e.term.printed('\u{fffd}'),
        e.advanced(byte, now).parser.utf8_need == 0,
{
    reveal(EmulatorState::advanced);
}

/// Intermediate bytes of a control sequence are kept for its end, up to two;
/// with a third it is given up. The end executes what was kept.
pub proof fn law_intermediate_bytes(e: EmulatorState, byte: u8, now: u64)
    requires
        e.parser.state == State::Csi,
    ensures
        0x20 <= byte <= 0x2f && e.parser.intermediates.len() < 2 ==> e.advanced(byte, now) == (
        EmulatorState {
            parser: ParserState {
                intermediates: e.parser.intermediates.push(byte),
                ..e.parser
            },
            ..e
        }),
        0x20 <= byte <= 0x2f && e.parser.intermediates.len() >= 2 ==> e.advanced(byte, now)
            == e.at(State::CsiIgnore),
        0x40 <= byte <= 0x7e ==> e.advanced(byte, now).term == e.term.csi(
            e.parser.private,
            e.parser.params,
            e.parser.intermediates,
            byte,
        ) && e.advanced(byte, now).parser.state == State::Ground,
        byte >= 0x7f ==> e.advanced(byte, now) == e.at(State::CsiIgnore),
{
    reveal(EmulatorState::advanced);
}

/// What is given up is passed over to its end, without a trace.
pub proof fn law_given_up(e: EmulatorState, byte: u8, now: u64)
    requires
        e.parser.state == State::CsiIgnore,
    ensures
        0x40 <= byte <= 0x7e ==> e.advanced(byte, now) == e.at(State::Ground),
        0x20 <= byte <= 0x3f || byte >= 0x7f ==> e.advanced(byte, now) == e,
{
    reveal(EmulatorState::advanced);
}

/// Intermediate bytes of an escape sequence are kept too, and others than the
/// first two are passed over.
pub proof fn law_escape_intermediates(e: EmulatorState, byte: u8, now: u64)
    requires
        e.parser.state == State::EscapeInt,
    ensures
        0x20 <= byte <= 0x2f && e.parser.intermediates.len() < 2 ==> e.advanced(byte, now) == (
        EmulatorState {
            parser: ParserState {
                intermediates: e.parser.intermediates.push(byte),
                ..e.parser
            },
            ..e
        }),
        0x20 <= byte <= 0x2f && e.parser.intermediates.len() >= 2 ==> e.advanced(byte, now) == e,
        byte >= 0x30 ==> e.advanced(byte, now).term == e.term.escaped(e.parser.intermediates, byte)
            && e.advanced(byte, now).parser.state == State::Ground,
{
    reveal(EmulatorState::advanced);
}

} // verus!
