//! The parser as a mathematical value, and what each byte makes of it and of
//! the terminal.

use vstd::prelude::*;
use vstd::utf8::{decode_utf8, valid_utf8};

use super::State;
use crate::grid::min;
use crate::term::model::TermState;

verus! {

#[verifier::ext_equal]
pub struct ParserState {
    pub state: State,
    pub params: Seq<u16>,
    /// Whether a digit or a separator of the parameters has come.
    pub has_params: bool,
    pub intermediates: Seq<u8>,
    pub private: u8,
    pub osc: Seq<u8>,
    /// The bytes so far of a character, and how many it has in all; 0 between
    /// characters.
    pub utf8: Seq<u8>,
    pub utf8_need: int,
}

/// How many parameters a control sequence can have.
pub const MAX_PARAMS: usize = 32;

/// How many bytes of an operating system command are kept.
pub const MAX_OSC: usize = 262144;

/// The character in place of bytes that are none.
pub open spec fn replacement() -> char {
    '\u{fffd}'
}

/// Whether `byte` continues a character of several bytes.
pub open spec fn continues(byte: u8) -> bool {
    0x80 <= byte <= 0xbf
}

/// How many bytes a character has that starts with `byte`; 0 where none of
/// several bytes does.
pub open spec fn sequence_length(byte: u8) -> int {
    if 0xc2 <= byte <= 0xdf {
        2
    } else if 0xe0 <= byte <= 0xef {
        3
    } else if 0xf0 <= byte <= 0xf4 {
        4
    } else {
        0
    }
}

/// The character that `bytes` encode.
pub open spec fn decoded(bytes: Seq<u8>) -> char {
    if valid_utf8(bytes) {
        decode_utf8(bytes)[0]
    } else {
        replacement()
    }
}

impl ParserState {
    /// A parser that has seen nothing.
    pub open spec fn fresh() -> ParserState {
        ParserState {
            state: State::Ground,
            params: Seq::empty(),
            has_params: false,
            intermediates: Seq::empty(),
            private: 0,
            osc: Seq::empty(),
            utf8: Seq::empty(),
            utf8_need: 0,
        }
    }

    /// Nothing stands between an ESC and the next byte; a control sequence has
    /// a parameter; a started character lacks a byte; what is kept stays within
    /// its bound.
    pub open spec fn wf(self) -> bool {
        &&& self.state == State::Escape ==> self.intermediates.len() == 0
        &&& self.state == State::Csi ==> self.params.len() >= 1
        &&& self.params.len() <= MAX_PARAMS
        &&& self.intermediates.len() <= 2
        &&& self.osc.len() <= MAX_OSC
        &&& self.utf8_need == 0 ==> self.utf8.len() == 0
        &&& self.utf8_need != 0 ==> 2 <= self.utf8_need <= 4 && 1 <= self.utf8.len()
            < self.utf8_need
    }

    /// The parser behind an ESC.
    pub open spec fn escape_entered(self) -> ParserState {
        ParserState { state: State::Escape, intermediates: Seq::empty(), private: 0, ..self }
    }

    pub open spec fn at(self, state: State) -> ParserState {
        ParserState { state, ..self }
    }
}

/// Parser and terminal together, as one mathematical value.
#[verifier::ext_equal]
pub struct EmulatorState {
    pub parser: ParserState,
    pub term: TermState,
}

impl EmulatorState {
    pub open spec fn wf(self) -> bool {
        &&& self.parser.wf()
        &&& self.term.wf()
    }

    pub open spec fn at(self, state: State) -> EmulatorState {
        EmulatorState { parser: self.parser.at(state), ..self }
    }

    pub open spec fn printed(self, ch: char) -> EmulatorState {
        EmulatorState { term: self.term.printed(ch), ..self }
    }

    pub open spec fn controlled(self, byte: u8) -> EmulatorState {
        EmulatorState { term: self.term.controlled(byte), ..self }
    }

    pub open spec fn escape_entered(self) -> EmulatorState {
        EmulatorState { parser: self.parser.escape_entered(), ..self }
    }

    /// The parser between characters.
    pub open spec fn between_chars(self) -> EmulatorState {
        EmulatorState {
            parser: ParserState { utf8: Seq::empty(), utf8_need: 0, ..self.parser },
            ..self
        }
    }

    /// One byte of text: it continues the started character, or breaks it off
    /// and is looked at afresh.
    pub open spec fn ground(self, byte: u8) -> EmulatorState {
        if self.parser.utf8_need == 0 {
            self.ground_fresh(byte)
        } else if continues(byte) {
            let bytes = self.parser.utf8.push(byte);
            if bytes.len() == self.parser.utf8_need {
                self.between_chars().printed(decoded(bytes))
            } else {
                EmulatorState { parser: ParserState { utf8: bytes, ..self.parser }, ..self }
            }
        } else {
            self.between_chars().printed(replacement()).ground_fresh(byte)
        }
    }

    /// One byte of text between characters.
    pub open spec fn ground_fresh(self, byte: u8) -> EmulatorState {
        if byte == 0x1b {
            self.escape_entered()
        } else if byte <= 0x1f {
            self.controlled(byte)
        } else if byte <= 0x7e {
            self.printed(byte as char)
        } else if byte == 0x7f {
            self
        } else if sequence_length(byte) > 0 {
            EmulatorState {
                parser: ParserState {
                    utf8: seq![byte],
                    utf8_need: sequence_length(byte),
                    ..self.parser
                },
                ..self
            }
        } else {
            self.printed(replacement())
        }
    }

    /// One byte behind an ESC.
    pub open spec fn escape(self, byte: u8) -> EmulatorState {
        if byte == 0x5b {  // [
            EmulatorState {
                parser: ParserState {
                    params: seq![0u16],
                    has_params: false,
                    state: State::Csi,
                    ..self.parser
                },
                ..self
            }
        } else if byte == 0x5d {  // ]
            EmulatorState {
                parser: ParserState { osc: Seq::empty(), state: State::Osc, ..self.parser },
                ..self
            }
        } else if byte == 0x50 || byte == 0x58 || byte == 0x5e || byte == 0x5f {  // P X ^ _
            self.at(State::Str)
        } else if 0x20 <= byte <= 0x2f {
            EmulatorState {
                parser: ParserState {
                    intermediates: self.parser.intermediates.push(byte),
                    state: State::EscapeInt,
                    ..self.parser
                },
                ..self
            }
        } else if byte == 0x1b {
            self.escape_entered()
        } else if byte <= 0x1f {
            self.controlled(byte)
        } else {
            EmulatorState {
                parser: self.parser.at(State::Ground),
                term: self.term.escaped(Seq::empty(), byte),
            }
        }
    }

    /// One byte behind the intermediates of an escape sequence.
    pub open spec fn escape_int(self, byte: u8) -> EmulatorState {
        if 0x20 <= byte <= 0x2f {
            if self.parser.intermediates.len() < 2 {
                EmulatorState {
                    parser: ParserState {
                        intermediates: self.parser.intermediates.push(byte),
                        ..self.parser
                    },
                    ..self
                }
            } else {
                self
            }
        } else if byte == 0x1b {
            self.escape_entered()
        } else if byte <= 0x1f {
            self.controlled(byte)
        } else {
            EmulatorState {
                parser: ParserState {
                    intermediates: Seq::empty(),
                    state: State::Ground,
                    ..self.parser
                },
                term: self.term.escaped(self.parser.intermediates, byte),
            }
        }
    }

    /// One byte of a control sequence.
    pub open spec fn csi(self, byte: u8) -> EmulatorState {
        let p = self.parser;
        if 0x30 <= byte <= 0x39 {  // digits
            let value = min(p.params.last() * 10 + (byte - 0x30), 0xffff) as u16;
            EmulatorState {
                parser: ParserState {
                    params: p.params.drop_last().push(value),
                    has_params: true,
                    ..p
                },
                ..self
            }
        } else if byte == 0x3a || byte == 0x3b {  // : ;
            if p.params.len() < MAX_PARAMS {
                EmulatorState {
                    parser: ParserState { params: p.params.push(0), has_params: true, ..p },
                    ..self
                }
            } else {
                self.at(State::CsiIgnore)
            }
        } else if 0x3c <= byte <= 0x3f {  // < = > ?
            if !p.has_params && p.private == 0 {
                EmulatorState { parser: ParserState { private: byte, ..p }, ..self }
            } else {
                self.at(State::CsiIgnore)
            }
        } else if 0x20 <= byte <= 0x2f {
            if p.intermediates.len() < 2 {
                EmulatorState {
                    parser: ParserState { intermediates: p.intermediates.push(byte), ..p },
                    ..self
                }
            } else {
                self.at(State::CsiIgnore)
            }
        } else if 0x40 <= byte <= 0x7e {
            EmulatorState {
                parser: p.at(State::Ground),
                term: self.term.csi(p.private, p.params, p.intermediates, byte),
            }
        } else if byte == 0x18 || byte == 0x1a {  // CAN, SUB
            self.at(State::Ground)
        } else if byte == 0x1b {
            self.escape_entered()
        } else if byte <= 0x1f {
            self.controlled(byte)
        } else {
            self.at(State::CsiIgnore)
        }
    }

    /// One byte of a control sequence that is given up.
    pub open spec fn csi_ignore(self, byte: u8) -> EmulatorState {
        if 0x40 <= byte <= 0x7e || byte == 0x18 || byte == 0x1a {
            self.at(State::Ground)
        } else if byte == 0x1b {
            self.escape_entered()
        } else if byte <= 0x1f {
            self.controlled(byte)
        } else {
            self
        }
    }

    /// The operating system command executed at `now`.
    pub open spec fn osc_ended(self, now: u64) -> EmulatorState {
        EmulatorState {
            parser: ParserState { osc: Seq::empty(), state: State::Ground, ..self.parser },
            term: self.term.osc(self.parser.osc, now),
        }
    }

    /// One byte of an operating system command.
    pub open spec fn osc_put(self, byte: u8, now: u64) -> EmulatorState {
        if byte == 0x07 {
            self.osc_ended(now)
        } else if byte == 0x1b {
            self.at(State::OscEsc)
        } else if byte == 0x18 || byte == 0x1a {
            EmulatorState {
                parser: ParserState { osc: Seq::empty(), state: State::Ground, ..self.parser },
                ..self
            }
        } else if self.parser.osc.len() < MAX_OSC {
            EmulatorState {
                parser: ParserState { osc: self.parser.osc.push(byte), ..self.parser },
                ..self
            }
        } else {
            self
        }
    }

    /// One byte behind an ESC in an operating system command: a backslash ends
    /// the command, anything else aborts it.
    pub open spec fn osc_esc(self, byte: u8, now: u64) -> EmulatorState {
        if byte == 0x5c {
            self.osc_ended(now)
        } else {
            EmulatorState {
                parser: ParserState { osc: Seq::empty(), ..self.parser }.escape_entered(),
                ..self
            }.escape(byte)
        }
    }

    /// One byte received at `now`.
    #[verifier::opaque]
    pub open spec fn advanced(self, byte: u8, now: u64) -> EmulatorState {
        match self.parser.state {
            State::Ground => self.ground(byte),
            State::Escape => self.escape(byte),
            State::EscapeInt => self.escape_int(byte),
            State::Csi => self.csi(byte),
            State::CsiIgnore => self.csi_ignore(byte),
            State::Osc => self.osc_put(byte, now),
            State::OscEsc => self.osc_esc(byte, now),
            State::Str => if byte == 0x1b {
                self.at(State::StrEsc)
            } else if byte == 0x07 {
                self.at(State::Ground)
            } else {
                self
            },
            State::StrEsc => if byte == 0x5c {
                self.at(State::Ground)
            } else {
                self.at(State::Str)
            },
        }
    }

    /// The bytes received in their order, each at its moment.
    pub open spec fn run(self, bytes: Seq<u8>, clock: Seq<u64>) -> EmulatorState
        decreases bytes.len(),
    {
        if bytes.len() == 0 {
            self
        } else {
            self.run(bytes.drop_last(), clock.drop_last()).advanced(bytes.last(), clock.last())
        }
    }

    /// One more byte is one more step.
    pub proof fn lemma_run_push(self, bytes: Seq<u8>, clock: Seq<u64>, byte: u8, now: u64)
        ensures
            self.run(bytes.push(byte), clock.push(now)) == self.run(bytes, clock).advanced(
                byte,
                now,
            ),
    {
        assert(bytes.push(byte).drop_last() =~= bytes);
        assert(clock.push(now).drop_last() =~= clock);
    }
}

} // verus!
