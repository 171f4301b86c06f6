//! Byte-at-a-time VT escape-sequence state machine, written from first
//! principles (no parser dependency). Modeled on the classic VT500 parser
//! diagram, trimmed to what a modern UTF-8 terminal needs.
//!
//! The parser owns no screen state; it decodes bytes into calls on
//! [`crate::term::Term`].

use vstd::prelude::*;

use crate::clock::now_ms;
#[allow(unused_imports)]
use crate::grid::min;
use crate::term::Term;

pub mod clock_laws;
pub mod laws;
pub mod model;
pub mod reach_laws;
pub mod recovery_laws;
pub mod sequence_laws;

#[allow(unused_imports)]
use model::{continues, decoded, EmulatorState, ParserState};
use model::{MAX_OSC, MAX_PARAMS};

verus! {

#[derive(Clone, Copy, PartialEq, Eq, Debug, Structural)]
pub enum State {
    Ground,
    Escape,
    EscapeInt,
    Csi,
    CsiIgnore,
    Osc,
    OscEsc,
    /// DCS / SOS / PM / APC — consumed and discarded.
    Str,
    StrEsc,
}

pub struct Parser {
    pub state: State,
    pub params: Vec<u16>,
    /// Whether a digit or a separator of the parameters has come.
    pub has_params: bool,
    pub intermediates: Vec<u8>,
    /// Private-marker byte ('?', '>', '<', '=') or 0.
    pub private: u8,
    pub osc: Vec<u8>,
    /// The bytes so far of a character, for incremental UTF-8 decoding.
    pub utf8: Vec<u8>,
    /// How many bytes that character has in all; 0 between characters.
    pub utf8_need: usize,
}

impl View for Parser {
    type V = ParserState;

    open spec fn view(&self) -> ParserState {
        ParserState {
            state: self.state,
            params: self.params@,
            has_params: self.has_params,
            intermediates: self.intermediates@,
            private: self.private,
            osc: self.osc@,
            utf8: self.utf8@,
            utf8_need: self.utf8_need as int,
        }
    }
}

impl Default for Parser {
    fn default() -> (p: Self)
        ensures
            p@ == ParserState::fresh(),
            p@.wf(),
    {
        Self::new()
    }
}

/// The value of a parser and a terminal together.
pub open spec fn pair(parser: Parser, term: Term) -> EmulatorState {
    EmulatorState { parser: parser@, term: term@ }
}

/// A parameter with one more digit, 65535 at most.
fn with_digit(p: u16, digit: u8) -> (r: u16)
    requires
        digit <= 9,
    ensures
        r == min(p * 10 + digit, 0xffff),
{
    let v: u32 = p as u32 * 10 + digit as u32;
    if v <= 0xffff {
        v as u16
    } else {
        0xffff
    }
}

/// The character that the bytes encode.
fn decode_char(bytes: &[u8]) -> (c: char)
    requires
        bytes@.len() > 0,
    ensures
        c == decoded(bytes@),
{
    match std::str::from_utf8(bytes) {
        Ok(s) => {
            let mut chars = s.chars();
            match chars.next() {
                Some(c) => c,
                None => '\u{fffd}',
            }
        },
        Err(_) => '\u{fffd}',
    }
}

impl Parser {
    pub fn new() -> (p: Self)
        ensures
            p@ == ParserState::fresh(),
            p@.wf(),
    {
        Parser {
            state: State::Ground,
            params: Vec::with_capacity(MAX_PARAMS),
            has_params: false,
            intermediates: Vec::with_capacity(2),
            private: 0,
            osc: Vec::new(),
            utf8: Vec::with_capacity(4),
            utf8_need: 0,
        }
    }

    /// One byte of the stream. Where it ends an operating system command, the
    /// clock says at which moment.
    pub fn advance(&mut self, term: &mut Term, byte: u8)
        requires
            old(self)@.wf(),
            old(term)@.wf(),
        ensures
            exists|now: u64|
                pair(*final(self), *final(term)) == #[trigger] pair(*old(self), *old(term)).advanced(
                    byte,
                    now,
                ),
            final(self)@.wf(),
            final(term)@.wf(),
    {
        let ends_command = match self.state {
            State::Osc => byte == 0x07,
            State::OscEsc => byte == 0x5c,
            _ => false,
        };
        let now = if ends_command {
            now_ms()
        } else {
            0
        };
        self.advance_at(term, byte, now);
    }

    /// One byte of the stream, received at the moment `now`.
    pub fn advance_at(&mut self, term: &mut Term, byte: u8, now: u64)
        requires
            old(self)@.wf(),
            old(term)@.wf(),
        ensures
            pair(*final(self), *final(term)) == pair(*old(self), *old(term)).advanced(byte, now),
            final(self)@.wf(),
            final(term)@.wf(),
    {
        proof {
            reveal(EmulatorState::advanced);
        }
        match self.state {
            State::Ground => self.ground(term, byte),
            State::Escape => self.escape(term, byte),
            State::EscapeInt => self.escape_int(term, byte),
            State::Csi => self.csi(term, byte),
            State::CsiIgnore => self.csi_ignore(term, byte),
            State::Osc => self.osc_put(term, byte, now),
            State::OscEsc => self.osc_esc(term, byte, now),
            State::Str => {
                if byte == 0x1b {
                    self.state = State::StrEsc;
                } else if byte == 0x07 {
                    self.state = State::Ground;
                }
            },
            State::StrEsc => {
                // Only ESC \ (ST) terminates; anything else stays in the string.
                self.state =
                if byte == 0x5c {
                    State::Ground
                } else {
                    State::Str
                };
            },
        }
    }

    // ---- Ground: printable text + C0 controls -------------------------------

    fn ground(&mut self, term: &mut Term, byte: u8)
        requires
            old(self)@.wf(),
            old(self)@.state == State::Ground,
            old(term)@.wf(),
        ensures
            pair(*final(self), *final(term)) == pair(*old(self), *old(term)).ground(byte),
            final(self)@.wf(),
            final(term)@.wf(),
    {
        if self.utf8_need > 0 {
            if 0x80 <= byte && byte <= 0xbf {
                self.continue_utf8(term, byte);
                return;
            }
            // Broken sequence: emit replacement, reprocess this byte fresh.
            self.utf8_need = 0;
            self.utf8.clear();
            term.print('\u{fffd}');
        }
        self.ground_fresh(term, byte);
    }

    fn continue_utf8(&mut self, term: &mut Term, byte: u8)
        requires
            old(self)@.wf(),
            old(self)@.utf8_need > 0,
            continues(byte),
            old(term)@.wf(),
        ensures
            pair(*final(self), *final(term)) == pair(*old(self), *old(term)).ground(byte),
            final(self)@.wf(),
            final(term)@.wf(),
    {
        self.utf8.push(byte);
        if self.utf8.len() == self.utf8_need {
            let c = decode_char(self.utf8.as_slice());
            self.utf8_need = 0;
            self.utf8.clear();
            term.print(c);
        }
    }

    fn ground_fresh(&mut self, term: &mut Term, byte: u8)
        requires
            old(self)@.wf(),
            old(self)@.state == State::Ground,
            old(self)@.utf8_need == 0,
            old(term)@.wf(),
        ensures
            pair(*final(self), *final(term)) == pair(*old(self), *old(term)).ground_fresh(byte),
            final(self)@.wf(),
            final(term)@.wf(),
    {
        match byte {
            0x1b => self.enter_escape(),
            0x00..=0x1f => term.control(byte),
            // DEL is ignored
            0x7f => {},
            0x20..=0x7e => term.print(byte as char),
            0xc2..=0xdf => self.start_utf8(byte, 2),
            0xe0..=0xef => self.start_utf8(byte, 3),
            0xf0..=0xf4 => self.start_utf8(byte, 4),
            _ => term.print('\u{fffd}'),
        }
    }

    fn start_utf8(&mut self, byte: u8, need: usize)
        requires
            old(self)@.wf(),
            old(self)@.utf8_need == 0,
            2 <= need <= 4,
        ensures
            final(self)@ == (ParserState {
                utf8: seq![byte],
                utf8_need: need as int,
                ..old(self)@
            }),
            final(self)@.wf(),
    {
        self.utf8.push(byte);
        self.utf8_need = need;
    }

    // ---- Escape -------------------------------------------------------------

    fn enter_escape(&mut self)
        requires
            old(self)@.wf(),
        ensures
            final(self)@ == old(self)@.escape_entered(),
            final(self)@.wf(),
    {
        self.state = State::Escape;
        self.intermediates.clear();
        self.private = 0;
    }

    fn escape(&mut self, term: &mut Term, byte: u8)
        requires
            old(self)@.wf(),
            old(self)@.intermediates.len() == 0,
            old(term)@.wf(),
        ensures
            pair(*final(self), *final(term)) == pair(*old(self), *old(term)).escape(byte),
            final(self)@.wf(),
            final(term)@.wf(),
    {
        match byte {
            // [
            0x5b => {
                self.params.clear();
                self.params.push(0);
                self.has_params = false;
                self.state = State::Csi;
            },
            // ]
            0x5d => {
                self.osc.clear();
                self.state = State::Osc;
            },
            // P X ^ _
            0x50 | 0x58 | 0x5e | 0x5f => {
                self.state = State::Str;
            },
            0x20..=0x2f => {
                self.intermediates.push(byte);
                self.state = State::EscapeInt;
            },
            0x1b => self.enter_escape(),
            // controls execute mid-sequence
            0x00..=0x1f => term.control(byte),
            _ => {
                let none: [u8; 0] = [];
                assert(none@ =~= Seq::<u8>::empty());
                term.esc_dispatch(&none, byte);
                self.state = State::Ground;
            },
        }
    }

    fn escape_int(&mut self, term: &mut Term, byte: u8)
        requires
            old(self)@.wf(),
            old(self)@.state == State::EscapeInt,
            old(term)@.wf(),
        ensures
            pair(*final(self), *final(term)) == pair(*old(self), *old(term)).escape_int(byte),
            final(self)@.wf(),
            final(term)@.wf(),
    {
        match byte {
            0x20..=0x2f => {
                if self.intermediates.len() < 2 {
                    self.intermediates.push(byte);
                }
            },
            0x1b => self.enter_escape(),
            0x00..=0x1f => term.control(byte),
            _ => {
                term.esc_dispatch(self.intermediates.as_slice(), byte);
                self.intermediates.clear();
                self.state = State::Ground;
            },
        }
    }

    // ---- CSI ----------------------------------------------------------------

    fn csi(&mut self, term: &mut Term, byte: u8)
        requires
            old(self)@.wf(),
            old(self)@.state == State::Csi,
            old(term)@.wf(),
        ensures
            pair(*final(self), *final(term)) == pair(*old(self), *old(term)).csi(byte),
            final(self)@.wf(),
            final(term)@.wf(),
    {
        match byte {
            // digits
            0x30..=0x39 => self.csi_digit(byte - 0x30),
            // Treat ':' like ';' — folds `38:2:r:g:b` into the `;` form.
            0x3a | 0x3b => {
                if self.params.len() < MAX_PARAMS {
                    self.params.push(0);
                    self.has_params = true;
                } else {
                    self.state = State::CsiIgnore;
                }
            },
            0x3c..=0x3f => self.csi_marker(byte),
            0x20..=0x2f => {
                if self.intermediates.len() < 2 {
                    self.intermediates.push(byte);
                } else {
                    self.state = State::CsiIgnore;
                }
            },
            0x40..=0x7e => {
                term.csi_dispatch(
                    self.private,
                    self.params.as_slice(),
                    self.intermediates.as_slice(),
                    byte,
                );
                self.state = State::Ground;
            },
            // CAN / SUB abort
            0x18 | 0x1a => {
                self.state = State::Ground;
            },
            0x1b => self.enter_escape(),
            0x00..=0x1f => term.control(byte),
            _ => {
                self.state = State::CsiIgnore;
            },
        }
    }

    fn csi_digit(&mut self, digit: u8)
        requires
            old(self)@.wf(),
            old(self)@.params.len() >= 1,
            digit <= 9,
        ensures
            final(self)@ == (ParserState {
                params: old(self)@.params.drop_last().push(
                    min(old(self)@.params.last() * 10 + digit, 0xffff) as u16,
                ),
                has_params: true,
                ..old(self)@
            }),
            final(self)@.wf(),
    {
        let last = self.params.len() - 1;
        let ghost held = self.params@;
        let value = with_digit(self.params[last], digit);
        self.params.set(last, value);
        self.has_params = true;
        assert(self.params@ =~= held.drop_last().push(value));
    }

    /// Private markers are only valid before any digits.
    fn csi_marker(&mut self, byte: u8)
        requires
            old(self)@.wf(),
        ensures
            final(self)@ == (if !old(self)@.has_params && old(self)@.private == 0 {
                ParserState { private: byte, ..old(self)@ }
            } else {
                old(self)@.at(State::CsiIgnore)
            }),
            final(self)@.wf(),
    {
        if !self.has_params && self.private == 0 {
            self.private = byte;
        } else {
            self.state = State::CsiIgnore;
        }
    }

    fn csi_ignore(&mut self, term: &mut Term, byte: u8)
        requires
            old(self)@.wf(),
            old(term)@.wf(),
        ensures
            pair(*final(self), *final(term)) == pair(*old(self), *old(term)).csi_ignore(byte),
            final(self)@.wf(),
            final(term)@.wf(),
    {
        match byte {
            0x40..=0x7e => {
                self.state = State::Ground;
            },
            0x18 | 0x1a => {
                self.state = State::Ground;
            },
            0x1b => self.enter_escape(),
            0x00..=0x1f => term.control(byte),
            _ => {},
        }
    }

    // ---- OSC ----------------------------------------------------------------

    fn end_osc(&mut self, term: &mut Term, now: u64)
        requires
            old(self)@.wf(),
            old(term)@.wf(),
        ensures
            pair(*final(self), *final(term)) == pair(*old(self), *old(term)).osc_ended(now),
            final(self)@.wf(),
            final(term)@.wf(),
    {
        term.osc_dispatch_at(self.osc.as_slice(), now);
        self.osc = Vec::new();
        self.state = State::Ground;
    }

    fn osc_put(&mut self, term: &mut Term, byte: u8, now: u64)
        requires
            old(self)@.wf(),
            old(term)@.wf(),
        ensures
            pair(*final(self), *final(term)) == pair(*old(self), *old(term)).osc_put(byte, now),
            final(self)@.wf(),
            final(term)@.wf(),
    {
        match byte {
            0x07 => self.end_osc(term, now),
            0x1b => {
                self.state = State::OscEsc;
            },
            0x18 | 0x1a => {
                self.osc.clear();
                self.state = State::Ground;
            },
            _ => {
                if self.osc.len() < MAX_OSC {
                    self.osc.push(byte);
                }
            },
        }
    }

    fn osc_esc(&mut self, term: &mut Term, byte: u8, now: u64)
        requires
            old(self)@.wf(),
            old(term)@.wf(),
        ensures
            pair(*final(self), *final(term)) == pair(*old(self), *old(term)).osc_esc(byte, now),
            final(self)@.wf(),
            final(term)@.wf(),
    {
        if byte == 0x5c {
            self.end_osc(term, now);
        } else {
            // Not ST — the OSC was aborted by a new escape sequence.
            self.osc.clear();
            self.enter_escape();
            self.escape(term, byte);
        }
    }
}

} // verus!
