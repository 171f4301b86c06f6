//! Operating system commands: title, working directory, command blocks,
//! color queries.

use vstd::prelude::*;
#[allow(unused_imports)]
use vstd::utf8::{decode_utf8, valid_utf8};

use super::{Term, TermEvent};
#[allow(unused_imports)]
use super::model::{EventState, TermState};
use crate::clock::now_ms;
use crate::osc::{decode_633, exit_code, parse_file_url};
use crate::stdx::utf8_lossy;
use crate::text::{append_ascii, chars_of, split_first, string_of, strip_prefix, text_eq};
#[allow(unused_imports)]
use crate::text::before;

verus! {

impl Term {
    /// An operating system command. Where it starts or ends a command block,
    /// the clock says which moment the block is stamped with.
    pub fn osc_dispatch(&mut self, bytes: &[u8])
        requires
            old(self)@.wf(),
        ensures
            exists|now: u64| final(self)@ == #[trigger] old(self)@.osc(bytes@, now),
            final(self)@.wf(),
    {
        let now = now_ms();
        self.osc_dispatch_at(bytes, now);
    }

    /// An operating system command received at the moment `now`.
    pub fn osc_dispatch_at(&mut self, bytes: &[u8], now: u64)
        requires
            old(self)@.wf(),
        ensures
            final(self)@ == old(self)@.osc(bytes@, now),
            valid_utf8(bytes@) ==> final(self)@ == old(self)@.osc_text(decode_utf8(bytes@), now),
            final(self)@.wf(),
    {
        let s = utf8_lossy(bytes);
        let cs = chars_of(s.as_str());
        self.osc_chars(cs.as_slice(), now);
    }

    /// An operating system command as text.
    pub fn osc_chars(&mut self, cs: &[char], now: u64)
        requires
            old(self)@.wf(),
        ensures
            final(self)@ == old(self)@.osc_text(cs@, now),
            final(self)@.wf(),
    {
        let (code, tail) = split_first(cs, ';');
        let none: [char; 0] = [];
        assert(none@ =~= Seq::<char>::empty());
        let rest: &[char] = match tail {
            Some(r) => r,
            None => &none,
        };
        if text_eq(code, "0") || text_eq(code, "2") {
            self.set_title(rest);
        } else if text_eq(code, "7") {
            if let Some(path) = parse_file_url(rest) {
                self.set_cwd(path);
            }
        } else if text_eq(code, "133") {
            self.osc_semantic(rest, now);
        } else if text_eq(code, "633") {
            self.osc_vscode(rest, now);
        } else if text_eq(code, "10") && text_eq(rest, "?") {
            // Default theme colors; real palette lives in the app.
            append_ascii(&mut self.responses, "\x1b]10;rgb:d6d6/dbdb/e1e1\x1b\\");
        } else if text_eq(code, "11") && text_eq(rest, "?") {
            append_ascii(&mut self.responses, "\x1b]11;rgb:0e0e/1111/1616\x1b\\");
        }
    }

    fn set_title(&mut self, title: &[char])
        requires
            old(self)@.wf(),
        ensures
            final(self)@ == (TermState { title: title@, ..old(self)@ }).with_event(
                EventState::Title(title@),
            ),
            final(self)@.wf(),
    {
        self.title = string_of(title);
        self.push_event(TermEvent::Title(string_of(title)));
    }

    fn set_cwd(&mut self, path: String)
        requires
            old(self)@.wf(),
        ensures
            final(self)@ == old(self)@.cwd_changed(path@),
            final(self)@.wf(),
    {
        self.cwd = Some(path.clone());
        self.push_event(TermEvent::CwdChanged(path));
    }

    /// Starts a command block.
    fn start_block(&mut self, now: u64)
        requires
            old(self)@.wf(),
        ensures
            final(self)@ == old(self)@.command_started(now),
            final(self)@.wf(),
    {
        let cwd = match &self.cwd {
            Some(s) => Some(s.clone()),
            None => None,
        };
        let id = self.blocks.start_at(cwd, now);
        self.push_event(TermEvent::BlockStarted(id));
    }

    /// Ends the running command block, if there is one.
    fn finish_block(&mut self, exit: Option<i32>, now: u64)
        requires
            old(self)@.wf(),
        ensures
            final(self)@ == old(self)@.command_finished(exit, now),
            final(self)@.wf(),
    {
        if let Some(id) = self.blocks.finish_at(exit, now) {
            self.push_event(TermEvent::BlockFinished(id));
        }
    }

    /// OSC 133 (FinalTerm / semantic prompts): A prompt, B command-start,
    /// C pre-exec, D;exit finished.
    pub fn osc_semantic(&mut self, rest: &[char], now: u64)
        requires
            old(self)@.wf(),
        ensures
            final(self)@ == old(self)@.semantic(rest@, now),
            final(self)@.wf(),
    {
        let (mark, arg) = split_first(rest, ';');
        if text_eq(mark, "C") {
            self.start_block(now);
        } else if text_eq(mark, "D") {
            self.finish_block(exit_code(arg), now);
        }
    }

    /// OSC 633 (VS Code shell integration): E (command line) and P;Cwd=...,
    /// with A to D as aliases of 133.
    pub fn osc_vscode(&mut self, rest: &[char], now: u64)
        requires
            old(self)@.wf(),
        ensures
            final(self)@ == old(self)@.vscode(rest@, now),
            final(self)@.wf(),
    {
        let (mark, arg) = split_first(rest, ';');
        if text_eq(mark, "E") {
            if let Some(a) = arg {
                self.set_pending(a);
            }
        } else if text_eq(mark, "P") {
            if let Some(kv) = arg {
                if let Some(cwd) = strip_prefix(kv, "Cwd=") {
                    self.set_cwd(string_of(cwd));
                }
            }
        } else if text_eq(mark, "C") {
            self.start_block(now);
        } else if text_eq(mark, "D") {
            self.osc_semantic(rest, now);
        }
    }

    /// The command line that is about to run: the first field only, a trailing
    /// nonce is discarded.
    fn set_pending(&mut self, arg: &[char])
        requires
            old(self)@.wf(),
        ensures
            final(self)@ == (TermState {
                blocks: old(self)@.blocks.with_pending(
                    crate::osc::decode_633_text(before(arg@, ';')),
                ),
                ..old(self)@
            }),
            final(self)@.wf(),
    {
        let (cmd, _) = split_first(arg, ';');
        self.blocks.set_pending_command(decode_633(cmd));
    }
}

} // verus!
