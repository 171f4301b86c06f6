//! What holds of the output that a command shows: all of it is captured, and
//! the command becomes a block.

use vstd::prelude::*;
#[allow(unused_imports)]
use vstd::utf8::encode_utf8;

use super::laws::Output;
use super::model::TermState;
#[allow(unused_imports)]
use super::model::{EventState, MAX_EVENTS};
#[allow(unused_imports)]
use super::osc_laws::{
    law_command_reported, law_command_starts, law_exit_reported, signed_decimal,
};
#[allow(unused_imports)]
use crate::blocks::laws::law_block_lifecycle;
#[allow(unused_imports)]
use crate::blocks::{id_after, BlockState, BlocksState, OUTPUT_CAP};
#[allow(unused_imports)]
use crate::osc::escape_633;
#[allow(unused_imports)]
use crate::width::columns_of;

verus! {

/// The text that `out` shows: each character that takes columns, and a newline
/// for each line feed, vertical tab and form feed.
pub open spec fn shown(out: Seq<Output>) -> Seq<char>
    decreases out.len(),
{
    if out.len() == 0 {
        Seq::empty()
    } else {
        let t = shown(out.drop_last());
        match out.last() {
            Output::Print(ch) => if columns_of(ch) > 0 {
                t.push(ch)
            } else {
                t
            },
            Output::Control(byte) => if byte == 0x0a || byte == 0x0b || byte == 0x0c {
                t.push('\n')
            } else {
                t
            },
        }
    }
}

/// A printed character that takes columns reaches the running block as it is
/// shown, wherever the cursor stands, wrapped or not; on the alternate screen
/// nothing does.
pub proof fn law_printed_is_captured(s: TermState, ch: char)
    ensures
        !s.alt_active && columns_of(s.mapped(ch)) > 0 ==> s.printed(ch).blocks
            == s.blocks.captured(s.mapped(ch)),
        s.alt_active || columns_of(s.mapped(ch)) == 0 ==> s.printed(ch).blocks == s.blocks,
        s.printed(ch).alt_active == s.alt_active,
        s.printed(ch).charsets == s.charsets,
{
}

/// Line feed, vertical tab and form feed reach the running block as a newline;
/// no other control does.
pub proof fn law_controls_are_captured(s: TermState, byte: u8)
    ensures
        !s.alt_active && (byte == 0x0a || byte == 0x0b || byte == 0x0c) ==> s.controlled(
            byte,
        ).blocks == s.blocks.captured('\n'),
        s.alt_active || !(byte == 0x0a || byte == 0x0b || byte == 0x0c) ==> s.controlled(
            byte,
        ).blocks == s.blocks,
        s.controlled(byte).alt_active == s.alt_active,
        s.controlled(byte).charsets.g0_linedraw == s.charsets.g0_linedraw,
        s.controlled(byte).charsets.g1_linedraw == s.charsets.g1_linedraw,
{
}

/// On the primary screen everything that is shown is captured, in its order and
/// with nothing lost, whatever the cursor, the width of the screen and a wrap
/// that is due. What the screen scrolls or overwrites stays captured.
pub proof fn law_output_is_captured(s: TermState, out: Seq<Output>)
    requires
        !s.alt_active,
        !s.charsets.g0_linedraw,
        !s.charsets.g1_linedraw,
    ensures
        s.written(out).blocks == s.blocks.captured_all(shown(out)),
        !s.written(out).alt_active,
        !s.written(out).charsets.g0_linedraw,
        !s.written(out).charsets.g1_linedraw,
    decreases out.len(),
{
    if out.len() > 0 {
        let init = out.drop_last();
        law_output_is_captured(s, init);
        let t = s.written(init);
        let c = match out.last() {
            Output::Print(ch) => {
                law_printed_is_captured(t, ch);
                ch
            },
            Output::Control(byte) => {
                law_controls_are_captured(t, byte);
                '\n'
            },
        };
        assert(shown(init).push(c).drop_last() =~= shown(init));
    }
}

/// A text of characters that take columns is captured to the letter.
pub proof fn law_text_is_captured(s: TermState, text: Seq<char>, out: Seq<Output>)
    requires
        !s.alt_active,
        !s.charsets.g0_linedraw,
        !s.charsets.g1_linedraw,
        out.len() == text.len(),
        forall|i: int|
            0 <= i < text.len() ==> #[trigger] out[i] == Output::Print(text[i]) && columns_of(
                text[i],
            ) > 0,
    ensures
        s.written(out).blocks == s.blocks.captured_all(text),
{
    law_output_is_captured(s, out);
    lemma_shown(text, out);
}

proof fn lemma_shown(text: Seq<char>, out: Seq<Output>)
    requires
        out.len() == text.len(),
        forall|i: int|
            0 <= i < text.len() ==> #[trigger] out[i] == Output::Print(text[i]) && columns_of(
                text[i],
            ) > 0,
    ensures
        shown(out) == text,
    decreases text.len(),
{
    if text.len() > 0 {
        let n = text.len() - 1;
        assert forall|i: int| 0 <= i < n implies #[trigger] out.drop_last()[i] == Output::Print(
            text.drop_last()[i],
        ) && columns_of(text.drop_last()[i]) > 0 by {
            assert(out[i] == out.drop_last()[i]);
        }
        lemma_shown(text.drop_last(), out.drop_last());
        assert(out[n] == Output::Print(text[n]));
        assert(text.drop_last().push(text[n]) =~= text);
    } else {
        assert(text =~= Seq::empty());
    }
}

/// Every command becomes a block. The shell reports the command line, the
/// start, whatever the command shows, and the exit code; then the last block
/// holds the command line, the directory, exactly what was shown and the exit
/// code, with the moments of the two reports. Nothing runs any more.
pub proof fn law_command_becomes_block(
    s: TermState,
    cmd: Seq<char>,
    out: Seq<Output>,
    exit: i32,
    t0: u64,
    t1: u64,
)
    requires
        s.wf(),
        !s.alt_active,
        !s.charsets.g0_linedraw,
        !s.charsets.g1_linedraw,
        encode_utf8(shown(out)).len() <= OUTPUT_CAP,
    ensures
        ({
            let reported = s.osc_text("633;"@ + ("E;"@ + escape_633(cmd)), t0);
            let started = reported.osc_text("133;"@ + "C"@, t0);
            let end = started.written(out).osc_text(
                "133;"@ + ("D;"@ + signed_decimal(exit)),
                t1,
            );
            &&& end.blocks.running is None
            &&& end.blocks.next_id == id_after(s.blocks.next_id)
            &&& end.blocks.blocks.len() > 0
            &&& end.blocks.blocks.last() == (BlockState {
                id: s.blocks.next_id,
                command: cmd,
                cwd: s.cwd,
                output: shown(out),
                output_truncated: false,
                exit: Some(exit),
                running: false,
                started_ms: t0,
                ended_ms: Some(t1),
            })
        }),
{
    let reported = s.osc_text("633;"@ + ("E;"@ + escape_633(cmd)), t0);
    law_command_reported(s, cmd, t0);
    law_command_starts(reported, t0);
    let started = reported.command_started(t0);
    assert(started.blocks == s.blocks.with_pending(cmd).started(s.cwd, t0));
    law_output_is_captured(started, out);
    let shown_all = started.written(out);
    law_exit_reported(shown_all, exit, t1);
    assert(shown_all.command_finished(Some(exit), t1).blocks == shown_all.blocks.finished(
        Some(exit),
        t1,
    ));
    law_block_lifecycle(s.blocks, cmd, s.cwd, shown(out), Some(exit), t0, t1);
}

/// The start and the end of a command are announced with the id of its block,
/// unless too many events wait.
pub proof fn law_commands_are_announced(s: TermState, exit: Option<i32>, now: u64)
    requires
        s.wf(),
        s.events.len() < MAX_EVENTS,
    ensures
        s.command_started(now).events == s.events.push(
            EventState::BlockStarted(s.command_started(now).blocks.blocks.last().id),
        ),
        s.blocks.running is Some ==> s.command_finished(exit, now).events == s.events.push(
            EventState::BlockFinished(s.blocks.blocks.last().id),
        ),
        s.blocks.running is None ==> s.command_finished(exit, now) == s,
{
    reveal(BlocksState::wf);
}

} // verus!
