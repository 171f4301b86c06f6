//! What holds of the command blocks as a whole.

use vstd::prelude::*;
#[allow(unused_imports)]
use vstd::utf8::encode_utf8;

#[allow(unused_imports)]
use super::{find_id, id_after, lemma_encode_push, BlockState, BlocksState, MAX_BLOCKS, OUTPUT_CAP};

verus! {

/// The held blocks have ids that follow each other, all of them different, and
/// no more than one block runs: the one started last. What is held, and what is
/// captured of each output, stays within its bound.
pub proof fn law_blocks_in_order(s: BlocksState)
    requires
        s.wf(),
    ensures
        s.blocks.len() <= MAX_BLOCKS,
        forall|i: int, j: int|
            0 <= i < j < s.blocks.len() ==> (#[trigger] s.blocks[i]).id != (
            #[trigger] s.blocks[j]).id,
        forall|i: int|
            0 <= i < s.blocks.len() - 1 ==> id_after((#[trigger] s.blocks[i]).id) == s.blocks[i
                + 1].id,
        s.blocks.len() > 0 ==> id_after(s.blocks.last().id) == s.next_id,
        forall|i: int|
            0 <= i < s.blocks.len() && (#[trigger] s.blocks[i]).running ==> i == s.blocks.len() - 1,
        forall|i: int|
            0 <= i < s.blocks.len() ==> encode_utf8((#[trigger] s.blocks[i]).output).len()
                <= OUTPUT_CAP,
{
    reveal(BlocksState::wf);
    assert forall|i: int| 0 <= i < s.blocks.len() implies encode_utf8(
        (#[trigger] s.blocks[i]).output,
    ).len() <= OUTPUT_CAP by {
        assert(s.blocks[i].wf());
    }
}

/// Every held block is found under its id.
pub proof fn law_every_block_is_found(s: BlocksState, i: int)
    requires
        s.wf(),
        0 <= i < s.blocks.len(),
    ensures
        find_id(s.blocks, s.blocks[i].id) == Some(s.blocks[i]),
{
    law_blocks_in_order(s);
    lemma_found(s.blocks, i);
}

proof fn lemma_found(blocks: Seq<BlockState>, i: int)
    requires
        0 <= i < blocks.len(),
        forall|j: int| 0 <= j < i ==> (#[trigger] blocks[j]).id != blocks[i].id,
    ensures
        find_id(blocks, blocks[i].id) == Some(blocks[i]),
    decreases blocks.len(),
{
    if i > 0 {
        let rest = blocks.drop_first();
        assert(blocks[0].id != blocks[i].id);
        assert forall|j: int| 0 <= j < i - 1 implies (#[trigger] rest[j]).id != rest[i - 1].id by {
            assert(rest[j] == blocks[j + 1]);
        }
        lemma_found(rest, i - 1);
    }
}

/// A block that ended stays as it is, whatever is captured or ended after it,
/// and a new one is put behind it.
pub proof fn law_ended_blocks_stay(
    s: BlocksState,
    i: int,
    cwd: Option<Seq<char>>,
    exit: Option<i32>,
    ch: char,
    now: u64,
)
    requires
        s.wf(),
        0 <= i < s.blocks.len(),
        !s.blocks[i].running,
    ensures
        s.captured(ch).blocks[i] == s.blocks[i],
        s.finished(exit, now).blocks[i] == s.blocks[i],
        s.blocks.len() < MAX_BLOCKS ==> s.started(cwd, now).blocks[i] == s.blocks[i],
        s.blocks.len() == MAX_BLOCKS && i > 0 ==> s.started(cwd, now).blocks[i - 1] == s.blocks[i],
{
    reveal(BlocksState::wf);
}

impl BlockState {
    /// The block with the characters of `text` added to its output, one after
    /// the other.
    pub open spec fn captured_all(self, text: Seq<char>) -> BlockState
        decreases text.len(),
    {
        if text.len() == 0 {
            self
        } else {
            self.captured_all(text.drop_last()).captured(text.last())
        }
    }
}

impl BlocksState {
    /// The characters of `text` captured one after the other.
    pub open spec fn captured_all(self, text: Seq<char>) -> BlocksState
        decreases text.len(),
    {
        if text.len() == 0 {
            self
        } else {
            self.captured_all(text.drop_last()).captured(text.last())
        }
    }
}

/// Only the running block takes the output.
proof fn lemma_captured_all(s: BlocksState, text: Seq<char>, r: int)
    requires
        s.running == Some(r),
        0 <= r < s.blocks.len(),
    ensures
        s.captured_all(text) == (BlocksState {
            blocks: s.blocks.update(r, s.blocks[r].captured_all(text)),
            ..s
        }),
    decreases text.len(),
{
    if text.len() == 0 {
        assert(s.blocks.update(r, s.blocks[r]) =~= s.blocks);
    } else {
        lemma_captured_all(s, text.drop_last(), r);
        assert(s.captured_all(text).blocks =~= s.blocks.update(r, s.blocks[r].captured_all(text)));
    }
}

/// What a fresh block captures of `text`: a prefix of it that is within the
/// cap; all of it, and not marked as truncated, where its encoding is within
/// the cap; otherwise as much as leaves no room for a character of four bytes.
pub proof fn law_capture_is_prefix(b: BlockState, text: Seq<char>)
    requires
        b.output.len() == 0,
        !b.output_truncated,
    ensures
        b.captured_all(text).output.is_prefix_of(text),
        b.captured_all(text) == (BlockState {
            output: b.captured_all(text).output,
            output_truncated: b.captured_all(text).output.len() < text.len(),
            ..b
        }),
        encode_utf8(text).len() <= OUTPUT_CAP ==> b.captured_all(text).output == text,
        encode_utf8(b.captured_all(text).output).len() <= OUTPUT_CAP,
        b.captured_all(text).output_truncated ==> encode_utf8(b.captured_all(text).output).len()
            > OUTPUT_CAP - 4,
    decreases text.len(),
{
    if text.len() == 0 {
        assert(b.output =~= text);
    } else {
        let init = text.drop_last();
        law_capture_is_prefix(b, init);
        let c = b.captured_all(init);
        lemma_encode_push(init, text.last());
        assert(init.push(text.last()) =~= text);
        assert(text.subrange(0, c.output.len() as int) =~= init.subrange(
            0,
            c.output.len() as int,
        ));
        if c.output.len() == init.len() {
            assert(c.output =~= init);
        }
    }
}

/// The life of a command: its command line is reported, it starts, prints and
/// ends. Then it is the last block, and holds the command line, the directory,
/// the output and the exit code, with the moments of its start and end.
pub proof fn law_block_lifecycle(
    s: BlocksState,
    cmd: Seq<char>,
    cwd: Option<Seq<char>>,
    text: Seq<char>,
    exit: Option<i32>,
    t0: u64,
    t1: u64,
)
    requires
        s.wf(),
        encode_utf8(text).len() <= OUTPUT_CAP,
    ensures
        ({
            let end = s.with_pending(cmd).started(cwd, t0).captured_all(text).finished(exit, t1);
            &&& end.running is None
            &&& end.next_id == id_after(s.next_id)
            &&& end.blocks.len() > 0
            &&& end.blocks.last() == (BlockState {
                id: s.next_id,
                command: cmd,
                cwd,
                output: text,
                output_truncated: false,
                exit,
                running: false,
                started_ms: t0,
                ended_ms: Some(t1),
            })
        }),
{
    reveal(BlocksState::wf);
    let started = s.with_pending(cmd).started(cwd, t0);
    let r = started.blocks.len() - 1;
    let fresh = s.with_pending(cmd).fresh(cwd, t0);
    assert(started.blocks[r] == fresh);
    lemma_captured_all(started, text, r);
    law_capture_is_prefix(fresh, text);
}

/// A new block ends the one that runs, without an exit code, and takes the
/// command line that was reported; the next one does not get that again.
pub proof fn law_starting_ends_what_runs(
    s: BlocksState,
    cwd: Option<Seq<char>>,
    t0: u64,
    t1: u64,
    i: int,
)
    requires
        s.wf(),
        s.running == Some(i),
        s.blocks.len() < 512,
    ensures
        ({
            let next = s.started(cwd, t0);
            &&& next.blocks.len() == s.blocks.len() + 1
            &&& next.blocks[i] == (BlockState {
                running: false,
                exit: None,
                ended_ms: Some(t0),
                ..s.blocks[i]
            })
            &&& next.blocks.last().running && next.running == Some(s.blocks.len() as int)
            &&& next.blocks.last().command == (match s.pending {
                Some(cmd) => cmd,
                None => Seq::empty(),
            })
            &&& next.blocks.last().cwd == cwd && next.blocks.last().started_ms == t0
            &&& next.pending is None
            &&& next.started(cwd, t1).blocks.last().command.len() == 0
        }),
{
    reveal(BlocksState::wf);
}

/// At most 512 blocks are held: the oldest makes room.
pub proof fn law_oldest_makes_room(s: BlocksState, cwd: Option<Seq<char>>, now: u64, i: int)
    requires
        s.wf(),
        s.blocks.len() == 512,
        0 < i < 512,
    ensures
        s.started(cwd, now).blocks.len() == 512,
        s.started(cwd, now).blocks[i - 1].id == s.blocks[i].id,
{
    reveal(BlocksState::wf);
}

/// Without a running block nothing is captured and nothing ends.
pub proof fn law_nothing_runs(s: BlocksState, ch: char, exit: Option<i32>, now: u64)
    requires
        s.running is None,
    ensures
        s.captured(ch) == s,
        s.finished(exit, now) == s,
{
}

/// A block captures a mebibyte of output, counted in bytes of UTF-8.
pub proof fn law_capture_limit(b: BlockState, ch: char)
    requires
        !b.output_truncated,
    ensures
        encode_utf8(b.output.push(ch)).len() <= 1024 * 1024 ==> b.captured(ch) == (BlockState {
            output: b.output.push(ch),
            ..b
        }),
        encode_utf8(b.output.push(ch)).len() > 1024 * 1024 ==> b.captured(ch) == (BlockState {
            output_truncated: true,
            ..b
        }),
{
    lemma_encode_push(b.output, ch);
}

} // verus!
