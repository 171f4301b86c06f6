//! Semantic command blocks.
//!
//! Shell integration (OSC 133 / OSC 633) marks prompt/command/output
//! boundaries in the byte stream. mimi turns every executed command into a
//! [`Block`]: command line, cwd, captured output, exit code, timing. Agents
//! consume these over the control socket instead of scraping the screen.

use std::collections::vec_deque::Iter;
use std::collections::VecDeque;

use vstd::prelude::*;
#[allow(unused_imports)]
use vstd::std_specs::iter::IteratorSpec;
#[allow(unused_imports)]
use vstd::utf8::{encode_scalar, encode_utf8};

pub mod laws;

use crate::clock::now_ms;
use crate::stdx::deque_get_mut;

verus! {

/// Cap on captured output per block, in bytes. Output keeps flowing to the
/// screen regardless; only the agent-visible capture is truncated.
pub const OUTPUT_CAP: usize = 1048576;

/// How many blocks are kept.
pub const MAX_BLOCKS: usize = 512;

#[derive(Clone, Debug)]
pub struct Block {
    pub id: u64,
    pub command: String,
    pub cwd: Option<String>,
    pub output: String,
    pub output_truncated: bool,
    pub exit: Option<i32>,
    pub running: bool,
    pub started_ms: u64,
    pub ended_ms: Option<u64>,
}

/// A block as a mathematical value.
#[verifier::ext_equal]
pub struct BlockState {
    pub id: u64,
    pub command: Seq<char>,
    pub cwd: Option<Seq<char>>,
    pub output: Seq<char>,
    pub output_truncated: bool,
    pub exit: Option<i32>,
    pub running: bool,
    pub started_ms: u64,
    pub ended_ms: Option<u64>,
}

/// The characters of an optional string.
pub open spec fn text_of(s: Option<String>) -> Option<Seq<char>> {
    match s {
        Some(s) => Some(s@),
        None => None,
    }
}

impl View for Block {
    type V = BlockState;

    open spec fn view(&self) -> BlockState {
        BlockState {
            id: self.id,
            command: self.command@,
            cwd: text_of(self.cwd),
            output: self.output@,
            output_truncated: self.output_truncated,
            exit: self.exit,
            running: self.running,
            started_ms: self.started_ms,
            ended_ms: self.ended_ms,
        }
    }
}

impl BlockState {
    /// A running block has neither an exit code nor an end; one that does not
    /// run has an end. The captured output is within the cap.
    pub open spec fn wf(self) -> bool {
        &&& self.running ==> self.exit is None && self.ended_ms is None
        &&& !self.running ==> self.ended_ms is Some
        &&& encode_utf8(self.output).len() <= OUTPUT_CAP
    }

    /// The block with one more character of output. From the first character
    /// on that would go beyond the cap, nothing more is captured.
    pub open spec fn captured(self, ch: char) -> BlockState {
        if !self.output_truncated && encode_utf8(self.output).len() + encode_scalar(
            ch as u32,
        ).len() <= OUTPUT_CAP {
            BlockState { output: self.output.push(ch), ..self }
        } else {
            BlockState { output_truncated: true, ..self }
        }
    }

    /// The block, ended at `now` with the exit code `exit`.
    pub open spec fn ended(self, exit: Option<i32>, now: u64) -> BlockState {
        BlockState { running: false, exit, ended_ms: Some(now), ..self }
    }
}

#[verifier::ext_equal]
pub struct BlocksState {
    pub blocks: Seq<BlockState>,
    pub next_id: u64,
    pub pending: Option<Seq<char>>,
    pub running: Option<int>,
}

/// The id behind `id`.
pub open spec fn id_after(id: u64) -> u64 {
    if id == u64::MAX {
        0
    } else {
        (id + 1) as u64
    }
}

/// The id that a block got when `n` blocks were started since, itself among
/// them, and `next` is the next id.
pub open spec fn id_before(next: u64, n: int) -> u64 {
    if next >= n {
        (next - n) as u64
    } else {
        (next - n + 0x1_0000_0000_0000_0000) as u64
    }
}

impl BlocksState {
    pub open spec fn empty() -> BlocksState {
        BlocksState { blocks: Seq::empty(), next_id: 0, pending: None, running: None }
    }

    /// At most [`MAX_BLOCKS`] blocks, in the order of their ids, which follow
    /// each other up to the next id. Only the last one can be running.
    #[verifier::opaque]
    pub open spec fn wf(self) -> bool {
        &&& self.blocks.len() <= MAX_BLOCKS
        &&& forall|i: int| 0 <= i < self.blocks.len() ==> (#[trigger] self.blocks[i]).wf()
        &&& forall|i: int|
            0 <= i < self.blocks.len() ==> (#[trigger] self.blocks[i]).id == id_before(
                self.next_id,
                self.blocks.len() - i,
            )
        &&& forall|i: int|
            0 <= i < self.blocks.len() ==> ((#[trigger] self.blocks[i]).running
                <==> self.running == Some(i))
        &&& self.running matches Some(i) ==> i == self.blocks.len() - 1 && i >= 0
    }

    pub open spec fn with_pending(self, cmd: Seq<char>) -> BlocksState {
        BlocksState { pending: Some(cmd), ..self }
    }

    /// The running block, if there is one, ended at `now` with `exit`.
    pub open spec fn finished(self, exit: Option<i32>, now: u64) -> BlocksState {
        match self.running {
            Some(i) => BlocksState {
                blocks: self.blocks.update(i, self.blocks[i].ended(exit, now)),
                running: None,
                ..self
            },
            None => self,
        }
    }

    /// The block that starts at `now` in the directory `cwd`.
    pub open spec fn fresh(self, cwd: Option<Seq<char>>, now: u64) -> BlockState {
        BlockState {
            id: self.next_id,
            command: match self.pending {
                Some(cmd) => cmd,
                None => Seq::empty(),
            },
            cwd,
            output: Seq::empty(),
            output_truncated: false,
            exit: None,
            running: true,
            started_ms: now,
            ended_ms: None,
        }
    }

    /// A new block started at `now`: what ran is ended without an exit code,
    /// and the oldest block goes when there are too many.
    pub open spec fn started(self, cwd: Option<Seq<char>>, now: u64) -> BlocksState {
        let pushed = self.finished(None, now).blocks.push(self.fresh(cwd, now));
        let kept = if pushed.len() > MAX_BLOCKS {
            pushed.skip(1)
        } else {
            pushed
        };
        BlocksState {
            blocks: kept,
            next_id: id_after(self.next_id),
            pending: None,
            running: Some(kept.len() - 1),
        }
    }

    /// One character of output given to the running block, if there is one.
    pub open spec fn captured(self, ch: char) -> BlocksState {
        match self.running {
            Some(i) => BlocksState {
                blocks: self.blocks.update(i, self.blocks[i].captured(ch)),
                ..self
            },
            None => self,
        }
    }
}

impl BlocksState {
    pub proof fn lemma_captured_wf(self, ch: char)
        requires
            self.wf(),
        ensures
            self.captured(ch).wf(),
    {
        reveal(BlocksState::wf);
        if let Some(i) = self.running {
            lemma_encode_push(self.blocks[i].output, ch);
        }
    }

    pub proof fn lemma_finished_wf(self, exit: Option<i32>, now: u64)
        requires
            self.wf(),
        ensures
            self.finished(exit, now).wf(),
    {
        reveal(BlocksState::wf);
    }

    pub proof fn lemma_started_wf(self, cwd: Option<Seq<char>>, now: u64)
        requires
            self.wf(),
        ensures
            self.started(cwd, now).wf(),
    {
        reveal(BlocksState::wf);
        assert(encode_utf8(Seq::<char>::empty()).len() == 0);
    }
}

pub struct BlockStore {
    pub blocks: VecDeque<Block>,
    pub next_id: u64,
    /// Command line reported by OSC 633;E just before execution.
    pub pending_command: Option<String>,
    /// Index (in `blocks`) of the currently running block.
    pub running: Option<usize>,
}

/// The value of an optional block.
pub open spec fn block_of(b: Option<&Block>) -> Option<BlockState> {
    match b {
        Some(b) => Some(b@),
        None => None,
    }
}

/// The first block with the id `id`.
pub open spec fn find_id(blocks: Seq<BlockState>, id: u64) -> Option<BlockState>
    decreases blocks.len(),
{
    if blocks.len() == 0 {
        None
    } else if blocks[0].id == id {
        Some(blocks[0])
    } else {
        find_id(blocks.drop_first(), id)
    }
}

/// The newest block with an id from `watermark` on that has ended.
pub open spec fn newest_ended(blocks: Seq<BlockState>, watermark: u64) -> Option<BlockState>
    decreases blocks.len(),
{
    if blocks.len() == 0 {
        None
    } else if blocks.last().id >= watermark && !blocks.last().running {
        Some(blocks.last())
    } else {
        newest_ended(blocks.drop_last(), watermark)
    }
}

/// The values of the blocks.
pub open spec fn block_states(blocks: Seq<Block>) -> Seq<BlockState> {
    Seq::new(blocks.len(), |i: int| blocks[i]@)
}

impl View for BlockStore {
    type V = BlocksState;

    open spec fn view(&self) -> BlocksState {
        BlocksState {
            blocks: block_states(self.blocks@),
            next_id: self.next_id,
            pending: text_of(self.pending_command),
            running: match self.running {
                Some(i) => Some(i as int),
                None => None,
            },
        }
    }
}

impl Default for BlockStore {
    fn default() -> (s: Self)
        ensures
            s@ == BlocksState::empty(),
            s@.wf(),
    {
        proof {
            reveal(BlocksState::wf);
        }
        let s = BlockStore {
            blocks: VecDeque::new(),
            next_id: 0,
            pending_command: None,
            running: None,
        };
        assert(s@.blocks =~= Seq::empty());
        s
    }
}

/// One more character makes the encoding longer by that character's encoding.
pub proof fn lemma_encode_push(s: Seq<char>, c: char)
    ensures
        encode_utf8(s.push(c)) == encode_utf8(s) + encode_scalar(c as u32),
    decreases s.len(),
{
    reveal_with_fuel(encode_utf8, 2);
    if s.len() == 0 {
        assert(s.push(c).drop_first() =~= Seq::<char>::empty());
        assert(encode_utf8(s.push(c)) =~= encode_utf8(s) + encode_scalar(c as u32));
    } else {
        lemma_encode_push(s.drop_first(), c);
        assert(s.push(c).drop_first() =~= s.drop_first().push(c));
        assert(encode_utf8(s.push(c)) =~= encode_utf8(s) + encode_scalar(c as u32));
    }
}

/// How many bytes the encoding of `ch` has.
fn utf8_len(ch: char) -> (n: usize)
    ensures
        n == encode_scalar(ch as u32).len(),
{
    let c = ch as u32;
    if c <= 0x7f {
        1
    } else if c <= 0x7ff {
        2
    } else if c <= 0xffff {
        3
    } else {
        4
    }
}

impl BlockStore {
    pub fn set_pending_command(&mut self, cmd: String)
        ensures
            final(self)@ == old(self)@.with_pending(cmd@),
            old(self)@.wf() ==> final(self)@.wf(),
    {
        proof {
            reveal(BlocksState::wf);
        }
        self.pending_command = Some(cmd);
    }

    /// OSC 133;C — the shell is about to execute a command. Returns the id of
    /// the new block. Which moment the block is stamped with, the clock says.
    pub fn start(&mut self, cwd: Option<String>) -> (id: u64)
        requires
            old(self)@.wf(),
        ensures
            id == old(self)@.next_id,
            exists|now: u64| final(self)@ == #[trigger] old(self)@.started(text_of(cwd), now),
            final(self)@.wf(),
    {
        let now = now_ms();
        self.start_at(cwd, now)
    }

    /// Starts a block at the moment `now`.
    pub fn start_at(&mut self, cwd: Option<String>, now: u64) -> (id: u64)
        requires
            old(self)@.wf(),
        ensures
            id == old(self)@.next_id,
            final(self)@ == old(self)@.started(text_of(cwd), now),
            final(self)@.wf(),
    {
        proof {
            reveal(BlocksState::wf);
        }
        let ghost before = self@;
        // A new command implicitly ends any block that never saw its D mark.
        self.finish_at(None, now);
        let ghost closed = self@;
        let id = self.next_id;
        self.next_id = id.wrapping_add(1);
        let command = match self.pending_command.take() {
            Some(cmd) => cmd,
            None => String::new(),
        };
        self.blocks.push_back(
            Block {
                id,
                command,
                cwd,
                output: String::new(),
                output_truncated: false,
                exit: None,
                running: true,
                started_ms: now,
                ended_ms: None,
            },
        );
        assert(block_states(self.blocks@) =~= closed.blocks.push(before.fresh(text_of(cwd), now)));
        if self.blocks.len() > MAX_BLOCKS {
            let ghost full = self.blocks@;
            self.blocks.pop_front();
            assert(block_states(self.blocks@) =~= block_states(full).skip(1));
        }
        self.running = Some(self.blocks.len() - 1);
        assert(encode_utf8(Seq::<char>::empty()).len() == 0);
        id
    }

    /// OSC 133;D;<exit> — the command finished. Returns the block id. Which
    /// moment the block is stamped with, the clock says.
    pub fn finish(&mut self, exit: Option<i32>) -> (id: Option<u64>)
        requires
            old(self)@.wf(),
        ensures
            exists|now: u64| final(self)@ == #[trigger] old(self)@.finished(exit, now),
            id == (match old(self)@.running {
                Some(i) => Some(old(self)@.blocks[i].id),
                None => None,
            }),
            final(self)@.wf(),
    {
        let now = now_ms();
        self.finish_at(exit, now)
    }

    /// Ends the running block at the moment `now`.
    pub fn finish_at(&mut self, exit: Option<i32>, now: u64) -> (id: Option<u64>)
        requires
            old(self)@.wf(),
        ensures
            final(self)@ == old(self)@.finished(exit, now),
            id == (match old(self)@.running {
                Some(i) => Some(old(self)@.blocks[i].id),
                None => None,
            }),
            final(self)@.wf(),
    {
        proof {
            reveal(BlocksState::wf);
        }
        match self.running.take() {
            Some(idx) => {
                let ghost held = self.blocks@;
                match deque_get_mut(&mut self.blocks, idx) {
                    Some(block) => {
                        block.running = false;
                        block.exit = exit;
                        block.ended_ms = Some(now);
                        let id = block.id;
                        assert(block_states(self.blocks@) =~= block_states(held).update(
                            idx as int,
                            held[idx as int]@.ended(exit, now),
                        ));
                        Some(id)
                    },
                    None => None,
                }
            },
            None => None,
        }
    }

    /// Append printed output to the running block (called from the print/
    /// linefeed paths; the caller skips alt-screen output).
    pub fn capture(&mut self, ch: char)
        requires
            old(self)@.wf(),
        ensures
            final(self)@ == old(self)@.captured(ch),
            final(self)@.wf(),
    {
        proof {
            reveal(BlocksState::wf);
        }
        if let Some(idx) = self.running {
            let ghost held = self.blocks@;
            assert(self@.blocks[idx as int].wf());
            proof {
                lemma_encode_push(held[idx as int].output@, ch);
            }
            if let Some(block) = deque_get_mut(&mut self.blocks, idx) {
                let held_bytes = block.output.as_str().as_bytes().len();
                if !block.output_truncated && utf8_len(ch) <= OUTPUT_CAP - held_bytes {
                    block.output.push(ch);
                } else {
                    block.output_truncated = true;
                }
            }
            assert(block_states(self.blocks@) =~= block_states(held).update(
                idx as int,
                held[idx as int]@.captured(ch),
            ));
        }
    }

    pub fn is_capturing(&self) -> (b: bool)
        ensures
            b == (self@.running is Some),
    {
        self.running.is_some()
    }

    /// The id the next started block will get — lets pollers detect "a block
    /// newer than now" without racing.
    pub fn next_id(&self) -> (id: u64)
        ensures
            id == self@.next_id,
    {
        self.next_id
    }

    /// The block with the id `id`, if it is still held.
    pub fn get(&self, id: u64) -> (r: Option<&Block>)
        ensures
            block_of(r) == find_id(self@.blocks, id),
    {
        let ghost all = self@.blocks;
        assert(all.skip(0) =~= all);
        for i in 0..self.blocks.len()
            invariant
                all == self@.blocks,
                find_id(all, id) == find_id(all.skip(i as int), id),
        {
            let ghost rest = all.skip(i as int);
            assert(rest[0] == self.blocks@[i as int]@);
            if self.blocks[i].id == id {
                return Some(&self.blocks[i]);
            }
            assert(rest.drop_first() =~= all.skip(i + 1));
        }
        assert(all.skip(all.len() as int) =~= Seq::empty());
        None
    }

    /// The block started last.
    pub fn last(&self) -> (r: Option<&Block>)
        ensures
            block_of(r) == (if self@.blocks.len() > 0 {
                Some(self@.blocks.last())
            } else {
                None
            }),
    {
        let n = self.blocks.len();
        if n == 0 {
            None
        } else {
            Some(&self.blocks[n - 1])
        }
    }

    /// The newest block with an id from `watermark` on that has ended.
    pub fn ended_since(&self, watermark: u64) -> (r: Option<&Block>)
        ensures
            block_of(r) == newest_ended(self@.blocks, watermark),
    {
        let ghost all = self@.blocks;
        let mut n: usize = self.blocks.len();
        assert(all.take(n as int) =~= all);
        while n > 0
            invariant
                n <= self.blocks@.len(),
                all == self@.blocks,
                newest_ended(all, watermark) == newest_ended(all.take(n as int), watermark),
            decreases n,
        {
            n -= 1;
            let ghost upto = all.take(n + 1);
            assert(upto.last() == self.blocks@[n as int]@);
            if self.blocks[n].id >= watermark && !self.blocks[n].running {
                return Some(&self.blocks[n]);
            }
            assert(upto.drop_last() =~= all.take(n as int));
        }
        assert(all.take(0) =~= Seq::empty());
        None
    }

    /// The blocks, oldest first.
    pub fn iter(&self) -> (it: Iter<'_, Block>)
        ensures
            it.remaining() == self.blocks@.as_ref(),
    {
        self.blocks.iter()
    }

    pub fn len(&self) -> (n: usize)
        ensures
            n == self@.blocks.len(),
    {
        self.blocks.len()
    }

    pub fn is_empty(&self) -> (b: bool)
        ensures
            b == (self@.blocks.len() == 0),
    {
        self.blocks.len() == 0
    }
}

} // verus!
