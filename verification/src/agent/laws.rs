//! What holds of the agent protocol as a whole.

use vstd::prelude::*;
#[allow(unused_imports)]
use vstd::utf8::encode_utf8;

#[allow(unused_imports)]
use super::{
    answer, base_choice, block_list, block_object, disabled, event_object, hello_object,
    reply_object, run_answer, run_step, screen_object, RuntimeBase, StepState, POLL_MS,
};
#[allow(unused_imports)]
use crate::blocks::laws::{law_block_lifecycle, law_every_block_is_found};
#[allow(unused_imports)]
use crate::ctl::{exit_of, is_error};
#[allow(unused_imports)]
use crate::blocks::{find_id, newest_ended, BlockState, BlocksState, OUTPUT_CAP};
#[allow(unused_imports)]
use crate::grid::line_text;
#[allow(unused_imports)]
use crate::json::{field_in, JsonState};
#[allow(unused_imports)]
use crate::term::model::{EventState, TermState};
#[allow(unused_imports)]
use crate::text::{decimal, find, lemma_find};

verus! {

/// Where agents may not type, no request makes anything be typed, whatever it
/// asks: every request is answered at once or subscribes. `run` and
/// `send_text` are told why.
pub proof fn law_read_only(
    method: Seq<char>,
    params: JsonState,
    t: TermState,
    version: Seq<char>,
    pid: u32,
)
    ensures
        !(answer(method, params, t, false, version, pid) is Type),
        !(answer(method, params, t, false, version, pid) is Run),
        answer("run"@, params, t, false, version, pid) == StepState::Reply(Err(disabled())),
        answer("send_text"@, params, t, false, version, pid) == StepState::Reply(Err(disabled())),
{
    lemma_methods();
}

/// Whether agents may type or not, the reading methods give the same answer.
pub proof fn law_reading_is_not_gated(
    method: Seq<char>,
    params: JsonState,
    t: TermState,
    version: Seq<char>,
    pid: u32,
)
    requires
        method != "run"@,
        method != "send_text"@,
    ensures
        answer(method, params, t, true, version, pid) == answer(
            method,
            params,
            t,
            false,
            version,
            pid,
        ),
{
}

/// Whatever `run` types is one line: the command, without a newline in it, and
/// a newline behind it.
pub proof fn law_run_types_one_line(command: Seq<char>, params: JsonState, watermark: u64)
    ensures
        match run_step(command, params, watermark) {
            StepState::Run(text, _, _) => text == command.push('\n') && find(text, '\n')
                == command.len(),
            StepState::Type(text, _) => text == command.push('\n') && find(text, '\n')
                == command.len(),
            _ => find(command, '\n') < command.len(),
        },
{
    let line = command.push('\n');
    lemma_find(command, '\n');
    if find(command, '\n') >= command.len() {
        assert forall|i: int| 0 <= i < command.len() implies line[i] != '\n' by {
            assert(line[i] == command[i]);
        }
        crate::text::lemma_find_unique(line, '\n', command.len() as int);
    }
}

/// A listing has the most recent block first and no output in it, and every
/// block that it lists can be had by its id.
pub proof fn law_listing(s: BlocksState, limit: int, i: int)
    requires
        s.wf(),
        0 <= limit,
        0 <= i < limit,
        i < s.blocks.len(),
    ensures
        ({
            let b = s.blocks[s.blocks.len() - 1 - i];
            &&& block_list(s.blocks, limit) matches JsonState::List(items) && items[i]
                == block_object(b, false)
            &&& block_object(b, false).field("output"@) == JsonState::Null
            &&& block_object(b, false).field("id"@) == JsonState::Uint(b.id)
            &&& find_id(s.blocks, b.id) == Some(b)
        }),
{
    let b = s.blocks[s.blocks.len() - 1 - i];
    law_every_block_is_found(s, s.blocks.len() - 1 - i);
    law_block_fields(b, false);
}

/// The fields of a block stand under their names, each with what the block has
/// there. The output is among them only where it is asked for; its length always
/// is.
pub proof fn law_block_fields(b: BlockState, with_output: bool)
    ensures
        ({
            let o = block_object(b, with_output);
            &&& o.field("id"@) == JsonState::Uint(b.id)
            &&& o.field("command"@) == JsonState::Text(b.command)
            &&& o.field("cwd"@) == (match b.cwd {
                Some(cwd) => JsonState::Text(cwd),
                None => JsonState::Null,
            })
            &&& o.field("exit"@) == (match b.exit {
                Some(v) => JsonState::number(v),
                None => JsonState::Null,
            })
            &&& o.field("running"@) == JsonState::Bool(b.running)
            &&& o.field("started_ms"@) == JsonState::Uint(b.started_ms)
            &&& o.field("ended_ms"@) == (match b.ended_ms {
                Some(v) => JsonState::Uint(v),
                None => JsonState::Null,
            })
            &&& o.field("output_truncated"@) == JsonState::Bool(b.output_truncated)
            &&& o.field("output_bytes"@) == JsonState::Uint(encode_utf8(b.output).len() as u64)
            &&& o.field("output"@) == (if with_output {
                JsonState::Text(b.output)
            } else {
                JsonState::Null
            })
        }),
{
    reveal_strlit("id");
    reveal_strlit("command");
    reveal_strlit("cwd");
    reveal_strlit("exit");
    reveal_strlit("running");
    reveal_strlit("started_ms");
    reveal_strlit("ended_ms");
    reveal_strlit("output_truncated");
    reveal_strlit("output_bytes");
    reveal_strlit("output");
    assert("id"@.len() == 2 && "command"@.len() == 7 && "cwd"@.len() == 3 && "exit"@.len() == 4
        && "running"@.len() == 7 && "started_ms"@.len() == 10 && "ended_ms"@.len() == 8
        && "output_truncated"@.len() == 16 && "output_bytes"@.len() == 12 && "output"@.len() == 6);
    assert("command"@[0] != "running"@[0]);
    let f = block_object(b, with_output)->Object_0;
    lemma_field_at(f, 0);
    lemma_field_at(f, 1);
    lemma_field_at(f, 2);
    lemma_field_at(f, 3);
    lemma_field_at(f, 4);
    lemma_field_at(f, 5);
    lemma_field_at(f, 6);
    lemma_field_at(f, 7);
    lemma_field_at(f, 8);
    if with_output {
        lemma_field_at(f, 9);
    } else {
        lemma_no_field(f, "output"@);
    }
}

/// A field is found where none before it has its name.
proof fn lemma_field_at(f: Seq<(Seq<char>, JsonState)>, i: int)
    requires
        0 <= i < f.len(),
        forall|j: int| 0 <= j < i ==> (#[trigger] f[j]).0 != f[i].0,
    ensures
        field_in(f, f[i].0) == Some(f[i].1),
    decreases f.len(),
{
    if i > 0 {
        let rest = f.drop_first();
        assert(f[0].0 != f[i].0);
        assert forall|j: int| 0 <= j < i - 1 implies (#[trigger] rest[j]).0 != rest[i - 1].0 by {
            assert(rest[j] == f[j + 1]);
        }
        lemma_field_at(rest, i - 1);
    }
}

/// A field is not found where none has its name.
proof fn lemma_no_field(f: Seq<(Seq<char>, JsonState)>, name: Seq<char>)
    requires
        forall|j: int| 0 <= j < f.len() ==> (#[trigger] f[j]).0 != name,
    ensures
        field_in(f, name) is None,
    decreases f.len(),
{
    if f.len() > 0 {
        let rest = f.drop_first();
        assert(f[0].0 != name);
        assert forall|j: int| 0 <= j < rest.len() implies (#[trigger] rest[j]).0 != name by {
            assert(rest[j] == f[j + 1]);
        }
        lemma_no_field(rest, name);
    }
}

/// A waiting `run` is answered with a block that was started after its command
/// was typed and has ended, and as long as there is none and time is left, it
/// is not answered at all.
pub proof fn law_run_waits(blocks: Seq<BlockState>, watermark: u64, time_is_up: bool)
    ensures
        match newest_ended(blocks, watermark) {
            Some(b) => blocks.contains(b) && b.id >= watermark && !b.running,
            None => forall|i: int|
                0 <= i < blocks.len() ==> (#[trigger] blocks[i]).running || blocks[i].id
                    < watermark,
        },
        run_answer(blocks, watermark, time_is_up) is None <==> newest_ended(blocks, watermark)
            is None && !time_is_up,
    decreases blocks.len(),
{
    if blocks.len() > 0 {
        law_run_waits(blocks.drop_last(), watermark, time_is_up);
        let init = blocks.drop_last();
        if let Some(b) = newest_ended(blocks, watermark) {
            if blocks.last().id >= watermark && !blocks.last().running {
                assert(blocks[blocks.len() - 1] == b);
            } else {
                let k = choose|k: int| 0 <= k < init.len() && init[k] == b;
                assert(blocks[k] == b);
            }
        } else {
            assert forall|i: int| 0 <= i < blocks.len() implies (#[trigger] blocks[i]).running
                || blocks[i].id < watermark by {
                if i < init.len() {
                    assert(init[i] == blocks[i]);
                }
            }
        }
    }
}

/// A reply carries the id of its request as it came, and either a result or an
/// error, never both.
pub proof fn law_reply_echoes_id(id: JsonState, outcome: Result<JsonState, Seq<char>>)
    ensures
        ({
            let o = reply_object(id, outcome);
            &&& o.field("id"@) == id
            &&& outcome matches Ok(r) ==> o.field("result"@) == r && o.field("error"@)
                == JsonState::Null
            &&& outcome matches Err(e) ==> o.field("error"@) == JsonState::Text(e) && o.field(
                "result"@,
            ) == JsonState::Null
        }),
{
    reveal_strlit("id");
    reveal_strlit("result");
    reveal_strlit("error");
    assert("id"@.len() == 2 && "result"@.len() == 6 && "error"@.len() == 5);
    let f = reply_object(id, outcome)->Object_0;
    lemma_field_at(f, 0);
    lemma_field_at(f, 1);
    lemma_no_field(
        f,
        if outcome is Ok {
            "error"@
        } else {
            "result"@
        },
    );
}

/// The names of the methods are all different.
proof fn lemma_methods()
    ensures
        "hello"@.len() == 5,
        "screen"@.len() == 6,
        "list_blocks"@.len() == 11,
        "last_block"@.len() == 10,
        "run"@.len() == 3,
        "get_block"@.len() == 9 && "get_block"@[0] == 'g',
        "send_text"@.len() == 9 && "send_text"@[0] == 's' && "send_text"@[1] == 'e',
        "subscribe"@.len() == 9 && "subscribe"@[0] == 's' && "subscribe"@[1] == 'u',
{
    reveal_strlit("hello");
    reveal_strlit("screen");
    reveal_strlit("list_blocks");
    reveal_strlit("get_block");
    reveal_strlit("last_block");
    reveal_strlit("send_text");
    reveal_strlit("run");
    reveal_strlit("subscribe");
}

/// Every block that is held was started before the next one, unless ids have
/// come round.
proof fn lemma_ids_before(s: BlocksState, i: int)
    requires
        s.wf(),
        s.next_id >= s.blocks.len(),
        0 <= i < s.blocks.len(),
    ensures
        s.blocks[i].id < s.next_id,
{
    reveal(BlocksState::wf);
}

/// A waiting `run` types its command and asks for a block that is not there
/// yet: no block that the terminal holds when the command is typed can answer
/// it, only one that starts afterwards, and the next block to start is one.
pub proof fn law_run_waits_for_its_own_block(
    t: TermState,
    params: JsonState,
    version: Seq<char>,
    pid: u32,
    now: u64,
)
    requires
        t.wf(),
        t.blocks.next_id >= t.blocks.blocks.len(),
    ensures
        answer("run"@, params, t, true, version, pid) matches StepState::Run(text, watermark, _)
            ==> {
            &&& params.field("command"@) == JsonState::Text(text.drop_last())
            &&& text.len() > 0 && text.last() == '\n'
            &&& forall|i: int|
                0 <= i < t.blocks.blocks.len() ==> (#[trigger] t.blocks.blocks[i]).id < watermark
            &&& run_answer(t.blocks.blocks, watermark, false) is None
            &&& run_answer(t.blocks.blocks, watermark, true) matches Some(Err(_))
            &&& t.command_started(now).blocks.blocks.last().id >= watermark
        },
{
    lemma_methods();
    if let StepState::Run(text, watermark, _) = answer("run"@, params, t, true, version, pid) {
        assert forall|i: int| 0 <= i < t.blocks.blocks.len() implies (
        #[trigger] t.blocks.blocks[i]).id < watermark by {
            lemma_ids_before(t.blocks, i);
        }
        law_run_waits(t.blocks.blocks, watermark, false);
        if let Some(b) = newest_ended(t.blocks.blocks, watermark) {
            let k = choose|k: int| 0 <= k < t.blocks.blocks.len() && t.blocks.blocks[k] == b;
            assert(t.blocks.blocks[k].id < watermark);
        }
        if let Some(command) = params.field("command"@).as_text() {
            assert(command.push('\n').drop_last() =~= command);
        }
    }
}

/// While its command runs, a waiting `run` is not answered; once the command
/// has ended, it is answered with that command's block, its whole output in it.
pub proof fn law_run_is_answered_with_its_block(
    s: BlocksState,
    cmd: Seq<char>,
    cwd: Option<Seq<char>>,
    text: Seq<char>,
    exit: Option<i32>,
    t0: u64,
    t1: u64,
    time_is_up: bool,
)
    requires
        s.wf(),
        s.blocks.len() <= s.next_id < u64::MAX,
        encode_utf8(text).len() <= OUTPUT_CAP,
    ensures
        ({
            let running = s.with_pending(cmd).started(cwd, t0).captured_all(text);
            let ended = running.finished(exit, t1);
            &&& run_answer(running.blocks, s.next_id, false) is None
            &&& run_answer(ended.blocks, s.next_id, time_is_up) == Some(
                Ok::<JsonState, Seq<char>>(
                    block_object(
                        BlockState {
                            id: s.next_id,
                            command: cmd,
                            cwd,
                            output: text,
                            output_truncated: false,
                            exit,
                            running: false,
                            started_ms: t0,
                            ended_ms: Some(t1),
                        },
                        true,
                    ),
                ),
            )
        }),
{
    law_block_lifecycle(s, cmd, cwd, text, exit, t0, t1);
    let started = s.with_pending(cmd).started(cwd, t0);
    let running = started.captured_all(text);
    assert(started.wf()) by {
        reveal(BlocksState::wf);
        s.with_pending(cmd).lemma_started_wf(cwd, t0);
    }
    lemma_captured_all_wf(started, text);
    law_run_waits(running.blocks, s.next_id, false);
    if let Some(b) = newest_ended(running.blocks, s.next_id) {
        let k = choose|k: int| 0 <= k < running.blocks.len() && running.blocks[k] == b;
        reveal(BlocksState::wf);
        assert(running.blocks[k].id == b.id);
    }
}

proof fn lemma_captured_all_wf(s: BlocksState, text: Seq<char>)
    requires
        s.wf(),
    ensures
        s.captured_all(text).wf(),
        s.captured_all(text).running == s.running,
        s.captured_all(text).next_id == s.next_id,
    decreases text.len(),
{
    if text.len() > 0 {
        lemma_captured_all_wf(s, text.drop_last());
        s.captured_all(text.drop_last()).lemma_captured_wf(text.last());
    }
}

/// A `run` that is told not to wait types the same line and is accepted at
/// once.
pub proof fn law_run_without_waiting(
    t: TermState,
    params: JsonState,
    command: Seq<char>,
    version: Seq<char>,
    pid: u32,
)
    requires
        params.field("command"@) == JsonState::Text(command),
        find(command, '\n') == command.len(),
    ensures
        params.field("wait"@) == JsonState::Bool(false) ==> (answer(
            "run"@,
            params,
            t,
            true,
            version,
            pid,
        ) matches StepState::Type(text, reply) && text == command.push('\n') && reply.field(
            "accepted"@,
        ) == JsonState::Bool(true)),
        params.field("wait"@) == JsonState::Null ==> (answer(
            "run"@,
            params,
            t,
            true,
            version,
            pid,
        ) matches StepState::Run(text, _, timeout) && text == command.push('\n') && timeout == (
        match params.field("timeout_ms"@) {
            JsonState::Uint(v) => v,
            _ => 30000,
        })),
{
    lemma_methods();
    reveal_strlit("accepted");
}

/// `send_text` types the text as it is, with nothing behind it, and tells how
/// many bytes that were.
pub proof fn law_send_text_types_the_text(
    t: TermState,
    params: JsonState,
    text: Seq<char>,
    version: Seq<char>,
    pid: u32,
)
    requires
        params.field("text"@) == JsonState::Text(text),
    ensures
        answer("send_text"@, params, t, true, version, pid) matches StepState::Type(typed, reply)
            && typed == text && reply.field("sent"@) == JsonState::Uint(
            encode_utf8(text).len() as u64,
        ),
{
    lemma_methods();
    reveal_strlit("sent");
}

/// A held block is had by its id, with its output unless that is declined; an
/// id that no held block has is refused. The last block is the one that was
/// started last.
pub proof fn law_blocks_are_had(
    t: TermState,
    params: JsonState,
    i: int,
    version: Seq<char>,
    pid: u32,
)
    requires
        t.wf(),
        0 <= i < t.blocks.blocks.len(),
    ensures
        ({
            let b = t.blocks.blocks[i];
            let whole = params.field("output"@) != JsonState::Bool(false);
            params.field("id"@) == JsonState::Uint(b.id) ==> answer(
                "get_block"@,
                params,
                t,
                true,
                version,
                pid,
            ) == StepState::Reply(Ok(block_object(b, whole)))
        }),
        ({
            let b = t.blocks.blocks[t.blocks.blocks.len() - 1];
            let whole = params.field("output"@) != JsonState::Bool(false);
            answer("last_block"@, params, t, true, version, pid) == StepState::Reply(
                Ok(block_object(b, whole)),
            )
        }),
{
    lemma_methods();
    law_every_block_is_found(t.blocks, i);
}

/// An id that no held block has is refused, and so is the last block where none
/// is held.
pub proof fn law_missing_blocks_are_refused(
    t: TermState,
    params: JsonState,
    id: u64,
    version: Seq<char>,
    pid: u32,
)
    requires
        forall|i: int| 0 <= i < t.blocks.blocks.len() ==> (#[trigger] t.blocks.blocks[i]).id != id,
        params.field("id"@) == JsonState::Uint(id),
    ensures
        answer("get_block"@, params, t, true, version, pid) matches StepState::Reply(Err(_)),
        t.blocks.blocks.len() == 0 ==> (answer(
            "last_block"@,
            params,
            t,
            true,
            version,
            pid,
        ) matches StepState::Reply(Err(_))),
{
    lemma_methods();
    lemma_not_found(t.blocks.blocks, id);
}

proof fn lemma_not_found(blocks: Seq<BlockState>, id: u64)
    requires
        forall|i: int| 0 <= i < blocks.len() ==> (#[trigger] blocks[i]).id != id,
    ensures
        find_id(blocks, id) is None,
    decreases blocks.len(),
{
    if blocks.len() > 0 {
        assert(blocks[0].id != id);
        let rest = blocks.drop_first();
        assert forall|i: int| 0 <= i < rest.len() implies (#[trigger] rest[i]).id != id by {
            assert(rest[i] == blocks[i + 1]);
        }
        lemma_not_found(rest, id);
    }
}

/// `list_blocks` lists as many blocks as it is asked for, 50 where it is not
/// said, and no more than there are, the last one first.
pub proof fn law_list_blocks(
    t: TermState,
    params: JsonState,
    version: Seq<char>,
    pid: u32,
    i: int,
)
    requires
        t.blocks.wf(),
    ensures
        ({
            let held = t.blocks.blocks.len();
            let limit = match params.field("limit"@) {
                JsonState::Uint(v) => v as int,
                _ => 50,
            };
            answer("list_blocks"@, params, t, true, version, pid) matches StepState::Reply(
                Ok(JsonState::List(items)),
            ) && (limit <= usize::MAX ==> items.len() == (if limit <= held {
                limit
            } else {
                held as int
            })) && (0 <= i < items.len() ==> items[i] == block_object(
                t.blocks.blocks[held - 1 - i],
                false,
            ))
        }),
{
    lemma_methods();
}

/// `screen` tells the size, where the cursor stands, whether the alternate
/// screen is shown, title and directory, and the text of every row.
pub proof fn law_screen_fields(t: TermState, params: JsonState, version: Seq<char>, pid: u32)
    requires
        t.wf(),
    ensures
        answer("screen"@, params, t, true, version, pid) matches StepState::Reply(Ok(o)) && {
            &&& o.field("cols"@) == JsonState::Uint(t.cols() as u64)
            &&& o.field("rows"@) == JsonState::Uint(t.rows() as u64)
            &&& o.field("cursor"@).field("x"@) == JsonState::Uint(t.x as u64)
            &&& o.field("cursor"@).field("y"@) == JsonState::Uint(t.y as u64)
            &&& o.field("alt_screen"@) == JsonState::Bool(t.alt_active)
            &&& o.field("title"@) == JsonState::Text(t.title)
            &&& o.field("cwd"@) == (match t.cwd {
                Some(cwd) => JsonState::Text(cwd),
                None => JsonState::Null,
            })
            &&& o.field("lines"@) matches JsonState::List(lines) && lines.len() == t.rows()
                && forall|y: int|
                0 <= y < t.rows() ==> #[trigger] lines[y] == JsonState::Text(
                    line_text(t.grid.lines[y]),
                )
        },
{
    lemma_methods();
    reveal_strlit("cols");
    reveal_strlit("rows");
    reveal_strlit("cursor");
    reveal_strlit("alt_screen");
    reveal_strlit("title");
    reveal_strlit("cwd");
    reveal_strlit("lines");
    reveal_strlit("x");
    reveal_strlit("y");
    assert("cols"@.len() == 4 && "rows"@.len() == 4 && "cursor"@.len() == 6 && "alt_screen"@.len()
        == 10 && "title"@.len() == 5 && "cwd"@.len() == 3 && "lines"@.len() == 5);
    assert("cols"@[0] != "rows"@[0] && "title"@[0] != "lines"@[0] && "x"@[0] != "y"@[0]);
    let f = screen_object(t)->Object_0;
    lemma_field_at(f, 0);
    lemma_field_at(f, 1);
    lemma_field_at(f, 2);
    lemma_field_at(f, 3);
    lemma_field_at(f, 4);
    lemma_field_at(f, 5);
    lemma_field_at(f, 6);
    let c = f[2].1->Object_0;
    lemma_field_at(c, 0);
    lemma_field_at(c, 1);
}

/// `hello` tells the name, the version and the process id; `subscribe`
/// subscribes; any method but these eight is refused by name.
pub proof fn law_other_methods(
    method: Seq<char>,
    t: TermState,
    params: JsonState,
    allow_input: bool,
    version: Seq<char>,
    pid: u32,
)
    ensures
        answer("hello"@, params, t, allow_input, version, pid) matches StepState::Reply(Ok(o)) && {
            &&& o.field("name"@) == JsonState::Text("mimi"@)
            &&& o.field("version"@) == JsonState::Text(version)
            &&& o.field("pid"@) == JsonState::Uint(pid as u64)
        },
        answer("subscribe"@, params, t, allow_input, version, pid) == StepState::Subscribe,
        method != "hello"@ && method != "screen"@ && method != "list_blocks"@ && method
            != "get_block"@ && method != "last_block"@ && method != "send_text"@ && method != "run"@
            && method != "subscribe"@ ==> answer(method, params, t, allow_input, version, pid)
            == StepState::Reply(Err("unknown method: "@ + method)),
{
    lemma_methods();
    reveal_strlit("name");
    reveal_strlit("version");
    reveal_strlit("pid");
    assert("name"@.len() == 4 && "version"@.len() == 7 && "pid"@.len() == 3);
    let f = hello_object(version, pid)->Object_0;
    lemma_field_at(f, 0);
    lemma_field_at(f, 1);
    lemma_field_at(f, 2);
}

/// What an event is called, for subscribers.
pub open spec fn event_name(ev: EventState) -> Seq<char> {
    match ev {
        EventState::Title(_) => "title"@,
        EventState::Bell => "bell"@,
        EventState::CwdChanged(_) => "cwd"@,
        EventState::BlockStarted(_) => "block_started"@,
        EventState::BlockFinished(_) => "block_finished"@,
    }
}

/// An event is sent under its name, with what it is about: the title, the
/// directory, or the id of the block.
pub proof fn law_event_fields(ev: EventState)
    ensures
        event_object(ev).field("event"@) == JsonState::Text(event_name(ev)),
        ev matches EventState::Title(t) ==> event_object(ev).field("title"@) == JsonState::Text(t),
        ev matches EventState::CwdChanged(p) ==> event_object(ev).field("cwd"@)
            == JsonState::Text(p),
        ev matches EventState::BlockStarted(id) ==> event_object(ev).field("id"@)
            == JsonState::Uint(id),
        ev matches EventState::BlockFinished(id) ==> event_object(ev).field("id"@)
            == JsonState::Uint(id),
{
    reveal_strlit("event");
    reveal_strlit("title");
    reveal_strlit("cwd");
    reveal_strlit("id");
    assert("event"@.len() == 5 && "title"@.len() == 5 && "cwd"@.len() == 3 && "id"@.len() == 2);
    assert("event"@[0] != "title"@[0]);
    let f = event_object(ev)->Object_0;
    lemma_field_at(f, 0);
    if f.len() > 1 {
        lemma_field_at(f, 1);
    }
}

/// Where several blocks could answer a waiting `run`, the one that was started
/// last does.
pub proof fn law_newest_block_answers(
    blocks: Seq<BlockState>,
    watermark: u64,
    time_is_up: bool,
    i: int,
)
    requires
        0 <= i < blocks.len(),
        !blocks[i].running,
        blocks[i].id >= watermark,
        forall|k: int|
            i < k < blocks.len() ==> (#[trigger] blocks[k]).running || blocks[k].id < watermark,
    ensures
        run_answer(blocks, watermark, time_is_up) == Some(
            Ok::<JsonState, Seq<char>>(block_object(blocks[i], true)),
        ),
    decreases blocks.len(),
{
    if i < blocks.len() - 1 {
        let init = blocks.drop_last();
        assert(blocks[blocks.len() - 1].running || blocks[blocks.len() - 1].id < watermark);
        assert forall|k: int| i < k < init.len() implies (#[trigger] init[k]).running || init[k].id
            < watermark by {
            assert(blocks[k] == init[k]);
        }
        law_newest_block_answers(init, watermark, time_is_up, i);
    }
}

/// Requests that lack what they need are refused, and told what it is:
/// `get_block` without an id or with that of no block, `last_block` without a
/// block, `run` without a command or with one of several lines, `send_text`
/// without a text.
pub proof fn law_refusals(
    t: TermState,
    params: JsonState,
    id: u64,
    command: Seq<char>,
    version: Seq<char>,
    pid: u32,
)
    ensures
        params.field("id"@) == JsonState::Null ==> answer("get_block"@, params, t, true, version, pid)
            == StepState::Reply(Err("missing param: id"@)),
        params.field("id"@) == JsonState::Uint(id) && find_id(t.blocks.blocks, id) is None
            ==> answer("get_block"@, params, t, true, version, pid) == StepState::Reply(
            Err("no block with id "@ + decimal(id as nat)),
        ),
        t.blocks.blocks.len() == 0 ==> answer("last_block"@, params, t, true, version, pid)
            == StepState::Reply(Err("no blocks yet"@)),
        params.field("command"@) == JsonState::Null ==> answer("run"@, params, t, true, version, pid)
            == StepState::Reply(Err("missing param: command"@)),
        params.field("command"@) == JsonState::Text(command) && command.contains('\n') ==> answer(
            "run"@,
            params,
            t,
            true,
            version,
            pid,
        ) == StepState::Reply(Err("command must be a single line"@)),
        params.field("text"@) == JsonState::Null ==> answer(
            "send_text"@,
            params,
            t,
            true,
            version,
            pid,
        ) == StepState::Reply(Err("missing param: text"@)),
        answer("run"@, params, t, false, version, pid) == StepState::Reply(
            Err("agent input disabled (allow_agent_exec=false)"@),
        ),
{
    lemma_methods();
    lemma_find(command, '\n');
}

/// A waiting `run` looks every 25 milliseconds; when its time is up it is told
/// what may be missing.
pub proof fn law_waiting_ends(blocks: Seq<BlockState>, watermark: u64)
    requires
        newest_ended(blocks, watermark) is None,
    ensures
        run_answer(blocks, watermark, false) is None,
        run_answer(blocks, watermark, true) == Some(
            Err::<JsonState, Seq<char>>(
                "timed out waiting for command to finish (is shell integration active? try wait:false)"@,
            ),
        ),
        POLL_MS == 25,
{
}

/// The socket lies in the runtime directory where there is one, else in that
/// for temporary files, else in `/tmp`.
pub proof fn law_runtime_directory(tmpdir_set: bool)
    ensures
        base_choice(true, tmpdir_set) == RuntimeBase::XdgRuntime,
        base_choice(false, true) == RuntimeBase::Tmpdir,
        base_choice(false, false) == RuntimeBase::Tmp,
{
}

/// The exit code of a block is a number, negative or not, and where it is one
/// that a process can report, it is what `mimi ctl run` exits with.
pub proof fn law_exit_code_arrives(id: JsonState, b: BlockState, v: i32)
    requires
        b.exit == Some(v),
    ensures
        v >= 0 ==> block_object(b, true).field("exit"@) == JsonState::Uint(v as u64),
        v < 0 ==> block_object(b, true).field("exit"@) == JsonState::Int(v as i64),
        0 <= v <= 255 ==> exit_of("run"@, reply_object(id, Ok(block_object(b, true)))) == v,
        !is_error(reply_object(id, Ok(block_object(b, true)))),
        is_error(reply_object(id, Err(disabled()))),
{
    law_block_fields(b, true);
    law_reply_echoes_id(id, Ok(block_object(b, true)));
    law_reply_echoes_id(id, Err(disabled()));
}

} // verus!
