//! The agent control plane: mimi's native interface for agentic workflows.
//!
//! The protocol is newline-delimited JSON: a request names a method, the reply
//! carries its result or an error. Here stand the answers; sockets and threads
//! are the embedder's.
//!
//! Requests:  `{"id": 1, "method": "screen"}`
//! Responses: `{"id": 1, "result": {...}}` or `{"id": 1, "error": "..."}`
//! Events (after `subscribe`): `{"event": "block_finished", ...}`

use vstd::prelude::*;
#[allow(unused_imports)]
use vstd::utf8::encode_utf8;

use crate::blocks::{Block, BlockStore};
#[allow(unused_imports)]
use crate::blocks::{find_id, newest_ended, BlockState};
use crate::json::{put, Json};
#[allow(unused_imports)]
use crate::json::{fields_of, items_of, JsonState};
use crate::term::{Term, TermEvent};
#[allow(unused_imports)]
use crate::term::model::{EventState, TermState};
#[allow(unused_imports)]
use crate::term::view::texts;
use crate::text::{append_text, chars_of, decimal_chars, find_char, text_eq, trimmed};
#[allow(unused_imports)]
use crate::text::{decimal, find, trim};

pub mod laws;

verus! {

/// How often a waiting `run` looks for its block, in milliseconds.
pub const POLL_MS: u64 = 25;

/// How long `run` waits where the request does not say, in milliseconds.
pub const RUN_TIMEOUT_MS: u64 = 30000;

/// How many blocks are listed where the request does not say.
pub const LIST_LIMIT: u64 = 50;

/// What is to be done for a request.
pub enum Step {
    /// Reply.
    Reply(Result<Json, String>),
    /// Type the text, then reply.
    Type(String, Json),
    /// Type the text, then wait up to so many milliseconds for a block with an
    /// id from the watermark on to end.
    Run(String, u64, u64),
    /// Enter the connection among the subscribers, then reply.
    Subscribe,
}

/// What is to be done for a request, as a mathematical value.
pub enum StepState {
    Reply(Result<JsonState, Seq<char>>),
    Type(Seq<char>, JsonState),
    Run(Seq<char>, u64, u64),
    Subscribe,
}

/// A result or an error message.
pub open spec fn outcome_of(r: Result<Json, String>) -> Result<JsonState, Seq<char>> {
    match r {
        Ok(j) => Ok(j@),
        Err(e) => Err(e@),
    }
}

impl View for Step {
    type V = StepState;

    open spec fn view(&self) -> StepState {
        match self {
            Step::Reply(r) => StepState::Reply(outcome_of(*r)),
            Step::Type(text, reply) => StepState::Type(text@, reply@),
            Step::Run(text, watermark, timeout) => StepState::Run(text@, *watermark, *timeout),
            Step::Subscribe => StepState::Subscribe,
        }
    }
}

// ---- Blocks and events as JSON ----------------------------------------------

/// The fields that describe a block, without its output.
pub open spec fn block_fields(b: BlockState) -> Seq<(Seq<char>, JsonState)> {
    seq![
        ("id"@, JsonState::Uint(b.id)),
        ("command"@, JsonState::Text(b.command)),
        ("cwd"@, JsonState::text_or_null(b.cwd)),
        (
            "exit"@,
            match b.exit {
                Some(v) => JsonState::number(v),
                None => JsonState::Null,
            },
        ),
        ("running"@, JsonState::Bool(b.running)),
        ("started_ms"@, JsonState::Uint(b.started_ms)),
        (
            "ended_ms"@,
            match b.ended_ms {
                Some(v) => JsonState::Uint(v),
                None => JsonState::Null,
            },
        ),
        ("output_truncated"@, JsonState::Bool(b.output_truncated)),
        ("output_bytes"@, JsonState::Uint(encode_utf8(b.output).len() as u64)),
    ]
}

/// A block as JSON, with its output or without.
pub open spec fn block_object(b: BlockState, with_output: bool) -> JsonState {
    JsonState::Object(
        if with_output {
            block_fields(b).push(("output"@, JsonState::Text(b.output)))
        } else {
            block_fields(b)
        },
    )
}

pub fn block_json(b: &Block, with_output: bool) -> (j: Json)
    ensures
        j@ == block_object(b@, with_output),
{
    let mut f: Vec<(String, Json)> = Vec::new();
    assert(fields_of(f@) =~= Seq::empty());
    put(&mut f, "id", Json::Uint(b.id));
    put(&mut f, "command", Json::text(b.command.as_str()));
    put(&mut f, "cwd", Json::text_or_null(&b.cwd));
    put(
        &mut f,
        "exit",
        match b.exit {
            Some(v) => Json::number(v),
            None => Json::Null,
        },
    );
    put(&mut f, "running", Json::Bool(b.running));
    put(&mut f, "started_ms", Json::Uint(b.started_ms));
    put(
        &mut f,
        "ended_ms",
        match b.ended_ms {
            Some(v) => Json::Uint(v),
            None => Json::Null,
        },
    );
    put(&mut f, "output_truncated", Json::Bool(b.output_truncated));
    put(&mut f, "output_bytes", Json::Uint(b.output.as_str().as_bytes().len() as u64));
    assert(fields_of(f@) =~= block_fields(b@));
    if with_output {
        put(&mut f, "output", Json::text(b.output.as_str()));
    }
    Json::object(f)
}

/// An event as JSON.
pub open spec fn event_object(ev: EventState) -> JsonState {
    JsonState::Object(
        match ev {
            EventState::Title(t) => seq![
                ("event"@, JsonState::Text("title"@)),
                ("title"@, JsonState::Text(t)),
            ],
            EventState::Bell => seq![("event"@, JsonState::Text("bell"@))],
            EventState::CwdChanged(p) => seq![
                ("event"@, JsonState::Text("cwd"@)),
                ("cwd"@, JsonState::Text(p)),
            ],
            EventState::BlockStarted(id) => seq![
                ("event"@, JsonState::Text("block_started"@)),
                ("id"@, JsonState::Uint(id)),
            ],
            EventState::BlockFinished(id) => seq![
                ("event"@, JsonState::Text("block_finished"@)),
                ("id"@, JsonState::Uint(id)),
            ],
        },
    )
}

/// Serialize a TermEvent for broadcast.
pub fn event_json(ev: &TermEvent) -> (j: Json)
    ensures
        j@ == event_object(ev@),
{
    match ev {
        TermEvent::Title(t) => object2(
            "event",
            Json::text("title"),
            "title",
            Json::text(t.as_str()),
        ),
        TermEvent::Bell => object1("event", Json::text("bell")),
        TermEvent::CwdChanged(p) => object2(
            "event",
            Json::text("cwd"),
            "cwd",
            Json::text(p.as_str()),
        ),
        TermEvent::BlockStarted(id) => object2(
            "event",
            Json::text("block_started"),
            "id",
            Json::Uint(*id),
        ),
        TermEvent::BlockFinished(id) => object2(
            "event",
            Json::text("block_finished"),
            "id",
            Json::Uint(*id),
        ),
    }
}

/// An object of one field.
fn object1(name: &str, value: Json) -> (j: Json)
    ensures
        j@ == JsonState::Object(seq![(name@, value@)]),
{
    let mut f: Vec<(String, Json)> = Vec::new();
    put(&mut f, name, value);
    assert(fields_of(f@) =~= seq![(name@, value@)]);
    Json::object(f)
}

/// An object of two fields.
fn object2(name0: &str, value0: Json, name1: &str, value1: Json) -> (j: Json)
    ensures
        j@ == JsonState::Object(seq![(name0@, value0@), (name1@, value1@)]),
{
    let mut f: Vec<(String, Json)> = Vec::new();
    put(&mut f, name0, value0);
    put(&mut f, name1, value1);
    assert(fields_of(f@) =~= seq![(name0@, value0@), (name1@, value1@)]);
    Json::object(f)
}

// ---- Answers ----------------------------------------------------------------

pub open spec fn hello_object(version: Seq<char>, pid: u32) -> JsonState {
    JsonState::Object(
        seq![
            ("name"@, JsonState::Text("mimi"@)),
            ("version"@, JsonState::Text(version)),
            ("pid"@, JsonState::Uint(pid as u64)),
        ],
    )
}

fn hello(version: &str, pid: u32) -> (j: Json)
    ensures
        j@ == hello_object(version@, pid),
{
    let mut f: Vec<(String, Json)> = Vec::new();
    put(&mut f, "name", Json::text("mimi"));
    put(&mut f, "version", Json::text(version));
    put(&mut f, "pid", Json::Uint(pid as u64));
    assert(fields_of(f@) =~= hello_object(version@, pid)->Object_0);
    Json::object(f)
}

/// The screen as JSON: its size, its cursor and its text.
pub open spec fn screen_object(t: TermState) -> JsonState {
    JsonState::Object(
        seq![
            ("cols"@, JsonState::Uint(t.cols() as u64)),
            ("rows"@, JsonState::Uint(t.rows() as u64)),
            (
                "cursor"@,
                JsonState::Object(
                    seq![
                        ("x"@, JsonState::Uint(t.x as u64)),
                        ("y"@, JsonState::Uint(t.y as u64)),
                    ],
                ),
            ),
            ("alt_screen"@, JsonState::Bool(t.alt_active)),
            ("title"@, JsonState::Text(t.title)),
            ("cwd"@, JsonState::text_or_null(t.cwd)),
            (
                "lines"@,
                JsonState::List(
                    Seq::new(t.screen().len(), |i: int| JsonState::Text(t.screen()[i])),
                ),
            ),
        ],
    )
}

/// A list of texts.
fn text_list(lines: Vec<String>) -> (j: Json)
    ensures
        j@ == JsonState::List(
            Seq::new(texts(lines@).len(), |i: int| JsonState::Text(texts(lines@)[i])),
        ),
{
    let mut items: Vec<Json> = Vec::new();
    for i in 0..lines.len()
        invariant
            items@.len() == i,
            forall|k: int| 0 <= k < i ==> (#[trigger] items@[k])@ == JsonState::Text(lines@[k]@),
    {
        items.push(Json::text(lines[i].as_str()));
    }
    assert(items_of(items@) =~= Seq::new(
        texts(lines@).len(),
        |i: int| JsonState::Text(texts(lines@)[i]),
    ));
    Json::list(items)
}

fn screen(t: &Term) -> (j: Json)
    requires
        t@.wf(),
    ensures
        j@ == screen_object(t@),
{
    let mut f: Vec<(String, Json)> = Vec::new();
    put(&mut f, "cols", Json::Uint(t.cols() as u64));
    put(&mut f, "rows", Json::Uint(t.rows() as u64));
    put(
        &mut f,
        "cursor",
        object2("x", Json::Uint(t.cursor_x as u64), "y", Json::Uint(t.cursor_y as u64)),
    );
    put(&mut f, "alt_screen", Json::Bool(t.alt_active));
    put(&mut f, "title", Json::text(t.title.as_str()));
    put(&mut f, "cwd", Json::text_or_null(&t.cwd));
    put(&mut f, "lines", text_list(t.screen_text()));
    assert(fields_of(f@) =~= screen_object(t@)->Object_0);
    Json::object(f)
}

/// Up to `limit` blocks, most recent first, without their output.
pub open spec fn block_list(blocks: Seq<BlockState>, limit: int) -> JsonState {
    JsonState::List(
        Seq::new(
            crate::grid::min(limit, blocks.len() as int) as nat,
            |i: int| block_object(blocks[blocks.len() - 1 - i], false),
        ),
    )
}

fn list_blocks(blocks: &BlockStore, limit: usize) -> (j: Json)
    ensures
        j@ == block_list(blocks@.blocks, limit as int),
{
    let mut items: Vec<Json> = Vec::new();
    let held = blocks.blocks.len();
    let n = crate::grid::at_most(limit, held);
    for i in 0..n
        invariant
            held == blocks.blocks@.len(),
            n <= held,
            items@.len() == i,
            forall|k: int|
                0 <= k < i ==> (#[trigger] items@[k])@ == block_object(
                    blocks@.blocks[held - 1 - k],
                    false,
                ),
    {
        assert(blocks@.blocks[held - 1 - i] == blocks.blocks@[held - 1 - i]@);
        items.push(block_json(&blocks.blocks[held - 1 - i], false));
    }
    assert(items_of(items@) =~= block_list(blocks@.blocks, limit as int)->List_0);
    Json::list(items)
}

/// A block, or an error where there is none.
pub open spec fn block_or(b: Option<BlockState>, with_output: bool, error: Seq<char>) -> Result<
    JsonState,
    Seq<char>,
> {
    match b {
        Some(b) => Ok(block_object(b, with_output)),
        None => Err(error),
    }
}

/// What is answered to `method` with `params`, where the terminal is `t` and
/// agents may type if `allow_input`.
pub open spec fn answer(
    method: Seq<char>,
    params: JsonState,
    t: TermState,
    allow_input: bool,
    version: Seq<char>,
    pid: u32,
) -> StepState {
    if method == "hello"@ {
        StepState::Reply(Ok(hello_object(version, pid)))
    } else if method == "screen"@ {
        StepState::Reply(Ok(screen_object(t)))
    } else if method == "list_blocks"@ {
        let limit = match params.field("limit"@).as_uint() {
            Some(v) => v,
            None => LIST_LIMIT,
        };
        StepState::Reply(Ok(block_list(t.blocks.blocks, (limit as usize) as int)))
    } else if method == "get_block"@ {
        StepState::Reply(
            match params.field("id"@).as_uint() {
                Some(id) => block_or(
                    find_id(t.blocks.blocks, id),
                    with_output(params),
                    "no block with id "@ + decimal(id as nat),
                ),
                None => Err("missing param: id"@),
            },
        )
    } else if method == "last_block"@ {
        let last = if t.blocks.blocks.len() > 0 {
            Some(t.blocks.blocks.last())
        } else {
            None
        };
        StepState::Reply(block_or(last, with_output(params), "no blocks yet"@))
    } else if method == "send_text"@ {
        if !allow_input {
            StepState::Reply(Err(disabled()))
        } else {
            match params.field("text"@).as_text() {
                Some(text) => StepState::Type(text, sent_object(text)),
                None => StepState::Reply(Err("missing param: text"@)),
            }
        }
    } else if method == "run"@ {
        if !allow_input {
            StepState::Reply(Err(disabled()))
        } else {
            match params.field("command"@).as_text() {
                Some(command) => run_step(command, params, t.blocks.next_id),
                None => StepState::Reply(Err("missing param: command"@)),
            }
        }
    } else if method == "subscribe"@ {
        StepState::Subscribe
    } else {
        StepState::Reply(Err("unknown method: "@ + method))
    }
}

/// Whether the request asks for the output; it does unless it says no.
pub open spec fn with_output(params: JsonState) -> bool {
    match params.field("output"@).as_boolean() {
        Some(b) => b,
        None => true,
    }
}

pub open spec fn disabled() -> Seq<char> {
    "agent input disabled (allow_agent_exec=false)"@
}

pub open spec fn timed_out() -> Seq<char> {
    "timed out waiting for command to finish (is shell integration active? try wait:false)"@
}

/// How many bytes were sent.
pub open spec fn sent_object(text: Seq<char>) -> JsonState {
    JsonState::Object(seq![("sent"@, JsonState::Uint(encode_utf8(text).len() as u64))])
}

/// A command of a single line is typed with a newline behind it; then it is
/// waited for, unless the request says no.
pub open spec fn run_step(command: Seq<char>, params: JsonState, watermark: u64) -> StepState {
    let wait = match params.field("wait"@).as_boolean() {
        Some(b) => b,
        None => true,
    };
    let timeout = match params.field("timeout_ms"@).as_uint() {
        Some(v) => v,
        None => RUN_TIMEOUT_MS,
    };
    if find(command, '\n') < command.len() {
        StepState::Reply(Err("command must be a single line"@))
    } else if wait {
        StepState::Run(command.push('\n'), watermark, timeout)
    } else {
        StepState::Type(
            command.push('\n'),
            JsonState::Object(seq![("accepted"@, JsonState::Bool(true))]),
        )
    }
}

/// `head` followed by `tail`.
fn concat(head: &str, tail: &[char]) -> (s: String)
    ensures
        s@ == head@ + tail@,
{
    let mut s = head.to_owned();
    append_text(&mut s, tail);
    s
}

/// Answers a request. The embedder hands in the method, the parameters, the
/// terminal, whether agents may type, and what it is: its version and its
/// process id.
pub fn dispatch(
    method: &str,
    params: &Json,
    term: &Term,
    allow_input: bool,
    version: &str,
    pid: u32,
) -> (step: Step)
    requires
        term@.wf(),
    ensures
        step@ == answer(method@, params@, term@, allow_input, version@, pid),
{
    let name = chars_of(method);
    let m = name.as_slice();
    if text_eq(m, "hello") {
        Step::Reply(Ok(hello(version, pid)))
    } else if text_eq(m, "screen") {
        Step::Reply(Ok(screen(term)))
    } else if text_eq(m, "list_blocks") {
        let limit = match params.uint_field("limit") {
            Some(v) => v,
            None => LIST_LIMIT,
        };
        #[verifier::truncate]
        let limit = limit as usize;
        Step::Reply(Ok(list_blocks(&term.blocks, limit)))
    } else if text_eq(m, "get_block") {
        Step::Reply(get_block(params, &term.blocks))
    } else if text_eq(m, "last_block") {
        Step::Reply(last_block(params, &term.blocks))
    } else if text_eq(m, "send_text") {
        send_text(params, allow_input)
    } else if text_eq(m, "run") {
        run(params, allow_input, term.blocks.next_id())
    } else if text_eq(m, "subscribe") {
        Step::Subscribe
    } else {
        Step::Reply(Err(concat("unknown method: ", m)))
    }
}

/// Whether the request asks for the output.
fn wants_output(params: &Json) -> (b: bool)
    ensures
        b == with_output(params@),
{
    match params.bool_field("output") {
        Some(b) => b,
        None => true,
    }
}

fn get_block(params: &Json, blocks: &BlockStore) -> (r: Result<Json, String>)
    ensures
        outcome_of(r) == (match params@.field("id"@).as_uint() {
            Some(id) => block_or(
                find_id(blocks@.blocks, id),
                with_output(params@),
                "no block with id "@ + decimal(id as nat),
            ),
            None => Err("missing param: id"@),
        }),
{
    match params.uint_field("id") {
        Some(id) => match blocks.get(id) {
            Some(b) => Ok(block_json(b, wants_output(params))),
            None => {
                let digits = decimal_chars(id);
                Err(concat("no block with id ", digits.as_slice()))
            },
        },
        None => Err("missing param: id".to_owned()),
    }
}

fn last_block(params: &Json, blocks: &BlockStore) -> (r: Result<Json, String>)
    ensures
        outcome_of(r) == block_or(
            if blocks@.blocks.len() > 0 {
                Some(blocks@.blocks.last())
            } else {
                None
            },
            with_output(params@),
            "no blocks yet"@,
        ),
{
    match blocks.last() {
        Some(b) => Ok(block_json(b, wants_output(params))),
        None => Err("no blocks yet".to_owned()),
    }
}

fn send_text(params: &Json, allow_input: bool) -> (step: Step)
    ensures
        step@ == (if !allow_input {
            StepState::Reply(Err(disabled()))
        } else {
            match params@.field("text"@).as_text() {
                Some(text) => StepState::Type(text, sent_object(text)),
                None => StepState::Reply(Err("missing param: text"@)),
            }
        }),
{
    if !allow_input {
        return Step::Reply(Err("agent input disabled (allow_agent_exec=false)".to_owned()));
    }
    match params.text_field("text") {
        Some(text) => {
            let sent = text.as_bytes().len() as u64;
            Step::Type(text.to_owned(), object1("sent", Json::Uint(sent)))
        },
        None => Step::Reply(Err("missing param: text".to_owned())),
    }
}

fn run(params: &Json, allow_input: bool, watermark: u64) -> (step: Step)
    ensures
        step@ == (if !allow_input {
            StepState::Reply(Err(disabled()))
        } else {
            match params@.field("command"@).as_text() {
                Some(command) => run_step(command, params@, watermark),
                None => StepState::Reply(Err("missing param: command"@)),
            }
        }),
{
    if !allow_input {
        return Step::Reply(Err("agent input disabled (allow_agent_exec=false)".to_owned()));
    }
    match params.text_field("command") {
        Some(command) => {
            let cs = chars_of(command);
            if find_char(cs.as_slice(), '\n') < cs.len() {
                return Step::Reply(Err("command must be a single line".to_owned()));
            }
            let mut line = command.to_owned();
            line.push('\n');
            let wait = match params.bool_field("wait") {
                Some(b) => b,
                None => true,
            };
            let timeout_ms = match params.uint_field("timeout_ms") {
                Some(v) => v,
                None => RUN_TIMEOUT_MS,
            };
            if wait {
                Step::Run(line, watermark, timeout_ms)
            } else {
                Step::Type(line, object1("accepted", Json::Bool(true)))
            }
        },
        None => Step::Reply(Err("missing param: command".to_owned())),
    }
}

/// What a waiting `run` is answered: the newest block from the watermark on
/// that has ended, with its output; an error where the time is up; nothing yet
/// otherwise.
pub open spec fn run_answer(
    blocks: Seq<BlockState>,
    watermark: u64,
    time_is_up: bool,
) -> Option<Result<JsonState, Seq<char>>> {
    match newest_ended(blocks, watermark) {
        Some(b) => Some(Ok(block_object(b, true))),
        None => if time_is_up {
            Some(Err(timed_out()))
        } else {
            None
        },
    }
}

/// One look at the blocks while `run` waits. Requires shell integration;
/// without it the time runs out, with a hint.
pub fn poll_run(blocks: &BlockStore, watermark: u64, time_is_up: bool) -> (r: Option<
    Result<Json, String>,
>)
    ensures
        run_answer(blocks@.blocks, watermark, time_is_up) == (match r {
            Some(o) => Some(outcome_of(o)),
            None => None,
        }),
{
    match blocks.ended_since(watermark) {
        Some(b) => Some(Ok(block_json(b, true))),
        None => if time_is_up {
            Some(
                Err(
                    "timed out waiting for command to finish (is shell integration active? try wait:false)".to_owned(),
                ),
            )
        } else {
            None
        },
    }
}

/// What `subscribe` is answered, once the connection stands among the
/// subscribers.
pub fn subscribed() -> (j: Json)
    ensures
        j@ == JsonState::Object(seq![("subscribed"@, JsonState::Bool(true))]),
{
    object1("subscribed", Json::Bool(true))
}

// ---- Lines ------------------------------------------------------------------

/// Whether a line holds nothing and is passed over.
pub fn is_blank(line: &str) -> (b: bool)
    ensures
        b == (trim(line@).len() == 0),
{
    let cs = chars_of(line);
    trimmed(cs.as_slice()).len() == 0
}

/// The reply to a request: its id, verbatim, and the result or the error.
pub open spec fn reply_object(id: JsonState, outcome: Result<JsonState, Seq<char>>) -> JsonState {
    JsonState::Object(
        match outcome {
            Ok(result) => seq![("id"@, id), ("result"@, result)],
            Err(msg) => seq![("id"@, id), ("error"@, JsonState::Text(msg))],
        },
    )
}

pub fn reply(id: Json, outcome: Result<Json, String>) -> (j: Json)
    ensures
        j@ == reply_object(id@, outcome_of(outcome)),
{
    match outcome {
        Ok(result) => object2("id", id, "result", result),
        Err(msg) => object2("id", id, "error", Json::Text(msg)),
    }
}

/// The reply to a line that is no request.
pub fn bad_request(why: &str) -> (j: Json)
    ensures
        j@ == reply_object(JsonState::Null, Err("bad request: "@ + why@)),
{
    let cs = chars_of(why);
    reply(Json::Null, Err(concat("bad request: ", cs.as_slice())))
}

// ---- Where the socket lies --------------------------------------------------

/// The directory that the socket directory lies in.
#[derive(Clone, Copy, PartialEq, Eq, Debug, Structural)]
pub enum RuntimeBase {
    /// `$XDG_RUNTIME_DIR`
    XdgRuntime,
    /// `$TMPDIR`
    Tmpdir,
    /// `/tmp`
    Tmp,
}

/// The base directory, from which variables are set.
pub open spec fn base_choice(xdg_set: bool, tmpdir_set: bool) -> RuntimeBase {
    if xdg_set {
        RuntimeBase::XdgRuntime
    } else if tmpdir_set {
        RuntimeBase::Tmpdir
    } else {
        RuntimeBase::Tmp
    }
}

/// Which base directory is taken, from which variables are set.
pub fn runtime_base(xdg_set: bool, tmpdir_set: bool) -> (b: RuntimeBase)
    ensures
        b == base_choice(xdg_set, tmpdir_set),
{
    if xdg_set {
        RuntimeBase::XdgRuntime
    } else if tmpdir_set {
        RuntimeBase::Tmpdir
    } else {
        RuntimeBase::Tmp
    }
}

/// The name of the user's socket directory.
pub fn socket_dir_name(uid: u32) -> (s: String)
    ensures
        s@ == "mimi-"@ + decimal(uid as nat),
{
    let digits = decimal_chars(uid as u64);
    concat("mimi-", digits.as_slice())
}

/// The name of a process's socket.
pub fn socket_file_name(pid: u32) -> (s: String)
    ensures
        s@ == decimal(pid as nat) + ".sock"@,
{
    let digits = decimal_chars(pid as u64);
    let mut s = String::new();
    append_text(&mut s, digits.as_slice());
    let tail = chars_of(".sock");
    append_text(&mut s, tail.as_slice());
    assert(s@ =~= decimal(pid as nat) + ".sock"@);
    s
}

} // verus!
