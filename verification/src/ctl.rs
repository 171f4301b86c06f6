//! `mimi ctl` — the agent-facing CLI.
//!
//! Runs *inside* a mimi window (or anywhere with `$MIMI_SOCKET` set) and
//! speaks the control protocol. Here stands what the arguments ask for and
//! what a reply means.

use vstd::prelude::*;
use vstd::slice::slice_subrange;

use crate::json::{put, Json};
#[allow(unused_imports)]
use crate::json::{fields_of, JsonState};
#[allow(unused_imports)]
use crate::pty::str_of;
#[allow(unused_imports)]
use crate::term::view::texts;
use crate::text::{append_text, chars_of, parse_u64, text_eq};
#[allow(unused_imports)]
use crate::text::read_unsigned;

pub mod laws;

verus! {

/// How many blocks `blocks` lists where the command does not say.
pub const DEFAULT_BLOCKS: u64 = 20;

/// The parameters of a call.
pub enum Params {
    Value(Json),
    /// A text that is JSON, or is not.
    Raw(String),
}

/// What the arguments ask for.
pub enum Plan {
    /// `--socket` without a path.
    SocketNeedsPath,
    /// No command: the usage, as an error.
    Usage,
    /// The usage, as asked for.
    Help,
    /// There is no socket to talk to.
    NoSocket,
    /// `run` without a command.
    RunNeedsCommand,
    /// `raw` without a method.
    RawNeedsMethod,
    /// There is no such command.
    Unknown(String),
    /// Call a method of the window behind the socket, and stream events
    /// afterwards if asked to.
    Call(Call),
}

/// A call of a method.
pub struct Call {
    pub socket: String,
    pub method: String,
    pub params: Params,
    pub watch: bool,
}

/// The parameters of a call, as a mathematical value.
pub enum ParamsState {
    Value(JsonState),
    Raw(Seq<char>),
}

/// What the arguments ask for, as a mathematical value.
pub enum PlanState {
    SocketNeedsPath,
    Usage,
    Help,
    NoSocket,
    RunNeedsCommand,
    RawNeedsMethod,
    Unknown(Seq<char>),
    Call(Seq<char>, Seq<char>, ParamsState, bool),
}

impl View for Params {
    type V = ParamsState;

    open spec fn view(&self) -> ParamsState {
        match self {
            Params::Value(j) => ParamsState::Value(j@),
            Params::Raw(s) => ParamsState::Raw(s@),
        }
    }
}

impl View for Plan {
    type V = PlanState;

    open spec fn view(&self) -> PlanState {
        match self {
            Plan::SocketNeedsPath => PlanState::SocketNeedsPath,
            Plan::Usage => PlanState::Usage,
            Plan::Help => PlanState::Help,
            Plan::NoSocket => PlanState::NoSocket,
            Plan::RunNeedsCommand => PlanState::RunNeedsCommand,
            Plan::RawNeedsMethod => PlanState::RawNeedsMethod,
            Plan::Unknown(s) => PlanState::Unknown(s@),
            Plan::Call(c) => PlanState::Call(c.socket@, c.method@, c.params@, c.watch),
        }
    }
}

/// The words with a space between each two.
pub open spec fn joined(words: Seq<Seq<char>>) -> Seq<char>
    decreases words.len(),
{
    if words.len() == 0 {
        Seq::empty()
    } else if words.len() == 1 {
        words[0]
    } else {
        joined(words.drop_last()) + seq![' '] + words.last()
    }
}

/// An object of one field.
pub open spec fn single(name: Seq<char>, value: JsonState) -> ParamsState {
    ParamsState::Value(JsonState::Object(seq![(name, value)]))
}

/// What the command `args[0]` with its arguments asks for.
pub open spec fn command_plan(args: Seq<Seq<char>>, socket: Seq<char>) -> PlanState {
    let cmd = args[0];
    let none = ParamsState::Value(JsonState::Null);
    if cmd == "screen"@ {
        PlanState::Call(socket, "screen"@, none, false)
    } else if cmd == "blocks"@ {
        let limit = if args.len() > 1 {
            match read_unsigned(args[1], u64::MAX as nat) {
                Some(v) => v as u64,
                None => DEFAULT_BLOCKS,
            }
        } else {
            DEFAULT_BLOCKS
        };
        PlanState::Call(
            socket,
            "list_blocks"@,
            single("limit"@, JsonState::Uint(limit)),
            false,
        )
    } else if cmd == "last"@ {
        PlanState::Call(socket, "last_block"@, none, false)
    } else if cmd == "run"@ {
        let command = joined(args.skip(1));
        if command.len() == 0 {
            PlanState::RunNeedsCommand
        } else {
            PlanState::Call(
                socket,
                "run"@,
                single("command"@, JsonState::Text(command)),
                false,
            )
        }
    } else if cmd == "send"@ {
        PlanState::Call(
            socket,
            "send_text"@,
            single("text"@, JsonState::Text(joined(args.skip(1)))),
            false,
        )
    } else if cmd == "watch"@ {
        PlanState::Call(socket, "subscribe"@, none, true)
    } else if cmd == "raw"@ {
        if args.len() < 2 {
            PlanState::RawNeedsMethod
        } else if args.len() > 2 {
            PlanState::Call(socket, args[1], ParamsState::Raw(args[2]), false)
        } else {
            PlanState::Call(socket, args[1], none, false)
        }
    } else {
        PlanState::Unknown(cmd)
    }
}

/// What the arguments ask for, where the environment names the socket
/// `env_socket`.
pub open spec fn plan_of(args: Seq<Seq<char>>, env_socket: Option<Seq<char>>) -> PlanState {
    let named = args.len() > 0 && args[0] == "--socket"@;
    if named && args.len() < 2 {
        PlanState::SocketNeedsPath
    } else {
        let rest = if named {
            args.skip(2)
        } else {
            args
        };
        let socket = if named {
            Some(args[1])
        } else {
            env_socket
        };
        if rest.len() == 0 {
            PlanState::Usage
        } else if rest[0] == "-h"@ || rest[0] == "--help"@ || rest[0] == "help"@ {
            PlanState::Help
        } else {
            match socket {
                Some(s) => command_plan(rest, s),
                None => PlanState::NoSocket,
            }
        }
    }
}

/// Whether `word` is `other`.
fn is_word(word: &String, other: &str) -> (b: bool)
    ensures
        b == (word@ == other@),
{
    let cs = chars_of(word.as_str());
    text_eq(cs.as_slice(), other)
}

/// The words with a space between each two.
fn join_words(words: &[String]) -> (s: String)
    ensures
        s@ == joined(texts(words@)),
{
    let ghost all = texts(words@);
    let mut s = String::new();
    assert(all.take(0) =~= Seq::empty());
    for i in 0..words.len()
        invariant
            all == texts(words@),
            s@ == joined(all.take(i as int)),
    {
        let ghost upto = all.take(i + 1);
        assert(upto.drop_last() =~= all.take(i as int));
        assert(upto.last() == words@[i as int]@);
        let ghost so_far = s@;
        if i > 0 {
            s.push(' ');
        }
        let cs = chars_of(words[i].as_str());
        append_text(&mut s, cs.as_slice());
        if i == 0 {
            assert(s@ =~= joined(upto));
        } else {
            assert(s@ =~= so_far + seq![' '] + upto.last());
        }
    }
    assert(all.take(words@.len() as int) =~= all);
    s
}

/// An object of one field.
fn single_param(name: &str, value: Json) -> (p: Params)
    ensures
        p@ == single(name@, value@),
{
    let mut f: Vec<(String, Json)> = Vec::new();
    put(&mut f, name, value);
    assert(fields_of(f@) =~= seq![(name@, value@)]);
    Params::Value(Json::object(f))
}

fn call(socket: &str, method: &str, params: Params, watch: bool) -> (p: Plan)
    ensures
        p@ == PlanState::Call(socket@, method@, params@, watch),
{
    Plan::Call(Call { socket: socket.to_owned(), method: method.to_owned(), params, watch })
}

fn plan_command(args: &[String], socket: &str) -> (p: Plan)
    requires
        args@.len() > 0,
    ensures
        p@ == command_plan(texts(args@), socket@),
{
    let cmd = &args[0];
    let ghost words = texts(args@);
    assert(words[0] == cmd@);
    let tail = slice_subrange(args, 1, args.len());
    assert(texts(tail@) =~= words.skip(1));
    if is_word(cmd, "screen") {
        call(socket, "screen", Params::Value(Json::Null), false)
    } else if is_word(cmd, "blocks") {
        let limit = if args.len() > 1 {
            let cs = chars_of(args[1].as_str());
            match parse_u64(cs.as_slice()) {
                Some(v) => v,
                None => DEFAULT_BLOCKS,
            }
        } else {
            DEFAULT_BLOCKS
        };
        call(socket, "list_blocks", single_param("limit", Json::Uint(limit)), false)
    } else if is_word(cmd, "last") {
        call(socket, "last_block", Params::Value(Json::Null), false)
    } else if is_word(cmd, "run") {
        let command = join_words(tail);
        if chars_of(command.as_str()).len() == 0 {
            Plan::RunNeedsCommand
        } else {
            call(socket, "run", single_param("command", Json::Text(command)), false)
        }
    } else if is_word(cmd, "send") {
        let text = join_words(tail);
        call(socket, "send_text", single_param("text", Json::Text(text)), false)
    } else if is_word(cmd, "watch") {
        call(socket, "subscribe", Params::Value(Json::Null), true)
    } else if is_word(cmd, "raw") {
        if args.len() < 2 {
            Plan::RawNeedsMethod
        } else if args.len() > 2 {
            let raw = args[2].clone();
            call(socket, args[1].as_str(), Params::Raw(raw), false)
        } else {
            call(socket, args[1].as_str(), Params::Value(Json::Null), false)
        }
    } else {
        Plan::Unknown(cmd.clone())
    }
}

/// What the arguments of `mimi ctl` ask for.
pub fn plan(args: &[String], env_socket: Option<&str>) -> (p: Plan)
    ensures
        p@ == plan_of(texts(args@), str_of(env_socket)),
{
    let named = args.len() > 0 && is_word(&args[0], "--socket");
    let ghost words = texts(args@);
    if named && args.len() < 2 {
        return Plan::SocketNeedsPath;
    }
    let rest = if named {
        slice_subrange(args, 2, args.len())
    } else {
        args
    };
    assert(texts(rest@) =~= if named {
        words.skip(2)
    } else {
        words
    });
    let socket = if named {
        Some(args[1].as_str())
    } else {
        env_socket
    };
    if rest.len() == 0 {
        return Plan::Usage;
    }
    if is_word(&rest[0], "-h") || is_word(&rest[0], "--help") || is_word(&rest[0], "help") {
        return Plan::Help;
    }
    match socket {
        Some(s) => plan_command(rest, s),
        None => Plan::NoSocket,
    }
}

/// The request that is sent.
pub open spec fn request_object(method: Seq<char>, params: JsonState) -> JsonState {
    JsonState::Object(
        seq![
            ("id"@, JsonState::Uint(1)),
            ("method"@, JsonState::Text(method)),
            ("params"@, params),
        ],
    )
}

pub fn request(method: &str, params: Json) -> (j: Json)
    ensures
        j@ == request_object(method@, params@),
{
    let mut f: Vec<(String, Json)> = Vec::new();
    put(&mut f, "id", Json::Uint(1));
    put(&mut f, "method", Json::text(method));
    put(&mut f, "params", params);
    assert(fields_of(f@) =~= request_object(method@, params@)->Object_0);
    Json::object(f)
}

/// Whether the reply carries an error.
pub open spec fn is_error(reply: JsonState) -> bool {
    reply.field("error"@) != JsonState::Null
}

/// The exit code of `mimi ctl` after a reply without error: for `run`, that of
/// the command that ran, kept within 0..=255.
pub open spec fn exit_of(method: Seq<char>, reply: JsonState) -> int {
    if method == "run"@ {
        match reply.field("result"@).field("exit"@) {
            JsonState::Uint(v) => if v > 0x7fff_ffff_ffff_ffff {
                0
            } else if v > 255 {
                255
            } else {
                v as int
            },
            _ => 0,
        }
    } else {
        0
    }
}

/// Whether the reply carries an error.
pub fn has_error(reply: &Json) -> (b: bool)
    ensures
        b == is_error(reply@),
{
    match reply.field("error") {
        Some(Json::Null) => false,
        Some(_) => true,
        None => false,
    }
}

/// The exit code of `mimi ctl` after a reply without error.
pub fn exit_code(method: &str, reply: &Json) -> (code: i32)
    ensures
        code == exit_of(method@, reply@),
{
    let m = chars_of(method);
    if !text_eq(m.as_slice(), "run") {
        return 0;
    }
    let result = match reply.field("result") {
        Some(r) => r,
        None => &Json::Null,
    };
    match result.uint_field("exit") {
        Some(v) => if v > 0x7fff_ffff_ffff_ffff {
            0
        } else if v > 255 {
            255
        } else {
            v as i32
        },
        None => 0,
    }
}

} // verus!
