//! What holds of `mimi ctl`.

use vstd::prelude::*;

#[allow(unused_imports)]
use super::{exit_of, is_error, joined, plan_of, request_object, ParamsState, PlanState};
#[allow(unused_imports)]
use crate::agent::{answer, block_list, block_object, screen_object, StepState};
#[allow(unused_imports)]
use crate::json::{field_in, JsonState};
#[allow(unused_imports)]
use crate::term::model::TermState;
#[allow(unused_imports)]
use crate::text::{decimal, is_digit, lemma_decimal_reads, lemma_find};

verus! {

/// An exit code fits what a process can report, and only `run` reports
/// anything but success.
pub proof fn law_exit_code_in_range(method: Seq<char>, reply: JsonState)
    ensures
        0 <= exit_of(method, reply) <= 255,
        method != "run"@ ==> exit_of(method, reply) == 0,
{
}

/// A socket named on the command line beats the environment's.
pub proof fn law_named_socket_wins(args: Seq<Seq<char>>, env: Option<Seq<char>>)
    requires
        args.len() >= 2,
        args[0] == "--socket"@,
    ensures
        plan_of(args, env) == plan_of(args, None),
        plan_of(args, env) matches PlanState::Call(socket, _, _, _) ==> socket == args[1],
{
}

/// Without a socket nothing is called.
pub proof fn law_no_socket_no_call(args: Seq<Seq<char>>)
    requires
        args.len() == 0 || args[0] != "--socket"@,
    ensures
        !(plan_of(args, None) is Call),
{
}

/// The names of the commands and of what they ask for are all different.
proof fn lemma_words()
    ensures
        "screen"@.len() == 6 && "screen"@[0] == 's',
        "blocks"@.len() == 6 && "blocks"@[0] == 'b',
        "last"@.len() == 4 && "last"@[0] == 'l',
        "run"@.len() == 3 && "run"@[1] == 'u',
        "send"@.len() == 4 && "send"@[0] == 's',
        "watch"@.len() == 5 && "watch"@[0] == 'w',
        "raw"@.len() == 3 && "raw"@[1] == 'a',
        "-h"@.len() == 2,
        "--help"@.len() == 6 && "--help"@[0] == '-',
        "help"@.len() == 4 && "help"@[0] == 'h',
        "--socket"@.len() == 8,
        "hello"@.len() == 5 && "hello"@[0] == 'h',
        "list_blocks"@.len() == 11,
        "get_block"@.len() == 9 && "get_block"@[0] == 'g',
        "last_block"@.len() == 10,
        "send_text"@.len() == 9 && "send_text"@[0] == 's' && "send_text"@[1] == 'e',
        "subscribe"@.len() == 9 && "subscribe"@[0] == 's' && "subscribe"@[1] == 'u',
        "command"@.len() == 7 && "wait"@.len() == 4,
        "timeout_ms"@.len() == 10,
{
    reveal_strlit("screen");
    reveal_strlit("blocks");
    reveal_strlit("last");
    reveal_strlit("run");
    reveal_strlit("send");
    reveal_strlit("watch");
    reveal_strlit("raw");
    reveal_strlit("-h");
    reveal_strlit("--help");
    reveal_strlit("help");
    reveal_strlit("--socket");
    reveal_strlit("hello");
    reveal_strlit("list_blocks");
    reveal_strlit("get_block");
    reveal_strlit("last_block");
    reveal_strlit("send_text");
    reveal_strlit("subscribe");
    reveal_strlit("command");
    reveal_strlit("wait");
    reveal_strlit("timeout_ms");
}

/// What the window behind the socket does about a call of the command `args`.
pub open spec fn effect_of(
    args: Seq<Seq<char>>,
    t: TermState,
    version: Seq<char>,
    pid: u32,
) -> StepState
    recommends
        plan_of(args, Some(Seq::empty())) is Call,
{
    match plan_of(args, Some(Seq::empty())) {
        PlanState::Call(_, method, ParamsState::Value(params), _) => answer(
            method,
            params,
            t,
            true,
            version,
            pid,
        ),
        _ => arbitrary(),
    }
}

/// The commands have the window do what they are called: `screen` and `last`
/// have the screen and the last block shown, `blocks` lists as many as it says
/// or 20, `send` types its words, `watch` subscribes and goes on listening.
pub proof fn law_commands_reach_the_window(
    words: Seq<Seq<char>>,
    n: u64,
    t: TermState,
    version: Seq<char>,
    pid: u32,
)
    requires
        n <= usize::MAX,
    ensures
        effect_of(seq!["screen"@], t, version, pid) == StepState::Reply(Ok(screen_object(t))),
        t.blocks.blocks.len() > 0 ==> effect_of(seq!["last"@], t, version, pid)
            == StepState::Reply(Ok(block_object(t.blocks.blocks.last(), true))),
        effect_of(seq!["blocks"@], t, version, pid) == StepState::Reply(
            Ok(block_list(t.blocks.blocks, 20)),
        ),
        effect_of(seq!["blocks"@, decimal(n as nat)], t, version, pid) == StepState::Reply(
            Ok(block_list(t.blocks.blocks, n as int)),
        ),
        effect_of(seq!["watch"@], t, version, pid) == StepState::Subscribe,
        effect_of(seq!["send"@] + words, t, version, pid) matches StepState::Type(text, _) && text
            == joined(words),
        plan_of(seq!["watch"@], Some(Seq::empty())) matches PlanState::Call(_, _, _, watch)
            && watch,
{
    lemma_words();
    lemma_decimal_reads(n as nat);
    assert(is_digit(decimal(n as nat)[0]));
    assert((seq!["send"@] + words).skip(1) =~= words);
    reveal_with_fuel(field_in, 2);
}

/// `run` types its words as one line and waits for what they do; without any it
/// says what it needs.
pub proof fn law_run_reaches_the_shell(
    words: Seq<Seq<char>>,
    t: TermState,
    version: Seq<char>,
    pid: u32,
)
    ensures
        joined(words).len() > 0 && !joined(words).contains('\n') ==> (effect_of(
            seq!["run"@] + words,
            t,
            version,
            pid,
        ) matches StepState::Run(text, _, timeout) && text == joined(words).push('\n') && timeout
            == 30000),
        joined(words).len() == 0 ==> plan_of(seq!["run"@] + words, Some(Seq::empty()))
            == PlanState::RunNeedsCommand,
{
    lemma_words();
    assert((seq!["run"@] + words).skip(1) =~= words);
    reveal_with_fuel(field_in, 2);
    lemma_find(joined(words), '\n');
}

/// Words are joined with a space between each two.
pub proof fn law_words_are_joined(words: Seq<Seq<char>>, word: Seq<char>)
    ensures
        joined(seq![word]) == word,
        words.len() > 0 ==> joined(words.push(word)) == joined(words).push(' ') + word,
{
    assert(words.push(word).drop_last() =~= words);
    if words.len() > 0 {
        assert(joined(words) + seq![' '] + word =~= joined(words).push(' ') + word);
    }
}

/// `raw` calls the method that it names, with the parameters that it is given
/// as they are; a command that is not known is refused by its name.
pub proof fn law_raw_and_unknown(
    socket: Seq<char>,
    method: Seq<char>,
    params: Seq<char>,
    cmd: Seq<char>,
)
    ensures
        plan_of(seq!["raw"@, method, params], Some(socket)) == PlanState::Call(
            socket,
            method,
            ParamsState::Raw(params),
            false,
        ),
        plan_of(seq!["raw"@, method], Some(socket)) == PlanState::Call(
            socket,
            method,
            ParamsState::Value(JsonState::Null),
            false,
        ),
        plan_of(seq!["raw"@], Some(socket)) == PlanState::RawNeedsMethod,
        cmd != "screen"@ && cmd != "blocks"@ && cmd != "last"@ && cmd != "run"@ && cmd != "send"@
            && cmd != "watch"@ && cmd != "raw"@ && cmd != "--socket"@ && cmd != "-h"@ && cmd
            != "--help"@ && cmd != "help"@ ==> plan_of(seq![cmd], Some(socket))
            == PlanState::Unknown(cmd),
{
    lemma_words();
}

/// Help is shown with a socket and without, the usage where nothing is asked
/// for; without a socket any command is told that there is none, and `--socket`
/// needs a path.
pub proof fn law_help_and_sockets(socket: Seq<char>, env: Option<Seq<char>>)
    ensures
        plan_of(seq!["-h"@], env) == PlanState::Help,
        plan_of(seq!["--help"@], env) == PlanState::Help,
        plan_of(seq!["help"@], env) == PlanState::Help,
        plan_of(Seq::empty(), env) == PlanState::Usage,
        plan_of(seq!["--socket"@], env) == PlanState::SocketNeedsPath,
        plan_of(seq!["--socket"@, socket], env) == PlanState::Usage,
        plan_of(seq!["screen"@], None) == PlanState::NoSocket,
        plan_of(seq!["--socket"@, socket, "screen"@], env) == plan_of(
            seq!["screen"@],
            Some(socket),
        ),
{
    lemma_words();
    assert(seq!["--socket"@, socket].skip(2) =~= Seq::empty());
    assert(seq!["--socket"@, socket, "screen"@].skip(2) =~= seq!["screen"@]);
}

/// The exit code of `run` is that of the command, up to 255; 0 where it has
/// none from 0 on that fits in 64 bits with a sign. A reply is an error where it has one that is not null.
pub proof fn law_exit_code_is_the_commands(reply: JsonState, v: u64)
    ensures
        reply.field("result"@).field("exit"@) == JsonState::Uint(v) && v <= 255 ==> exit_of(
            "run"@,
            reply,
        ) == v,
        reply.field("result"@).field("exit"@) == JsonState::Uint(v) && 255 < v <= i64::MAX
            ==> exit_of("run"@, reply) == 255,
        reply.field("result"@).field("exit"@) == JsonState::Uint(v) && v > i64::MAX ==> exit_of(
            "run"@,
            reply,
        ) == 0,
        !(reply.field("result"@).field("exit"@) is Uint) ==> exit_of("run"@, reply) == 0,
        is_error(reply) <==> reply.field("error"@) != JsonState::Null,
{
}

/// A request names its method and carries its parameters.
pub proof fn law_request_fields(method: Seq<char>, params: JsonState)
    ensures
        request_object(method, params).field("method"@) == JsonState::Text(method),
        request_object(method, params).field("params"@) == params,
        request_object(method, params).field("id"@) == JsonState::Uint(1),
{
    reveal_strlit("id");
    reveal_strlit("method");
    reveal_strlit("params");
    assert("id"@.len() == 2 && "method"@.len() == 6 && "params"@.len() == 6);
    assert("method"@[0] != "params"@[0]);
    reveal_with_fuel(field_in, 4);
}

} // verus!
