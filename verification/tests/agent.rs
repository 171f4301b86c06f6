use mimi::agent::{
    bad_request, block_json, dispatch, event_json, is_blank, poll_run, reply, runtime_base,
    socket_dir_name, socket_file_name, subscribed, RuntimeBase, Step,
};
use mimi::json::Json;
use mimi::{Emulator, TermEvent};
use serde_json::Value;

fn from_value(v: &Value) -> Json {
    match v {
        Value::Null => Json::Null,
        Value::Bool(b) => Json::Bool(*b),
        Value::Number(n) => {
            if let Some(u) = n.as_u64() {
                Json::Uint(u)
            } else if let Some(i) = n.as_i64() {
                Json::Int(i)
            } else {
                Json::Real(n.to_string())
            }
        }
        Value::String(s) => Json::Text(s.clone()),
        Value::Array(items) => Json::list(items.iter().map(from_value).collect()),
        Value::Object(m) => {
            Json::object(m.iter().map(|(k, v)| (k.clone(), from_value(v))).collect())
        }
    }
}

fn to_value(j: &Json) -> Value {
    match j {
        Json::Null => Value::Null,
        Json::Bool(b) => Value::Bool(*b),
        Json::Uint(u) => Value::from(*u),
        Json::Int(i) => Value::from(*i),
        Json::Real(s) => serde_json::from_str(s).unwrap(),
        Json::Text(s) => Value::String(s.clone()),
        Json::List(items) => Value::Array(items.iter().map(to_value).collect()),
        Json::Object(f) => Value::Object(f.iter().map(|(k, v)| (k.clone(), to_value(v))).collect()),
    }
}

fn ask(emu: &Emulator, allow_input: bool, req: &str) -> Step {
    let v: Value = serde_json::from_str(req).unwrap();
    let params = from_value(&v["params"]);
    dispatch(v["method"].as_str().unwrap(), &params, &emu.term, allow_input, "1.2.3", 77)
}

/// The whole reply to a request that is answered at once.
fn call(emu: &Emulator, req: &str) -> Value {
    let v: Value = serde_json::from_str(req).unwrap();
    match ask(emu, true, req) {
        Step::Reply(outcome) => to_value(&reply(from_value(&v["id"]), outcome)),
        _ => panic!("not answered at once"),
    }
}

fn test_setup() -> Emulator {
    Emulator::new(40, 10, 100)
}

#[test]
fn hello_and_screen() {
    let mut emu = test_setup();
    emu.process(b"hi agent");

    let v = call(&emu, r#"{"id":1,"method":"hello"}"#);
    assert_eq!(v["result"]["name"], "mimi");
    assert_eq!(v["result"]["version"], "1.2.3");
    assert_eq!(v["result"]["pid"], 77);
    assert_eq!(v["id"], 1);

    let v = call(&emu, r#"{"id":2,"method":"screen"}"#);
    assert_eq!(v["result"]["lines"][0], "hi agent");
    assert_eq!(v["result"]["cols"], 40);
    assert_eq!(v["result"]["rows"], 10);
    assert_eq!(v["result"]["cursor"]["x"], 8);
    assert_eq!(v["result"]["cursor"]["y"], 0);
    assert_eq!(v["result"]["alt_screen"], false);
    assert_eq!(v["result"]["title"], "");
    assert_eq!(v["result"]["cwd"], Value::Null);
    assert_eq!(v["result"]["lines"].as_array().unwrap().len(), 10);
}

#[test]
fn blocks_over_socket() {
    let mut emu = test_setup();
    emu.process(b"\x1b]633;E;make test\x07\x1b]133;C\x07ok\r\n\x1b]133;D;0\x07");

    let v = call(&emu, r#"{"id":1,"method":"list_blocks"}"#);
    assert_eq!(v["result"][0]["command"], "make test");
    assert_eq!(v["result"][0]["exit"], 0);
    assert_eq!(v["result"][0]["output_bytes"], 3);
    assert!(v["result"][0].get("output").is_none());

    let v = call(&emu, r#"{"id":2,"method":"get_block","params":{"id":0}}"#);
    assert_eq!(v["result"]["output"], "ok\n");
}

#[test]
fn send_text_reaches_input() {
    let emu = test_setup();
    match ask(&emu, true, r#"{"id":1,"method":"send_text","params":{"text":"ls\n"}}"#) {
        Step::Type(text, answer) => {
            assert_eq!(text.as_bytes(), b"ls\n");
            assert_eq!(to_value(&answer)["sent"], 3);
        }
        _ => panic!("nothing typed"),
    }
}

#[test]
fn run_waits_for_block() {
    let mut emu = test_setup();
    let step = ask(
        &emu,
        true,
        r#"{"id":1,"method":"run","params":{"command":"echo hey","timeout_ms":5000}}"#,
    );
    let (typed, watermark, timeout) = match step {
        Step::Run(typed, watermark, timeout) => (typed, watermark, timeout),
        _ => panic!("run does not wait"),
    };
    assert_eq!((typed.as_str(), watermark, timeout), ("echo hey\n", 0, 5000));
    assert!(poll_run(&emu.term.blocks, watermark, false).is_none());

    emu.process(b"\x1b]633;E;echo hey\x07\x1b]133;C\x07hey\r\n");
    assert!(poll_run(&emu.term.blocks, watermark, false).is_none());
    emu.process(b"\x1b]133;D;0\x07");

    let v = to_value(&poll_run(&emu.term.blocks, watermark, true).unwrap().unwrap());
    assert_eq!(v["exit"], 0, "response: {v}");
    assert_eq!(v["output"], "hey\n");
}

#[test]
fn input_gating() {
    let emu = Emulator::new(10, 5, 10);
    for req in [
        r#"{"id":1,"method":"run","params":{"command":"rm -rf /"}}"#,
        r#"{"id":1,"method":"send_text","params":{"text":"y"}}"#,
    ] {
        match ask(&emu, false, req) {
            Step::Reply(Err(msg)) => assert!(msg.contains("disabled")),
            _ => panic!("input must not be called"),
        }
    }
}

#[test]
fn subscribe_receives_broadcast() {
    let emu = test_setup();
    assert!(matches!(ask(&emu, false, r#"{"id":1,"method":"subscribe"}"#), Step::Subscribe));
    assert_eq!(to_value(&subscribed())["subscribed"], true);

    let v = to_value(&event_json(&TermEvent::BlockFinished(7)));
    assert_eq!(v["event"], "block_finished");
    assert_eq!(v["id"], 7);
}

#[test]
fn every_event_has_its_form() {
    let v = to_value(&event_json(&TermEvent::Title("t".into())));
    assert_eq!((v["event"].clone(), v["title"].clone()), ("title".into(), "t".into()));
    let v = to_value(&event_json(&TermEvent::CwdChanged("/x".into())));
    assert_eq!((v["event"].clone(), v["cwd"].clone()), ("cwd".into(), "/x".into()));
    assert_eq!(to_value(&event_json(&TermEvent::Bell))["event"], "bell");
    let v = to_value(&event_json(&TermEvent::BlockStarted(3)));
    assert_eq!((v["event"].clone(), v["id"].clone()), ("block_started".into(), 3.into()));
}

#[test]
fn request_errors() {
    let emu = test_setup();
    let error = |req: &str| call(&emu, req)["error"].as_str().unwrap().to_string();
    assert_eq!(error(r#"{"id":1,"method":"get_block"}"#), "missing param: id");
    assert_eq!(error(r#"{"id":1,"method":"get_block","params":{"id":-1}}"#), "missing param: id");
    assert_eq!(
        error(r#"{"id":1,"method":"get_block","params":{"id":12}}"#),
        "no block with id 12"
    );
    assert_eq!(error(r#"{"id":1,"method":"last_block"}"#), "no blocks yet");
    assert_eq!(error(r#"{"id":1,"method":"send_text","params":{}}"#), "missing param: text");
    assert_eq!(error(r#"{"id":1,"method":"run","params":[1]}"#), "missing param: command");
    assert_eq!(
        error(r#"{"id":1,"method":"run","params":{"command":"a\nb"}}"#),
        "command must be a single line"
    );
    assert_eq!(error(r#"{"id":1,"method":"fly"}"#), "unknown method: fly");
    let v = to_value(&bad_request("no JSON"));
    assert_eq!(v["error"], "bad request: no JSON");
    assert_eq!(v["id"], Value::Null);
}

#[test]
fn run_without_waiting() {
    let emu = test_setup();
    let req = r#"{"id":1,"method":"run","params":{"command":"ls","wait":false}}"#;
    match ask(&emu, true, req) {
        Step::Type(text, answer) => {
            assert_eq!(text, "ls\n");
            assert_eq!(to_value(&answer)["accepted"], true);
        }
        _ => panic!("run waits"),
    }
    match ask(&emu, true, r#"{"id":1,"method":"run","params":{"command":"ls"}}"#) {
        Step::Run(_, _, timeout) => assert_eq!(timeout, 30000),
        _ => panic!("run does not wait"),
    }
}

#[test]
fn run_times_out_with_a_hint() {
    let emu = test_setup();
    let msg = poll_run(&emu.term.blocks, 0, true).unwrap().unwrap_err();
    assert!(msg.contains("timed out") && msg.contains("wait:false"));
}

#[test]
fn listing_is_newest_first_and_limited() {
    let mut emu = test_setup();
    for cmd in ["a", "b", "c"] {
        emu.process(format!("\x1b]633;E;{cmd}\x07\x1b]133;C\x07\x1b]133;D;2\x07").as_bytes());
    }
    let v = call(&emu, r#"{"id":1,"method":"list_blocks","params":{"limit":2}}"#);
    let names: Vec<&str> = v["result"]
        .as_array()
        .unwrap()
        .iter()
        .map(|b| b["command"].as_str().unwrap())
        .collect();
    assert_eq!(names, vec!["c", "b"]);
    let v = call(&emu, r#"{"id":1,"method":"last_block","params":{"output":false}}"#);
    assert_eq!(v["result"]["command"], "c");
    assert!(v["result"].get("output").is_none());
    // a signed exit code keeps its sign
    emu.process(b"\x1b]133;C\x07\x1b]133;D;-5\x07");
    let b = emu.term.blocks.last().unwrap();
    assert_eq!(to_value(&block_json(b, true))["exit"], -5);
}

#[test]
fn ids_are_echoed_verbatim() {
    let emu = test_setup();
    let v = call(&emu, r#"{"id":{"a":[1,-2,0.5,null]},"method":"hello"}"#);
    assert_eq!(v["id"].to_string(), r#"{"a":[1,-2,0.5,null]}"#);
}

#[test]
fn blank_lines() {
    assert!(is_blank(""));
    assert!(is_blank(" \t\u{3000}\r"));
    assert!(!is_blank(" {} "));
}

#[test]
fn socket_location() {
    assert_eq!(runtime_base(true, true), RuntimeBase::XdgRuntime);
    assert_eq!(runtime_base(false, true), RuntimeBase::Tmpdir);
    assert_eq!(runtime_base(false, false), RuntimeBase::Tmp);
    assert_eq!(socket_dir_name(501), "mimi-501");
    assert_eq!(socket_file_name(4213), "4213.sock");
}

#[test]
fn blocks_have_all_their_fields() {
    let mut emu = test_setup();
    emu.term.osc_dispatch_at(b"7;file:///tmp", 1);
    emu.term.osc_dispatch_at(b"633;E;ls", 2);
    emu.term.osc_dispatch_at(b"133;C", 3);
    emu.process("é\n".as_bytes());
    let v = to_value(&block_json(emu.term.blocks.last().unwrap(), true));
    assert_eq!(v["running"], true);
    assert_eq!((&v["exit"], &v["ended_ms"]), (&Value::Null, &Value::Null));
    emu.term.osc_dispatch_at(b"133;D;4", 9);
    let b = emu.term.blocks.last().unwrap();
    let v = to_value(&block_json(b, true));
    assert_eq!((&v["id"], &v["command"], &v["cwd"]), (&0.into(), &"ls".into(), &"/tmp".into()));
    assert_eq!((&v["exit"], &v["running"]), (&4.into(), &false.into()));
    assert_eq!((&v["started_ms"], &v["ended_ms"]), (&3.into(), &9.into()));
    assert_eq!((&v["output_truncated"], &v["output_bytes"]), (&false.into(), &3.into()));
    assert_eq!(v["output"], "é\n");
    let v = to_value(&block_json(b, false));
    assert!(v.get("output").is_none());
    assert_eq!(v["output_bytes"], 3);
}

#[test]
fn replies_have_a_result_or_an_error() {
    let v = to_value(&reply(Json::Uint(1), Ok(Json::Bool(true))));
    assert_eq!((&v["result"], v.get("error")), (&true.into(), None));
    let v = to_value(&reply(Json::Uint(1), Err("no".to_string())));
    assert_eq!((&v["error"], v.get("result")), (&"no".into(), None));
}
