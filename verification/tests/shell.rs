use std::path::Path;

use mimi::ctl::{exit_code, has_error, plan, request, Params, Plan};
use mimi::json::Json;
use mimi::launch::{fish_notice, font_candidates, mode, no_font_message, tried_font, Mode};
use mimi::pty::{
    child_env, env_entry, exit_status, file_name, find_shell, fish_location, login_argv0, read_step,
    share_dir, ReadOutcome, ReadStep, ShareDir, ShellChoice, FISH_LOCATIONS,
};

fn args(words: &[&str]) -> Vec<String> {
    words.iter().map(|w| w.to_string()).collect()
}

#[test]
fn find_shell_returns_something_executable() {
    let exists: Vec<bool> = (0..FISH_LOCATIONS).map(|i| Path::new(fish_location(i)).exists()).collect();
    let choice = find_shell(None, &exists, None, None);
    assert!(
        Path::new(choice.path()).exists(),
        "shell path should exist: {:?}",
        choice
    );
}

#[test]
fn shell_order() {
    let none = [false; 5];
    let fish = |s: &str| ShellChoice::Fish(s.to_string());
    let other = |s: &str| ShellChoice::Fallback(s.to_string());
    assert_eq!(find_shell(Some("/x/fish"), &none, None, Some("/bin/zsh")), fish("/x/fish"));
    assert_eq!(find_shell(Some("/x/zsh"), &[true], Some("/p/fish"), None), other("/x/zsh"));
    assert_eq!(
        find_shell(Some(""), &[false, true, true], Some("/p/fish"), Some("/bin/zsh")),
        fish("/usr/local/bin/fish")
    );
    assert_eq!(find_shell(None, &none, Some("/p/fish"), Some("/bin/zsh")), fish("/p/fish"));
    assert_eq!(find_shell(None, &none, None, Some("/bin/zsh")), other("/bin/zsh"));
    assert_eq!(find_shell(None, &none, None, Some("")), other("/bin/sh"));
    assert!(fish("/a").is_fish() && !other("/a").is_fish());
    assert_eq!(other("/a/b").path(), "/a/b");
}

#[test]
fn file_names_as_paths_have_them() {
    for path in [
        "/usr/bin/fish", "fish", "./fish", "fish/", "fish//", "fish/.", "fish/./", "a/..", "..", ".",
        "", "/", "//", "/..", "a/../fish", "a b/ç", "...", "a/...", "/.", "./.", "fish/./.",
    ] {
        let cs: Vec<char> = path.chars().collect();
        let ours: Option<String> = file_name(&cs).map(|n| n.iter().collect());
        let std = Path::new(path).file_name().map(|n| n.to_str().unwrap().to_string());
        assert_eq!(ours, std, "{path:?}");
    }
}

#[test]
fn login_names() {
    assert_eq!(login_argv0("/usr/bin/fish"), "-fish");
    assert_eq!(login_argv0("/"), "-sh");
    assert_eq!(ShellChoice::at("/opt/fish"), ShellChoice::Fish("/opt/fish".to_string()));
    assert_eq!(ShellChoice::at("/opt/fishy"), ShellChoice::Fallback("/opt/fishy".to_string()));
}

#[test]
fn environment() {
    assert_eq!(env_entry("A", "b=c"), "A=b=c");
    let env = child_env("0.1.0", "/run/s", None, Some("/d"));
    let names: Vec<&str> = env.iter().map(|(k, _)| k.as_str()).collect();
    assert_eq!(
        names,
        vec!["TERM", "COLORTERM", "TERM_PROGRAM", "TERM_PROGRAM_VERSION", "MIMI_SOCKET"]
    );
    assert_eq!(env[0].1, "xterm-256color");
    assert_eq!((env[3].1.as_str(), env[4].1.as_str()), ("0.1.0", "/run/s"));
    let env = child_env("0.1.0", "/run/s", Some("/share"), None);
    assert_eq!(env[5].1, "/share:/usr/local/share:/usr/share");
    let env = child_env("0.1.0", "/run/s", Some("/share"), Some("/d"));
    assert_eq!(env[5], ("XDG_DATA_DIRS".to_string(), "/share:/d".to_string()));
}

#[test]
fn share_directories() {
    assert_eq!(share_dir(true, true, true), ShareDir::Override);
    assert_eq!(share_dir(false, true, true), ShareDir::Bundle);
    assert_eq!(share_dir(false, false, true), ShareDir::Prefix);
    assert_eq!(share_dir(false, false, false), ShareDir::Cache);
}

#[test]
fn reading_steps() {
    assert_eq!(read_step(ReadOutcome::Bytes(0)), ReadStep::Stop);
    assert_eq!(read_step(ReadOutcome::Bytes(7)), ReadStep::Deliver(7));
    assert_eq!(read_step(ReadOutcome::Interrupted), ReadStep::Again);
    assert_eq!(read_step(ReadOutcome::Failed), ReadStep::Stop);
}

#[test]
fn wait_statuses() {
    assert_eq!(exit_status(0), 0);
    assert_eq!(exit_status(3 << 8), 3);
    assert_eq!(exit_status(255 << 8), 255);
    // killed by a signal
    assert_eq!(exit_status(9), -1);
    assert_eq!(exit_status(0x7f), -1);
}

fn called(p: Plan) -> (String, String, String, bool) {
    match p {
        Plan::Call(c) => {
            let params = match c.params {
                Params::Value(j) => format!("{j:?}"),
                Params::Raw(s) => s,
            };
            (c.socket, c.method, params, c.watch)
        }
        _ => panic!("nothing is called"),
    }
}

#[test]
fn ctl_commands() {
    let call = |words: &[&str]| {
        let (socket, method, params, watch) = called(plan(&args(words), Some("/s")));
        assert_eq!(socket, "/s");
        assert_eq!(watch, words[0] == "watch");
        (method, params)
    };
    assert_eq!(call(&["screen"]), ("screen".into(), "Null".into()));
    assert_eq!(
        call(&["blocks"]),
        ("list_blocks".into(), "Object([(\"limit\", Uint(20))])".into())
    );
    assert_eq!(
        call(&["blocks", "3"]),
        ("list_blocks".into(), "Object([(\"limit\", Uint(3))])".into())
    );
    assert_eq!(
        call(&["blocks", "-3"]),
        ("list_blocks".into(), "Object([(\"limit\", Uint(20))])".into())
    );
    assert_eq!(call(&["last"]), ("last_block".into(), "Null".into()));
    assert_eq!(
        call(&["run", "cargo", "test"]),
        ("run".into(), "Object([(\"command\", Text(\"cargo test\"))])".into())
    );
    assert_eq!(
        call(&["send"]),
        ("send_text".into(), "Object([(\"text\", Text(\"\"))])".into())
    );
    assert_eq!(call(&["watch"]), ("subscribe".into(), "Null".into()));
    assert_eq!(call(&["raw", "hello"]), ("hello".into(), "Null".into()));
    assert_eq!(call(&["raw", "run", "{}"]), ("run".into(), "{}".into()));
}

#[test]
fn ctl_without_a_call() {
    assert!(matches!(plan(&args(&["--socket"]), Some("/s")), Plan::SocketNeedsPath));
    assert!(matches!(plan(&args(&[]), Some("/s")), Plan::Usage));
    assert!(matches!(plan(&args(&["--socket", "/p"]), None), Plan::Usage));
    for help in ["-h", "--help", "help"] {
        assert!(matches!(plan(&args(&[help]), None), Plan::Help));
    }
    assert!(matches!(plan(&args(&["screen"]), None), Plan::NoSocket));
    assert!(matches!(plan(&args(&["fly"]), None), Plan::NoSocket));
    assert!(matches!(plan(&args(&["run"]), Some("/s")), Plan::RunNeedsCommand));
    assert!(matches!(plan(&args(&["run", ""]), Some("/s")), Plan::RunNeedsCommand));
    assert!(matches!(plan(&args(&["raw"]), Some("/s")), Plan::RawNeedsMethod));
    match plan(&args(&["fly"]), Some("/s")) {
        Plan::Unknown(cmd) => assert_eq!(cmd, "fly"),
        _ => panic!("known"),
    }
}

#[test]
fn ctl_named_socket_wins() {
    let p = plan(&args(&["--socket", "/named", "screen"]), Some("/env"));
    assert_eq!(called(p).0, "/named");
}

fn object(name: &str, value: Json) -> Json {
    Json::object(vec![(name.to_string(), value)])
}

#[test]
fn ctl_exit_codes() {
    let ran = |exit: Json| object("result", object("exit", exit));
    assert_eq!(exit_code("run", &ran(Json::Uint(3))), 3);
    assert_eq!(exit_code("run", &ran(Json::Uint(300))), 255);
    assert_eq!(exit_code("run", &ran(Json::Int(-4))), 0);
    assert_eq!(exit_code("run", &ran(Json::Uint(u64::MAX))), 0);
    assert_eq!(exit_code("run", &ran(Json::Null)), 0);
    assert_eq!(exit_code("run", &Json::Null), 0);
    assert_eq!(exit_code("screen", &ran(Json::Uint(3))), 0);
    assert!(has_error(&object("error", Json::text("no"))));
    assert!(!has_error(&object("error", Json::Null)));
    assert!(!has_error(&object("result", Json::Null)));
    assert!(!has_error(&Json::Bool(true)));
}

#[test]
fn ctl_requests() {
    let j = request("screen", Json::Null);
    assert_eq!(
        format!("{j:?}"),
        "Object([(\"id\", Uint(1)), (\"method\", Text(\"screen\")), (\"params\", Null)])"
    );
}

#[test]
fn launch_modes() {
    assert!(matches!(mode(&args(&[])), Mode::Window));
    assert!(matches!(mode(&args(&["ctl", "screen"])), Mode::Ctl));
    assert!(matches!(mode(&args(&["--version"])), Mode::Version));
    assert!(matches!(mode(&args(&["-V"])), Mode::Version));
    assert!(matches!(mode(&args(&["-h"])), Mode::Help));
    assert!(matches!(mode(&args(&["--help"])), Mode::Help));
    match mode(&args(&["--fly"])) {
        Mode::UnknownFlag(f) => assert_eq!(f, "--fly"),
        _ => panic!("known"),
    }
    assert!(matches!(mode(&args(&["file"])), Mode::Window));
    assert!(matches!(mode(&args(&[""])), Mode::Window));
}

#[test]
fn fonts() {
    assert_eq!(font_candidates(None).len(), 7);
    let with = font_candidates(Some("/my.ttf"));
    assert_eq!((with.len(), with[0].as_str()), (8, "/my.ttf"));
    assert_eq!(with[1], "/System/Library/Fonts/SFNSMono.ttf");
    let tried = vec![tried_font("/a", "unreadable"), tried_font("/b", "bad")];
    let msg = no_font_message(&tried);
    assert!(msg.ends_with("Tried:\n  /a (unreadable)\n  /b (bad)"));
    assert!(no_font_message(&[]).ends_with("Tried:\n  "));
}

#[test]
fn notice() {
    let s = fish_notice("/bin/sh");
    assert!(s.starts_with("mimi: fish not found, falling back to /bin/sh. Install fish"));
}
