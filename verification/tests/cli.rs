//! Commands, and how answers are shown.
use codex_ctl::cli::{
    build_request, failed, format_log_output, format_output, format_screen_output,
    format_stream_line, Command,
};
use codex_ctl::client::{base_dir, pid_path, socket_path};
use codex_ctl::daemon::handler::{lines_json, log_json};
use codex_ctl::json::{parse_json, print_json, Json, Number};
use codex_ctl::log::LogMessage;
use codex_ctl::protocol::{err_json, parse_request, Backend, Request};
use codex_ctl::session::state::SessionState;
use codex_ctl::session::wait::WaitResult;

fn words(list: &[&str]) -> Vec<String> {
    list.iter().map(|s| s.to_string()).collect()
}

fn spawn(prompt: Option<&str>, resume: Option<&str>) -> Command {
    Command::Spawn {
        binary_path: "/bin/codex".into(),
        prompt: prompt.map(|s| s.to_string()),
        cwd: None,
        gui: false,
        resume: resume.map(|s| s.to_string()),
        backend: Backend::Codex,
        model: None,
    }
}

/// The states that a command waits for.
fn awaited(wait: Option<Option<&str>>) -> Option<Vec<String>> {
    let command = Command::State {
        session: "a".into(),
        wait: wait.map(|names| names.map(|s| s.to_string())),
        timeout: None,
    };
    match build_request(command) {
        Ok(Request::State { wait, .. }) => wait,
        other => panic!("{:?}", other),
    }
}

#[test]
fn spawning_needs_a_prompt_or_a_session() {
    assert!(build_request(spawn(Some("x"), None)).is_ok());
    assert!(build_request(spawn(None, Some("x"))).is_ok());
    assert_eq!(
        build_request(spawn(None, None)).unwrap_err(),
        "error: <PROMPT> is required unless --resume is specified"
    );
}

#[test]
fn states_between_commas() {
    assert_eq!(awaited(None), None);
    assert_eq!(awaited(Some(None)), Some(words(&["idle", "dead"])));
    assert_eq!(awaited(Some(Some(""))), Some(words(&["idle", "dead"])));
    assert_eq!(awaited(Some(Some("idle, prompting"))), Some(words(&["idle", "prompting"])));
    assert_eq!(awaited(Some(Some(" "))), Some(words(&[""])));
}

#[test]
fn requests_of_commands() {
    let expand = |all: bool| Command::Expand {
        session: "a".into(),
        all,
        block_ids: words(&["1", "2,3"]),
    };
    match build_request(expand(true)) {
        Ok(Request::Expand { block_ids, .. }) => assert_eq!(block_ids, words(&["--all"])),
        other => panic!("{:?}", other),
    }
    match build_request(expand(false)) {
        Ok(Request::Expand { block_ids, .. }) => assert_eq!(block_ids, words(&["1", "2,3"])),
        other => panic!("{:?}", other),
    }
    let log = |follow: bool| Command::Log {
        session: "a".into(),
        follow,
        since: Some(4),
        wait: false,
        timeout: Some(Number::Nat(3)),
    };
    let request = build_request(log(true)).unwrap();
    assert!(request.is_streaming());
    assert!(!build_request(log(false)).unwrap().is_streaming());
    // What is sent is what the daemon reads.
    let line = print_json(&request.to_json());
    match parse_request(&line) {
        Some(Request::Log { session, follow, since, wait, timeout }) => {
            assert_eq!((session.as_str(), follow, since, wait), ("a", true, Some(4), false));
            assert_eq!(timeout, Some(Number::Nat(3)));
        }
        other => panic!("{:?}", other),
    }
    assert!(matches!(build_request(Command::KillAll), Ok(Request::KillAll)));
    assert!(Request::GuiAttach { session: "a".into() }.is_streaming());
    assert!(!Request::Ping.is_streaming());
}

#[test]
fn requests_on_the_wire() {
    let lines = [
        r#"{"cmd":"act","session":"a","actions":["x","enter"]}"#,
        r#"{"cmd":"kill_all"}"#,
        r#"{"cmd":"gui_attach","session":"a"}"#,
        r#"{"cmd":"next","session":"a","wait":true,"timeout":1.5}"#,
        r#"{"cmd":"screen","session":"a","clean":true}"#,
        r#"{"cmd":"state","session":"a","wait":["idle"],"timeout":null}"#,
        r#"{"cmd":"ping","more":1}"#,
    ];
    for line in lines {
        let request = parse_request(line).unwrap();
        let again = parse_request(&print_json(&request.to_json())).unwrap();
        assert_eq!(format!("{:?}", request), format!("{:?}", again));
    }
    let refused = [
        "",
        "[]",
        r#"{"cmd":"fly"}"#,
        r#"{"cmd":"kill"}"#,
        r#"{"cmd":"kill","session":7}"#,
        r#"{"cmd":"act","session":"a","actions":[1]}"#,
        r#"{"cmd":"log","session":"a","since":-1}"#,
        r#"{"cmd":"spawn","binary_path":"x","backend":"vim"}"#,
    ];
    for line in refused {
        assert!(parse_request(line).is_none(), "{:?}", line);
    }
}

#[test]
fn failures_are_told_apart() {
    assert!(failed(&err_json("x")));
    assert!(!failed(&parse_json(r#"{"ok":true}"#).unwrap()));
    assert!(!failed(&parse_json(r#"{"ok":"false"}"#).unwrap()));
    assert!(!failed(&Json::Null));
}

#[test]
fn screens_are_shown() {
    let lines = ["╭─╮", "Hello  ", "", "", "", "bye", "? for shortcuts"];
    let answer = lines_json(&words(&lines));
    assert_eq!(
        format_screen_output(&answer, false, false),
        vec!["╭─╮", "Hello", "", "", "bye", "? for shortcuts"]
    );
    assert_eq!(format_screen_output(&answer, false, true), vec!["Hello", "", "", "bye"]);
    let raw = format_screen_output(&answer, true, false);
    assert_eq!(raw.len(), 1);
    assert_eq!(parse_json(&raw[0]), Some(answer));
    assert!(format_screen_output(&Json::Null, false, false).is_empty());
}

#[test]
fn logs_are_shown() {
    let messages = [
        LogMessage::agent_output(1, "hi".into()),
        LogMessage::block(2, "Ran x", 1, "ran", 0),
        LogMessage::state_change(3, "working", "idle"),
    ];
    let answer = log_json(&messages, None, SessionState::Idle);
    assert_eq!(
        format_log_output(&answer),
        vec!["hi", "### Ran x", "[state: working → idle]", r#"{"seq":3,"state":"idle"}"#]
    );
    let result = WaitResult {
        state: SessionState::Idle,
        waited: true,
        waited_nanos: 0,
        timed_out: true,
    };
    let waited = Some((result, Number::Real("0.5".into())));
    let answer = log_json(&[], waited, SessionState::Working);
    assert_eq!(
        format_log_output(&answer),
        vec![r#"{"seq":0,"state":"idle","timed_out":true,"waited":true,"waited_sec":0.5}"#]
    );
    // What is no message is passed over.
    let odd = parse_json(r#"{"messages":[1,{"seq":2}]}"#).unwrap();
    assert_eq!(format_log_output(&odd), vec![r#"{"seq":0,"state":"unknown"}"#]);
}

#[test]
fn single_messages_are_shown() {
    let last = |msg: LogMessage| format_log_output(&msg.to_json());
    let footer = r#"{"seq":7,"state":"unknown"}"#;
    assert_eq!(last(LogMessage::agent_output(7, "hi".into())), vec!["hi", footer]);
    assert_eq!(last(LogMessage::block(7, "Ran x", 1, "ran", 0)), vec!["### Ran x", footer]);
    let status = last(LogMessage::status(7, "busy".into()));
    assert_eq!(status.len(), 2);
    assert!(status[0].starts_with("{\n") && status[0].contains("\"text\": \"busy\""));
    assert_eq!(format_log_output(&err_json("No messages")).len(), 1);
    assert_eq!(format_log_output(&parse_json("{}").unwrap()), vec!["{}"]);
}

#[test]
fn answers_by_request() {
    let answer = lines_json(&words(&["a"]));
    let screen = Request::Screen { session: "a".into(), clean: false, raw: false };
    assert_eq!(format_output(&screen, &answer), vec!["a"]);
    let list = format_output(&Request::List, &answer);
    assert_eq!(list, vec!["{\n  \"lines\": [\n    \"a\"\n  ]\n}"]);
    let last = Request::Last { session: "a".into() };
    let msg = LogMessage::agent_output(7, "hi".into()).to_json();
    assert_eq!(format_output(&last, &msg)[0], "hi");
}

#[test]
fn streamed_lines_are_shown() {
    let shown = |line: &str| format_stream_line(line);
    assert_eq!(shown("{\"type\":\"status\",\"text\":\"x\"}\n"), Ok(Some("x".into())));
    assert_eq!(shown(r#"{"type":"agent_output","text":"x"}"#), Ok(Some("x".into())));
    assert_eq!(shown(r#"{"type":"agent_output"}"#), Ok(None));
    assert_eq!(shown(r#"{"type":"block","text":"x"}"#), Ok(Some("### x".into())));
    assert_eq!(
        shown(r#"{"type":"state_change","state_from":"a","state_to":"b"}"#),
        Ok(Some("[state: a → b]".into()))
    );
    assert_eq!(shown(r#"{"type":"state_change","state_from":"a"}"#), Ok(None));
    assert_eq!(shown(" {\"type\":\"prompt\"} \n"), Ok(Some("{\"type\":\"prompt\"}".into())));
    assert_eq!(shown("{\"ok\":false}\n"), Ok(Some("{\"ok\":false}".into())));
    assert_eq!(shown("oops"), Err(()));
    assert_eq!(shown("\n"), Err(()));
}

#[test]
fn where_files_are() {
    assert_eq!(base_dir(Some("/x"), Some("/home/me")), "/x");
    assert_eq!(base_dir(None, Some("/home/me")), "/home/me/.codex-ctl");
    assert_eq!(base_dir(None, None), "/tmp/.codex-ctl");
    assert_eq!(socket_path("/x"), "/x/daemon.sock");
    assert_eq!(pid_path("/x/"), "/x/daemon.pid");
}
