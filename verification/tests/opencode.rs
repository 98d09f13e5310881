//! Events of opencode runs.
use codex_ctl::json::{parse_json, Json};
use codex_ctl::log::bodies::decode_body;
use codex_ctl::log::reader::read_all;
use codex_ctl::session::opencode::{keep_stderr, opencode_args, Run, STDERR_LIMIT};
use codex_ctl::session::state::SessionState;
use codex_ctl::session::Session;

fn session() -> Session {
    Session::new_opencode("/bin/opencode", "go", "/w", "/tmp/o", 0, None, None)
}

/// The types and texts of what an event logs, and the bodies of its blocks.
fn logged(kind: &str, part: &str, cost: Option<&str>) -> (Vec<(String, String)>, Vec<String>) {
    let mut s = session();
    s.process_event(kind, &parse_json(part).unwrap(), cost);
    let (text, bodies) = s.flush();
    let messages = read_all(&text).unwrap();
    let seen = messages.into_iter().map(|m| (m.msg_type, m.text)).collect();
    (seen, decode_body(&bodies))
}

fn pair(kind: &str, text: &str) -> (String, String) {
    (kind.to_string(), text.to_string())
}

fn tool(name: &str, state: &str) -> (Vec<(String, String)>, Vec<String>) {
    logged("tool_use", &format!("{{\"tool\":\"{name}\",\"state\":{state}}}"), None)
}

#[test]
fn texts_are_output() {
    let (seen, _) = logged("text", r#"{"text":"hi\nthere"}"#, None);
    assert_eq!(seen, vec![pair("agent_output", "• hi\nthere")]);
    assert!(logged("text", r#"{"text":"  \n"}"#, None).0.is_empty());
    assert!(logged("text", "{}", None).0.is_empty());
    assert!(logged("step_start", r#"{"text":"hi"}"#, None).0.is_empty());
}

#[test]
fn written_files_are_blocks() {
    let (seen, body) = tool(
        "write",
        r#"{"status":"completed","input":{"filePath":"/a/b.rs","content":"x\ny\n"}}"#,
    );
    assert_eq!(seen, vec![pair("block", "Created b.rs (+2 -0)")]);
    assert_eq!(body, vec!["    1 +x", "    2 +y"]);
    let (seen, _) = tool(
        "write",
        r#"{"status":"completed","input":{"filePath":"..","content":""},"metadata":{"exists":true}}"#,
    );
    assert_eq!(seen, vec![pair("block", "Edited .. (+0 -0)")]);
}

#[test]
fn edits_are_blocks() {
    let (seen, body) = tool(
        "edit",
        r#"{"status":"completed","title":"a.rs","input":{"oldString":"x","newString":"y\nz"}}"#,
    );
    assert_eq!(seen, vec![pair("block", "Edited a.rs")]);
    assert_eq!(body, vec!["- x", "+ y", "+ z"]);
    let (seen, body) = tool("edit", r#"{"status":"completed","output":"what\nnow"}"#);
    assert_eq!(seen, vec![pair("block", "Edited unknown")]);
    assert_eq!(body, vec!["what", "now"]);
}

#[test]
fn commands_are_blocks() {
    let (seen, body) = tool(
        "bash",
        r#"{"status":"completed","output":"a\nb","input":{"command":"ls"},
            "metadata":{"exit":2,"truncated":true}}"#,
    );
    assert_eq!(seen, vec![pair("block", "Ran ls"), pair("status", "[exit code: 2]")]);
    assert_eq!(body, vec!["a", "b", "[output truncated]"]);
    let (seen, _) = tool(
        "bash",
        r#"{"status":"completed","input":{"command":"ls","description":"List"}}"#,
    );
    assert_eq!(seen, vec![pair("block", "Ran List")]);
    // Of a code the low 32 bits count.
    let (seen, _) = tool("bash", r#"{"status":"completed","metadata":{"exit":4294967295}}"#);
    assert_eq!(seen[1], pair("status", "[exit code: -1]"));
    let (seen, _) = tool("bash", r#"{"status":"completed","metadata":{"exit":4294967296}}"#);
    assert_eq!(seen.len(), 1);
    let (seen, _) = tool("bash", r#"{"status":"completed","metadata":{"exit":-3}}"#);
    assert_eq!(seen[1], pair("status", "[exit code: -3]"));
}

#[test]
fn other_tools() {
    let (seen, body) = tool("read", r#"{"status":"completed","title":"x","output":"1\n2"}"#);
    assert_eq!(seen, vec![pair("block", "Read x")]);
    assert_eq!(body, vec!["1", "2"]);
    let (seen, _) = tool("todowrite", r#"{"status":"completed","title":"3 todos"}"#);
    assert_eq!(seen, vec![pair("status", "[plan: 3 todos]")]);
    let (seen, body) = tool("grep", r#"{"status":"completed","title":"foo","output":"hit"}"#);
    assert_eq!(seen, vec![pair("block", "grep: foo")]);
    assert_eq!(body, vec!["hit"]);
}

#[test]
fn failed_tools_say_so() {
    let (seen, _) = tool("read", r#"{"status":"error","output":"no file"}"#);
    assert_eq!(
        seen,
        vec![pair("block", "Read unknown"), pair("status", "[tool error: read] no file")]
    );
    assert!(tool("read", r#"{"status":"running"}"#).0.is_empty());
    assert!(tool("read", "{}").0.is_empty());
}

#[test]
fn steps_that_cost() {
    let part = r#"{"reason":"stop","cost":0.01,"tokens":{"total":12}}"#;
    let (seen, _) = logged("step_finish", part, Some("0.0100"));
    assert_eq!(seen, vec![pair("status", "[step: reason=stop cost=$0.0100 tokens=12]")]);
    assert!(logged("step_finish", part, None).0.is_empty());
    let (seen, _) = logged("step_finish", "{}", Some("1.0000"));
    assert_eq!(seen, vec![pair("status", "[step: reason= cost=$1.0000 tokens=0]")]);
}

#[test]
fn a_todo_list_takes_a_block_number_too() {
    let mut s = session();
    let todo = parse_json(r#"{"tool":"todowrite","state":{"status":"completed"}}"#).unwrap();
    let read = parse_json(r#"{"tool":"read","state":{"status":"completed"}}"#).unwrap();
    s.process_event("tool_use", &todo, None);
    s.process_event("tool_use", &read, None);
    assert_eq!(s.blocks.len(), 1);
    assert_eq!((s.blocks[0].id, s.blocks[0].seq), (2, 2));
    assert_eq!(s.next_block_id, 3);
}

#[test]
fn runs_are_followed() {
    let mut s = session();
    let mut run = Run::new();
    run.consume_line(&mut s, "\n", None);
    run.consume_line(&mut s, "no json\n", None);
    run.consume_line(&mut s, "{\"type\":\"step_start\",\"sessionID\":\"ses_1\"}\n", None);
    assert!(!run.saw_output);
    run.consume_line(&mut s, r#"{"type":"text","sessionID":"ses_2","part":{"text":"x"}}"#, None);
    assert!(run.saw_output);
    let line = r#"{"type":"error","error":{"name":"Bad","data":{"message":"why"}}}"#;
    run.consume_line(&mut s, line, None);
    assert_eq!(run.error.as_deref(), Some("Bad: why"));
    run.consume_line(&mut s, r#"{"type":"error","error":{"name":"Worse"}}"#, None);
    assert_eq!(run.error.as_deref(), Some("Worse"));
    run.consume_event(&mut s, &parse_json(r#"{"type":"error"}"#).unwrap(), None);
    let outcome = run.finish(Some(1), "oops".into());
    assert_eq!(outcome.session_id.as_deref(), Some("ses_1"));
    assert_eq!(outcome.error.as_deref(), Some("Error"));
    assert_eq!(outcome.exit_code, Some(1));
    assert_eq!(outcome.stderr, "oops");
    assert!(outcome.saw_output);
    let texts: Vec<String> =
        read_all(&s.flush().0).unwrap().into_iter().map(|m| m.text).collect();
    assert_eq!(
        texts,
        vec![
            "• x",
            "[opencode error] Bad: why",
            "[opencode error] Worse",
            "[opencode error] Error",
        ]
    );
}

#[test]
fn runs_begin_and_end() {
    let mut s = session();
    s.end_run(Some("ses_1".into()), Some(0));
    assert_eq!(s.state, SessionState::Idle);
    assert_eq!(s.opencode_session_id.as_deref(), Some("ses_1"));
    s.begin_run();
    assert_eq!(s.state, SessionState::Working);
    s.end_run(None, None);
    assert_eq!(s.opencode_session_id.as_deref(), Some("ses_1"));
    assert_eq!(s.exit_code, None);
    let texts: Vec<String> =
        read_all(&s.flush().0).unwrap().into_iter().map(|m| m.text).collect();
    assert_eq!(texts, vec!["working → idle", "idle → working", "working → idle"]);
}

#[test]
fn stderr_is_kept_up_to_a_limit() {
    let mut kept = String::new();
    keep_stderr(&mut kept, "Session not found\n");
    assert_eq!(kept, "Session not found\n");
    let mut kept = "ü".repeat(STDERR_LIMIT / 2 - 1);
    keep_stderr(&mut kept, "a long line");
    assert!(kept.ends_with("a long line"));
    let full = kept.clone();
    keep_stderr(&mut kept, "more");
    assert_eq!(kept, full);
}

#[test]
fn run_arguments() {
    assert_eq!(
        opencode_args("do it", "/w", None, None),
        vec!["run", "--format", "json", "--dir", "/w", "do it"]
    );
    assert_eq!(
        opencode_args("do it", "/w", Some("ses_1"), Some("p/m")),
        vec![
            "run", "--format", "json", "--dir", "/w", "--model", "p/m", "--continue", "--session",
            "ses_1", "do it",
        ]
    );
}

#[test]
fn lookups_in_json() {
    let json = parse_json(r#"{"s":"x","n":7,"i":-7,"t":true,"o":{"s":1}}"#).unwrap();
    assert_eq!(json.text_at("s"), "x");
    assert_eq!(json.text_at("n"), "");
    assert_eq!(json.nat_at("n"), 7);
    assert_eq!(json.nat_at("i"), 0);
    assert_eq!(json.int_at("i"), Some(-7));
    assert_eq!(json.int_at("n"), Some(7));
    assert_eq!(json.int_at("s"), None);
    assert!(json.flag_at("t") && !json.flag_at("s"));
    assert_eq!(json.at("missing"), &Json::Null);
    assert_eq!(json.at("o").at("s").as_str(), None);
    assert_eq!(json.copy(), json);
    let big = parse_json(r#"{"n":9223372036854775808}"#).unwrap();
    assert_eq!(big.int_at("n"), None);
}
