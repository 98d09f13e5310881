//! How the daemon answers.
use codex_ctl::clock::SECOND;
use codex_ctl::daemon::act::{
    after_queue, opencode_prompt, plan_act, run_program, trust_answer, Act,
};
use codex_ctl::daemon::handler::{
    block_json, done_json, done_states, expand_json, failure_json, last_json, list_entry,
    list_json, log_json, log_screen_json, next_number, resting_states, select_blocks,
    spawned_json, state_answer, state_json, stream_ends, stream_lines, wait_targets,
};
use codex_ctl::daemon::kill::{
    cutoff_at, exit_code, kill_schedule, killall_json, killed_entry, killed_json,
    killed_opencode_json, kimi_cutoff, newest_kimi_session, pause, scan_for_codex_session_id,
    try_reap, ChildStatus, KillStep, KimiDir,
};
use codex_ctl::daemon::opencode_server::{
    bytes_contain, listening_url, names_opencode, serve_args, stale_pid,
};
use codex_ctl::daemon::spawn::{
    plan_spawn, pty_session, settle_expired, settle_step, spawn_trouble, submit_prompt, Settle,
    SpawnPlan,
};
use codex_ctl::daemon::Daemon;
use codex_ctl::json::{print_json, Json, Number};
use codex_ctl::log::reader::{read_all, read_since};
use codex_ctl::log::LogMessage;
use codex_ctl::parser::prompt::{PromptInfo, PromptOption};
use codex_ctl::protocol::{err_json, ok_json, Backend};
use codex_ctl::session::input::Step;
use codex_ctl::session::state::SessionState;
use codex_ctl::session::wait::WaitResult;
use codex_ctl::session::{Session, SpawnResult};

/// The arguments that are keys.
const RESERVED: [&str; 13] = [
    "enter", "tab", "esc", "space", "up", "down", "left", "right", "backspace", "ctrl+c",
    "ctrl+d", "ctrl+z", "ctrl+l",
];

const UUID: &str = "019c8826-8134-7183-be06-6f93dd6dd5e5";

fn codex() -> Session {
    Session::new(SpawnResult { pid: 42, master_fd: 7 }, "fix it", "/work", "/tmp/s", 0)
}

fn kimi() -> Session {
    Session::new_kimi(SpawnResult { pid: 42, master_fd: 7 }, None, "/work", "/tmp/s", 0, None)
}

fn opencode() -> Session {
    Session::new_opencode("/bin/oc", "go", "/w", "/tmp/o", 0, None, None)
}

fn words(list: &[&str]) -> Vec<String> {
    list.iter().map(|s| s.to_string()).collect()
}

fn waited(state: SessionState, timed_out: bool) -> Option<(WaitResult, Number)> {
    let result = WaitResult { state, waited: true, waited_nanos: 1_500_000_000, timed_out };
    Some((result, Number::Real("1.5".into())))
}

#[test]
fn sessions_are_resolved_by_prefix() {
    let mut d = Daemon::new("/base");
    assert_eq!(d.sessions_dir, "/base/sessions");
    assert_eq!(d.resolve_session("").unwrap_err(), "No session matching ''");
    d.sessions = words(&["a1b2c3d4", "a1ffffff", "b0000000"]);
    assert_eq!(d.resolve_session("b"), Ok(2));
    assert_eq!(d.resolve_session("a1b2c3d4"), Ok(0));
    assert_eq!(d.resolve_session("a1f"), Ok(1));
    assert_eq!(d.resolve_session("c").unwrap_err(), "No session matching 'c'");
    assert_eq!(
        d.resolve_session("a1").unwrap_err(),
        "Ambiguous session prefix 'a1': matches a1b2c3d4, a1ffffff"
    );
    assert_eq!(Daemon::opencode_pid_path("/base"), "/base/opencode-server.pid");
}

#[test]
fn short_answers() {
    assert_eq!(print_json(&ok_json(done_json())), r#"{"ok":true}"#);
    assert_eq!(print_json(&spawned_json("a1")), r#"{"ok":true,"session":"a1"}"#);
    assert_eq!(print_json(&failure_json("A", "b")), r#"{"error":"A: b","ok":false}"#);
    assert_eq!(print_json(&list_json(vec![])), r#"{"sessions":[]}"#);
    let mut s = codex();
    assert!(list_entry(&s).is_some());
    s.mark_dead(None);
    assert!(list_entry(&s).is_none());
}

#[test]
fn states_to_wait_for() {
    assert_eq!(
        wait_targets(&words(&["IDLE", "x", "prompting"])),
        vec![SessionState::Idle, SessionState::Prompting]
    );
    assert_eq!(wait_targets(&words(&["x"])), resting_states());
    assert_eq!(wait_targets(&[]), resting_states());
    assert_eq!(resting_states().len(), 4);
    assert_eq!(done_states(), vec![SessionState::Idle, SessionState::Dead]);
}

#[test]
fn answers_about_a_state() {
    let mut s = codex();
    assert_eq!(print_json(&state_json(&s, None)), r#"{"state":"working","waited":false}"#);
    assert_eq!(
        print_json(&state_json(&s, waited(SessionState::Working, true))),
        r#"{"state":"working","timed_out":true,"waited":true,"waited_sec":1.5}"#
    );
    s.mark_dead(Some(-1));
    assert_eq!(
        print_json(&state_json(&s, None)),
        r#"{"exit_code":-1,"state":"dead","waited":false}"#
    );
    let question = Some(PromptInfo {
        question_num: 1,
        question_total: 2,
        question_text: "Which?".into(),
        options: vec![PromptOption {
            number: 1,
            label: "A".into(),
            description: "".into(),
            is_selected: true,
        }],
        selected: 1,
    });
    let answer = state_answer(SessionState::PromptingNotes, None, &question, None);
    assert_eq!(answer.get("question_total"), Some(&Json::Number(Number::Nat(2))));
    assert_eq!(answer.get("selected"), Some(&Json::Number(Number::Nat(1))));
    assert_eq!(
        print_json(answer.get("options").unwrap()),
        r#"[{"description":"","is_selected":true,"label":"A","number":1}]"#
    );
    // A question is told only while it is asked.
    let answer = state_answer(SessionState::Idle, None, &question, None);
    assert_eq!(answer.get("question_total"), None);
}

#[test]
fn a_question_on_the_screen_is_told() {
    let mut s = codex();
    let screen = "Question 2/3\r\nWhich?\r\n› 2. B\r\nenter to submit";
    s.on_pty_data_at(screen.as_bytes(), 0);
    let answer = state_json(&s, None);
    assert_eq!(answer.get("state"), Some(&Json::Str("prompting".into())));
    assert_eq!(answer.get("question_num"), Some(&Json::Number(Number::Nat(2))));
    assert_eq!(answer.get("selected"), Some(&Json::Number(Number::Nat(2))));
}

#[test]
fn answers_with_messages() {
    let messages = [LogMessage::agent_output(3, "hi".into())];
    let answer = log_json(&messages, None, SessionState::Idle);
    assert_eq!(answer.get("_state"), Some(&Json::Str("idle".into())));
    assert_eq!(answer.get("_meta"), None);
    let answer = log_json(&messages, waited(SessionState::Idle, false), SessionState::Working);
    assert_eq!(
        print_json(answer.get("_meta").unwrap()),
        r#"{"state":"idle","timed_out":false,"waited_sec":1.5}"#
    );
    assert_eq!(answer.get("_state"), None);
    assert_eq!(last_json(&[]), err_json("No messages"));
    assert_eq!(last_json(&messages).get("seq"), Some(&Json::Number(Number::Nat(3))));
    assert_eq!(
        print_json(&log_screen_json(&[LogMessage::state_change(1, "working", "idle")])),
        "{\"lines\":[\"[state: working → idle]\"]}"
    );
}

#[test]
fn the_cursor_moves_past_what_was_read() {
    let mut s = codex();
    s.log_status("a".into());
    s.log_status("b".into());
    let mut text = s.flush().0;
    let first = read_since(&text, s.read_cursor).unwrap();
    s.advance_cursor(&first);
    assert_eq!(s.read_cursor, 3);
    s.log_status("c".into());
    text.push_str(&s.flush().0);
    let second = read_since(&text, s.read_cursor).unwrap();
    assert_eq!(second.iter().map(|m| m.text.as_str()).collect::<Vec<_>>(), vec!["c"]);
    s.advance_cursor(&second);
    s.advance_cursor(&[]);
    assert_eq!(s.read_cursor, 4);
    assert!(read_since(&text, s.read_cursor).unwrap().is_empty());
    assert_eq!(next_number(&[LogMessage::status(u64::MAX, "x".into())], 0), None);
}

#[test]
fn streams_of_messages() {
    let messages = [LogMessage::status(1, "a\nb".into()), LogMessage::status(2, "c".into())];
    let lines = stream_lines(&messages);
    assert!(lines.iter().all(|line| !line.contains('\n')));
    let back = read_all(&lines.join("\n")).unwrap();
    assert_eq!(back.iter().map(|m| m.text.as_str()).collect::<Vec<_>>(), vec!["a\nb", "c"]);
    assert!(stream_ends(SessionState::Dead, &[]));
    assert!(!stream_ends(SessionState::Dead, &messages));
    assert!(!stream_ends(SessionState::Idle, &[]));
}

#[test]
fn blocks_are_selected_and_expanded() {
    let mut s = codex();
    s.commit(words(&["• Ran a", "  1", "• Read b", "• Created c", "  2"]));
    let ids = |args: &[&str]| -> Vec<u64> {
        let places = select_blocks(&s.blocks, &words(args));
        places.into_iter().map(|i| s.blocks[i].id).collect()
    };
    assert_eq!(ids(&["--all"]), vec![1, 2, 3]);
    assert_eq!(ids(&["3,1", " 2 "]), vec![3, 1, 2]);
    assert_eq!(ids(&["9", "x", "2,2", ""]), vec![2, 2]);
    assert_eq!(ids(&["--all", "1"]), vec![1]);
    assert_eq!(ids(&[]), Vec::<u64>::new());
    assert_eq!(
        print_json(&expand_json(vec![block_json(&s.blocks[0], &words(&["  1"]))])),
        "{\"blocks\":[{\"block_type\":\"ran_command\",\"body\":[\"  1\"],\"header\":\"Ran a\",\
         \"id\":1,\"seq\":1}],\"ok\":true}"
    );
}

#[test]
fn logged_blocks_can_be_expanded() {
    let mut s = codex();
    let bodies = [words(&["a", "", "ü"]), words(&[]), words(&["", ""])];
    let mut file: Vec<u8> = Vec::new();
    for (i, body) in bodies.iter().enumerate() {
        s.log_block(i as u64 + 1, "ran", "Ran x", body);
        file.extend(s.flush().1);
    }
    for (i, body) in bodies.iter().enumerate() {
        let places = select_blocks(&s.blocks, &[(i + 1).to_string()]);
        let meta = &s.blocks[places[0]];
        let bytes = &file[meta.body_offset as usize..(meta.body_offset + meta.body_len) as usize];
        assert_eq!(&codex_ctl::log::bodies::decode_body(bytes), body);
    }
}

#[test]
fn prompts_for_opencode() {
    let prompt = |args: &[&str]| opencode_prompt(&words(args));
    assert_eq!(prompt(&["fix it", "ENTER"]).as_deref(), Some("fix it"));
    assert_eq!(prompt(&["esc", "Wait:500", "a", "b"]).as_deref(), Some("a b"));
    assert_eq!(prompt(&["ctrl+x"]).as_deref(), Some("ctrl+x"));
    for key in RESERVED {
        assert_eq!(prompt(&[key]), None, "{key}");
        assert_eq!(prompt(&[&key.to_uppercase(), "go"]).as_deref(), Some("go"));
    }
    for word in ["return", "Escape"] {
        assert_eq!(prompt(&[word]).as_deref(), Some(word));
        assert_eq!(prompt(&[word, "enter", "now"]), Some(format!("{word} now")));
    }
    assert_eq!(prompt(&["text:enter"]).as_deref(), Some("text:enter"));
    assert_eq!(prompt(&["enter", "wait:x"]), None);
    assert_eq!(prompt(&[" ", ""]), None);
    assert_eq!(prompt(&[]), None);
}

#[test]
fn actions_are_planned() {
    let plan = |s: &Session, args: &[&str]| plan_act(s, &words(args));
    let mut s = codex();
    match plan(&s, &["down", "enter"]) {
        Act::Type(steps) => assert_eq!(
            steps,
            vec![Step::Write(b"\x1b[B".to_vec()), Step::Sleep(30), Step::Write(b"\r".to_vec())]
        ),
        other => panic!("{:?}", other),
    }
    s.mark_dead(None);
    match plan(&s, &["enter"]) {
        Act::Refuse(answer) => assert_eq!(answer, err_json("Session is dead")),
        other => panic!("{:?}", other),
    }
    let mut s = opencode();
    assert!(matches!(plan(&s, &["go", "enter"]), Act::Queue(p) if p == "go"));
    assert!(after_queue(&s).is_none());
    s.end_run(None, None);
    assert!(matches!(plan(&s, &["go"]), Act::Run(p) if p == "go"));
    match plan(&s, &["enter"]) {
        Act::Refuse(answer) => assert_eq!(
            answer,
            err_json("No prompt text found in actions (opencode mode ignores keystrokes)")
        ),
        other => panic!("{:?}", other),
    }
    assert!(matches!(plan(&s, &RESERVED), Act::Refuse(_)));
    assert!(matches!(plan(&s, &["ctrl+z", "wait:100", "ctrl+l"]), Act::Refuse(_)));
    assert_eq!(run_program(&s), Ok("/bin/oc".to_string()));
    s.mark_dead(None);
    assert_eq!(after_queue(&s), Some(err_json("Session died while waiting")));
    assert!(run_program(&codex()).is_err());
}

#[test]
fn trusting_a_directory() {
    assert_eq!(trust_answer(Backend::Codex), b"\r");
    assert_eq!(trust_answer(Backend::Kimi), b"\x1b[A\r");
}

#[test]
fn sessions_are_started() {
    match plan_spawn(Backend::Codex, "/bin/codex", Some("hi"), "/w", None) {
        SpawnPlan::Pty(line) => {
            assert_eq!((line[0].as_str(), line[5].as_str()), ("/bin/codex", "hi"));
        }
        other => panic!("{:?}", other),
    }
    match plan_spawn(Backend::Kimi, "/bin/kimi", Some("hi"), "/w", Some("session_1")) {
        SpawnPlan::Pty(line) => assert_eq!(line, words(&["/bin/kimi", "-S", "session_1"])),
        other => panic!("{:?}", other),
    }
    let plan = plan_spawn(Backend::Opencode, "/bin/oc", Some("hi"), "/w", None);
    assert!(matches!(plan, SpawnPlan::Run(prompt) if prompt == "hi"));
    match plan_spawn(Backend::Opencode, "/bin/oc", None, "/w", Some("ses_1")) {
        SpawnPlan::Refuse(answer) => {
            assert_eq!(answer, err_json("Prompt is required for opencode spawn"));
        }
        other => panic!("{:?}", other),
    }
    assert_eq!(spawn_trouble(Backend::Kimi), "Failed to spawn kimi");
    let spawned = SpawnResult { pid: 3, master_fd: 4 };
    let s = pty_session(Backend::Codex, spawned, "a1", None, "/w", "/tmp/s", 5, Some("019c"));
    assert_eq!((s.id.as_str(), s.prompt.as_str(), s.cwd.as_str()), ("a1", "", "/w"));
    assert_eq!((s.pid, s.master_fd, s.log_writer.next_offset()), (3, 4, 5));
    assert_eq!((s.kimi_session_id, s.awaiting_initial_prompt), (None, false));
    let mut s = pty_session(Backend::Kimi, spawned, "a1", Some("hi"), "/w", "/tmp/s", 0, Some("x"));
    assert_eq!((s.kimi_session_id.as_deref(), s.awaiting_initial_prompt), (Some("x"), true));
    s.prompt_typed();
    assert!(!s.awaiting_initial_prompt);
}

#[test]
fn a_first_prompt_is_submitted() {
    assert_eq!(
        submit_prompt("hü"),
        vec![
            Step::Write("hü".as_bytes().to_vec()),
            Step::Sleep(200),
            Step::Write(b"\r".to_vec()),
            Step::Sleep(2000),
        ]
    );
}

#[test]
fn a_prompt_is_typed_once_the_screen_is_silent() {
    let mut s = kimi();
    assert_eq!(settle_step(&s, 100 * SECOND), Settle::Wait);
    s.on_pty_data_at(b"welcome", SECOND);
    assert_eq!(settle_step(&s, 4 * SECOND - 1), Settle::Wait);
    assert_eq!(settle_step(&s, 4 * SECOND), Settle::Inject);
    s.mark_dead(None);
    assert_eq!(settle_step(&s, 4 * SECOND), Settle::Stop);
    assert!(!settle_expired(SECOND, 61 * SECOND));
    assert!(settle_expired(SECOND, 61 * SECOND + 1));
    assert!(!settle_expired(SECOND, 0));
}

#[test]
fn codex_says_how_to_resume() {
    let hint = format!("To continue, run codex resume {UUID}.");
    let lines = words(&["bye", &hint, "codex resume x"]);
    assert_eq!(scan_for_codex_session_id(&lines).as_deref(), Some(UUID));
    assert_eq!(scan_for_codex_session_id(&words(&["codex resume 019C8826"])), None);
    let mut s = codex();
    s.capture_codex_id();
    assert_eq!(s.codex_session_id, None);
    s.on_pty_data_at(format!("codex resume {UUID}").as_bytes(), 0);
    s.capture_codex_id();
    assert_eq!(s.codex_session_id.as_deref(), Some(UUID));
    // A name that is known is kept.
    s.on_pty_data_at(b"\x1b[2J\x1b[Hcodex resume 00000000-0000-0000-0000-000000000000", 0);
    s.capture_codex_id();
    assert_eq!(s.codex_session_id.as_deref(), Some(UUID));
}

#[test]
fn the_newest_kimi_session() {
    let dir = |parent: &str, name: &str, modified: i128| KimiDir {
        parent: parent.into(),
        name: name.into(),
        modified,
    };
    let dirs = [
        dir("wd_a", "session_1", 10),
        dir("wd_b", "session_2", 30),
        dir("wd_b", "session_3", 30),
        dir("other", "session_4", 99),
        dir("wd_a", "cache", 99),
    ];
    assert_eq!(newest_kimi_session(&dirs, 10).as_deref(), Some("session_2"));
    assert_eq!(newest_kimi_session(&dirs[..1], 10).as_deref(), Some("session_1"));
    assert_eq!(newest_kimi_session(&dirs, 31), None);
    assert_eq!(newest_kimi_session(&[], 0), None);
    assert!(kimi().lacks_kimi_id());
    assert!(!codex().lacks_kimi_id());
}

#[test]
fn ends_of_processes() {
    assert_eq!(exit_code(ChildStatus::Exited(3)), Some(3));
    assert_eq!(exit_code(ChildStatus::Signaled(9)), Some(137));
    assert_eq!(exit_code(ChildStatus::Unknown), None);
    assert_eq!(try_reap(ChildStatus::Exited(0)), Some(Some(0)));
    assert_eq!(try_reap(ChildStatus::Signaled(15)), Some(Some(143)));
    assert_eq!(try_reap(ChildStatus::Alive), None);
    assert_eq!(try_reap(ChildStatus::Unknown), None);
}

#[test]
fn the_order_of_a_kill() {
    let steps = kill_schedule();
    assert_eq!(steps.len(), 47);
    assert_eq!(steps.iter().filter(|s| **s == KillStep::Interrupt).count(), 3);
    assert_eq!(steps.iter().map(|s| pause(*s)).sum::<u64>(), 4600);
    assert_eq!(
        &steps[43..],
        &[KillStep::Terminate, KillStep::Check, KillStep::Kill, KillStep::Last]
    );
}

#[test]
fn steps_of_a_kill() {
    let mut s = codex();
    s.on_pty_data_at(format!("codex resume {UUID}").as_bytes(), 0);
    assert!(!s.kill_step(KillStep::Interrupt, ChildStatus::Exited(0), None));
    assert!(!s.kill_step(KillStep::Check, ChildStatus::Alive, None));
    assert_eq!(s.codex_session_id, None);
    assert!(!s.kill_step(KillStep::Poll, ChildStatus::Alive, None));
    assert_eq!(s.codex_session_id.as_deref(), Some(UUID));
    assert_eq!(s.state, SessionState::Working);
    assert!(s.kill_step(KillStep::Poll, ChildStatus::Exited(0), None));
    assert_eq!((s.state, s.exit_code), (SessionState::Dead, Some(0)));
    let mut s = kimi();
    assert!(s.kill_step(KillStep::Check, ChildStatus::Signaled(15), Some("session_1".into())));
    assert_eq!(s.kimi_session_id.as_deref(), Some("session_1"));
    assert_eq!(s.exit_code, Some(143));
    let mut s = kimi();
    assert!(s.kill_step(KillStep::Last, ChildStatus::Unknown, None));
    assert_eq!((s.state, s.exit_code), (SessionState::Dead, None));
    // Only a session of kimi takes a name from the disk.
    let mut s = codex();
    s.kill_step(KillStep::Last, ChildStatus::Alive, Some("session_1".into()));
    assert_eq!(s.kimi_session_id, None);
}

#[test]
fn answers_about_kills() {
    let mut s = codex();
    s.codex_session_id = Some(UUID.into());
    let answer = killed_json(&s);
    assert_eq!(
        print_json(&answer),
        format!("{{\"codex_session_id\":\"{UUID}\",\"kimi_session_id\":null,\"ok\":true}}")
    );
    let entry = killed_entry("a1b2c3d4", &answer);
    assert_eq!(
        print_json(&killall_json(vec![entry, killed_entry("x", &done_json())])),
        format!(
            "{{\"killed\":[{{\"codex_session_id\":\"{UUID}\",\"session\":\"a1b2c3d4\"}},\
             {{\"codex_session_id\":null,\"session\":\"x\"}}],\"ok\":true}}"
        )
    );
    let mut s = opencode();
    s.opencode_session_id = Some("ses_1".into());
    assert_eq!(
        print_json(&killed_opencode_json(&s)),
        r#"{"codex_session_id":null,"ok":true,"opencode_session_id":"ses_1"}"#
    );
}

#[test]
fn the_opencode_server() {
    assert_eq!(serve_args(), vec!["serve", "--port", "0", "--hostname", "127.0.0.1"]);
    assert_eq!(
        listening_url("opencode server listening on http://127.0.0.1:54321 now\n").as_deref(),
        Some("http://127.0.0.1:54321")
    );
    assert_eq!(listening_url("x http://127.0.0.1:").as_deref(), Some("http://127.0.0.1:"));
    assert_eq!(listening_url("http://localhost:1"), None);
    assert_eq!(stale_pid(" 123\n"), Some(123));
    assert_eq!(stale_pid("-1"), Some(-1));
    assert_eq!(stale_pid("abc"), None);
    assert_eq!(stale_pid("2147483648"), None);
    assert!(names_opencode(b"/usr/bin/opencode\0serve\0"));
    assert!(!names_opencode(b"/usr/bin/openc\0ode"));
    assert!(!names_opencode(b""));
    assert!(bytes_contain(b"abc", b""));
    assert!(bytes_contain(b"aab", b"ab"));
}

#[test]
fn sessions_of_kimi_count_from_their_second() {
    assert_eq!(kimi_cutoff("1970-01-01T00:00:01.999+00:00"), Some(1_000_000_000));
    assert_eq!(kimi_cutoff("1970-01-01T01:00:00+01:00"), Some(0));
    assert_eq!(kimi_cutoff("1969-12-31T23:59:59+00:00"), Some(0));
    assert_eq!(kimi_cutoff("2015-05-15T00:00:00Z"), Some(1_431_648_000_000_000_000));
    assert_eq!(kimi_cutoff("yesterday"), None);
    assert_eq!(kimi_cutoff(""), None);
    assert!(kimi_cutoff(&kimi().created_at).is_some());
    assert_eq!(cutoff_at(7), 7_000_000_000);
    assert_eq!(cutoff_at(-7), 0);
    assert_eq!(cutoff_at(i64::MAX), 9_223_372_036_854_775_807_000_000_000);
}
