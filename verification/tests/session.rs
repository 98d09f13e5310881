//! Sessions: what is seen on the screen, and what is logged of it.
use codex_ctl::clock::{MILLISECOND, SECOND};
use codex_ctl::json::{parse_json, Json, Number};
use codex_ctl::log::reader::read_all;
use codex_ctl::log::LogMessage;
use codex_ctl::protocol::Backend;
use codex_ctl::session::create::{prompt_shown, PTY_COLS, PTY_ROWS};
use codex_ctl::session::ident::{new_session_id, session_id_of};
use codex_ctl::session::pty::{codex_args, kimi_args};
use codex_ctl::session::state::SessionState;
use codex_ctl::session::{Session, SpawnResult};

fn codex() -> Session {
    Session::new(SpawnResult { pid: 42, master_fd: 7 }, "fix it", "/work", "/tmp/s", 0)
}

fn kimi(prompt: Option<&str>, resume: Option<&str>) -> Session {
    Session::new_kimi(SpawnResult { pid: 1, master_fd: 2 }, prompt, "/", "/tmp/k", 0, resume)
}

/// What waits to be written to the log.
fn flushed(s: &mut Session) -> Vec<LogMessage> {
    read_all(&s.flush().0).unwrap()
}

fn clear_and(text: &str) -> Vec<u8> {
    format!("\x1b[2J\x1b[H{text}").into_bytes()
}

#[test]
fn a_new_session() {
    let s = codex();
    assert_eq!(s.id.len(), 8);
    assert!(s.id.chars().all(|c| c.is_ascii_digit() || ('a'..='f').contains(&c)));
    assert_ne!(s.id, codex().id);
    assert_eq!((s.pid, s.master_fd), (42, 7));
    assert_eq!(s.state, SessionState::Working);
    assert_eq!((s.next_seq, s.next_block_id, s.read_cursor), (1, 1, 0));
    assert_eq!(s.exit_code, None);
    assert!(!s.is_opencode() && !s.is_kimi());
    assert!(s.has_room());
    let lines = s.screen_lines();
    assert_eq!(lines.len(), PTY_ROWS as usize);
    assert!(lines.iter().all(|line| line.is_empty()));
}

#[test]
fn new_sessions_of_other_kinds() {
    let s = kimi(Some("do it"), Some("session_1"));
    assert!(s.is_kimi());
    assert_eq!(s.kimi_session_id.as_deref(), Some("session_1"));
    assert!(s.awaiting_initial_prompt);
    assert_eq!(s.prompt, "do it");
    let s = kimi(None, None);
    assert_eq!(s.kimi_session_id, None);
    assert!(!s.awaiting_initial_prompt);
    assert_eq!(s.prompt, "");
    let s = Session::new_opencode("/bin/oc", "go", "/w", "/tmp/o", 9, Some("ses_1"), Some("p/m"));
    assert!(s.is_opencode());
    assert_eq!(s.backend, Backend::Opencode);
    assert_eq!(s.opencode_binary.as_deref(), Some("/bin/oc"));
    assert_eq!(s.opencode_session_id.as_deref(), Some("ses_1"));
    assert_eq!(s.model.as_deref(), Some("p/m"));
    assert_eq!(s.log_writer.next_offset(), 9);
    assert_eq!(prompt_shown(None), "");
    assert_eq!(prompt_shown(Some("x")), "x");
}

#[test]
fn what_is_told_of_a_session() {
    let s = codex();
    let info = s.info_json();
    assert_eq!(info.get("id"), Some(&Json::Str(s.id.clone())));
    assert_eq!(info.get("state"), Some(&Json::Str("working".into())));
    assert_eq!(info.get("cwd"), Some(&Json::Str("/work".into())));
    assert_eq!(info.get("prompt"), Some(&Json::Str("fix it".into())));
    assert_eq!(info.get("created_at"), Some(&Json::Str(s.created_at.clone())));
    let text = s.write_meta();
    assert!(text.starts_with("{\n  \""));
    let meta = parse_json(&text).unwrap();
    assert_eq!(meta.get("pid"), Some(&Json::Number(Number::Nat(42))));
    assert_eq!(meta.get("id"), Some(&Json::Str(s.id.clone())));
    assert_eq!(meta.get("state"), None);
}

#[test]
fn the_screen_shows_what_was_written() {
    let mut s = codex();
    s.on_pty_data_at(b"one  \r\n\r\n\r\n\r\n\r\ntwo", 0);
    let lines = s.screen_lines();
    assert_eq!(lines[0].trim_end(), "one");
    assert_eq!(lines[5], "two");
    assert_eq!(s.screen_lines_filtered(), vec!["one", "", "", "two"]);
    // How the output is cut makes no difference, even within a character.
    let mut cut = codex();
    for byte in "ä\r\nö".as_bytes() {
        cut.on_pty_data_at(&[*byte], 0);
    }
    assert_eq!(cut.screen_lines_filtered(), vec!["ä", "ö"]);
    // A long line wraps at the last column.
    let mut long = codex();
    long.on_pty_data_at("x".repeat(PTY_COLS as usize + 1).as_bytes(), 0);
    assert_eq!(long.screen_lines_filtered(), vec!["x".repeat(PTY_COLS as usize), "x".into()]);
}

#[test]
fn a_session_turns_idle_a_second_after_it_has_worked() {
    let mut s = codex();
    // Silence alone does not make it idle: it was not seen at work yet.
    s.on_pty_data_at(b"starting", 0);
    s.tick_at(10 * SECOND);
    assert_eq!(s.state, SessionState::Working);
    s.on_pty_data_at(&clear_and("(1s \u{2022} esc to interrupt)"), 11 * SECOND);
    assert!(s.has_seen_esc);
    s.on_pty_data_at(&clear_and("done"), 12 * SECOND);
    // The sign of work was last seen at the 11th second.
    assert_eq!(s.state, SessionState::Idle);
    let log = flushed(&mut s);
    let change = log.iter().find(|m| m.msg_type == "state_change").unwrap();
    assert_eq!(change.state_from.as_deref(), Some("working"));
    assert_eq!(change.state_to.as_deref(), Some("idle"));
    assert_eq!(change.text, "working → idle");
    // And it works again as soon as the sign is there.
    s.on_pty_data_at(&clear_and("esc to interrupt"), 13 * SECOND);
    assert_eq!(s.state, SessionState::Working);
    s.on_pty_data_at(&clear_and("done"), 13 * SECOND + 999 * MILLISECOND);
    assert_eq!(s.state, SessionState::Working);
    s.tick_at(14 * SECOND);
    assert_eq!(s.state, SessionState::Idle);
}

#[test]
fn a_question_is_logged_once() {
    let mut s = codex();
    let screen = "Question 1/2\r\nWhich?\r\n\r\n› 1. A   one\r\n  2. B\r\n\r\nenter to submit answer";
    s.on_pty_data_at(&clear_and(screen), 0);
    assert_eq!(s.state, SessionState::Prompting);
    s.on_pty_data_at(b"", 1);
    let log = flushed(&mut s);
    let types: Vec<&str> = log.iter().map(|m| m.msg_type.as_str()).collect();
    assert_eq!(types, vec!["state_change", "prompt"]);
    let info = log[1].prompt.as_ref().unwrap();
    assert_eq!((info.question_num, info.question_total, info.selected), (1, 2, 1));
    assert_eq!(info.question_text, "Which?");
    assert_eq!(info.options[0].description, "one");
}

#[test]
fn kimi_counts_any_output_as_work() {
    let mut s = kimi(None, None);
    s.on_pty_data_at(b"hello", 5 * SECOND);
    assert!(s.has_seen_esc);
    assert_eq!(s.last_esc_seen, 5 * SECOND);
    s.tick_at(6 * SECOND);
    assert_eq!(s.state, SessionState::Idle);
    // While the first prompt is still to be typed, the session does not turn idle.
    let mut s = kimi(Some("x"), None);
    s.on_pty_data_at(b"hello", 5 * SECOND);
    s.tick_at(60 * SECOND);
    assert_eq!(s.state, SessionState::Working);
    s.awaiting_initial_prompt = false;
    s.tick_at(61 * SECOND);
    assert_eq!(s.state, SessionState::Idle);
}

#[test]
fn stable_content_is_logged() {
    let mut s = codex();
    let screen = "› do it\r\n• Edited a.rs (+1 -0)\r\n    1 +x\r\nAll done\r\n? for shortcuts";
    s.on_pty_data_at(&clear_and(screen), 0);
    s.tick_at(299 * MILLISECOND);
    assert!(flushed(&mut s).is_empty());
    s.tick_at(300 * MILLISECOND);
    let log = flushed(&mut s);
    let seen: Vec<(&str, &str)> =
        log.iter().map(|m| (m.msg_type.as_str(), m.text.as_str())).collect();
    assert_eq!(
        seen,
        vec![
            ("block", "Edited a.rs (+1 -0)"),
            ("agent_output", "› do it"),
            ("agent_output", "All done"),
        ]
    );
    assert_eq!(log[0].block_id, Some(1));
    assert_eq!(log[0].block_lines, Some(1));
    assert_eq!((log[0].body_offset, log[0].body_len), (Some(0), Some(8)));
    assert_eq!(s.blocks.len(), 1);
    assert_eq!(s.blocks[0].header, "Edited a.rs (+1 -0)");
    // Nothing is logged twice.
    s.on_pty_data_at(b"", SECOND);
    s.tick_at(2 * SECOND);
    assert!(flushed(&mut s).iter().all(|m| m.msg_type == "state_change"));
}

#[test]
fn only_news_is_committed() {
    let mut s = codex();
    s.commit(vec!["one".into(), "two".into()]);
    s.commit(vec!["one".into(), "two".into()]);
    s.commit(vec!["one".into(), "2".into(), "".into(), "⠋ busy".into(), "Question 1/2".into()]);
    let log = flushed(&mut s);
    let seen: Vec<(&str, &str)> =
        log.iter().map(|m| (m.msg_type.as_str(), m.text.as_str())).collect();
    assert_eq!(
        seen,
        vec![
            ("agent_output", "one"),
            ("agent_output", "two"),
            ("agent_output", "2"),
            ("status", "⠋ busy"),
            ("status", "Question 1/2"),
        ]
    );
}

#[test]
fn messages_are_numbered_in_a_row() {
    let mut s = codex();
    s.commit(vec!["a".into(), "• Ran x".into(), "  y".into()]);
    s.log_status("b".into());
    s.log_change("idle", "working");
    s.mark_dead(Some(3));
    let numbers: Vec<u64> = flushed(&mut s).iter().map(|m| m.seq).collect();
    assert_eq!(numbers, vec![1, 2, 3, 4, 5]);
    assert_eq!(s.next_seq, 6);
    s.log_output("c".into());
    assert_eq!(flushed(&mut s)[0].seq, 6);
}

#[test]
fn bodies_follow_one_another() {
    let mut s = codex();
    s.log_block(1, "ran", "Ran a", &["x".to_string(), "y".to_string()]);
    let first = s.flush().1;
    s.log_block(2, "ran", "Ran b", &["zz".to_string()]);
    let second = s.flush().1;
    assert_eq!(first, b"x\ny");
    assert_eq!(second, b"zz");
    assert_eq!(s.blocks[1].body_offset, 3);
    assert_eq!(s.blocks[1].body_len, 2);
}

#[test]
fn no_place_for_a_body() {
    // Where bodies.bin can hold no more, the block is logged without a place.
    let mut s = Session::new(SpawnResult { pid: 1, master_fd: 1 }, "", "/", "/tmp/s", u64::MAX - 1);
    s.log_block(1, "ran", "Ran a", &["xyz".to_string()]);
    assert!(s.blocks.is_empty());
    let (text, bodies) = s.flush();
    assert!(bodies.is_empty());
    assert_eq!(read_all(&text).unwrap()[0].body_offset, None);
}

#[test]
fn a_dead_session() {
    let mut s = codex();
    s.mark_dead(None);
    assert_eq!(s.state, SessionState::Dead);
    assert_eq!(s.exit_code, None);
    let log = flushed(&mut s);
    assert_eq!(log[0].state_to.as_deref(), Some("dead"));
    s.mark_dead(Some(137));
    assert_eq!(s.exit_code, Some(137));
}

#[test]
fn numbers_run_out() {
    let mut s = codex();
    assert!(s.has_room());
    s.next_seq = u64::MAX - 3;
    assert!(s.has_room());
    s.next_seq = u64::MAX - 2;
    assert!(!s.has_room());
    let mut s = codex();
    s.on_pty_data_at(b"a\r\nb", 0);
    s.next_block_id = u64::MAX - 4;
    assert!(!s.has_room());
}

#[test]
fn the_session_has_a_clock() {
    let mut s = codex();
    s.on_pty_data(b"esc to interrupt");
    let before = s.last_esc_seen;
    let start = s.clock.now();
    while s.clock.now() < start + 2 * MILLISECOND {}
    s.tick();
    assert!(s.last_esc_seen > before);
    assert_eq!(s.state, SessionState::Working);
}

#[test]
fn state_names() {
    let all = [
        (SessionState::Working, "working"),
        (SessionState::Idle, "idle"),
        (SessionState::Prompting, "prompting"),
        (SessionState::PromptingNotes, "prompting_notes"),
        (SessionState::Dead, "dead"),
    ];
    for (state, name) in all {
        assert_eq!(state.to_string(), name);
        assert_eq!(SessionState::from_str_loose(name), Some(state));
        assert_eq!(SessionState::from_str_loose(&name.to_uppercase()), Some(state));
    }
    assert_eq!(SessionState::from_str_loose("busy"), None);
    assert_eq!(SessionState::from_str_loose(" idle"), None);
    // The Kelvin sign is a capital k.
    assert_eq!(SessionState::from_str_loose("wor\u{212a}ing"), Some(SessionState::Working));
}

#[test]
fn command_lines() {
    assert_eq!(
        codex_args("/bin/codex", Some("hi"), "/w", None),
        vec![
            "/bin/codex",
            "--dangerously-bypass-approvals-and-sandbox",
            "--no-alt-screen",
            "-C",
            "/w",
            "hi",
        ]
    );
    assert_eq!(
        codex_args("codex", None, "/w", Some("019c")),
        vec![
            "codex",
            "resume",
            "019c",
            "--dangerously-bypass-approvals-and-sandbox",
            "--no-alt-screen",
            "-C",
            "/w",
        ]
    );
    assert_eq!(kimi_args("kimi", None), vec!["kimi"]);
    assert_eq!(kimi_args("kimi", Some("session_1")), vec!["kimi", "-S", "session_1"]);
}

#[test]
fn messages_keep_the_times_they_were_logged_with() {
    let is_time = |ts: &str| ts.len() >= 25 && ts.ends_with("+00:00") && ts.contains('T');
    let mut s = codex();
    assert!(is_time(&s.created_at));
    s.log_status("a".into());
    s.log_output("b".into());
    s.log_change("working", "idle");
    s.log_block(1, "edited", "h", &["x".to_string()]);
    s.mark_dead(None);
    let messages = flushed(&mut s);
    assert!(messages.len() >= 5);
    assert!(messages.iter().all(|m| is_time(&m.ts)));
    assert!(messages.windows(2).all(|w| w[0].ts[..19] <= w[1].ts[..19]));
    let mut w = codex_ctl::log::LogWriter::new("/tmp/s", 0);
    let mut msg = LogMessage::status(1, "a".into());
    msg.ts = "then".into();
    w.append_message(msg);
    assert_eq!(read_all(&w.flush_all().0).unwrap()[0].ts, "then");
}

#[test]
fn a_session_is_named_after_a_uuid() {
    assert_eq!(session_id_of("019c8826-8134-7183-be06-6f93dd6dd5e5"), "019c8826");
    let id = new_session_id();
    assert_eq!(id.len(), 8);
    assert!(id.chars().all(|c| matches!(c, '0'..='9' | 'a'..='f')));
}
