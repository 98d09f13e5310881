//! The window that shows a session.
use codex_ctl::gui::attach::{
    attach_line, eof_line, output_line, replay_line, shown, AttachStep,
};
use codex_ctl::gui::{find_terminal, terminal_candidates, window_args};
use codex_ctl::session::{Session, SpawnResult};

#[test]
fn terminals_are_found_in_order() {
    assert_eq!(
        terminal_candidates(),
        vec!["foot", "alacritty", "kitty", "xterm", "x-terminal-emulator"]
    );
    let none = [false; 5];
    let found = |own: Option<&str>, common: Option<&str>, installed: &[bool]| {
        find_terminal(own, common, installed)
    };
    let pair = |term: &str, flag: &str| Some((term.to_string(), flag.to_string()));
    assert_eq!(found(Some("a"), Some("b"), &none), pair("a", "-e"));
    assert_eq!(found(None, Some("b"), &none), pair("b", "-e"));
    assert_eq!(found(None, None, &[false, false, true, true, false]), pair("kitty", "--"));
    assert_eq!(found(None, None, &[false, true, true, true, false]), pair("alacritty", "-e"));
    assert_eq!(found(None, None, &none), None);
    assert_eq!(window_args("-e", "/bin/ctl", "a1"), vec!["-e", "/bin/ctl", "_gui-attach", "a1"]);
}

#[test]
fn output_reaches_the_window() {
    let bytes: Vec<u8> = (0u8..=255).collect();
    let line = output_line(&bytes);
    assert!(!line.contains('\n'));
    assert_eq!(attach_line(&format!("{line}\n")), AttachStep::Show(bytes));
    assert_eq!(output_line(b"hi"), r#"{"data":"aGk=","type":"data"}"#);
    assert_eq!(eof_line(), r#"{"type":"eof"}"#);
    assert_eq!(attach_line(&eof_line()), AttachStep::Close);
}

#[test]
fn a_replay_draws_the_screen() {
    let spawned = SpawnResult { pid: 1, master_fd: 1 };
    let mut s = Session::new(spawned, "", "/", "/tmp/s", 0);
    s.on_pty_data_at("one\r\n\x1b[1mtwo\x1b[0m ü".as_bytes(), 0);
    let bytes = match attach_line(&replay_line(&s)) {
        AttachStep::Show(bytes) => bytes,
        other => panic!("{:?}", other),
    };
    let mut copy = Session::new(spawned, "", "/", "/tmp/s", 0);
    copy.on_pty_data_at(&bytes, 0);
    assert_eq!(copy.screen_lines(), s.screen_lines());
}

#[test]
fn lines_that_show_nothing() {
    assert_eq!(attach_line("  \n"), AttachStep::Skip);
    assert_eq!(attach_line("oops"), AttachStep::Fail);
    assert_eq!(attach_line(r#"{"type":"data"}"#), AttachStep::Skip);
    assert_eq!(attach_line(r#"{"type":"data","data":"!"}"#), AttachStep::Fail);
    assert_eq!(attach_line(r#"{"type":"data","data":"aGk"}"#), AttachStep::Fail);
    assert_eq!(attach_line(r#"{"type":"replay","data":""}"#), AttachStep::Show(vec![]));
    assert_eq!(attach_line(r#"{"type":"news"}"#), AttachStep::Skip);
    assert_eq!(attach_line("{}"), AttachStep::Skip);
}

#[test]
fn data_that_were_read_are_shown() {
    assert_eq!(shown(Some(b"hi".to_vec())), AttachStep::Show(b"hi".to_vec()));
    assert_eq!(shown(None), AttachStep::Fail);
}
