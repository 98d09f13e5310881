//! The log as text.
use codex_ctl::log::formatter::{format_footer, format_messages};
use codex_ctl::json::{Json, Number};
use codex_ctl::log::LogMessage;

#[test]
fn test_format_agent_output() {
    let messages = vec![LogMessage::agent_output(1, "Hello world".into())];
    let lines = format_messages(&messages);
    assert_eq!(lines, vec!["Hello world"]);
}

#[test]
fn test_format_block() {
    let messages = vec![LogMessage::block(
        1,
        "Edited file.rs (+2 -1)",
        1,
        "edited",
        5,
    )];
    let lines = format_messages(&messages);
    assert_eq!(lines, vec!["### Edited file.rs (+2 -1)"]);
}

#[test]
fn test_format_state_change() {
    let messages = vec![LogMessage::state_change(1, "working", "idle")];
    let lines = format_messages(&messages);
    assert_eq!(lines, vec!["[state: working → idle]"]);
}

#[test]
fn test_format_footer_basic() {
    let footer = format_footer("idle", 42, false, None, None);
    assert_eq!(footer.get("state"), Some(&Json::Str("idle".into())));
    assert_eq!(footer.get("seq"), Some(&Json::Number(Number::Nat(42))));
}

#[test]
fn test_format_footer_with_wait() {
    let footer = format_footer("idle", 42, true, Some(Number::Real("12.3".into())), Some(false));
    assert_eq!(footer.get("waited"), Some(&Json::Bool(true)));
    assert_eq!(footer.get("waited_sec"), Some(&Json::Number(Number::Real("12.3".into()))));
    assert_eq!(footer.get("timed_out"), Some(&Json::Bool(false)));
}
