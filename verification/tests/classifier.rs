//! Types of lines.
use codex_ctl::parser::classifier::{classify_line, MsgType};

#[test]
fn test_classify_status_timer() {
    let line = "• Designing runtime (1m 00s • esc to interrupt)";
    assert_eq!(classify_line(line), MsgType::Status);
}

#[test]
fn test_classify_agent_output() {
    let line = "I'll analyze the codebase structure";
    assert_eq!(classify_line(line), MsgType::AgentOutput);
}

#[test]
fn test_classify_empty() {
    assert_eq!(classify_line(""), MsgType::Raw);
    assert_eq!(classify_line("   "), MsgType::Raw);
}

#[test]
fn test_classify_question() {
    let line = "Question 1/3 (3 unanswered)";
    assert_eq!(classify_line(line), MsgType::Prompt);
}

#[test]
fn spinners_and_timers() {
    assert_eq!(classify_line("⠋ thinking"), MsgType::Status);
    assert_eq!(classify_line("10m  5s and esc to interrupt"), MsgType::Status);
    assert_eq!(classify_line("took 10m 5s"), MsgType::AgentOutput);
    assert_eq!(classify_line("  Question 1"), MsgType::Prompt);
    assert_eq!(MsgType::StateChange.as_str(), "state_change");
    assert_eq!(MsgType::Raw.as_str(), "raw");
}
