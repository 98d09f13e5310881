//! States.
use codex_ctl::clock::{MILLISECOND, SECOND};
use codex_ctl::session::state::{detect_state, SessionState};

#[test]
fn test_detect_state_working() {
    let now: u64 = 10 * SECOND;
    let screen = vec![
        "• Designing runtime workspace resolution (1m 00s • esc to interrupt)".into(),
    ];
    let result = detect_state(&screen, now, now);
    assert_eq!(result.state, SessionState::Working);
}

#[test]
fn test_detect_state_idle() {
    let now: u64 = 10 * SECOND;
    let far_past = now - 5 * SECOND;
    let screen = vec!["Done. Waiting for input...".into()];
    let result = detect_state(&screen, far_past, now);
    assert_eq!(result.state, SessionState::Idle);
}

#[test]
fn test_detect_state_working_grace_period() {
    let now: u64 = 10 * SECOND;
    // esc was seen 200ms ago — still in grace period
    let recent = now - 200 * MILLISECOND;
    let screen = vec!["Some output without esc marker".into()];
    let result = detect_state(&screen, recent, now);
    assert_eq!(result.state, SessionState::Working);
}

#[test]
fn test_detect_state_prompting() {
    let now: u64 = 10 * SECOND;
    let far_past = now - 5 * SECOND;
    let screen = vec![
        "Question 1/3 (3 unanswered)".into(),
        "Choose a direction:".into(),
        "".into(),
        "› 1. Option A   Description A".into(),
        "  2. Option B   Description B".into(),
        "".into(),
        "tab to add notes | enter to submit answer | esc to interrupt".into(),
    ];
    let result = detect_state(&screen, far_past, now);
    assert_eq!(result.state, SessionState::Prompting);
}

#[test]
fn test_detect_state_prompting_notes() {
    let now: u64 = 10 * SECOND;
    let far_past = now - 5 * SECOND;
    let screen = vec![
        "Question 1/3 (3 unanswered)".into(),
        "...".into(),
        "› Here is note...".into(),
        "tab or esc to clear notes | enter to submit answer".into(),
    ];
    let result = detect_state(&screen, far_past, now);
    assert_eq!(result.state, SessionState::PromptingNotes);
}

#[test]
fn state_names_in_any_case() {
    for state in [
        SessionState::Working,
        SessionState::Idle,
        SessionState::Prompting,
        SessionState::PromptingNotes,
        SessionState::Dead,
    ] {
        let name = state.to_string();
        assert_eq!(SessionState::from_str_loose(&name), Some(state));
        assert_eq!(SessionState::from_str_loose(&name.to_uppercase()), Some(state));
    }
    for text in ["Idle", "WOR\u{212a}ING", "w\u{d6}rking", "\u{130}dle", "idle ", ""] {
        assert_eq!(
            SessionState::from_str_loose(text),
            SessionState::from_str_loose(&text.to_lowercase()),
            "{text}"
        );
    }
    assert_eq!(SessionState::from_str_loose("idle "), None);
}
