//! Waiting for states.
use codex_ctl::clock::{MILLISECOND, SECOND};
use codex_ctl::session::state::SessionState;
use codex_ctl::session::wait::{next_wait_step, wake_up, WaitResult, WaitStep, Woken};

/// Runs a wait against states that are shown one after the other, a while apart. After the last
/// one nothing changes any more.
fn run(states: &[SessionState], every: u64, targets: &[SessionState], timeout: Option<u64>) -> WaitResult {
    let mut now: u64 = 0;
    let mut i: usize = 0;
    loop {
        match next_wait_step(states[i], targets, timeout, now) {
            WaitStep::Done(result) => return result,
            WaitStep::Sleep(limit) => {
                let change = if i + 1 < states.len() { Some(every) } else { None };
                let woken = match (change, limit) {
                    (Some(after), Some(limit)) if after > limit => {
                        now += limit;
                        Woken::TimedOut
                    }
                    (Some(after), _) => {
                        now += after;
                        i += 1;
                        Woken::Changed
                    }
                    (None, Some(limit)) => {
                        now += limit;
                        Woken::TimedOut
                    }
                    (None, None) => Woken::Closed,
                };
                if let Some(result) = wake_up(woken, states[i], now) {
                    return result;
                }
            }
        }
    }
}

#[test]
fn test_wait_immediate_match() {
    let result = run(&[SessionState::Idle], 0, &[SessionState::Idle], Some(SECOND));
    assert_eq!(result.state, SessionState::Idle);
    assert!(!result.timed_out);
    assert!(result.waited);
    assert_eq!(result.waited_nanos, 0);
}

#[test]
fn test_wait_timeout() {
    let result = run(
        &[SessionState::Working],
        0,
        &[SessionState::Idle],
        Some(100 * MILLISECOND),
    );
    assert!(result.timed_out);
    assert_eq!(result.state, SessionState::Working);
    assert_eq!(result.waited_nanos, 100 * MILLISECOND);
}

#[test]
fn test_wait_state_change() {
    let result = run(
        &[SessionState::Working, SessionState::Idle],
        50 * MILLISECOND,
        &[SessionState::Idle],
        Some(2 * SECOND),
    );
    assert_eq!(result.state, SessionState::Idle);
    assert!(!result.timed_out);
    assert_eq!(result.waited_nanos, 50 * MILLISECOND);
}

#[test]
fn test_wait_dead_always_terminal() {
    // Waiting for Idle, but Dead should also return
    let result = run(
        &[SessionState::Working, SessionState::Dead],
        50 * MILLISECOND,
        &[SessionState::Idle],
        Some(2 * SECOND),
    );
    assert_eq!(result.state, SessionState::Dead);
    assert!(!result.timed_out);
}

#[test]
fn wait_without_limit_ends_when_nobody_can_change_the_state() {
    let result = run(&[SessionState::Working], 0, &[SessionState::Idle], None);
    assert_eq!(result.state, SessionState::Dead);
    assert!(!result.timed_out);
}

#[test]
fn wait_sleeps_for_what_is_left() {
    assert_eq!(
        next_wait_step(SessionState::Working, &[SessionState::Idle], Some(10), 4),
        WaitStep::Sleep(Some(6))
    );
    assert_eq!(
        next_wait_step(SessionState::Working, &[], None, 4),
        WaitStep::Sleep(None)
    );
    assert_eq!(wake_up(Woken::Changed, SessionState::Working, 1), None);
}

#[test]
fn a_limit_that_is_over() {
    let step = next_wait_step(SessionState::Working, &[SessionState::Idle], Some(SECOND), SECOND);
    match step {
        WaitStep::Done(result) => {
            assert!(result.timed_out && result.waited);
            assert_eq!(result.state, SessionState::Working);
            assert_eq!(result.waited_nanos, SECOND);
        }
        WaitStep::Sleep(_) => panic!("the limit is over"),
    }
    // A state that is waited for counts even after the limit.
    let step = next_wait_step(SessionState::Idle, &[SessionState::Idle], Some(SECOND), SECOND);
    assert!(matches!(step, WaitStep::Done(result) if !result.timed_out));
}
