//! Waiting for a session to reach a state.
use crate::session::state::SessionState;
use vstd::prelude::*;

verus! {

/// How a wait ended. The time waited is in nanoseconds.
#[derive(Debug, Clone, Copy, PartialEq, Eq, Structural)]
pub struct WaitResult {
    pub state: SessionState,
    pub waited: bool,
    pub waited_nanos: u64,
    pub timed_out: bool,
}

/// What a wait does next: it ends, or it goes on until the state changes, for at most the given
/// number of nanoseconds where there is a limit.
#[derive(Debug, Clone, Copy, PartialEq, Eq, Structural)]
pub enum WaitStep {
    Done(WaitResult),
    Sleep(Option<u64>),
}

/// What ended a sleep: the state changed, nobody can change it any more, or the time was up.
#[derive(Debug, Clone, Copy, PartialEq, Eq, Structural)]
pub enum Woken {
    Changed,
    Closed,
    TimedOut,
}

/// Whether a wait for one of `targets` ends in that state. Being dead ends every wait.
pub open spec fn ends_wait(targets: Seq<SessionState>, state: SessionState) -> bool {
    targets.contains(state) || state == SessionState::Dead
}

/// A wait that has ended after `elapsed` nanoseconds.
pub open spec fn ended(state: SessionState, elapsed: u64, timed_out: bool) -> WaitResult {
    WaitResult { state, waited: true, waited_nanos: elapsed, timed_out }
}

/// What a wait does in that state after `elapsed` nanoseconds.
pub open spec fn wait_step(
    state: SessionState,
    targets: Seq<SessionState>,
    timeout: Option<u64>,
    elapsed: u64,
) -> WaitStep {
    if ends_wait(targets, state) {
        WaitStep::Done(ended(state, elapsed, false))
    } else {
        match timeout {
            Some(limit) => if elapsed >= limit {
                WaitStep::Done(ended(state, elapsed, true))
            } else {
                WaitStep::Sleep(Some((limit - elapsed) as u64))
            },
            None => WaitStep::Sleep(None),
        }
    }
}

/// What comes of a sleep after `elapsed` nanoseconds in all: after a change the wait looks at
/// the state again, a session that nobody can change is dead, and after the time is up the wait
/// ends in whatever state there is.
pub open spec fn after_sleep(woken: Woken, state: SessionState, elapsed: u64) -> Option<
    WaitResult,
> {
    match woken {
        Woken::Changed => None,
        Woken::Closed => Some(ended(SessionState::Dead, elapsed, false)),
        Woken::TimedOut => Some(ended(state, elapsed, true)),
    }
}

/// Whether `state` is one of `targets`.
fn is_target(targets: &[SessionState], state: SessionState) -> (b: bool)
    ensures
        b == targets@.contains(state),
{
    let mut i: usize = 0;
    while i < targets.len()
        invariant
            i <= targets@.len(),
            forall|j: int| 0 <= j < i ==> targets@[j] != state,
        decreases targets@.len() - i,
    {
        if targets[i] == state {
            return true;
        }
        i = i + 1;
    }
    false
}

/// What a wait for one of the target states does next, in state `current` and after `elapsed`
/// nanoseconds. If timeout is None, waits indefinitely.
/// Dead is always treated as a terminal state.
pub fn next_wait_step(
    current: SessionState,
    target_states: &[SessionState],
    timeout: Option<u64>,
    elapsed: u64,
) -> (r: WaitStep)
    ensures
        r == wait_step(current, target_states@, timeout, elapsed),
{
    if is_target(target_states, current) || current == SessionState::Dead {
        return WaitStep::Done(
            WaitResult {
                state: current,
                waited: true,
                waited_nanos: elapsed,
                timed_out: false,
            },
        );
    }
    match timeout {
        Some(limit) => {
            if elapsed >= limit {
                return WaitStep::Done(
                    WaitResult {
                        state: current,
                        waited: true,
                        waited_nanos: elapsed,
                        timed_out: true,
                    },
                );
            }
            WaitStep::Sleep(Some(limit - elapsed))
        },
        None => WaitStep::Sleep(None),
    }
}

/// What comes of a sleep after `elapsed` nanoseconds in all. `None` says to look again.
pub fn wake_up(woken: Woken, current: SessionState, elapsed: u64) -> (r: Option<WaitResult>)
    ensures
        r == after_sleep(woken, current, elapsed),
{
    match woken {
        Woken::Changed => None,
        Woken::Closed => Some(
            WaitResult {
                state: SessionState::Dead,
                waited: true,
                waited_nanos: elapsed,
                timed_out: false,
            },
        ),
        Woken::TimedOut => Some(
            WaitResult { state: current, waited: true, waited_nanos: elapsed, timed_out: true },
        ),
    }
}

// ---------------------------------------------------------------------------------------------
// Laws

/// A dead session ends every wait at once, whatever was waited for.
pub proof fn law_dead_is_terminal(targets: Seq<SessionState>, timeout: Option<u64>, elapsed: u64)
    ensures
        wait_step(SessionState::Dead, targets, timeout, elapsed) == WaitStep::Done(
            ended(SessionState::Dead, elapsed, false),
        ),
{
}

/// A wait ends without having timed out only in a state that ends it, and it never sleeps past
/// its limit.
pub proof fn law_wait_is_honest(
    state: SessionState,
    targets: Seq<SessionState>,
    timeout: Option<u64>,
    elapsed: u64,
)
    ensures
        match wait_step(state, targets, timeout, elapsed) {
            WaitStep::Done(result) => {
                &&& result.state == state
                &&& result.timed_out == !ends_wait(targets, state)
                &&& result.timed_out ==> timeout is Some && elapsed >= timeout->0
            },
            WaitStep::Sleep(limit) => {
                &&& !ends_wait(targets, state)
                &&& limit is Some == timeout is Some
                &&& limit is Some ==> limit->0 > 0 && elapsed + limit->0 == timeout->0
            },
        },
{
}

/// When a wait ends: in a state that it is for, in death, and when its time is over, and not
/// before. It tells the state that the session is in and how long it took, and that it timed out
/// only where it waited in vain. A wait without a time limit never times out.
pub proof fn law_when_a_wait_ends(
    state: SessionState,
    targets: Seq<SessionState>,
    timeout: Option<u64>,
    elapsed: u64,
)
    ensures
        ({
            let met = state == SessionState::Dead || exists|i: int|
                0 <= i < targets.len() && #[trigger] targets[i] == state;
            let late = timeout is Some && elapsed >= timeout->0;
            &&& wait_step(state, targets, timeout, elapsed) is Done <==> met || late
            &&& wait_step(state, targets, timeout, elapsed) matches WaitStep::Done(result) ==> {
                &&& result.state == state
                &&& result.waited
                &&& result.waited_nanos == elapsed
                &&& result.timed_out <==> !met
            }
            &&& wait_step(state, targets, timeout, elapsed) matches WaitStep::Sleep(
                limit,
            ) ==> match (limit, timeout) {
                (Some(rest), Some(all)) => elapsed + rest == all,
                (None, None) => true,
                _ => false,
            }
        }),
{
    if targets.contains(state) {
        let i = targets.index_of(state);
        assert(targets[i] == state);
    }
}

/// What ends a sleep: a change does not end the wait by itself; where the session is gone it is
/// dead; and where the time is over the wait has timed out in the state that the session is in.
pub proof fn law_what_ends_a_sleep(state: SessionState, elapsed: u64)
    ensures
        after_sleep(Woken::Changed, state, elapsed) is None,
        after_sleep(Woken::Closed, state, elapsed) matches Some(result) && result.state
            == SessionState::Dead && !result.timed_out && result.waited && result.waited_nanos
            == elapsed,
        after_sleep(Woken::TimedOut, state, elapsed) matches Some(result) && result.state == state
            && result.timed_out && result.waited && result.waited_nanos == elapsed,
{
}

} // verus!
