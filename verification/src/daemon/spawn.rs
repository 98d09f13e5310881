//! Starting sessions, and typing a first prompt into one.
use crate::clock::{passed, passed_since, MILLISECOND, SECOND};
use crate::json::{opt_str, Json, JsonModel};
use crate::log::record::is_time;
use crate::protocol::{err_json, err_model, law_what_a_refusal_says, Backend};
use crate::session::create::{display_prompt, prompt_shown, PTY_COLS, PTY_ROWS};
use crate::session::input::{bytes_between, push_step, step_views, KeyCode, Step, StepView};
use crate::session::pty::{codex_args, codex_line, kimi_args, kimi_line};
use crate::session::state::SessionState;
use crate::session::{Session, SessionView, SpawnResult};
use crate::text::{contains, texts};
use vstd::prelude::*;
use vstd::utf8::encode_utf8;

verus! {

// ---------------------------------------------------------------------------------------------
// New sessions

/// How a session is started.
#[derive(Debug)]
pub enum SpawnPlan {
    /// Answer that it cannot be.
    Refuse(Json),
    /// Run the command line, in which the program comes first, on a PTY.
    Pty(Vec<String>),
    /// Give the prompt to a run of opencode.
    Run(String),
}

/// How a session is started.
pub enum SpawnView {
    Refuse(JsonModel),
    Pty(Seq<Seq<char>>),
    Run(Seq<char>),
}

impl View for SpawnPlan {
    type V = SpawnView;

    open spec fn view(&self) -> SpawnView {
        match *self {
            SpawnPlan::Refuse(answer) => SpawnView::Refuse(answer@),
            SpawnPlan::Pty(line) => SpawnView::Pty(texts(line@)),
            SpawnPlan::Run(prompt) => SpawnView::Run(prompt@),
        }
    }
}

/// How a session is started: codex takes its prompt on the command line, kimi takes none there,
/// and opencode cannot do without one.
pub open spec fn spawn_for(
    backend: Backend,
    path: Seq<char>,
    prompt: Option<Seq<char>>,
    cwd: Seq<char>,
    resume: Option<Seq<char>>,
) -> SpawnView {
    match backend {
        Backend::Codex => SpawnView::Pty(codex_line(path, prompt, cwd, resume)),
        Backend::Kimi => SpawnView::Pty(kimi_line(path, resume)),
        Backend::Opencode => match prompt {
            Some(prompt) => SpawnView::Run(prompt),
            None => SpawnView::Refuse(err_model("Prompt is required for opencode spawn"@)),
        },
    }
}

/// How a session is started.
pub fn plan_spawn(
    backend: Backend,
    path: &str,
    prompt: Option<&str>,
    cwd: &str,
    resume: Option<&str>,
) -> (r: SpawnPlan)
    ensures
        r@ == spawn_for(backend, path@, opt_str(prompt), cwd@, opt_str(resume)),
{
    match backend {
        Backend::Codex => SpawnPlan::Pty(codex_args(path, prompt, cwd, resume)),
        Backend::Kimi => SpawnPlan::Pty(kimi_args(path, resume)),
        Backend::Opencode => match prompt {
            Some(prompt) => SpawnPlan::Run(prompt.to_owned()),
            None => SpawnPlan::Refuse(err_json("Prompt is required for opencode spawn")),
        },
    }
}

/// What was tried when an agent on a PTY could not be started.
pub fn spawn_trouble(backend: Backend) -> (r: &'static str)
    ensures
        r@ == match backend {
            Backend::Codex => "Failed to spawn codex"@,
            Backend::Kimi => "Failed to spawn kimi"@,
            Backend::Opencode => "Failed to spawn opencode"@,
        },
{
    match backend {
        Backend::Codex => "Failed to spawn codex",
        Backend::Kimi => "Failed to spawn kimi",
        Backend::Opencode => "Failed to spawn opencode",
    }
}

impl SessionView {
    /// A session on a PTY in which nothing has happened yet. One of kimi that is resumed has its
    /// name already, and one that has a prompt waits for it to be typed.
    pub open spec fn on_pty(
        backend: Backend,
        prompt: Option<Seq<char>>,
        dir: Seq<char>,
        bodies_len: u64,
        resume: Option<Seq<char>>,
    ) -> SessionView {
        let fresh = SessionView::fresh(backend, PTY_ROWS, PTY_COLS, dir, bodies_len);
        if backend == Backend::Kimi {
            SessionView { kimi_session_id: resume, awaiting: prompt is Some, ..fresh }
        } else {
            fresh
        }
    }
}

/// The session of an agent that was started on a PTY, under the name `id`.
pub fn pty_session(
    backend: Backend,
    spawned: SpawnResult,
    id: &str,
    prompt: Option<&str>,
    cwd: &str,
    session_dir: &str,
    bodies_len: u64,
    resume: Option<&str>,
) -> (r: Session)
    requires
        backend != Backend::Opencode,
    ensures
        r@ == SessionView::on_pty(
            backend,
            opt_str(prompt),
            session_dir@,
            bodies_len,
            opt_str(resume),
        ),
        r@.wf(),
        r.id@ == id@,
        is_time(r.created_at@),
        r.pid == spawned.pid,
        r.master_fd == spawned.master_fd,
        r.cwd@ == cwd@,
        r.prompt@ == display_prompt(opt_str(prompt)),
        r.gui_pid is None,
        r.opencode_binary is None,
        r.model is None,
{
    let mut session = match backend {
        Backend::Kimi => Session::new_kimi(spawned, prompt, cwd, session_dir, bodies_len, resume),
        _ => Session::new(spawned, prompt_shown(prompt), cwd, session_dir, bodies_len),
    };
    session.id = id.to_owned();
    session
}

// ---------------------------------------------------------------------------------------------
// A first prompt

/// For how long a prompt waits to be typed, how often it is looked whether it can be, and how
/// long the screen has to be silent for that, in nanoseconds.
pub const SETTLE_DEADLINE: u64 = 60 * SECOND;

pub const SETTLE_POLL: u64 = 200 * MILLISECOND;

pub const SETTLE_SILENCE: u64 = 3 * SECOND;

/// What to do about a prompt that waits to be typed.
#[derive(Debug, Clone, Copy, PartialEq, Eq, Structural)]
pub enum Settle {
    /// Look again later.
    Wait,
    /// Type it.
    Inject,
    /// The session is dead.
    Stop,
}

/// Whether it is too late to type a prompt that has waited since `start`.
pub fn settle_expired(start: u64, now: u64) -> (b: bool)
    ensures
        b == (passed(start, now) > SETTLE_DEADLINE),
{
    passed_since(start, now) > SETTLE_DEADLINE
}

/// What to do at `now` about a prompt that waits to be typed into a session: it is typed once
/// the session has shown something and was silent for long enough.
pub fn settle_step(session: &Session, now: u64) -> (r: Settle)
    ensures
        r == if session@.state == SessionState::Dead {
            Settle::Stop
        } else if session@.has_seen_esc && passed(session@.last_esc_seen, now) >= SETTLE_SILENCE {
            Settle::Inject
        } else {
            Settle::Wait
        },
{
    if session.state == SessionState::Dead {
        Settle::Stop
    } else if session.has_seen_esc && passed_since(session.last_esc_seen, now) >= SETTLE_SILENCE {
        Settle::Inject
    } else {
        Settle::Wait
    }
}

/// How long what was typed is left alone before Enter is sent, in milliseconds: Enter that races
/// ahead of the last characters is dropped.
pub const PASTE_PAUSE: u64 = 200;

/// How long an agent gets to start on a prompt that was submitted, in milliseconds.
pub const SUBMIT_PAUSE: u64 = 2000;

/// What is done to a PTY to submit a prompt: it is typed as a whole, and Enter is sent.
pub open spec fn submission(prompt: Seq<char>) -> Seq<StepView> {
    seq![
        StepView::Write(encode_utf8(prompt)),
        StepView::Sleep(PASTE_PAUSE),
        StepView::Write(seq![0x0du8]),
        StepView::Sleep(SUBMIT_PAUSE),
    ]
}

/// What is done to a PTY to submit a prompt.
pub fn submit_prompt(prompt: &str) -> (r: Vec<Step>)
    ensures
        step_views(r@) == submission(prompt@),
{
    let bytes = prompt.as_bytes();
    let typed = bytes_between(bytes, 0, bytes.len());
    let mut enter: Vec<u8> = Vec::new();
    enter.push(0x0d);
    let mut steps: Vec<Step> = Vec::new();
    proof {
        assert(typed@ =~= bytes@);
        assert(enter@ =~= seq![0x0du8]);
    }
    push_step(&mut steps, Step::Write(typed));
    push_step(&mut steps, Step::Sleep(PASTE_PAUSE));
    push_step(&mut steps, Step::Write(enter));
    push_step(&mut steps, Step::Sleep(SUBMIT_PAUSE));
    proof {
        assert(step_views(steps@) =~= submission(prompt@));
    }
    steps
}

impl SessionView {
    /// After the first prompt was typed.
    pub open spec fn prompt_typed(self) -> SessionView {
        SessionView { awaiting: false, ..self }
    }
}

impl Session {
    /// Takes note that the first prompt was typed: from now on the session can turn idle.
    pub fn prompt_typed(&mut self)
        ensures
            final(self)@ == (SessionView { awaiting: false, ..old(self)@ }),
            final(self)@ == old(self)@.prompt_typed(),
            final(self).runs_on(*old(self)),
    {
        self.awaiting_initial_prompt = false;
    }
}

// ---------------------------------------------------------------------------------------------
// Laws

/// A session that is started with a prompt to be typed does not turn idle before it was,
/// whatever its screen shows and however long that takes.
pub proof fn law_not_idle_before_the_first_prompt(
    prompt: Seq<char>,
    dir: Seq<char>,
    bodies_len: u64,
    resume: Option<Seq<char>>,
    lines: Seq<Seq<char>>,
    active: bool,
    now: u64,
)
    ensures
        SessionView::on_pty(Backend::Kimi, Some(prompt), dir, bodies_len, resume).observe(
            lines,
            active,
            now,
        ).state != SessionState::Idle,
{
    let s = SessionView::on_pty(Backend::Kimi, Some(prompt), dir, bodies_len, resume);
    crate::session::watch::law_no_idle_before_work(s, lines, active, now);
}

/// What is started for each agent. Codex gets its prompt on its command line. Kimi does not: it
/// is typed later. Opencode is run with the prompt, and without one refused.
pub proof fn law_what_is_started(
    backend: Backend,
    path: &str,
    prompt: Option<&str>,
    cwd: &str,
    resume: Option<&str>,
    r: SpawnPlan,
)
    requires
        call_ensures(plan_spawn, (backend, path, prompt, cwd, resume), r),
    ensures
        backend == Backend::Codex ==> r is Pty && texts(r->Pty_0@) == codex_line(
            path@,
            opt_str(prompt),
            cwd@,
            opt_str(resume),
        ),
        backend == Backend::Kimi ==> r is Pty && texts(r->Pty_0@) == kimi_line(
            path@,
            opt_str(resume),
        ),
        backend == Backend::Opencode && prompt is Some ==> r is Run && r->Run_0@ == prompt->0@,
        backend == Backend::Opencode && prompt is None ==> r is Refuse && r->Refuse_0@.get("ok"@)
            == Some(JsonModel::Bool(false)) && r->Refuse_0@.get("error"@) == Some(
            JsonModel::Str("Prompt is required for opencode spawn"@),
        ),
{
    law_what_a_refusal_says("Prompt is required for opencode spawn"@);
}

/// When a first prompt is typed: not into a dead session, and not before the screen was seen and
/// then silent for three seconds. The wait for that is over after more than sixty.
pub proof fn law_when_a_first_prompt_is_typed(
    session: &Session,
    start: u64,
    now: u64,
    step: Settle,
    over: bool,
)
    requires
        call_ensures(settle_step, (session, now), step),
        call_ensures(settle_expired, (start, now), over),
    ensures
        step == Settle::Stop <==> session.state == SessionState::Dead,
        step == Settle::Inject <==> session.state != SessionState::Dead && session.has_seen_esc
            && now - session.last_esc_seen >= 3_000_000_000,
        over <==> now - start > 60_000_000_000,
{
}

/// A prompt is pasted whole, and a while after it comes one Enter.
pub proof fn law_a_prompt_is_pasted_and_entered(prompt: Seq<char>)
    ensures
        submission(prompt).len() == 4,
        submission(prompt)[0] == StepView::Write(encode_utf8(prompt)),
        submission(prompt)[1] == StepView::Sleep(200),
        submission(prompt)[2] == StepView::Write(KeyCode::Enter.bytes()),
        submission(prompt)[3] == StepView::Sleep(2000),
{
    assert(seq![0x0du8] =~= KeyCode::Enter.bytes());
}

/// A session on a screen begins like any other. Of kimi it knows the name of a session that is
/// resumed, and waits for a prompt that has to be typed.
pub proof fn law_a_session_on_a_screen(
    backend: Backend,
    prompt: Option<Seq<char>>,
    dir: Seq<char>,
    bodies_len: u64,
    resume: Option<Seq<char>>,
)
    ensures
        ({
            let s = SessionView::on_pty(backend, prompt, dir, bodies_len, resume);
            &&& s.backend == backend
            &&& s.rows == 500 && s.cols == 200
            &&& s.state == SessionState::Working
            &&& s.awaiting <==> backend == Backend::Kimi && prompt is Some
            &&& backend == Backend::Kimi ==> s.kimi_session_id == resume
            &&& backend != Backend::Kimi ==> s.kimi_session_id is None
            &&& s.codex_session_id is None && s.opencode_session_id is None
        }),
{
}

/// What is said where an agent cannot be started names the agent.
pub proof fn law_trouble_names_the_agent(backend: Backend, r: &'static str)
    requires
        call_ensures(spawn_trouble, (backend,), r),
    ensures
        r@ == "Failed to spawn "@ + backend.name(),
{
    reveal_strlit("Failed to spawn ");
    reveal_strlit("Failed to spawn codex");
    reveal_strlit("Failed to spawn kimi");
    reveal_strlit("Failed to spawn opencode");
    reveal_strlit("codex");
    reveal_strlit("kimi");
    reveal_strlit("opencode");
    assert("Failed to spawn codex"@ =~= "Failed to spawn "@ + "codex"@);
    assert("Failed to spawn kimi"@ =~= "Failed to spawn "@ + "kimi"@);
    assert("Failed to spawn opencode"@ =~= "Failed to spawn "@ + "opencode"@);
}

/// Once its first prompt was typed a session can turn idle, and nothing else about it changes.
pub proof fn law_idle_after_the_first_prompt(s: SessionView, lines: Seq<Seq<char>>, now: u64)
    requires
        s.has_seen_esc,
        now - s.last_esc_seen >= 1_000_000_000,
        forall|i: int|
            0 <= i < lines.len() ==> !contains(#[trigger] lines[i], "esc to interrupt"@)
                && !contains(lines[i], "Question "@),
    ensures
        s.prompt_typed().observe(lines, false, now).state == SessionState::Idle,
        s.prompt_typed() == (SessionView { awaiting: s.prompt_typed().awaiting, ..s }),
{
}

/// For how long things are waited for, in nanoseconds, and how large a screen is.
pub proof fn law_how_long_is_waited()
    ensures
        SETTLE_DEADLINE == 60_000_000_000,
        SETTLE_POLL == 200_000_000,
        SETTLE_SILENCE == 3_000_000_000,
        crate::daemon::act::QUEUE_LIMIT == 300_000_000_000,
        crate::daemon::opencode_server::STARTUP_TIMEOUT == 10_000,
        PTY_ROWS == 500,
        PTY_COLS == 200,
{
}

} // verus!
