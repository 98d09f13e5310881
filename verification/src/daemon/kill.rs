//! Ending a session, and learning under which name the agent can resume it.
use crate::json::{
    items, json_opt_text, json_text, opt_text, put, text_or_null, Json, JsonModel,
};
use crate::pattern::{
    all_captures, all_texts, captures_of, find_all, group, group_text, match_texts, Found, Groups,
};
use crate::protocol::{ok_members, ok_model, Backend};
use crate::session::state::SessionState;
use crate::session::{lemma_renamed_wf, Session, SessionView};
use crate::text::{starts_with, str_starts_with, texts};
use vstd::prelude::*;

verus! {

// ---------------------------------------------------------------------------------------------
// Names of sessions

/// How codex says under which name a session can be resumed.
pub const CODEX_RESUME: &'static str =
    "codex resume ([0-9a-f]{8}-[0-9a-f]{4}-[0-9a-f]{4}-[0-9a-f]{4}-[0-9a-f]{12})";

/// The name in the first line from `i` on in which the pattern finds one.
pub open spec fn id_in(found: Seq<Groups>, i: int) -> Option<Seq<char>>
    decreases found.len() - i,
{
    if i >= found.len() {
        None
    } else {
        match group(found[i], 1) {
            Some(id) => Some(id),
            None => id_in(found, i + 1),
        }
    }
}

/// The name under which codex says that the session can be resumed.
pub open spec fn codex_id(lines: Seq<Seq<char>>) -> Option<Seq<char>> {
    id_in(all_captures(CODEX_RESUME@, lines), 0)
}

/// The name in the first line in which the pattern has found one.
pub fn id_from(found: &[Found]) -> (r: Option<String>)
    ensures
        opt_text(r) == id_in(all_texts(found@), 0),
{
    let mut i: usize = 0;
    while i < found.len()
        invariant
            i <= found@.len(),
            id_in(all_texts(found@), 0) == id_in(all_texts(found@), i as int),
        decreases found@.len() - i,
    {
        proof {
            assert(all_texts(found@)[i as int] == match_texts(found@[i as int]));
        }
        if let Some(id) = group_text(&found[i], 1) {
            return Some(id.clone());
        }
        i = i + 1;
    }
    None
}

/// Scan screen lines for codex session UUID in "codex resume <UUID>" pattern.
pub fn scan_for_codex_session_id(lines: &[String]) -> (r: Option<String>)
    ensures
        opt_text(r) == codex_id(texts(lines@)),
{
    let found = find_all(CODEX_RESUME, lines);
    id_from(found.as_slice())
}

impl SessionView {
    /// After the screen was scanned for the name of a codex session, if that is not known yet.
    pub open spec fn capture_codex_id(self) -> SessionView {
        SessionView {
            codex_session_id: match self.codex_session_id {
                Some(id) => Some(id),
                None => codex_id(self.screen()),
            },
            ..self
        }
    }

    /// Whether the name of a kimi session is to be looked for on disk.
    pub open spec fn lacks_kimi_id(self) -> bool {
        self.backend == Backend::Kimi && self.kimi_session_id is None
    }

    /// After the name of a kimi session was looked for on disk, if that is not known yet.
    pub open spec fn capture_kimi_id(self, on_disk: Option<Seq<char>>) -> SessionView {
        if self.lacks_kimi_id() {
            SessionView { kimi_session_id: on_disk, ..self }
        } else {
            self
        }
    }
}

impl Session {
    /// Scans the screen for the name of a codex session, if that is not known yet.
    pub fn capture_codex_id(&mut self)
        ensures
            final(self)@ == old(self)@.capture_codex_id(),
            final(self).runs_on(*old(self)),
    {
        if self.codex_session_id.is_none() {
            let lines = self.screen_lines();
            let id = scan_for_codex_session_id(lines.as_slice());
            if id.is_some() {
                self.codex_session_id = id;
            }
        }
    }

    /// Whether the name of a kimi session is to be looked for on disk.
    pub fn lacks_kimi_id(&self) -> (b: bool)
        ensures
            b == self@.lacks_kimi_id(),
    {
        self.backend == Backend::Kimi && self.kimi_session_id.is_none()
    }

    /// Takes over the name of a kimi session that was found on disk, if that is not known yet.
    pub fn capture_kimi_id(&mut self, on_disk: Option<String>)
        ensures
            final(self)@ == old(self)@.capture_kimi_id(opt_text(on_disk)),
            final(self).runs_on(*old(self)),
    {
        if self.lacks_kimi_id() {
            self.kimi_session_id = on_disk;
        }
    }
}

/// A directory in which kimi may keep a session: the directory above it, its name, and when it
/// was changed last, in nanoseconds since 1970.
#[derive(Debug, Clone)]
pub struct KimiDir {
    pub parent: String,
    pub name: String,
    pub modified: i128,
}

/// Whether a directory holds a session that was changed at `cutoff` or later.
pub open spec fn is_candidate(dir: KimiDir, cutoff: i128) -> bool {
    &&& starts_with(dir.parent@, "wd_"@)
    &&& starts_with(dir.name@, "session_"@)
    &&& dir.modified >= cutoff
}

/// Whether `i` is the directory of the newest session: none was changed after it, and none
/// before it in the list was changed at the same time.
pub open spec fn is_newest(dirs: Seq<KimiDir>, cutoff: i128, i: int) -> bool {
    &&& 0 <= i < dirs.len()
    &&& is_candidate(dirs[i], cutoff)
    &&& forall|j: int|
        0 <= j < dirs.len() && is_candidate(#[trigger] dirs[j], cutoff) ==> dirs[j].modified
            < dirs[i].modified || (dirs[j].modified == dirs[i].modified && i <= j)
}

/// The second since the start of 1970 that a time in the form of RFC 3339 falls in, where the
/// text is such a time, as `chrono::DateTime::parse_from_rfc3339` reads it.
pub uninterp spec fn second_named(text: Seq<char>) -> Option<i64>;

/// `chrono::DateTime::parse_from_rfc3339`, and the second that its result falls in. Both depend
/// on the text alone: the offset is in it.
#[verifier::external_body]
fn second_in(text: &str) -> (r: Option<i64>)
    ensures
        r == second_named(text@),
{
    Some(chrono::DateTime::parse_from_rfc3339(text).ok()?.timestamp())
}

/// The start of a second, in nanoseconds since the start of 1970, and not before that.
pub open spec fn start_of(second: i64) -> int {
    if second < 0 {
        0
    } else {
        second * 1_000_000_000
    }
}

/// From when on a directory can be that of a session that was created in that second.
pub fn cutoff_at(second: i64) -> (r: i128)
    ensures
        r == start_of(second),
{
    if second < 0 {
        0
    } else {
        second as i128 * 1_000_000_000
    }
}

/// From when on a directory can be that of a session that was created then, where the text is
/// a time.
pub fn kimi_cutoff(created_at: &str) -> (r: Option<i128>)
    ensures
        match second_named(created_at@) {
            Some(second) => r is Some && r->0 == start_of(second),
            None => r is None,
        },
{
    match second_in(created_at) {
        Some(second) => Some(cutoff_at(second)),
        None => None,
    }
}

/// Whether no directory holds a session that was changed at `cutoff` or later.
pub open spec fn no_candidate(dirs: Seq<KimiDir>, cutoff: i128) -> bool {
    forall|i: int| 0 <= i < dirs.len() ==> !is_candidate(#[trigger] dirs[i], cutoff)
}

/// Find the kimi session created since `cutoff`: the newest directory whose change falls at or
/// after the session's start.
///
/// The bound prevents us from claiming an unrelated older session when no new one has been
/// persisted yet. The name is the full `session_<UUID>` form that kimi's own resume expects.
pub fn newest_kimi_session(dirs: &[KimiDir], cutoff: i128) -> (r: Option<String>)
    ensures
        match r {
            Some(name) => exists|i: int| is_newest(dirs@, cutoff, i) && name@ == dirs@[i].name@,
            None => forall|i: int|
                0 <= i < dirs@.len() ==> !is_candidate(#[trigger] dirs@[i], cutoff),
        },
        r is None ==> no_candidate(dirs@, cutoff),
{
    let mut best: Option<usize> = None;
    let mut i: usize = 0;
    while i < dirs.len()
        invariant
            i <= dirs@.len(),
            match best {
                Some(b) => b < i && is_candidate(dirs@[b as int], cutoff) && forall|j: int|
                    0 <= j < i && is_candidate(#[trigger] dirs@[j], cutoff) ==> dirs@[j].modified
                        < dirs@[b as int].modified || (dirs@[j].modified
                        == dirs@[b as int].modified && b <= j),
                None => forall|j: int|
                    0 <= j < i ==> !is_candidate(#[trigger] dirs@[j], cutoff),
            },
        decreases dirs@.len() - i,
    {
        if str_starts_with(dirs[i].parent.as_str(), "wd_") && str_starts_with(
            dirs[i].name.as_str(),
            "session_",
        ) && dirs[i].modified >= cutoff {
            let newer = match best {
                Some(b) => dirs[i].modified > dirs[b].modified,
                None => true,
            };
            if newer {
                best = Some(i);
            }
        }
        i = i + 1;
    }
    match best {
        Some(b) => {
            proof {
                assert(is_newest(dirs@, cutoff, b as int));
            }
            Some(dirs[b].name.clone())
        },
        None => None,
    }
}

// ---------------------------------------------------------------------------------------------
// The end of a process

/// What is known of a process: it has exited, it was ended by a signal, it is alive, or nothing.
#[derive(Debug, Clone, Copy, PartialEq, Eq, Structural)]
pub enum ChildStatus {
    Exited(i32),
    Signaled(i32),
    Alive,
    Unknown,
}

/// The exit code of a process: its own, 128 and the number of the signal that ended it, or none
/// where that is not known.
pub open spec fn exit_code_of(status: ChildStatus) -> Option<int> {
    match status {
        ChildStatus::Exited(code) => Some(code as int),
        ChildStatus::Signaled(signal) => Some(128 + signal),
        _ => None,
    }
}

/// The exit code of a process that has ended.
pub fn exit_code(status: ChildStatus) -> (r: Option<i32>)
    requires
        status matches ChildStatus::Signaled(signal) ==> signal <= i32::MAX - 128,
    ensures
        match r {
            Some(code) => exit_code_of(status) == Some(code as int),
            None => exit_code_of(status) is None,
        },
{
    match status {
        ChildStatus::Exited(code) => Some(code),
        ChildStatus::Signaled(signal) => Some(128 + signal),
        _ => None,
    }
}

/// Check if process has exited (non-blocking). Returns Some(exit_code) or None if still alive.
pub fn try_reap(status: ChildStatus) -> (r: Option<Option<i32>>)
    requires
        status matches ChildStatus::Signaled(signal) ==> signal <= i32::MAX - 128,
    ensures
        match r {
            Some(Some(code)) => exit_code_of(status) == Some(code as int),
            Some(None) => false,
            None => exit_code_of(status) is None,
        },
{
    match exit_code(status) {
        Some(code) => Some(Some(code)),
        None => None,
    }
}

/// One step in ending a session.
#[derive(Debug, Clone, Copy, PartialEq, Eq, Structural)]
pub enum KillStep {
    /// Type Ctrl+C.
    Interrupt,
    /// Wait, look for the agent's name for the session, and stop if the process has ended.
    Poll,
    /// Ask the process to end.
    Terminate,
    /// Wait, and stop if the process has ended, with a last look for the agent's name.
    Check,
    /// End the process.
    Kill,
    /// Wait, and take the session for dead whatever is known.
    Last,
}

/// How long a step waits before it looks, in milliseconds.
pub open spec fn pause_of(step: KillStep) -> u64 {
    match step {
        KillStep::Poll => 100,
        KillStep::Check => 500,
        KillStep::Last => 100,
        _ => 0,
    }
}

/// How long a step waits before it looks, in milliseconds.
pub fn pause(step: KillStep) -> (r: u64)
    ensures
        r == pause_of(step),
{
    match step {
        KillStep::Poll => 100,
        KillStep::Check => 500,
        KillStep::Last => 100,
        _ => 0,
    }
}

/// As many looks as there are.
pub open spec fn polls(n: nat) -> Seq<KillStep> {
    Seq::new(n, |i: int| KillStep::Poll)
}

/// The steps in ending a session: three times Ctrl+C, a second apart, then two more seconds,
/// then a request to end, and at last an end by force.
pub open spec fn kill_steps() -> Seq<KillStep> {
    seq![KillStep::Interrupt] + polls(10) + seq![KillStep::Interrupt] + polls(10) + seq![
        KillStep::Interrupt,
    ] + polls(20) + seq![KillStep::Terminate, KillStep::Check, KillStep::Kill, KillStep::Last]
}

/// Appends as many looks as there are.
fn push_polls(steps: &mut Vec<KillStep>, n: usize)
    ensures
        final(steps)@ == old(steps)@ + polls(n as nat),
{
    let ghost before = steps@;
    let mut i: usize = 0;
    proof {
        assert(before + polls(0) =~= before);
    }
    while i < n
        invariant
            i <= n,
            steps@ == before + polls(i as nat),
        decreases n - i,
    {
        steps.push(KillStep::Poll);
        proof {
            assert((before + polls(i as nat)).push(KillStep::Poll) =~= before + polls(
                (i + 1) as nat,
            ));
        }
        i = i + 1;
    }
}

/// The steps in ending a session, in order. The first that finds the process ended is the last.
pub fn kill_schedule() -> (r: Vec<KillStep>)
    ensures
        r@ == kill_steps(),
{
    let mut steps: Vec<KillStep> = Vec::new();
    steps.push(KillStep::Interrupt);
    push_polls(&mut steps, 10);
    steps.push(KillStep::Interrupt);
    push_polls(&mut steps, 10);
    steps.push(KillStep::Interrupt);
    push_polls(&mut steps, 20);
    steps.push(KillStep::Terminate);
    steps.push(KillStep::Check);
    steps.push(KillStep::Kill);
    steps.push(KillStep::Last);
    proof {
        assert(steps@ =~= kill_steps());
    }
    steps
}

impl SessionView {
    /// After a step in ending a session, and whether it is the last: the process was found to
    /// have ended, or the session is taken for dead whatever is known. `status` is what is known
    /// of the process, and `on_disk` the name of the newest kimi session.
    pub open spec fn kill_step(
        self,
        step: KillStep,
        status: ChildStatus,
        on_disk: Option<Seq<char>>,
    ) -> (SessionView, bool) {
        match step {
            KillStep::Poll => {
                let seen = self.capture_codex_id().capture_kimi_id(on_disk);
                match code_of(status) {
                    Some(code) => (seen.mark_dead(Some(code)), true),
                    None => (seen, false),
                }
            },
            KillStep::Check => match code_of(status) {
                Some(code) => (
                    self.mark_dead(Some(code)).capture_codex_id().capture_kimi_id(on_disk),
                    true,
                ),
                None => (self, false),
            },
            KillStep::Last => (self.mark_dead(code_of(status)).capture_kimi_id(on_disk), true),
            _ => (self, false),
        }
    }
}

/// The exit code of a process, in 32 bits.
pub open spec fn code_of(status: ChildStatus) -> Option<i32> {
    match exit_code_of(status) {
        Some(code) => Some(code as i32),
        None => None,
    }
}

impl Session {
    /// Takes note of what is found in a step of ending the session, and says whether it is the
    /// last. `kimi` is the name of the newest kimi session on disk.
    pub fn kill_step(&mut self, step: KillStep, status: ChildStatus, kimi: Option<String>) -> (r:
        bool)
        requires
            old(self)@.next_seq < u64::MAX,
            status matches ChildStatus::Signaled(signal) ==> signal <= i32::MAX - 128,
        ensures
            (final(self)@, r) == old(self)@.kill_step(step, status, opt_text(kimi)),
            old(self)@.wf() ==> final(self)@.wf(),
            final(self).runs_on(*old(self)),
    {
        let ghost start = self@;
        match step {
            KillStep::Poll => {
                self.capture_codex_id();
                self.capture_kimi_id(kimi);
                proof {
                    if start.wf() {
                        lemma_renamed_wf(start, self@);
                    }
                }
                match try_reap(status) {
                    Some(code) => {
                        self.mark_dead(code);
                        true
                    },
                    None => false,
                }
            },
            KillStep::Check => {
                match try_reap(status) {
                    Some(code) => {
                        self.mark_dead(code);
                        let ghost dead = self@;
                        self.capture_codex_id();
                        self.capture_kimi_id(kimi);
                        proof {
                            if start.wf() {
                                lemma_renamed_wf(dead, self@);
                            }
                        }
                        true
                    },
                    None => false,
                }
            },
            KillStep::Last => {
                self.mark_dead(exit_code(status));
                let ghost dead = self@;
                self.capture_kimi_id(kimi);
                proof {
                    if start.wf() {
                        lemma_renamed_wf(dead, self@);
                    }
                }
                true
            },
            _ => false,
        }
    }
}

// ---------------------------------------------------------------------------------------------
// Answers

/// The answer once a session on a PTY was ended.
pub fn killed_json(session: &Session) -> (r: Json)
    ensures
        r@ == JsonModel::Object(
            ok_model().insert(
                "codex_session_id"@,
                text_or_null(session@.codex_session_id),
            ).insert("kimi_session_id"@, text_or_null(session@.kimi_session_id)),
        ),
{
    let mut m = ok_members();
    put(&mut m, "codex_session_id", json_opt_text(&session.codex_session_id));
    put(&mut m, "kimi_session_id", json_opt_text(&session.kimi_session_id));
    Json::Object(m)
}

/// The answer once a session of opencode was ended.
pub fn killed_opencode_json(session: &Session) -> (r: Json)
    ensures
        r@ == JsonModel::Object(
            ok_model().insert("codex_session_id"@, JsonModel::Null).insert(
                "opencode_session_id"@,
                text_or_null(session@.opencode_session_id),
            ),
        ),
{
    let mut m = ok_members();
    put(&mut m, "codex_session_id", Json::Null);
    put(&mut m, "opencode_session_id", json_opt_text(&session.opencode_session_id));
    Json::Object(m)
}

/// What is told of a session that was ended with all others: its name, and the name that the
/// answer about its end gives for codex.
pub fn killed_entry(session_id: &str, answer: &Json) -> (r: Json)
    ensures
        r@ == JsonModel::Object(
            Map::<Seq<char>, JsonModel>::empty().insert(
                "session"@,
                JsonModel::Str(session_id@),
            ).insert("codex_session_id"@, answer@.at("codex_session_id"@)),
        ),
{
    let mut m: Vec<(String, Json)> = Vec::new();
    put(&mut m, "session", json_text(session_id));
    put(&mut m, "codex_session_id", answer.at("codex_session_id").copy());
    Json::Object(m)
}

/// The answer once all sessions were ended.
pub fn killall_json(killed: Vec<Json>) -> (r: Json)
    ensures
        r@ == JsonModel::Object(
            ok_model().insert("killed"@, JsonModel::Array(items(killed@))),
        ),
{
    let mut m = ok_members();
    put(&mut m, "killed", Json::Array(killed));
    Json::Object(m)
}

// ---------------------------------------------------------------------------------------------
// Laws

/// How long the first `n` steps wait in all, in milliseconds.
pub open spec fn waited_to(steps: Seq<KillStep>, n: int) -> nat
    decreases n,
{
    if n <= 0 {
        0
    } else {
        waited_to(steps, n - 1) + pause_of(steps[n - 1]) as nat
    }
}

/// How many of the first `n` steps are that step.
pub open spec fn count_to(steps: Seq<KillStep>, step: KillStep, n: int) -> nat
    decreases n,
{
    if n <= 0 {
        0
    } else {
        count_to(steps, step, n - 1) + if steps[n - 1] == step {
            1nat
        } else {
            0nat
        }
    }
}

proof fn lemma_waited_add(a: Seq<KillStep>, b: Seq<KillStep>, n: int)
    requires
        0 <= n <= b.len(),
    ensures
        waited_to(a + b, a.len() + n) == waited_to(a, a.len() as int) + waited_to(b, n),
        forall|step: KillStep| #[trigger]
            count_to(a + b, step, a.len() + n) == count_to(a, step, a.len() as int) + count_to(
                b,
                step,
                n,
            ),
    decreases n,
{
    if n > 0 {
        lemma_waited_add(a, b, n - 1);
        assert((a + b)[a.len() + n - 1] == b[n - 1]);
        assert forall|step: KillStep| #[trigger]
            count_to(a + b, step, a.len() + n) == count_to(a, step, a.len() as int) + count_to(
                b,
                step,
                n,
            ) by {
            assert(count_to(a + b, step, a.len() + (n - 1)) == count_to(a, step, a.len() as int)
                + count_to(b, step, n - 1));
        }
    } else {
        lemma_waited_prefix(a, b, a.len() as int);
    }
}

proof fn lemma_waited_prefix(a: Seq<KillStep>, b: Seq<KillStep>, n: int)
    requires
        0 <= n <= a.len(),
    ensures
        waited_to(a + b, n) == waited_to(a, n),
        forall|step: KillStep| #[trigger] count_to(a + b, step, n) == count_to(a, step, n),
    decreases n,
{
    if n > 0 {
        lemma_waited_prefix(a, b, n - 1);
        assert((a + b)[n - 1] == a[n - 1]);
        assert forall|step: KillStep| #[trigger] count_to(a + b, step, n) == count_to(
            a,
            step,
            n,
        ) by {
            assert(count_to(a + b, step, n - 1) == count_to(a, step, n - 1));
        }
    }
}

proof fn lemma_polls(n: nat, k: int)
    requires
        0 <= k <= n,
    ensures
        waited_to(polls(n), k) == 100 * k,
        count_to(polls(n), KillStep::Interrupt, k) == 0,
    decreases k,
{
    if k > 0 {
        lemma_polls(n, k - 1);
    }
}

/// A session gets three interrupts, a second apart, and, where these do not end it, a request
/// before it is ended by force. All of it takes no more than five seconds.
pub proof fn law_kill_is_graceful_and_bounded()
    ensures
        count_to(kill_steps(), KillStep::Interrupt, kill_steps().len() as int) == 3,
        kill_steps()[0] == KillStep::Interrupt,
        kill_steps()[11] == KillStep::Interrupt && waited_to(kill_steps(), 11) == 1000,
        kill_steps()[22] == KillStep::Interrupt && waited_to(kill_steps(), 22) == 2000,
        waited_to(kill_steps(), kill_steps().len() as int) == 4600,
        kill_steps().last() == KillStep::Last,
        forall|i: int|
            0 <= i < kill_steps().len() && #[trigger] kill_steps()[i] == KillStep::Kill ==> exists|
                j: int|
                0 <= j < i && #[trigger] kill_steps()[j] == KillStep::Terminate,
{
    let a = seq![KillStep::Interrupt];
    let tail = seq![KillStep::Terminate, KillStep::Check, KillStep::Kill, KillStep::Last];
    let s1 = a + polls(10);
    let s2 = s1 + a;
    let s3 = s2 + polls(10);
    let s4 = s3 + a;
    let s5 = s4 + polls(20);
    lemma_polls(10, 10);
    lemma_polls(20, 20);
    lemma_waited_add(a, polls(10), 10);
    lemma_waited_add(s1, a, 1);
    lemma_waited_add(s2, polls(10), 10);
    lemma_waited_add(s3, a, 1);
    lemma_waited_add(s4, polls(20), 20);
    lemma_waited_add(s5, tail, 4);
    assert(waited_to(a, 1) == 0 && count_to(a, KillStep::Interrupt, 1) == 1) by {
        reveal_with_fuel(waited_to, 2);
        reveal_with_fuel(count_to, 2);
    }
    assert(waited_to(tail, 4) == 600 && count_to(tail, KillStep::Interrupt, 4) == 0) by {
        reveal_with_fuel(waited_to, 5);
        reveal_with_fuel(count_to, 5);
    }
    assert(kill_steps() == s5 + tail);
    assert(kill_steps().len() == 47);
    assert(kill_steps() =~= s1 + (a + polls(10) + a + polls(20) + tail));
    lemma_waited_prefix(s1, a + polls(10) + a + polls(20) + tail, 11);
    assert(kill_steps() =~= s3 + (a + polls(20) + tail));
    lemma_waited_prefix(s3, a + polls(20) + tail, 22);
    assert(count_to(s1, KillStep::Interrupt, 11) == 1);
    assert(count_to(s2, KillStep::Interrupt, 12) == 2);
    assert(count_to(s3, KillStep::Interrupt, 22) == 2);
    assert(count_to(s4, KillStep::Interrupt, 23) == 3);
    assert(count_to(s5, KillStep::Interrupt, 43) == 3);
    assert(kill_steps()[43] == KillStep::Terminate);
    assert forall|i: int|
        0 <= i < kill_steps().len() && #[trigger] kill_steps()[i] == KillStep::Kill implies exists|
        j: int|
        0 <= j < i && #[trigger] kill_steps()[j] == KillStep::Terminate by {
        assert(i == 45);
    }
}

/// The name of a codex session that is known already is kept.
pub proof fn law_known_name_is_kept(session: SessionView)
    requires
        session.codex_session_id is Some,
    ensures
        session.capture_codex_id() == session,
{
}

/// A step is the last one only if it leaves the session dead, with the exit code that is known;
/// and the last step of all leaves it dead whatever is known of the process.
pub proof fn law_a_kill_ends_in_death(
    session: SessionView,
    step: KillStep,
    status: ChildStatus,
    on_disk: Option<Seq<char>>,
)
    ensures
        ({
            let (after, ended) = session.kill_step(step, status, on_disk);
            &&& ended ==> after.state == SessionState::Dead && after.exit_code == code_of(status)
            &&& step == KillStep::Last ==> ended
        }),
{
}

/// The name under which codex says that a session can be resumed is the one in the first line
/// that says one.
pub proof fn law_the_first_name_counts(lines: Seq<Seq<char>>, at: int)
    requires
        0 <= at <= lines.len(),
        forall|i: int|
            0 <= i < at ==> group(
                captures_of(
                    "codex resume ([0-9a-f]{8}-[0-9a-f]{4}-[0-9a-f]{4}-[0-9a-f]{4}-[0-9a-f]{12})"@,
                    #[trigger] lines[i],
                ),
                1,
            ) is None,
    ensures
        at == lines.len() ==> codex_id(lines) is None,
        at < lines.len() ==> {
            let name = group(
                captures_of(
                    "codex resume ([0-9a-f]{8}-[0-9a-f]{4}-[0-9a-f]{4}-[0-9a-f]{4}-[0-9a-f]{12})"@,
                    lines[at],
                ),
                1,
            );
            name is Some ==> codex_id(lines) == name
        },
{
    lemma_id_at(all_captures(CODEX_RESUME@, lines), 0, at);
}

proof fn lemma_id_at(found: Seq<Groups>, i: int, at: int)
    requires
        0 <= i <= at <= found.len(),
        forall|j: int| 0 <= j < at ==> group(#[trigger] found[j], 1) is None,
    ensures
        id_in(found, i) == id_in(found, at),
    decreases at - i,
{
    if i < at {
        lemma_id_at(found, i + 1, at);
    }
}

/// Which of the directories of kimi is taken for a session: one that is named as a session in a
/// directory that is named as one for work, that was not changed before the session began, and
/// than which no other such was changed later. Where there is such a one, one is taken.
pub proof fn law_the_newest_session_of_kimi(dirs: &[KimiDir], cutoff: i128, r: Option<String>)
    requires
        call_ensures(newest_kimi_session, (dirs, cutoff), r),
    ensures
        r is Some ==> exists|i: int|
            0 <= i < dirs@.len() && (#[trigger] dirs@[i]).name@ == r->0@ && fits_kimi(
                dirs@[i],
                cutoff,
            ) && forall|j: int|
                0 <= j < dirs@.len() && fits_kimi(#[trigger] dirs@[j], cutoff)
                    ==> dirs@[j].modified <= dirs@[i].modified,
        r is None ==> forall|i: int|
            0 <= i < dirs@.len() ==> !fits_kimi(#[trigger] dirs@[i], cutoff),
{
    reveal_strlit("wd_");
    reveal_strlit("session_");
    assert forall|i: int| 0 <= i < dirs@.len() implies fits_kimi(#[trigger] dirs@[i], cutoff)
        == is_candidate(dirs@[i], cutoff) by {
        lemma_prefix(dirs@[i].parent@, "wd_"@);
        lemma_prefix(dirs@[i].name@, "session_"@);
        assert("wd_"@ =~= seq!['w', 'd', '_']);
        assert("session_"@ =~= seq!['s', 'e', 's', 's', 'i', 'o', 'n', '_']);
    }
    if r is Some {
        let i = choose|i: int| is_newest(dirs@, cutoff, i) && r->0@ == dirs@[i].name@;
        assert(dirs@[i].name@ == r->0@);
        assert forall|j: int|
            0 <= j < dirs@.len() && fits_kimi(
                #[trigger] dirs@[j],
                cutoff,
            ) implies dirs@[j].modified <= dirs@[i].modified by {
            assert(is_candidate(dirs@[j], cutoff));
        }
    } else {
        assert(no_candidate(dirs@, cutoff));
        assert forall|i: int| 0 <= i < dirs@.len() implies !fits_kimi(
            #[trigger] dirs@[i],
            cutoff,
        ) by {
            assert(!is_candidate(dirs@[i], cutoff));
        }
    }
}

/// Whether a directory can hold a session of kimi that began at `cutoff`.
pub open spec fn fits_kimi(dir: KimiDir, cutoff: i128) -> bool {
    let work = seq!['w', 'd', '_'];
    let session = seq!['s', 'e', 's', 's', 'i', 'o', 'n', '_'];
    &&& dir.parent@.len() >= 3 && dir.parent@.take(3) == work
    &&& dir.name@.len() >= 8 && dir.name@.take(8) == session
    &&& dir.modified >= cutoff
}

proof fn lemma_prefix(text: Seq<char>, prefix: Seq<char>)
    ensures
        starts_with(text, prefix) <==> text.len() >= prefix.len() && text.take(prefix.len() as int)
            == prefix,
{
    if text.len() >= prefix.len() {
        assert(text.subrange(0, prefix.len() as int) =~= text.take(prefix.len() as int));
    }
}

/// A session counts from the start of the second it was created in, and not from before 1970.
pub proof fn law_a_session_counts_from_its_second(second: i64, r: i128)
    requires
        call_ensures(cutoff_at, (second,), r),
    ensures
        r >= 0,
        second >= 0 ==> r == second * 1_000_000_000,
        second < 0 ==> r == 0,
{
}

/// How a process has ended: with its exit code, or with 128 more than the signal that ended it. Of
/// one that lives, or of which nothing is known, there is no code.
pub proof fn law_how_a_process_ended(
    status: ChildStatus,
    code: Option<i32>,
    reaped: Option<Option<i32>>,
)
    requires
        status matches ChildStatus::Signaled(signal) ==> signal <= i32::MAX - 128,
        call_ensures(exit_code, (status,), code),
        call_ensures(try_reap, (status,), reaped),
    ensures
        status matches ChildStatus::Exited(n) ==> code == Some(n) && reaped == Some(Some(n)),
        status matches ChildStatus::Signaled(n) ==> code == Some((128 + n) as i32) && reaped
            == Some(Some((128 + n) as i32)),
        status == ChildStatus::Alive || status == ChildStatus::Unknown ==> code is None && reaped
            is None,
{
}

/// In which order a session is killed. Ctrl+C is typed three times, at once and after one and two
/// seconds, and in the four seconds that begin with the first the process is looked at every tenth
/// of a second. Then it is asked to end, half a second later it is ended, and a tenth later it is
/// taken for dead.
pub proof fn law_the_order_of_a_kill()
    ensures
        kill_steps().len() == 47,
        forall|i: int|
            0 <= i < 43 && i != 0 && i != 11 && i != 22 ==> #[trigger] kill_steps()[i]
                == KillStep::Poll,
        kill_steps()[0] == KillStep::Interrupt,
        kill_steps()[11] == KillStep::Interrupt,
        kill_steps()[22] == KillStep::Interrupt,
        kill_steps()[43] == KillStep::Terminate,
        kill_steps()[44] == KillStep::Check,
        kill_steps()[45] == KillStep::Kill,
        kill_steps()[46] == KillStep::Last,
        pause_of(KillStep::Poll) == 100,
        pause_of(KillStep::Check) == 500,
        pause_of(KillStep::Last) == 100,
        pause_of(KillStep::Interrupt) == 0,
        pause_of(KillStep::Terminate) == 0,
        pause_of(KillStep::Kill) == 0,
{
}

/// What a step of a kill does to a session. Only looking at it can end it, and does where the
/// process has ended; the last look does in any case. The session is then dead, with the code of
/// the process. While it lives only the agent's names for it are learned, and only by polling.
pub proof fn law_what_a_kill_step_does(
    s: SessionView,
    step: KillStep,
    status: ChildStatus,
    on_disk: Option<Seq<char>>,
)
    requires
        s.next_seq < u64::MAX,
        status matches ChildStatus::Signaled(signal) ==> signal <= i32::MAX - 128,
    ensures
        ({
            let (after, ended) = s.kill_step(step, status, on_disk);
            let gone = status is Exited || status is Signaled;
            &&& ended <==> step == KillStep::Last || (gone && (step == KillStep::Poll || step
                == KillStep::Check))
            &&& ended ==> after.state == SessionState::Dead && after.logged == s.log_change(
                "dead"@,
                "dead"@,
            ).logged
            &&& ended && status is Exited ==> after.exit_code == Some(status->Exited_0)
            &&& ended && status is Signaled ==> after.exit_code == Some(
                (128 + status->Signaled_0) as i32,
            )
            &&& ended && !gone ==> after.exit_code is None
            &&& !ended ==> after == (SessionView {
                codex_session_id: after.codex_session_id,
                kimi_session_id: after.kimi_session_id,
                ..s
            })
            &&& !ended && step != KillStep::Poll ==> after == s
            &&& step == KillStep::Poll || ended ==> {
                &&& s.backend == Backend::Kimi && s.kimi_session_id is None
                    ==> after.kimi_session_id == on_disk
                &&& s.kimi_session_id is Some ==> after.kimi_session_id == s.kimi_session_id
            }
            &&& step == KillStep::Poll || (ended && step == KillStep::Check)
                ==> after.codex_session_id == (match s.codex_session_id {
                Some(id) => Some(id),
                None => codex_id(s.screen()),
            })
            &&& step == KillStep::Last ==> after.codex_session_id == s.codex_session_id
        }),
{
}

/// What is told of a session that was killed: that it was, and the names that its agent has for
/// it, or nothing where it has none.
pub proof fn law_what_is_told_of_the_killed(
    session: &Session,
    r: Json,
    o: Json,
    id: &str,
    entry: Json,
)
    requires
        call_ensures(killed_json, (session,), r),
        call_ensures(killed_opencode_json, (session,), o),
        call_ensures(killed_entry, (id, &r), entry),
    ensures
        r@.get("ok"@) == Some(JsonModel::Bool(true)),
        r@.get("codex_session_id"@) == Some(text_or_null(opt_text(session.codex_session_id))),
        r@.get("kimi_session_id"@) == Some(text_or_null(opt_text(session.kimi_session_id))),
        o@.get("ok"@) == Some(JsonModel::Bool(true)),
        o@.get("codex_session_id"@) == Some(JsonModel::Null),
        o@.get("opencode_session_id"@) == Some(
            text_or_null(opt_text(session.opencode_session_id)),
        ),
        entry@.get("session"@) == Some(JsonModel::Str(id@)),
        entry@.get("codex_session_id"@) == r@.get("codex_session_id"@),
{
    reveal_strlit("ok");
    reveal_strlit("codex_session_id");
    reveal_strlit("kimi_session_id");
    reveal_strlit("opencode_session_id");
    reveal_strlit("session");
    assert("ok"@.len() == 2 && "codex_session_id"@.len() == 16 && "kimi_session_id"@.len() == 15
        && "opencode_session_id"@.len() == 19 && "session"@.len() == 7);
}

/// All that were killed are told.
pub proof fn law_all_the_killed_are_told(killed: Vec<Json>, r: Json)
    requires
        call_ensures(killall_json, (killed,), r),
    ensures
        r@.get("ok"@) == Some(JsonModel::Bool(true)),
        r@.get("killed"@) == Some(JsonModel::Array(items(killed@))),
{
    reveal_strlit("ok");
    reveal_strlit("killed");
    assert("ok"@.len() == 2 && "killed"@.len() == 6);
}

/// A name that an agent has for a session is learned once, and only for the agent that it is of.
pub proof fn law_a_name_is_learned_once(
    s: SessionView,
    first: Option<Seq<char>>,
    second: Option<Seq<char>>,
)
    ensures
        s.backend != Backend::Kimi ==> s.capture_kimi_id(first) == s,
        s.kimi_session_id is Some ==> s.capture_kimi_id(first) == s,
        s.backend == Backend::Kimi && s.kimi_session_id is None ==> s.capture_kimi_id(first)
            == (SessionView { kimi_session_id: first, ..s }),
        first is Some ==> s.capture_kimi_id(first).capture_kimi_id(second) == s.capture_kimi_id(
            first,
        ),
        s.codex_session_id is None ==> s.capture_codex_id() == (SessionView {
            codex_session_id: codex_id(s.screen()),
            ..s
        }),
        s.capture_codex_id().capture_codex_id() == s.capture_codex_id(),
{
}

} // verus!
