//! New sessions, and what is told of a session.
use crate::clock::Clock;
use crate::json::{
    int_model, json_int, json_text, plain, print_pretty, printed_pretty, put, Json, JsonModel,
    DEPTH,
};
use crate::log::codec::lemma_plain_insert;
use crate::log::reader::{entries, whole_lines};
use crate::log::record::{is_time, timestamp};
use crate::log::writer::LogWriter;
use crate::protocol::Backend;
use crate::session::ident::{is_session_id, new_session_id};
use crate::session::stabilizer::{Stabilizer, StabilizerView, DEFAULT_STABILIZE_DELAY};
use crate::session::state::SessionState;
use crate::session::{untimed, Session, SessionMeta, SessionView, SpawnResult};
use crate::terminal::Terminal;
use vstd::prelude::*;

verus! {

/// How many rows the terminal of an agent has.
pub const PTY_ROWS: u16 = 500;

/// How many columns the terminal of an agent has.
pub const PTY_COLS: u16 = 200;

impl SessionView {
    /// A session in which nothing has happened yet.
    pub open spec fn fresh(
        backend: Backend,
        rows: u16,
        cols: u16,
        dir: Seq<char>,
        bodies_len: u64,
    ) -> SessionView {
        SessionView {
            backend,
            rows,
            cols,
            fed: seq![],
            state: SessionState::Working,
            last_esc_seen: 0,
            has_seen_esc: false,
            awaiting: false,
            stabilizer: StabilizerView::idle(DEFAULT_STABILIZE_DELAY),
            stable: seq![],
            next_block_id: 1,
            blocks: seq![],
            dir,
            logged: seq![],
            bodies: seq![],
            bodies_len,
            next_seq: 1,
            read_cursor: 0,
            exit_code: None,
            codex_session_id: None,
            kimi_session_id: None,
            opencode_session_id: None,
        }
    }
}

impl SessionView {
    /// After what waited was handed out to be written.
    pub open spec fn flushed(self) -> SessionView {
        SessionView { logged: seq![], bodies: seq![], ..self }
    }
}

impl Session {
    /// A session of any kind, in which nothing has happened yet. Its name depends on chance, and
    /// when it was created on the time.
    fn fresh(
        backend: Backend,
        rows: u16,
        cols: u16,
        spawn_result: SpawnResult,
        prompt: &str,
        cwd: &str,
        session_dir: &str,
        bodies_len: u64,
    ) -> (r: Session)
        requires
            rows > 0,
            cols > 0,
        ensures
            r@ == SessionView::fresh(backend, rows, cols, session_dir@, bodies_len),
            r@.wf(),
            is_session_id(r.id@),
            is_time(r.created_at@),
            r.pid == spawn_result.pid,
            r.master_fd == spawn_result.master_fd,
            r.cwd@ == cwd@,
            r.prompt@ == prompt@,
            r.gui_pid is None,
            r.opencode_binary is None,
            r.model is None,
    {
        let r = Session {
            id: new_session_id(),
            pid: spawn_result.pid,
            master_fd: spawn_result.master_fd,
            cwd: cwd.to_owned(),
            created_at: timestamp(),
            prompt: prompt.to_owned(),
            backend,
            parser: Terminal::new(rows, cols, 0),
            state: SessionState::Working,
            clock: Clock::start(),
            last_esc_seen: 0,
            stabilizer: Stabilizer::default_delay(),
            stable_snapshot: Vec::new(),
            next_block_id: 1,
            blocks: Vec::new(),
            log_writer: LogWriter::new(session_dir, bodies_len),
            next_seq: 1,
            read_cursor: 0,
            gui_pid: None,
            exit_code: None,
            has_seen_esc: false,
            codex_session_id: None,
            kimi_session_id: None,
            opencode_session_id: None,
            opencode_binary: None,
            model: None,
            awaiting_initial_prompt: false,
        };
        proof {
            assert(r@.stable =~= seq![]);
            assert(r@.blocks =~= seq![]);
            assert(r@.logged =~= seq![]);
        }
        r
    }

    /// Create a new session from a PTY spawn result.
    pub fn new(
        spawn_result: SpawnResult,
        prompt: &str,
        cwd: &str,
        session_dir: &str,
        bodies_len: u64,
    ) -> (r: Session)
        ensures
            r@ == SessionView::fresh(
                Backend::Codex,
                PTY_ROWS,
                PTY_COLS,
                session_dir@,
                bodies_len,
            ),
            r@.wf(),
            is_session_id(r.id@),
            is_time(r.created_at@),
            r.pid == spawn_result.pid,
            r.master_fd == spawn_result.master_fd,
            r.cwd@ == cwd@,
            r.prompt@ == prompt@,
            r.gui_pid is None,
            r.opencode_binary is None,
            r.model is None,
    {
        Session::fresh(
            Backend::Codex,
            PTY_ROWS,
            PTY_COLS,
            spawn_result,
            prompt,
            cwd,
            session_dir,
            bodies_len,
        )
    }

    /// Create a new session of kimi from a PTY spawn result. A session that is resumed has its
    /// name already, and one that has a prompt waits for it to be typed.
    pub fn new_kimi(
        spawn_result: SpawnResult,
        prompt: Option<&str>,
        cwd: &str,
        session_dir: &str,
        bodies_len: u64,
        resume: Option<&str>,
    ) -> (r: Session)
        ensures
            r@ == (SessionView {
                kimi_session_id: crate::json::opt_str(resume),
                awaiting: prompt is Some,
                ..SessionView::fresh(
                    Backend::Kimi,
                    PTY_ROWS,
                    PTY_COLS,
                    session_dir@,
                    bodies_len,
                )
            }),
            r@.wf(),
            is_session_id(r.id@),
            is_time(r.created_at@),
            r.pid == spawn_result.pid,
            r.master_fd == spawn_result.master_fd,
            r.cwd@ == cwd@,
            r.prompt@ == display_prompt(crate::json::opt_str(prompt)),
            r.gui_pid is None,
            r.opencode_binary is None,
            r.model is None,
    {
        let text = prompt_shown(prompt);
        let mut session = Session::fresh(
            Backend::Kimi,
            PTY_ROWS,
            PTY_COLS,
            spawn_result,
            text,
            cwd,
            session_dir,
            bodies_len,
        );
        if let Some(rid) = resume {
            session.kimi_session_id = Some(rid.to_owned());
        }
        if prompt.is_some() {
            session.awaiting_initial_prompt = true;
        }
        session
    }

    /// Create a new session of opencode, which has no process of its own and no screen.
    pub fn new_opencode(
        binary: &str,
        prompt: &str,
        cwd: &str,
        session_dir: &str,
        bodies_len: u64,
        resume: Option<&str>,
        model: Option<&str>,
    ) -> (r: Session)
        ensures
            r@ == (SessionView {
                opencode_session_id: crate::json::opt_str(resume),
                ..SessionView::fresh(Backend::Opencode, 1, 1, session_dir@, bodies_len)
            }),
            r@.wf(),
            is_session_id(r.id@),
            is_time(r.created_at@),
            r.pid == 0,
            r.master_fd == -1,
            r.cwd@ == cwd@,
            r.prompt@ == prompt@,
            r.gui_pid is None,
            crate::json::opt_text(r.opencode_binary) == Some(binary@),
            crate::json::opt_text(r.model) == crate::json::opt_str(model),
    {
        let mut session = Session::fresh(
            Backend::Opencode,
            1,
            1,
            SpawnResult { pid: 0, master_fd: -1 },
            prompt,
            cwd,
            session_dir,
            bodies_len,
        );
        session.opencode_binary = Some(binary.to_owned());
        if let Some(sid) = resume {
            session.opencode_session_id = Some(sid.to_owned());
        }
        if let Some(m) = model {
            session.model = Some(m.to_owned());
        }
        session
    }

    /// Whether the session is one of opencode.
    pub fn is_opencode(&self) -> (b: bool)
        ensures
            b == (self.backend == Backend::Opencode),
    {
        self.backend == Backend::Opencode
    }

    /// Whether the session is one of kimi.
    pub fn is_kimi(&self) -> (b: bool)
        ensures
            b == (self.backend == Backend::Kimi),
    {
        self.backend == Backend::Kimi
    }

    /// Hands out what waits to be written to the log's files. Read as a log, the text holds just
    /// the messages that waited.
    pub fn flush(&mut self) -> (r: (String, Vec<u8>))
        ensures
            final(self)@ == (SessionView { logged: seq![], bodies: seq![], ..old(self)@ }),
            final(self)@ == old(self)@.flushed(),
            old(self)@.wf() ==> final(self)@.wf(),
            final(self).same_run(*old(self)),
            entries(r.0@) == Some(old(self).log_writer@.messages),
            untimed(entries(r.0@)->0) == old(self)@.logged,
            whole_lines(r.0@),
            r.1@ == old(self)@.bodies,
    {
        let r = self.log_writer.flush_all();
        proof {
            assert(self@.logged =~= seq![]);
        }
        r
    }
}

/// The prompt that is shown for a session, which may have none.
pub open spec fn display_prompt(prompt: Option<Seq<char>>) -> Seq<char> {
    match prompt {
        Some(p) => p,
        None => seq![],
    }
}

/// The prompt that is shown for a session, which may have none.
pub fn prompt_shown<'a>(prompt: Option<&'a str>) -> (r: &'a str)
    ensures
        r@ == display_prompt(crate::json::opt_str(prompt)),
{
    match prompt {
        Some(p) => p,
        None => {
            proof {
                reveal_strlit("");
                assert(""@ =~= seq![]);
            }
            ""
        },
    }
}

// ---------------------------------------------------------------------------------------------
// What is told of a session

/// What `list` tells of a session.
pub open spec fn info_model(
    id: Seq<char>,
    state: SessionState,
    cwd: Seq<char>,
    created_at: Seq<char>,
    prompt: Seq<char>,
) -> JsonModel {
    JsonModel::Object(
        Map::<Seq<char>, JsonModel>::empty().insert("id"@, JsonModel::Str(id)).insert(
            "state"@,
            JsonModel::Str(state.name()),
        ).insert("cwd"@, JsonModel::Str(cwd)).insert(
            "created_at"@,
            JsonModel::Str(created_at),
        ).insert("prompt"@, JsonModel::Str(prompt)),
    )
}

/// What is written to disk of a session.
pub open spec fn meta_model(
    id: Seq<char>,
    pid: i32,
    cwd: Seq<char>,
    created_at: Seq<char>,
    prompt: Seq<char>,
) -> JsonModel {
    JsonModel::Object(
        Map::<Seq<char>, JsonModel>::empty().insert("id"@, JsonModel::Str(id)).insert(
            "pid"@,
            int_model(pid),
        ).insert("cwd"@, JsonModel::Str(cwd)).insert(
            "created_at"@,
            JsonModel::Str(created_at),
        ).insert("prompt"@, JsonModel::Str(prompt)),
    )
}

proof fn lemma_meta_plain(
    id: Seq<char>,
    pid: i32,
    cwd: Seq<char>,
    created_at: Seq<char>,
    prompt: Seq<char>,
    depth: nat,
)
    requires
        depth > 0,
    ensures
        plain(meta_model(id, pid, cwd, created_at, prompt), depth),
{
    let m0 = Map::<Seq<char>, JsonModel>::empty();
    let m1 = m0.insert("id"@, JsonModel::Str(id));
    let m2 = m1.insert("pid"@, int_model(pid));
    let m3 = m2.insert("cwd"@, JsonModel::Str(cwd));
    let m4 = m3.insert("created_at"@, JsonModel::Str(created_at));
    assert(plain(JsonModel::Object(m0), depth));
    lemma_plain_insert(m0, "id"@, JsonModel::Str(id), depth);
    lemma_plain_insert(m1, "pid"@, int_model(pid), depth);
    lemma_plain_insert(m2, "cwd"@, JsonModel::Str(cwd), depth);
    lemma_plain_insert(m3, "created_at"@, JsonModel::Str(created_at), depth);
    lemma_plain_insert(m4, "prompt"@, JsonModel::Str(prompt), depth);
}

impl SessionMeta {
    /// The metadata in JSON, as it is written to disk.
    pub fn to_json(&self) -> (r: Json)
        ensures
            r@ == meta_model(self.id@, self.pid, self.cwd@, self.created_at@, self.prompt@),
    {
        let mut m: Vec<(String, Json)> = Vec::new();
        put(&mut m, "id", json_text(self.id.as_str()));
        put(&mut m, "pid", json_int(self.pid));
        put(&mut m, "cwd", json_text(self.cwd.as_str()));
        put(&mut m, "created_at", json_text(self.created_at.as_str()));
        put(&mut m, "prompt", json_text(self.prompt.as_str()));
        Json::Object(m)
    }
}

impl Session {
    /// The metadata that is written to disk.
    pub fn meta(&self) -> (r: SessionMeta)
        ensures
            r.id@ == self.id@,
            r.pid == self.pid,
            r.cwd@ == self.cwd@,
            r.created_at@ == self.created_at@,
            r.prompt@ == self.prompt@,
    {
        SessionMeta {
            id: self.id.clone(),
            pid: self.pid,
            cwd: self.cwd.clone(),
            created_at: self.created_at.clone(),
            prompt: self.prompt.clone(),
        }
    }

    /// The text of the metadata that is written to disk.
    pub fn write_meta(&self) -> (r: String)
        ensures
            r@ == printed_pretty(
                meta_model(self.id@, self.pid, self.cwd@, self.created_at@, self.prompt@),
            ),
    {
        let json = self.meta().to_json();
        proof {
            lemma_meta_plain(
                self.id@,
                self.pid,
                self.cwd@,
                self.created_at@,
                self.prompt@,
                DEPTH as nat,
            );
        }
        print_pretty(&json)
    }

    /// Get session info as JSON value.
    pub fn info_json(&self) -> (r: Json)
        ensures
            r@ == info_model(self.id@, self.state, self.cwd@, self.created_at@, self.prompt@),
    {
        let mut m: Vec<(String, Json)> = Vec::new();
        put(&mut m, "id", json_text(self.id.as_str()));
        put(&mut m, "state", json_text(self.state.as_str()));
        put(&mut m, "cwd", json_text(self.cwd.as_str()));
        put(&mut m, "created_at", json_text(self.created_at.as_str()));
        put(&mut m, "prompt", json_text(self.prompt.as_str()));
        Json::Object(m)
    }
}

/// How a session begins: at work, with nothing seen, logged, read or known of it, and with 1 as
/// the number of the first message and of the first block. What it sees has to be still for three
/// tenths of a second.
pub proof fn law_how_a_session_begins(
    backend: Backend,
    rows: u16,
    cols: u16,
    dir: Seq<char>,
    bodies_len: u64,
)
    ensures
        ({
            let s = SessionView::fresh(backend, rows, cols, dir, bodies_len);
            &&& s.backend == backend && s.rows == rows && s.cols == cols && s.dir == dir
            &&& s.bodies_len == bodies_len
            &&& s.state == SessionState::Working
            &&& s.fed.len() == 0 && s.stable.len() == 0
            &&& s.last_esc_seen == 0 && !s.has_seen_esc && !s.awaiting
            &&& s.next_seq == 1 && s.next_block_id == 1 && s.read_cursor == 0
            &&& s.logged.len() == 0 && s.blocks.len() == 0 && s.bodies.len() == 0
            &&& s.exit_code is None
            &&& s.codex_session_id is None && s.kimi_session_id is None && s.opencode_session_id
                is None
            &&& s.stabilizer.pending is None && s.stabilizer.delay == 300_000_000
        }),
{
}

/// What is told of a session in a list, and what is written of it beside its log.
pub proof fn law_what_is_told_of_a_session(
    id: Seq<char>,
    pid: i32,
    state: SessionState,
    cwd: Seq<char>,
    created_at: Seq<char>,
    prompt: Seq<char>,
)
    ensures
        ({
            let info = info_model(id, state, cwd, created_at, prompt);
            let meta = meta_model(id, pid, cwd, created_at, prompt);
            &&& info.get("id"@) == Some(JsonModel::Str(id))
            &&& info.get("state"@) == Some(JsonModel::Str(state.name()))
            &&& info.get("cwd"@) == Some(JsonModel::Str(cwd))
            &&& info.get("created_at"@) == Some(JsonModel::Str(created_at))
            &&& info.get("prompt"@) == Some(JsonModel::Str(prompt))
            &&& meta.get("id"@) == Some(JsonModel::Str(id))
            &&& meta.int_at("pid"@) == Some(pid as int)
            &&& meta.get("cwd"@) == Some(JsonModel::Str(cwd))
            &&& meta.get("created_at"@) == Some(JsonModel::Str(created_at))
            &&& meta.get("prompt"@) == Some(JsonModel::Str(prompt))
        }),
{
    reveal_strlit("id");
    reveal_strlit("pid");
    reveal_strlit("cwd");
    reveal_strlit("state");
    reveal_strlit("created_at");
    reveal_strlit("prompt");
    assert("id"@.len() == 2 && "pid"@.len() == 3 && "cwd"@.len() == 3 && "state"@.len() == 5
        && "created_at"@.len() == 10 && "prompt"@.len() == 6);
    assert("pid"@[0] != "cwd"@[0]);
}

/// A session without a prompt shows an empty one.
pub proof fn law_no_prompt_is_an_empty_one(prompt: Seq<char>)
    ensures
        display_prompt(None).len() == 0,
        display_prompt(Some(prompt)) == prompt,
{
}

/// What is handed out waits no more, and everything else stays: the numbers go on, and the blocks
/// keep their places.
pub proof fn law_what_is_handed_out_waits_no_more(s: SessionView)
    ensures
        s.flushed().logged.len() == 0,
        s.flushed().bodies.len() == 0,
        s.flushed().next_seq == s.next_seq,
        s.flushed().next_block_id == s.next_block_id,
        s.flushed().bodies_len == s.bodies_len,
        s.flushed().blocks == s.blocks,
        s.flushed() == (SessionView {
            logged: s.flushed().logged,
            bodies: s.flushed().bodies,
            ..s
        }),
{
}

/// How a session of each agent begins.
pub proof fn law_how_each_agent_begins(
    spawned: SpawnResult,
    prompt: &str,
    typed: Option<&str>,
    cwd: &str,
    dir: &str,
    len: u64,
    resume: Option<&str>,
    binary: &str,
    model: Option<&str>,
    codex: Session,
    kimi: Session,
    opencode: Session,
)
    requires
        call_ensures(Session::new, (spawned, prompt, cwd, dir, len), codex),
        call_ensures(Session::new_kimi, (spawned, typed, cwd, dir, len, resume), kimi),
        call_ensures(
            Session::new_opencode,
            (binary, prompt, cwd, dir, len, resume, model),
            opencode,
        ),
    ensures
        codex.backend == Backend::Codex,
        codex.prompt@ == prompt@,
        codex.pid == spawned.pid && codex.master_fd == spawned.master_fd,
        !codex.awaiting_initial_prompt,
        codex.state == SessionState::Working,
        codex.next_seq == 1 && codex.next_block_id == 1 && codex.read_cursor == 0,
        kimi.backend == Backend::Kimi,
        kimi.awaiting_initial_prompt <==> typed is Some,
        kimi@.kimi_session_id == crate::json::opt_str(resume),
        kimi.pid == spawned.pid && kimi.master_fd == spawned.master_fd,
        kimi.state == SessionState::Working,
        opencode.backend == Backend::Opencode,
        opencode@.opencode_session_id == crate::json::opt_str(resume),
        opencode.opencode_binary is Some && opencode.opencode_binary->0@ == binary@,
        opencode.model is Some <==> model is Some,
        opencode.model is Some ==> opencode.model->0@ == model->0@,
        opencode.state == SessionState::Working,
        codex.cwd@ == cwd@ && kimi.cwd@ == cwd@ && opencode.cwd@ == cwd@,
{
}

} // verus!
