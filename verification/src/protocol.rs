//! What a client asks of the daemon, and how answers look.
use crate::fields::{by_name, items_by_name, lemma_texts_of_array, strings_in, texts_in};
use crate::json::{
    items, json_nat, json_opt_text, json_text, json_texts, lemma_trimmed, members, one_line,
    opt_text, parse_json, parsed, plain, plain_items, plain_members, print_json, printed, put,
    settled, text_array, text_or_null, Json, JsonModel, Number, DEPTH,
};
use crate::log::formatter::some_number;
use crate::outline::{
    among, is_field, law_what_is_repeated, path_view, path_views, paths, repeated_paths, repeats,
    StepModel,
};
use crate::text::{same, str_trim, strs, texts, trim};
use vstd::prelude::*;

verus! {

/// Which upstream agent this session drives.
///
/// Codex and Kimi are PTY-based TUIs — one long-lived subprocess per
/// session that we drive with keystrokes via `act`. Opencode is a
/// subprocess-per-turn NDJSON backend.
#[derive(Debug, Clone, Copy, PartialEq, Eq, Structural)]
pub enum Backend {
    Codex,
    Opencode,
    Kimi,
}

impl Default for Backend {
    fn default() -> (r: Backend)
        ensures
            r == Backend::Codex,
    {
        Backend::Codex
    }
}

impl Backend {
    /// The name of the backend.
    pub open spec fn name(self) -> Seq<char> {
        match self {
            Backend::Codex => "codex"@,
            Backend::Opencode => "opencode"@,
            Backend::Kimi => "kimi"@,
        }
    }

    /// The name of the backend.
    pub fn as_str(&self) -> (s: &'static str)
        ensures
            s@ == self.name(),
    {
        match self {
            Backend::Codex => "codex",
            Backend::Opencode => "opencode",
            Backend::Kimi => "kimi",
        }
    }

    /// The backend of that name.
    pub fn from_name(name: &str) -> (r: Option<Backend>)
        ensures
            r == backend_named(name@),
    {
        if same(name, "codex") {
            Some(Backend::Codex)
        } else if same(name, "opencode") {
            Some(Backend::Opencode)
        } else if same(name, "kimi") {
            Some(Backend::Kimi)
        } else {
            None
        }
    }
}

/// The backend of that name.
pub open spec fn backend_named(name: Seq<char>) -> Option<Backend> {
    if name == "codex"@ {
        Some(Backend::Codex)
    } else if name == "opencode"@ {
        Some(Backend::Opencode)
    } else if name == "kimi"@ {
        Some(Backend::Kimi)
    } else {
        None
    }
}

/// What a client asks. A timeout is in seconds.
#[derive(Debug)]
pub enum Request {
    Spawn {
        /// Absolute path to the backend binary (codex, opencode, or kimi),
        /// resolved by the client using the client's PATH. The daemon execs
        /// this path directly so its own PATH is irrelevant.
        binary_path: String,
        prompt: Option<String>,
        cwd: Option<String>,
        gui: bool,
        resume: Option<String>,
        /// Which backend to spawn. `Codex` where a client does not say.
        backend: Backend,
        /// Optional opencode model as `provider/model`. When set (opencode
        /// backend only), passed through as `opencode run --model`. `None`
        /// keeps opencode's configured default.
        model: Option<String>,
    },
    List,
    State { session: String, wait: Option<Vec<String>>, timeout: Option<Number> },
    Log {
        session: String,
        follow: bool,
        since: Option<u64>,
        wait: bool,
        timeout: Option<Number>,
    },
    Next { session: String, wait: bool, timeout: Option<Number> },
    Last { session: String },
    Act { session: String, actions: Vec<String> },
    Screen { session: String, clean: bool, raw: bool },
    Expand { session: String, block_ids: Vec<String> },
    Gui { session: String },
    Kill { session: String },
    KillAll,
    GuiAttach { session: String },
    Ping,
}

/// What a request says.
pub enum RequestView {
    Spawn {
        binary_path: Seq<char>,
        prompt: Option<Seq<char>>,
        cwd: Option<Seq<char>>,
        gui: bool,
        resume: Option<Seq<char>>,
        backend: Backend,
        model: Option<Seq<char>>,
    },
    List,
    State {
        session: Seq<char>,
        wait: Option<Seq<Seq<char>>>,
        timeout: Option<JsonModel>,
    },
    Log {
        session: Seq<char>,
        follow: bool,
        since: Option<u64>,
        wait: bool,
        timeout: Option<JsonModel>,
    },
    Next { session: Seq<char>, wait: bool, timeout: Option<JsonModel> },
    Last { session: Seq<char> },
    Act { session: Seq<char>, actions: Seq<Seq<char>> },
    Screen { session: Seq<char>, clean: bool, raw: bool },
    Expand { session: Seq<char>, block_ids: Seq<Seq<char>> },
    Gui { session: Seq<char> },
    Kill { session: Seq<char> },
    KillAll,
    GuiAttach { session: Seq<char> },
    Ping,
}

/// The texts of a list, where there is one.
pub open spec fn opt_texts(lines: Option<Vec<String>>) -> Option<Seq<Seq<char>>> {
    match lines {
        Some(lines) => Some(texts(lines@)),
        None => None,
    }
}

impl View for Request {
    type V = RequestView;

    open spec fn view(&self) -> RequestView {
        match *self {
            Request::Spawn { binary_path, prompt, cwd, gui, resume, backend, model } => {
                RequestView::Spawn {
                    binary_path: binary_path@,
                    prompt: opt_text(prompt),
                    cwd: opt_text(cwd),
                    gui,
                    resume: opt_text(resume),
                    backend,
                    model: opt_text(model),
                }
            },
            Request::List => RequestView::List,
            Request::State { session, wait, timeout } => RequestView::State {
                session: session@,
                wait: opt_texts(wait),
                timeout: some_number(timeout),
            },
            Request::Log { session, follow, since, wait, timeout } => RequestView::Log {
                session: session@,
                follow,
                since,
                wait,
                timeout: some_number(timeout),
            },
            Request::Next { session, wait, timeout } => RequestView::Next {
                session: session@,
                wait,
                timeout: some_number(timeout),
            },
            Request::Last { session } => RequestView::Last { session: session@ },
            Request::Act { session, actions } => RequestView::Act {
                session: session@,
                actions: texts(actions@),
            },
            Request::Screen { session, clean, raw } => RequestView::Screen {
                session: session@,
                clean,
                raw,
            },
            Request::Expand { session, block_ids } => RequestView::Expand {
                session: session@,
                block_ids: texts(block_ids@),
            },
            Request::Gui { session } => RequestView::Gui { session: session@ },
            Request::Kill { session } => RequestView::Kill { session: session@ },
            Request::KillAll => RequestView::KillAll,
            Request::GuiAttach { session } => RequestView::GuiAttach { session: session@ },
            Request::Ping => RequestView::Ping,
        }
    }
}

// ---------------------------------------------------------------------------------------------
// Writing

/// No members but the command.
pub open spec fn command(name: Seq<char>) -> Map<Seq<char>, JsonModel> {
    Map::<Seq<char>, JsonModel>::empty().insert("cmd"@, JsonModel::Str(name))
}

/// The command and the session that it is for.
pub open spec fn command_for(name: Seq<char>, session: Seq<char>) -> Map<Seq<char>, JsonModel> {
    command(name).insert("session"@, JsonModel::Str(session))
}

/// A number, or null where there is none.
pub open spec fn number_or_null(n: Option<JsonModel>) -> JsonModel {
    match n {
        Some(n) => n,
        None => JsonModel::Null,
    }
}

/// An array of strings, or null where there is none.
pub open spec fn texts_or_null(lines: Option<Seq<Seq<char>>>) -> JsonModel {
    match lines {
        Some(lines) => text_array(lines),
        None => JsonModel::Null,
    }
}

/// A natural number, or null where there is none.
pub open spec fn nat_or_null(n: Option<u64>) -> JsonModel {
    match n {
        Some(n) => JsonModel::Nat(n),
        None => JsonModel::Null,
    }
}

/// A request, as it is sent.
pub open spec fn request_model(request: RequestView) -> JsonModel {
    JsonModel::Object(
        match request {
            RequestView::Spawn { binary_path, prompt, cwd, gui, resume, backend, model } => command(
                "spawn"@,
            ).insert("binary_path"@, JsonModel::Str(binary_path)).insert(
                "prompt"@,
                text_or_null(prompt),
            ).insert("cwd"@, text_or_null(cwd)).insert("gui"@, JsonModel::Bool(gui)).insert(
                "resume"@,
                text_or_null(resume),
            ).insert("backend"@, JsonModel::Str(backend.name())).insert(
                "model"@,
                text_or_null(model),
            ),
            RequestView::List => command("list"@),
            RequestView::State { session, wait, timeout } => command_for("state"@, session).insert(
                "wait"@,
                texts_or_null(wait),
            ).insert("timeout"@, number_or_null(timeout)),
            RequestView::Log { session, follow, since, wait, timeout } => command_for(
                "log"@,
                session,
            ).insert("follow"@, JsonModel::Bool(follow)).insert(
                "since"@,
                nat_or_null(since),
            ).insert("wait"@, JsonModel::Bool(wait)).insert("timeout"@, number_or_null(timeout)),
            RequestView::Next { session, wait, timeout } => command_for("next"@, session).insert(
                "wait"@,
                JsonModel::Bool(wait),
            ).insert("timeout"@, number_or_null(timeout)),
            RequestView::Last { session } => command_for("last"@, session),
            RequestView::Act { session, actions } => command_for("act"@, session).insert(
                "actions"@,
                text_array(actions),
            ),
            RequestView::Screen { session, clean, raw } => command_for("screen"@, session).insert(
                "clean"@,
                JsonModel::Bool(clean),
            ).insert("raw"@, JsonModel::Bool(raw)),
            RequestView::Expand { session, block_ids } => command_for("expand"@, session).insert(
                "block_ids"@,
                text_array(block_ids),
            ),
            RequestView::Gui { session } => command_for("gui"@, session),
            RequestView::Kill { session } => command_for("kill"@, session),
            RequestView::KillAll => command("kill_all"@),
            RequestView::GuiAttach { session } => command_for("gui_attach"@, session),
            RequestView::Ping => command("ping"@),
        },
    )
}

/// The members of a request: the command.
fn start(name: &str) -> (m: Vec<(String, Json)>)
    ensures
        members(m@) == command(name@),
{
    let mut m: Vec<(String, Json)> = Vec::new();
    put(&mut m, "cmd", json_text(name));
    m
}

/// The members of a request: the command and the session that it is for.
fn start_for(name: &str, session: &String) -> (m: Vec<(String, Json)>)
    ensures
        members(m@) == command_for(name@, session@),
{
    let mut m = start(name);
    put(&mut m, "session", json_text(session.as_str()));
    m
}

/// A number, or null where there is none.
fn json_opt_number(n: &Option<Number>) -> (r: Json)
    ensures
        r@ == number_or_null(some_number(*n)),
{
    match n {
        Some(Number::Nat(n)) => Json::Number(Number::Nat(*n)),
        Some(Number::Int(n)) => Json::Number(Number::Int(*n)),
        Some(Number::Real(s)) => Json::Number(Number::Real(s.clone())),
        None => Json::Null,
    }
}

impl Request {
    /// The request, as it is sent.
    pub fn to_json(&self) -> (r: Json)
        ensures
            r@ == request_model(self@),
    {
        Json::Object(
            match self {
                Request::Spawn { binary_path, prompt, cwd, gui, resume, backend, model } => {
                    let mut m = start("spawn");
                    put(&mut m, "binary_path", json_text(binary_path.as_str()));
                    put(&mut m, "prompt", json_opt_text(prompt));
                    put(&mut m, "cwd", json_opt_text(cwd));
                    put(&mut m, "gui", Json::Bool(*gui));
                    put(&mut m, "resume", json_opt_text(resume));
                    put(&mut m, "backend", json_text(backend.as_str()));
                    put(&mut m, "model", json_opt_text(model));
                    m
                },
                Request::List => start("list"),
                Request::State { session, wait, timeout } => {
                    let mut m = start_for("state", session);
                    put(
                        &mut m,
                        "wait",
                        match wait {
                            Some(states) => json_texts(states.as_slice()),
                            None => Json::Null,
                        },
                    );
                    put(&mut m, "timeout", json_opt_number(timeout));
                    m
                },
                Request::Log { session, follow, since, wait, timeout } => {
                    let mut m = start_for("log", session);
                    put(&mut m, "follow", Json::Bool(*follow));
                    put(
                        &mut m,
                        "since",
                        match since {
                            Some(n) => json_nat(*n),
                            None => Json::Null,
                        },
                    );
                    put(&mut m, "wait", Json::Bool(*wait));
                    put(&mut m, "timeout", json_opt_number(timeout));
                    m
                },
                Request::Next { session, wait, timeout } => {
                    let mut m = start_for("next", session);
                    put(&mut m, "wait", Json::Bool(*wait));
                    put(&mut m, "timeout", json_opt_number(timeout));
                    m
                },
                Request::Last { session } => start_for("last", session),
                Request::Act { session, actions } => {
                    let mut m = start_for("act", session);
                    put(&mut m, "actions", json_texts(actions.as_slice()));
                    m
                },
                Request::Screen { session, clean, raw } => {
                    let mut m = start_for("screen", session);
                    put(&mut m, "clean", Json::Bool(*clean));
                    put(&mut m, "raw", Json::Bool(*raw));
                    m
                },
                Request::Expand { session, block_ids } => {
                    let mut m = start_for("expand", session);
                    put(&mut m, "block_ids", json_texts(block_ids.as_slice()));
                    m
                },
                Request::Gui { session } => start_for("gui", session),
                Request::Kill { session } => start_for("kill", session),
                Request::KillAll => start("kill_all"),
                Request::GuiAttach { session } => start_for("gui_attach", session),
                Request::Ping => start("ping"),
            },
        )
    }
}

// ---------------------------------------------------------------------------------------------
// Reading

/// The number of a member that may be missing or null.
pub open spec fn may_number(m: JsonModel, name: Seq<char>) -> Option<Option<JsonModel>> {
    match m.get(name) {
        None | Some(JsonModel::Null) => Some(None),
        Some(JsonModel::Nat(n)) => Some(Some(JsonModel::Nat(n))),
        Some(JsonModel::Int(n)) => Some(Some(JsonModel::Int(n))),
        Some(JsonModel::Real(s)) => Some(Some(JsonModel::Real(s))),
        _ => None,
    }
}

/// The texts of a member that has to be there.
pub open spec fn need_texts(m: JsonModel, name: Seq<char>) -> Option<Seq<Seq<char>>> {
    match m.need_items(name) {
        Some(s) => texts_in(s),
        None => None,
    }
}

/// The texts of a member that may be missing or null.
pub open spec fn may_texts(m: JsonModel, name: Seq<char>) -> Option<Option<Seq<Seq<char>>>> {
    match m.get(name) {
        None | Some(JsonModel::Null) => Some(None),
        Some(JsonModel::Array(s)) => match texts_in(s) {
            Some(lines) => Some(Some(lines)),
            None => None,
        },
        _ => None,
    }
}

/// Nothing: null, or an object without members.
pub open spec fn is_nothing(value: JsonModel) -> bool {
    value == JsonModel::Null || value == JsonModel::Object(Map::empty())
}

/// Whether the one member has that name, and nothing under it.
pub open spec fn names_only(m: Map<Seq<char>, JsonModel>, name: Seq<char>) -> bool {
    m.dom() == Set::<Seq<char>>::empty().insert(name) && is_nothing(m[name])
}

/// The backend that a document says: its name, or an object with just that name in it.
pub open spec fn backend_said(value: JsonModel) -> Option<Backend> {
    match value {
        JsonModel::Str(s) => backend_named(s),
        JsonModel::Object(m) => if names_only(m, Backend::Codex.name()) {
            Some(Backend::Codex)
        } else if names_only(m, Backend::Opencode.name()) {
            Some(Backend::Opencode)
        } else if names_only(m, Backend::Kimi.name()) {
            Some(Backend::Kimi)
        } else {
            None
        },
        _ => None,
    }
}

/// The backend of a member that is `codex` where it is missing.
pub open spec fn may_backend(m: JsonModel, name: Seq<char>) -> Option<Backend> {
    match m.get(name) {
        None => Some(Backend::Codex),
        Some(value) => backend_said(value),
    }
}

/// A document that asks for a session to be spawned.
pub open spec fn spawn_said(m: JsonModel) -> Option<RequestView> {
    match (
        m.need_text("binary_path"@),
        m.may_text("prompt"@),
        m.may_text("cwd"@),
        m.may_bool("gui"@),
        m.may_text("resume"@),
        may_backend(m, "backend"@),
        m.may_text("model"@),
    ) {
        (
            Some(binary_path),
            Some(prompt),
            Some(cwd),
            Some(gui),
            Some(resume),
            Some(backend),
            Some(model),
        ) => Some(
            RequestView::Spawn { binary_path, prompt, cwd, gui, resume, backend, model },
        ),
        _ => None,
    }
}

/// A document that asks something of a session.
pub open spec fn session_said(m: JsonModel, cmd: Seq<char>, session: Seq<char>) -> Option<
    RequestView,
> {
    if cmd == "state"@ {
        match (may_texts(m, "wait"@), may_number(m, "timeout"@)) {
            (Some(wait), Some(timeout)) => Some(RequestView::State { session, wait, timeout }),
            _ => None,
        }
    } else if cmd == "log"@ {
        match (
            m.may_bool("follow"@),
            m.may_nat("since"@, u64::MAX),
            m.may_bool("wait"@),
            may_number(m, "timeout"@),
        ) {
            (Some(follow), Some(since), Some(wait), Some(timeout)) => Some(
                RequestView::Log { session, follow, since, wait, timeout },
            ),
            _ => None,
        }
    } else if cmd == "next"@ {
        match (m.may_bool("wait"@), may_number(m, "timeout"@)) {
            (Some(wait), Some(timeout)) => Some(RequestView::Next { session, wait, timeout }),
            _ => None,
        }
    } else if cmd == "last"@ {
        Some(RequestView::Last { session })
    } else if cmd == "act"@ {
        match need_texts(m, "actions"@) {
            Some(actions) => Some(RequestView::Act { session, actions }),
            None => None,
        }
    } else if cmd == "screen"@ {
        match (m.may_bool("clean"@), m.may_bool("raw"@)) {
            (Some(clean), Some(raw)) => Some(RequestView::Screen { session, clean, raw }),
            _ => None,
        }
    } else if cmd == "expand"@ {
        match need_texts(m, "block_ids"@) {
            Some(block_ids) => Some(RequestView::Expand { session, block_ids }),
            None => None,
        }
    } else if cmd == "gui"@ {
        Some(RequestView::Gui { session })
    } else if cmd == "kill"@ {
        Some(RequestView::Kill { session })
    } else if cmd == "gui_attach"@ {
        Some(RequestView::GuiAttach { session })
    } else {
        None
    }
}

/// The names of the fields of a request with that command, in order. The command comes first.
pub open spec fn request_names(cmd: Seq<char>) -> Seq<Seq<char>> {
    if cmd == "spawn"@ {
        seq!["cmd"@, "binary_path"@, "prompt"@, "cwd"@, "gui"@, "resume"@, "backend"@, "model"@]
    } else if cmd == "state"@ {
        seq!["cmd"@, "session"@, "wait"@, "timeout"@]
    } else if cmd == "log"@ {
        seq!["cmd"@, "session"@, "follow"@, "since"@, "wait"@, "timeout"@]
    } else if cmd == "next"@ {
        seq!["cmd"@, "session"@, "wait"@, "timeout"@]
    } else if cmd == "act"@ {
        seq!["cmd"@, "session"@, "actions"@]
    } else if cmd == "screen"@ {
        seq!["cmd"@, "session"@, "clean"@, "raw"@]
    } else if cmd == "expand"@ {
        seq!["cmd"@, "session"@, "block_ids"@]
    } else if cmd == "last"@ || cmd == "gui"@ || cmd == "kill"@ || cmd == "gui_attach"@ {
        seq!["cmd"@, "session"@]
    } else {
        seq!["cmd"@]
    }
}

/// The request that a document says with its fields under their names. Members that the command
/// does not know are passed over.
pub open spec fn request_in(m: JsonModel) -> Option<RequestView> {
    match m.need_text("cmd"@) {
        Some(cmd) => if cmd == "spawn"@ {
            spawn_said(m)
        } else if cmd == "list"@ {
            Some(RequestView::List)
        } else if cmd == "kill_all"@ {
            Some(RequestView::KillAll)
        } else if cmd == "ping"@ {
            Some(RequestView::Ping)
        } else {
            match m.need_text("session"@) {
                Some(session) => session_said(m, cmd, session),
                None => None,
            }
        },
        None => None,
    }
}

/// The command with which an array starts.
pub open spec fn first_text(document: JsonModel) -> Seq<char> {
    match document {
        JsonModel::Array(s) => if s.len() > 0 && s[0] is Str {
            s[0]->Str_0
        } else {
            seq![]
        },
        _ => seq![],
    }
}

/// The request that a document says: an object, or an array of the command and the fields that
/// it has, in order, of which the last may be left out.
pub open spec fn request_said(document: JsonModel) -> Option<RequestView> {
    request_in(by_name(document, request_names(first_text(document)), 1))
}

/// The names of the fields of a request with that command, in order.
fn request_fields(cmd: &str) -> (r: Vec<&'static str>)
    ensures
        strs(r@) == request_names(cmd@),
{
    let r = if same(cmd, "spawn") {
        vec!["cmd", "binary_path", "prompt", "cwd", "gui", "resume", "backend", "model"]
    } else if same(cmd, "state") {
        vec!["cmd", "session", "wait", "timeout"]
    } else if same(cmd, "log") {
        vec!["cmd", "session", "follow", "since", "wait", "timeout"]
    } else if same(cmd, "next") {
        vec!["cmd", "session", "wait", "timeout"]
    } else if same(cmd, "act") {
        vec!["cmd", "session", "actions"]
    } else if same(cmd, "screen") {
        vec!["cmd", "session", "clean", "raw"]
    } else if same(cmd, "expand") {
        vec!["cmd", "session", "block_ids"]
    } else if same(cmd, "last") || same(cmd, "gui") || same(cmd, "kill") || same(cmd, "gui_attach") {
        vec!["cmd", "session"]
    } else {
        vec!["cmd"]
    };
    proof {
        assert(strs(r@) =~= request_names(cmd@));
    }
    r
}

/// What a request says, where there is one.
pub open spec fn request_view(request: Option<Request>) -> Option<RequestView> {
    match request {
        Some(request) => Some(request@),
        None => None,
    }
}

/// The number of a member that may be missing or null.
fn number_in(json: &Json, name: &str) -> (r: Option<Option<Number>>)
    ensures
        match r {
            Some(n) => may_number(json@, name@) == Some(some_number(n)),
            None => may_number(json@, name@) is None,
        },
{
    match json.get(name) {
        None => Some(None),
        Some(Json::Null) => Some(None),
        Some(Json::Number(Number::Nat(n))) => Some(Some(Number::Nat(*n))),
        Some(Json::Number(Number::Int(n))) => Some(Some(Number::Int(*n))),
        Some(Json::Number(Number::Real(s))) => Some(Some(Number::Real(s.clone()))),
        _ => None,
    }
}

/// The texts of a member that has to be there.
fn lines_in(json: &Json, name: &str) -> (r: Option<Vec<String>>)
    ensures
        opt_texts(r) == need_texts(json@, name@),
{
    match json.need_items(name) {
        Some(v) => strings_in(v),
        None => None,
    }
}

/// The texts of a member that may be missing or null.
fn opt_lines_in(json: &Json, name: &str) -> (r: Option<Option<Vec<String>>>)
    ensures
        match r {
            Some(lines) => may_texts(json@, name@) == Some(opt_texts(lines)),
            None => may_texts(json@, name@) is None,
        },
{
    match json.get(name) {
        None => Some(None),
        Some(Json::Null) => Some(None),
        Some(Json::Array(v)) => match strings_in(v) {
            Some(lines) => Some(Some(lines)),
            None => None,
        },
        _ => None,
    }
}

proof fn lemma_has_names(s: Seq<(String, Json)>)
    ensures
        forall|i: int| 0 <= i < s.len() ==> members(s).contains_key((#[trigger] s[i]).0@),
    decreases s.len(),
{
    if s.len() > 0 {
        let rest = s.drop_last();
        lemma_has_names(rest);
        assert forall|i: int| 0 <= i < s.len() implies members(s).contains_key(
            (#[trigger] s[i]).0@,
        ) by {
            if i < rest.len() {
                assert(rest[i] == s[i]);
            }
        }
    }
}

proof fn lemma_one_name(s: Seq<(String, Json)>, name: Seq<char>)
    requires
        s.len() > 0,
        forall|i: int| 0 <= i < s.len() ==> (#[trigger] s[i]).0@ == name,
    ensures
        members(s).dom() == Set::<Seq<char>>::empty().insert(name),
    decreases s.len(),
{
    let rest = s.drop_last();
    assert(s[s.len() - 1].0@ == name);
    if rest.len() > 0 {
        assert forall|i: int| 0 <= i < rest.len() implies (#[trigger] rest[i]).0@ == name by {
            assert(rest[i] == s[i]);
        }
        lemma_one_name(rest, name);
    }
    assert(members(s).dom() =~= Set::<Seq<char>>::empty().insert(name));
}

/// Whether a document is nothing: null, or an object without members.
fn holds_nothing(json: &Json) -> (b: bool)
    ensures
        b == is_nothing(json@),
{
    match json {
        Json::Null => true,
        Json::Object(v) => {
            proof {
                lemma_has_names(v@);
                if v@.len() > 0 {
                    assert(members(v@).contains_key(v@[0].0@));
                }
            }
            v.len() == 0
        },
        _ => false,
    }
}

/// Whether the one member has that name, and nothing under it.
fn holds_only(v: &Vec<(String, Json)>, name: &str) -> (b: bool)
    ensures
        b == names_only(members(v@), name@),
{
    if v.len() == 0 {
        proof {
            let one = Set::<Seq<char>>::empty().insert(name@);
            assert(one.contains(name@));
            assert(!members(v@).dom().contains(name@));
        }
        return false;
    }
    let mut i: usize = 0;
    while i < v.len()
        invariant
            i <= v@.len(),
            forall|j: int| 0 <= j < i ==> (#[trigger] v@[j]).0@ == name@,
        decreases v@.len() - i,
    {
        if !same(v[i].0.as_str(), name) {
            proof {
                lemma_has_names(v@);
                assert(members(v@).dom().contains(v@[i as int].0@));
                assert(!Set::<Seq<char>>::empty().insert(name@).contains(v@[i as int].0@));
            }
            return false;
        }
        i = i + 1;
    }
    proof {
        lemma_one_name(v@, name@);
        assert(v@[v@.len() - 1].0@ == name@);
    }
    holds_nothing(&v[v.len() - 1].1)
}

/// The backend of a member that is `codex` where it is missing.
fn backend_in(json: &Json, name: &str) -> (r: Option<Backend>)
    ensures
        r == may_backend(json@, name@),
{
    match json.get(name) {
        None => Some(Backend::Codex),
        Some(Json::Str(s)) => Backend::from_name(s.as_str()),
        Some(Json::Object(v)) => {
            if holds_only(v, "codex") {
                Some(Backend::Codex)
            } else if holds_only(v, "opencode") {
                Some(Backend::Opencode)
            } else if holds_only(v, "kimi") {
                Some(Backend::Kimi)
            } else {
                None
            }
        },
        _ => None,
    }
}

impl Request {
    /// A document that asks for a session to be spawned.
    fn spawn_from_json(json: &Json) -> (r: Option<Request>)
        ensures
            request_view(r) == spawn_said(json@),
    {
        match (
            json.need_text("binary_path"),
            json.may_text("prompt"),
            json.may_text("cwd"),
            json.may_bool("gui"),
            json.may_text("resume"),
            backend_in(json, "backend"),
            json.may_text("model"),
        ) {
            (
                Some(binary_path),
                Some(prompt),
                Some(cwd),
                Some(gui),
                Some(resume),
                Some(backend),
                Some(model),
            ) => Some(Request::Spawn { binary_path, prompt, cwd, gui, resume, backend, model }),
            _ => None,
        }
    }

    /// A document that asks something of a session.
    fn session_from_json(json: &Json, cmd: &str, session: String) -> (r: Option<Request>)
        ensures
            request_view(r) == session_said(json@, cmd@, session@),
    {
        if same(cmd, "state") {
            match (opt_lines_in(json, "wait"), number_in(json, "timeout")) {
                (Some(wait), Some(timeout)) => Some(Request::State { session, wait, timeout }),
                _ => None,
            }
        } else if same(cmd, "log") {
            match (
                json.may_bool("follow"),
                json.may_nat("since", u64::MAX),
                json.may_bool("wait"),
                number_in(json, "timeout"),
            ) {
                (Some(follow), Some(since), Some(wait), Some(timeout)) => Some(
                    Request::Log { session, follow, since, wait, timeout },
                ),
                _ => None,
            }
        } else if same(cmd, "next") {
            match (json.may_bool("wait"), number_in(json, "timeout")) {
                (Some(wait), Some(timeout)) => Some(Request::Next { session, wait, timeout }),
                _ => None,
            }
        } else if same(cmd, "last") {
            Some(Request::Last { session })
        } else if same(cmd, "act") {
            match lines_in(json, "actions") {
                Some(actions) => Some(Request::Act { session, actions }),
                None => None,
            }
        } else if same(cmd, "screen") {
            match (json.may_bool("clean"), json.may_bool("raw")) {
                (Some(clean), Some(raw)) => Some(Request::Screen { session, clean, raw }),
                _ => None,
            }
        } else if same(cmd, "expand") {
            match lines_in(json, "block_ids") {
                Some(block_ids) => Some(Request::Expand { session, block_ids }),
                None => None,
            }
        } else if same(cmd, "gui") {
            Some(Request::Gui { session })
        } else if same(cmd, "kill") {
            Some(Request::Kill { session })
        } else if same(cmd, "gui_attach") {
            Some(Request::GuiAttach { session })
        } else {
            None
        }
    }

    /// The request that a document says.
    pub fn from_json(json: &Json) -> (r: Option<Request>)
        ensures
            request_view(r) == request_said(json@),
    {
        match json {
            Json::Array(v) => {
                proof {
                    reveal_strlit("");
                    assert(""@ =~= seq![]);
                    if v@.len() > 0 {
                        assert(items(v@)[0] == v@[0].model());
                    }
                }
                let first = if v.len() > 0 {
                    v[0].as_str()
                } else {
                    None
                };
                let cmd = match first {
                    Some(cmd) => cmd,
                    None => "",
                };
                Request::from_members(&items_by_name(v, &request_fields(cmd), 1))
            },
            _ => Request::from_members(json),
        }
    }

    /// The request that a document says with its fields under their names.
    fn from_members(json: &Json) -> (r: Option<Request>)
        ensures
            request_view(r) == request_in(json@),
    {
        match json.need_text("cmd") {
            Some(cmd) => {
                let cmd = cmd.as_str();
                if same(cmd, "spawn") {
                    Request::spawn_from_json(json)
                } else if same(cmd, "list") {
                    Some(Request::List)
                } else if same(cmd, "kill_all") {
                    Some(Request::KillAll)
                } else if same(cmd, "ping") {
                    Some(Request::Ping)
                } else {
                    match json.need_text("session") {
                        Some(session) => Request::session_from_json(json, cmd, session),
                        None => None,
                    }
                }
            },
            None => None,
        }
    }

    /// Whether the answer is a stream of lines and not a single one.
    pub open spec fn streams(self) -> bool {
        match self {
            Request::GuiAttach { .. } => true,
            Request::Log { follow, .. } => follow,
            _ => false,
        }
    }

    /// Whether the answer is a stream of lines and not a single one.
    pub fn is_streaming(&self) -> (b: bool)
        ensures
            b == self.streams(),
    {
        match self {
            Request::GuiAttach { .. } => true,
            Request::Log { follow, .. } => *follow,
            _ => false,
        }
    }
}

impl RequestView {
    /// The command of the request.
    pub open spec fn command(self) -> Seq<char> {
        match self {
            RequestView::Spawn { .. } => "spawn"@,
            RequestView::List => "list"@,
            RequestView::State { .. } => "state"@,
            RequestView::Log { .. } => "log"@,
            RequestView::Next { .. } => "next"@,
            RequestView::Last { .. } => "last"@,
            RequestView::Act { .. } => "act"@,
            RequestView::Screen { .. } => "screen"@,
            RequestView::Expand { .. } => "expand"@,
            RequestView::Gui { .. } => "gui"@,
            RequestView::Kill { .. } => "kill"@,
            RequestView::KillAll => "kill_all"@,
            RequestView::GuiAttach { .. } => "gui_attach"@,
            RequestView::Ping => "ping"@,
        }
    }
}

/// Whether the way leads to a field of a request with that command, or to the name of a backend.
pub open spec fn is_request_field(cmd: Seq<char>, path: Seq<StepModel>) -> bool {
    ||| path.len() == 1 && among(path[0], request_names(cmd))
    ||| path.len() == 2 && cmd == "spawn"@ && is_field(path[0], "backend"@, 6) && path[1] is Name
}

/// Whether a JSON text gives a field of a request with that command twice.
pub open spec fn request_repeats(cmd: Seq<char>, text: Seq<char>) -> bool {
    exists|i: int|
        0 <= i < repeats(text).len() && is_request_field(cmd, #[trigger] repeats(text)[i])
}

/// The request in a JSON text. A text that gives a field twice has none.
pub open spec fn request_of(text: Seq<char>) -> Option<RequestView> {
    match parsed(text) {
        Some(document) => match request_said(document) {
            Some(request) => if request_repeats(request.command(), text) {
                None
            } else {
                Some(request)
            },
            None => None,
        },
        None => None,
    }
}

/// The request on a line that a client sent.
pub open spec fn request_on(line: Seq<char>) -> Option<RequestView> {
    request_of(trim(line))
}

impl Request {
    /// The command of the request.
    fn command(&self) -> (cmd: &'static str)
        ensures
            cmd@ == self@.command(),
    {
        match self {
            Request::Spawn { .. } => "spawn",
            Request::List => "list",
            Request::State { .. } => "state",
            Request::Log { .. } => "log",
            Request::Next { .. } => "next",
            Request::Last { .. } => "last",
            Request::Act { .. } => "act",
            Request::Screen { .. } => "screen",
            Request::Expand { .. } => "expand",
            Request::Gui { .. } => "gui",
            Request::Kill { .. } => "kill",
            Request::KillAll => "kill_all",
            Request::GuiAttach { .. } => "gui_attach",
            Request::Ping => "ping",
        }
    }
}

/// Whether a JSON text gives a field of a request with that command twice.
fn repeats_request_field(cmd: &str, text: &str) -> (b: bool)
    ensures
        b == request_repeats(cmd@, text@),
{
    let again = repeated_paths(text);
    let names = request_fields(cmd);
    let spawns = same(cmd, "spawn");
    let mut i: usize = 0;
    while i < again.len()
        invariant
            i <= again@.len(),
            path_views(again@) == repeats(text@),
            strs(names@) == request_names(cmd@),
            spawns == (cmd@ == "spawn"@),
            forall|j: int| 0 <= j < i ==> !is_request_field(cmd@, #[trigger] repeats(text@)[j]),
        decreases again@.len() - i,
    {
        proof {
            assert(repeats(text@)[i as int] == path_view(again@[i as int]@));
        }
        let path = &again[i];
        if path.len() == 1 && path[0].is_among(&names) {
            return true;
        }
        if path.len() == 2 && spawns && path[0].is_to("backend", 6) && path[1].is_name() {
            return true;
        }
        i = i + 1;
    }
    proof {
        assert(repeats(text@).len() == again@.len());
    }
    false
}

/// The request on a line that a client sent.
pub fn parse_request(line: &str) -> (r: Option<Request>)
    ensures
        request_view(r) == request_on(line@),
{
    let text = str_trim(line);
    match parse_json(text) {
        Some(json) => match Request::from_json(&json) {
            Some(request) => if repeats_request_field(request.command(), text) {
                None
            } else {
                Some(request)
            },
            None => None,
        },
        None => None,
    }
}

// ---------------------------------------------------------------------------------------------
// Answers

/// An answer that says that all is well.
pub open spec fn ok_model() -> Map<Seq<char>, JsonModel> {
    Map::<Seq<char>, JsonModel>::empty().insert("ok"@, JsonModel::Bool(true))
}

/// An answer that says what went wrong.
pub open spec fn err_model(msg: Seq<char>) -> JsonModel {
    JsonModel::Object(
        Map::<Seq<char>, JsonModel>::empty().insert("ok"@, JsonModel::Bool(false)).insert(
            "error"@,
            JsonModel::Str(msg),
        ),
    )
}

pub fn ok_json(data: Json) -> (r: Json)
    ensures
        r == data,
{
    data
}

pub fn err_json(msg: &str) -> (r: Json)
    ensures
        r@ == err_model(msg@),
{
    let mut m: Vec<(String, Json)> = Vec::new();
    put(&mut m, "ok", Json::Bool(false));
    put(&mut m, "error", json_text(msg));
    Json::Object(m)
}

/// The members of an answer that says that all is well.
pub fn ok_members() -> (m: Vec<(String, Json)>)
    ensures
        members(m@) == ok_model(),
{
    let mut m: Vec<(String, Json)> = Vec::new();
    put(&mut m, "ok", Json::Bool(true));
    m
}

// ---------------------------------------------------------------------------------------------
// Laws

/// A backend can be told from its name.
pub proof fn law_backend_has_its_name(backend: Backend)
    ensures
        backend_named(backend.name()) == Some(backend),
{
    reveal_strlit("codex");
    reveal_strlit("opencode");
    reveal_strlit("kimi");
    assert("codex"@.len() == 5 && "opencode"@.len() == 8 && "kimi"@.len() == 4);
}

/// The names of the commands differ.
proof fn lemma_command_names()
    ensures
        "spawn"@.len() == 5,
        "state"@.len() == 5,
        "spawn"@ != "state"@,
        "list"@.len() == 4,
        "next"@.len() == 4,
        "last"@.len() == 4,
        "kill"@.len() == 4,
        "ping"@.len() == 4,
        "list"@ != "next"@,
        "list"@ != "last"@,
        "list"@ != "kill"@,
        "list"@ != "ping"@,
        "next"@ != "last"@,
        "next"@ != "kill"@,
        "next"@ != "ping"@,
        "last"@ != "kill"@,
        "last"@ != "ping"@,
        "kill"@ != "ping"@,
        "log"@.len() == 3,
        "act"@.len() == 3,
        "gui"@.len() == 3,
        "log"@ != "act"@,
        "log"@ != "gui"@,
        "act"@ != "gui"@,
        "screen"@.len() == 6,
        "expand"@.len() == 6,
        "screen"@ != "expand"@,
        "kill_all"@.len() == 8,
        "gui_attach"@.len() == 10,
{
    reveal_strlit("spawn");
    reveal_strlit("state");
    reveal_strlit("list");
    reveal_strlit("next");
    reveal_strlit("last");
    reveal_strlit("kill");
    reveal_strlit("ping");
    reveal_strlit("log");
    reveal_strlit("act");
    reveal_strlit("gui");
    reveal_strlit("screen");
    reveal_strlit("expand");
    reveal_strlit("kill_all");
    reveal_strlit("gui_attach");
    assert("spawn"@[1] != "state"@[1]);
    assert("list"@[0] == 'l' && "list"@[1] == 'i' && "last"@[0] == 'l' && "last"@[1] == 'a');
    assert("next"@[0] == 'n' && "kill"@[0] == 'k' && "ping"@[0] == 'p');
    assert("log"@[0] == 'l' && "act"@[0] == 'a' && "gui"@[0] == 'g');
    assert("screen"@[0] != "expand"@[0]);
}

/// The names of the members of requests differ where they stand together.
proof fn lemma_member_names()
    ensures
        "cmd"@.len() == 3,
        "cwd"@.len() == 3,
        "gui"@.len() == 3,
        "raw"@.len() == 3,
        "cmd"@ != "cwd"@,
        "cmd"@ != "gui"@,
        "cwd"@ != "gui"@,
        "cmd"@ != "raw"@,
        "session"@.len() == 7,
        "backend"@.len() == 7,
        "timeout"@.len() == 7,
        "actions"@.len() == 7,
        "session"@ != "timeout"@,
        "session"@ != "actions"@,
        "wait"@.len() == 4,
        "since"@.len() == 5,
        "model"@.len() == 5,
        "clean"@.len() == 5,
        "follow"@.len() == 6,
        "prompt"@.len() == 6,
        "resume"@.len() == 6,
        "prompt"@ != "resume"@,
        "binary_path"@.len() == 11,
        "block_ids"@.len() == 9,
{
    reveal_strlit("cmd");
    reveal_strlit("cwd");
    reveal_strlit("gui");
    reveal_strlit("raw");
    reveal_strlit("session");
    reveal_strlit("backend");
    reveal_strlit("timeout");
    reveal_strlit("actions");
    reveal_strlit("wait");
    reveal_strlit("since");
    reveal_strlit("model");
    reveal_strlit("clean");
    reveal_strlit("follow");
    reveal_strlit("prompt");
    reveal_strlit("resume");
    reveal_strlit("binary_path");
    reveal_strlit("block_ids");
    assert("cmd"@[1] == 'm' && "cwd"@[1] == 'w' && "gui"@[1] == 'u' && "raw"@[1] == 'a');
    assert("session"@[0] == 's' && "timeout"@[0] == 't' && "actions"@[0] == 'a');
    assert("prompt"@[0] != "resume"@[0]);
}

/// Whether a timeout is a number, as it is in every request.
pub open spec fn has_numbers(request: RequestView) -> bool {
    match request {
        RequestView::State { timeout, .. } => is_number(timeout),
        RequestView::Log { timeout, .. } => is_number(timeout),
        RequestView::Next { timeout, .. } => is_number(timeout),
        _ => true,
    }
}

/// A number, or nothing.
pub open spec fn is_number(n: Option<JsonModel>) -> bool {
    match n {
        None | Some(JsonModel::Nat(_)) | Some(JsonModel::Int(_)) | Some(JsonModel::Real(_)) => true,
        _ => false,
    }
}

/// A request is understood as it was meant.
#[verifier::rlimit(40)]
pub proof fn law_request_round_trip(request: RequestView)
    requires
        has_numbers(request),
    ensures
        request_said(request_model(request)) == Some(request),
{
    lemma_command_names();
    lemma_member_names();
    let m = request_model(request);
    match request {
        RequestView::Spawn { backend, .. } => {
            law_backend_has_its_name(backend);
            assert(m.need_text("cmd"@) == Some("spawn"@));
            assert(spawn_said(m) == Some(request));
        },
        RequestView::State { session, wait, timeout } => {
            if let Some(lines) = wait {
                lemma_texts_of_array(lines);
            }
            assert(m.need_text("cmd"@) == Some("state"@));
            assert(m.need_text("session"@) == Some(session));
        },
        RequestView::Log { session, .. } => {
            assert(m.need_text("cmd"@) == Some("log"@));
            assert(m.need_text("session"@) == Some(session));
        },
        RequestView::Next { session, .. } => {
            assert(m.need_text("cmd"@) == Some("next"@));
            assert(m.need_text("session"@) == Some(session));
        },
        RequestView::Last { session } => {
            assert(m.need_text("cmd"@) == Some("last"@));
            assert(m.need_text("session"@) == Some(session));
        },
        RequestView::Act { session, actions } => {
            lemma_texts_of_array(actions);
            assert(m.need_text("cmd"@) == Some("act"@));
            assert(m.need_text("session"@) == Some(session));
        },
        RequestView::Screen { session, .. } => {
            assert(m.need_text("cmd"@) == Some("screen"@));
            assert(m.need_text("session"@) == Some(session));
        },
        RequestView::Expand { session, block_ids } => {
            lemma_texts_of_array(block_ids);
            assert(m.need_text("cmd"@) == Some("expand"@));
            assert(m.need_text("session"@) == Some(session));
        },
        RequestView::Gui { session } => {
            assert(m.need_text("cmd"@) == Some("gui"@));
            assert(m.need_text("session"@) == Some(session));
        },
        RequestView::Kill { session } => {
            assert(m.need_text("cmd"@) == Some("kill"@));
            assert(m.need_text("session"@) == Some(session));
        },
        RequestView::GuiAttach { session } => {
            assert(m.need_text("cmd"@) == Some("gui_attach"@));
            assert(m.need_text("session"@) == Some(session));
        },
        RequestView::List => {
            assert(m.need_text("cmd"@) == Some("list"@));
        },
        RequestView::KillAll => {
            assert(m.need_text("cmd"@) == Some("kill_all"@));
        },
        RequestView::Ping => {
            assert(m.need_text("cmd"@) == Some("ping"@));
        },
    }
}

/// A document that asks for a session without naming the program to run is refused, and one
/// that does not say which agent to run gets codex.
pub proof fn law_spawn_defaults(m: JsonModel)
    requires
        m.need_text("cmd"@) == Some("spawn"@),
    ensures
        m.get("binary_path"@) is None ==> request_said(m) is None,
        m.get("backend"@) is None ==> match request_said(m) {
            Some(RequestView::Spawn { backend, .. }) => backend == Backend::Codex,
            Some(_) => false,
            None => true,
        },
{
}

/// Whether a timeout, where there is one, is an integer, in the form in which it is read.
pub open spec fn has_integers(request: RequestView) -> bool {
    match request {
        RequestView::State { timeout, .. } => is_integer(timeout),
        RequestView::Log { timeout, .. } => is_integer(timeout),
        RequestView::Next { timeout, .. } => is_integer(timeout),
        _ => true,
    }
}

/// An integer, or nothing.
pub open spec fn is_integer(n: Option<JsonModel>) -> bool {
    match n {
        None | Some(JsonModel::Nat(_)) => true,
        Some(JsonModel::Int(n)) => n < 0,
        _ => false,
    }
}

proof fn lemma_texts_plain(lines: Seq<Seq<char>>, depth: nat)
    requires
        depth > 0,
    ensures
        plain(text_array(lines), depth),
{
    let s = Seq::new(lines.len(), |i: int| JsonModel::Str(lines[i]));
    assert(plain_items(s, (depth - 1) as nat));
}

/// A request whose numbers are integers is plain.
proof fn lemma_request_plain(request: RequestView, depth: nat)
    requires
        depth > 1,
        has_integers(request),
    ensures
        plain(request_model(request), depth),
{
    let m = request_model(request)->Object_0;
    let below = (depth - 1) as nat;
    match request {
        RequestView::State { wait: Some(lines), .. } => {
            lemma_texts_plain(lines, below);
        },
        RequestView::Act { actions, .. } => {
            lemma_texts_plain(actions, below);
        },
        RequestView::Expand { block_ids, .. } => {
            lemma_texts_plain(block_ids, below);
        },
        _ => {},
    }
    assert forall|name: Seq<char>| m.contains_key(name) implies plain(
        #[trigger] m[name],
        below,
    ) by {}
    assert(plain_members(m, below));
}

impl Request {
    /// The line that sends the request. It is understood as it was meant where its numbers are
    /// integers.
    pub fn to_line(&self) -> (r: String)
        ensures
            r@ == printed(settled(request_model(self@))),
            one_line(r@),
            has_integers(self@) ==> r@ == printed(request_model(self@)) && request_on(r@) == Some(
                self@,
            ),
    {
        let line = print_json(&self.to_json());
        proof {
            lemma_trimmed(line@);
            if has_integers(self@) {
                lemma_request_plain(self@, DEPTH as nat);
                law_request_round_trip(self@);
            }
        }
        line
    }
}

/// What a refusal says: that it is one, and why.
pub proof fn law_what_a_refusal_says(why: Seq<char>)
    ensures
        err_model(why).get("ok"@) == Some(JsonModel::Bool(false)),
        err_model(why).get("error"@) == Some(JsonModel::Str(why)),
        ok_model().contains_key("ok"@) && ok_model()["ok"@] == JsonModel::Bool(true),
{
    reveal_strlit("ok");
    reveal_strlit("error");
    assert("ok"@.len() == 2 && "error"@.len() == 5);
}

/// Under which command a request is sent, and for which session.
pub proof fn law_how_a_request_is_sent(request: RequestView)
    ensures
        ({
            let m = request_model(request);
            match request {
                RequestView::Spawn { .. } => m.get("cmd"@) == Some(JsonModel::Str("spawn"@)),
                RequestView::List => m.get("cmd"@) == Some(JsonModel::Str("list"@)),
                RequestView::State { session, .. } => {
                    &&& m.get("cmd"@) == Some(JsonModel::Str("state"@))
                    &&& m.get("session"@) == Some(JsonModel::Str(session))
                },
                RequestView::Log { session, .. } => {
                    &&& m.get("cmd"@) == Some(JsonModel::Str("log"@))
                    &&& m.get("session"@) == Some(JsonModel::Str(session))
                },
                RequestView::Next { session, .. } => {
                    &&& m.get("cmd"@) == Some(JsonModel::Str("next"@))
                    &&& m.get("session"@) == Some(JsonModel::Str(session))
                },
                RequestView::Last { session, .. } => {
                    &&& m.get("cmd"@) == Some(JsonModel::Str("last"@))
                    &&& m.get("session"@) == Some(JsonModel::Str(session))
                },
                RequestView::Act { session, .. } => {
                    &&& m.get("cmd"@) == Some(JsonModel::Str("act"@))
                    &&& m.get("session"@) == Some(JsonModel::Str(session))
                },
                RequestView::Screen { session, .. } => {
                    &&& m.get("cmd"@) == Some(JsonModel::Str("screen"@))
                    &&& m.get("session"@) == Some(JsonModel::Str(session))
                },
                RequestView::Expand { session, .. } => {
                    &&& m.get("cmd"@) == Some(JsonModel::Str("expand"@))
                    &&& m.get("session"@) == Some(JsonModel::Str(session))
                },
                RequestView::Gui { session, .. } => {
                    &&& m.get("cmd"@) == Some(JsonModel::Str("gui"@))
                    &&& m.get("session"@) == Some(JsonModel::Str(session))
                },
                RequestView::Kill { session, .. } => {
                    &&& m.get("cmd"@) == Some(JsonModel::Str("kill"@))
                    &&& m.get("session"@) == Some(JsonModel::Str(session))
                },
                RequestView::KillAll => m.get("cmd"@) == Some(JsonModel::Str("kill_all"@)),
                RequestView::GuiAttach { session, .. } => {
                    &&& m.get("cmd"@) == Some(JsonModel::Str("gui_attach"@))
                    &&& m.get("session"@) == Some(JsonModel::Str(session))
                },
                RequestView::Ping => m.get("cmd"@) == Some(JsonModel::Str("ping"@)),
            }
        }),
{
    lemma_member_names();
}

/// Under which names the rest of a request is sent.
pub proof fn law_what_a_request_sends(request: RequestView)
    ensures
        ({
            let m = request_model(request);
            match request {
                RequestView::Spawn { binary_path, prompt, cwd, gui, resume, backend, model } => {
                    &&& m.get("binary_path"@) == Some(JsonModel::Str(binary_path))
                    &&& m.get("prompt"@) == Some(text_or_null(prompt))
                    &&& m.get("cwd"@) == Some(text_or_null(cwd))
                    &&& m.get("gui"@) == Some(JsonModel::Bool(gui))
                    &&& m.get("resume"@) == Some(text_or_null(resume))
                    &&& m.get("backend"@) == Some(JsonModel::Str(backend.name()))
                    &&& m.get("model"@) == Some(text_or_null(model))
                },
                RequestView::State { wait, timeout, .. } => {
                    &&& wait is None ==> m.get("wait"@) == Some(JsonModel::Null)
                    &&& wait is Some ==> m.get("wait"@) == Some(text_array(wait->0))
                    &&& m.get("timeout"@) == Some(number_or_null(timeout))
                },
                RequestView::Log { follow, since, wait, timeout, .. } => {
                    &&& m.get("follow"@) == Some(JsonModel::Bool(follow))
                    &&& since is None ==> m.get("since"@) == Some(JsonModel::Null)
                    &&& since is Some ==> m.get("since"@) == Some(JsonModel::Nat(since->0))
                    &&& m.get("wait"@) == Some(JsonModel::Bool(wait))
                    &&& m.get("timeout"@) == Some(number_or_null(timeout))
                },
                RequestView::Next { wait, timeout, .. } => {
                    &&& m.get("wait"@) == Some(JsonModel::Bool(wait))
                    &&& m.get("timeout"@) == Some(number_or_null(timeout))
                },
                RequestView::Act { actions, .. } => m.get("actions"@) == Some(text_array(actions)),
                RequestView::Screen { clean, raw, .. } => {
                    &&& m.get("clean"@) == Some(JsonModel::Bool(clean))
                    &&& m.get("raw"@) == Some(JsonModel::Bool(raw))
                },
                RequestView::Expand { block_ids, .. } => m.get("block_ids"@) == Some(
                    text_array(block_ids),
                ),
                _ => true,
            }
        }),
{
    lemma_member_names();
}

/// The agents have these names.
pub proof fn law_the_three_agents(text: Seq<char>)
    ensures
        Backend::Codex.name() == "codex"@,
        Backend::Opencode.name() == "opencode"@,
        Backend::Kimi.name() == "kimi"@,
        backend_named(text) == Some(Backend::Codex) <==> text == "codex"@,
        backend_named(text) == Some(Backend::Opencode) <==> text == "opencode"@,
        backend_named(text) == Some(Backend::Kimi) <==> text == "kimi"@,
{
    reveal_strlit("codex");
    reveal_strlit("opencode");
    reveal_strlit("kimi");
    assert("codex"@.len() == 5 && "opencode"@.len() == 8 && "kimi"@.len() == 4);
}

/// Only what goes on is streamed: a log that is followed, and a window.
pub proof fn law_what_is_streamed(request: &Request, b: bool)
    requires
        call_ensures(Request::is_streaming, (request,), b),
    ensures
        b <==> *request is GuiAttach || (*request is Log && (*request)->Log_follow),
{
}

/// What is taken for granted in a request: nothing is waited for, followed, cut or raw that is not
/// asked for.
pub proof fn law_what_a_request_may_leave_out(cmd: Seq<char>, session: Seq<char>)
    ensures
        ({
            let said = request_said(
                JsonModel::Object(
                    Map::<Seq<char>, JsonModel>::empty().insert(
                        "cmd"@,
                        JsonModel::Str(cmd),
                    ).insert("session"@, JsonModel::Str(session)),
                ),
            );
            &&& cmd == "state"@ ==> said == Some(
                RequestView::State { session, wait: None, timeout: None },
            )
            &&& cmd == "log"@ ==> said == Some(
                RequestView::Log {
                    session,
                    follow: false,
                    since: None,
                    wait: false,
                    timeout: None,
                },
            )
            &&& cmd == "next"@ ==> said == Some(
                RequestView::Next { session, wait: false, timeout: None },
            )
            &&& cmd == "screen"@ ==> said == Some(
                RequestView::Screen { session, clean: false, raw: false },
            )
            &&& cmd == "act"@ || cmd == "expand"@ || cmd == "spawn"@ ==> said is None
        }),
{
    lemma_command_names();
    lemma_member_names();
}

/// In which order the fields of a request stand in an array.
pub proof fn law_the_order_of_a_request(
    session: Seq<char>,
    flag: bool,
    other: bool,
    number: u64,
    seconds: u64,
    path: Seq<char>,
    a: Seq<char>,
    b: Seq<char>,
    c: Seq<char>,
    d: Seq<char>,
    backend: Backend,
)
    ensures
        request_said(
            JsonModel::Array(
                seq![
                    JsonModel::Str("log"@),
                    JsonModel::Str(session),
                    JsonModel::Bool(flag),
                    JsonModel::Nat(number),
                    JsonModel::Bool(other),
                    JsonModel::Nat(seconds),
                ],
            ),
        ) == Some(
            RequestView::Log {
                session,
                follow: flag,
                since: Some(number),
                wait: other,
                timeout: Some(JsonModel::Nat(seconds)),
            },
        ),
        request_said(
            JsonModel::Array(
                seq![
                    JsonModel::Str("screen"@),
                    JsonModel::Str(session),
                    JsonModel::Bool(flag),
                    JsonModel::Bool(other),
                ],
            ),
        ) == Some(RequestView::Screen { session, clean: flag, raw: other }),
        request_said(
            JsonModel::Array(
                seq![
                    JsonModel::Str("spawn"@),
                    JsonModel::Str(path),
                    JsonModel::Str(a),
                    JsonModel::Str(b),
                    JsonModel::Bool(flag),
                    JsonModel::Str(c),
                    JsonModel::Str(backend.name()),
                    JsonModel::Str(d),
                ],
            ),
        ) == Some(
            RequestView::Spawn {
                binary_path: path,
                prompt: Some(a),
                cwd: Some(b),
                gui: flag,
                resume: Some(c),
                backend,
                model: Some(d),
            },
        ),
{
    lemma_command_names();
    lemma_member_names();
    law_backend_has_its_name(backend);
    let log = seq![
        JsonModel::Str("log"@),
        JsonModel::Str(session),
        JsonModel::Bool(flag),
        JsonModel::Nat(number),
        JsonModel::Bool(other),
        JsonModel::Nat(seconds),
    ];
    reveal_with_fuel(crate::fields::named_to, 9);
    let m = by_name(JsonModel::Array(log), request_names("log"@), 1);
    assert(m.need_text("cmd"@) == Some("log"@));
    assert(m.need_text("session"@) == Some(session));
    let screen = seq![
        JsonModel::Str("screen"@),
        JsonModel::Str(session),
        JsonModel::Bool(flag),
        JsonModel::Bool(other),
    ];
    let m = by_name(JsonModel::Array(screen), request_names("screen"@), 1);
    assert(m.need_text("cmd"@) == Some("screen"@));
    assert(m.need_text("session"@) == Some(session));
    let spawn = seq![
        JsonModel::Str("spawn"@),
        JsonModel::Str(path),
        JsonModel::Str(a),
        JsonModel::Str(b),
        JsonModel::Bool(flag),
        JsonModel::Str(c),
        JsonModel::Str(backend.name()),
        JsonModel::Str(d),
    ];
    let m = by_name(JsonModel::Array(spawn), request_names("spawn"@), 1);
    assert(m.need_text("cmd"@) == Some("spawn"@));
    assert(m.need_text("binary_path"@) == Some(path));
    assert(m.may_text("prompt"@) == Some(Some(a)));
    assert(m.may_text("cwd"@) == Some(Some(b)));
    assert(m.may_bool("gui"@) == Some(flag));
    assert(m.may_text("resume"@) == Some(Some(c)));
    assert(m.may_text("model"@) == Some(Some(d)));
    assert(may_backend(m, "backend"@) == Some(backend));
}

/// A text that gives the command twice, or the session of a request that has one, has no request.
pub proof fn law_a_request_is_given_once(text: Seq<char>, name: Seq<char>, i: int, j: int)
    requires
        0 <= i < j < paths(text).len(),
        paths(text)[i] == seq![StepModel::Name(name)],
        paths(text)[j] == seq![StepModel::Name(name)],
    ensures
        name == "cmd"@ ==> request_of(text) is None,
        name == "session"@ ==> match request_of(text) {
            None | Some(RequestView::Spawn { .. }) | Some(RequestView::List) | Some(
                RequestView::KillAll,
            ) | Some(RequestView::Ping) => true,
            _ => false,
        },
{
    lemma_command_names();
    let path = seq![StepModel::Name(name)];
    law_what_is_repeated(paths(text), path);
    let k = repeats(text).index_of(path);
    assert(repeats(text)[k] == path);
    if let Some(document) = parsed(text) {
        if let Some(request) = request_said(document) {
            let names = request_names(request.command());
            assert(names[0] == "cmd"@);
            if name == "cmd"@ {
                assert(is_request_field(request.command(), path));
            }
            match request {
                RequestView::Spawn { .. } | RequestView::List | RequestView::KillAll
                | RequestView::Ping => {},
                _ => {
                    assert(names[1] == "session"@);
                    if name == "session"@ {
                        assert(is_request_field(request.command(), path));
                    }
                },
            }
        }
    }
}

/// A request that is sent is the one that is received, where its numbers are integers.
pub proof fn law_what_is_sent_is_received(
    request: &Request,
    sent: String,
    line: &str,
    r: Option<Request>,
)
    requires
        call_ensures(Request::to_line, (request,), sent),
        line@ == sent@,
        call_ensures(parse_request, (line,), r),
        has_integers(request@),
    ensures
        request_view(r) == Some(request@),
{
}

/// How an agent may be named in a request: by its name, or by an object with its name and nothing
/// under it. Where none is named it is codex.
pub proof fn law_how_an_agent_is_named(m: Map<Seq<char>, JsonModel>, backend: Backend)
    ensures
        may_backend(JsonModel::Object(Map::empty()), "backend"@) == Some(Backend::Codex),
        backend_said(JsonModel::Str(backend.name())) == Some(backend),
        m == Map::<Seq<char>, JsonModel>::empty().insert(backend.name(), JsonModel::Null)
            ==> backend_said(JsonModel::Object(m)) == Some(backend),
        m.dom().finite() && m.len() != 1 ==> backend_said(JsonModel::Object(m)) is None,
        backend_said(JsonModel::Null) is None,
{
    law_backend_has_its_name(backend);
    law_the_three_agents(backend.name());
    if m == Map::<Seq<char>, JsonModel>::empty().insert(backend.name(), JsonModel::Null) {
        assert(m.dom() =~= Set::<Seq<char>>::empty().insert(backend.name()));
        assert(names_only(m, backend.name()));
        assert forall|other: Backend| other != backend implies !names_only(
            m,
            #[trigger] other.name(),
        ) by {
            law_the_three_agents(other.name());
            assert(m.dom().contains(backend.name()));
        }
    }
}

} // verus!
