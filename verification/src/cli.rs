//! The command line: which request a command makes, and how an answer is shown.
use crate::json::{
    items, opt_text, parse_json, parsed, print_json, print_pretty, printed, printed_pretty,
    settled, text_array, Json, JsonModel, Number,
};
use crate::log::codec::{
    law_how_a_message_is_written, law_message_round_trip, message_model, message_said,
    messages_model,
};
use crate::log::formatter::{
    footer_model, format_footer, format_messages, law_what_a_footer_says, lines_for, some_number,
};
use crate::log::record::{log_views, LogMessage, LogView};
use crate::protocol::{Backend, Request, RequestView};
use crate::session::opencode::push_arg;
use crate::session::screen::{conversation, filter_lines, filtered, strip_ui_chrome};
use crate::text::{lemma_texts_push, same, split, str_split, str_trim, texts, trim};
use vstd::prelude::*;

verus! {

// ---------------------------------------------------------------------------------------------
// Commands

/// What is typed after the program's name. The program to run for `Spawn` was looked up already.
#[derive(Debug)]
pub enum Command {
    Spawn {
        binary_path: String,
        prompt: Option<String>,
        cwd: Option<String>,
        gui: bool,
        resume: Option<String>,
        backend: Backend,
        model: Option<String>,
    },
    List,
    State {
        session: String,
        /// The states to wait for, in one text. There is none where the flag has no value.
        wait: Option<Option<String>>,
        timeout: Option<Number>,
    },
    Log {
        session: String,
        follow: bool,
        since: Option<u64>,
        wait: bool,
        timeout: Option<Number>,
    },
    Next { session: String, wait: bool, timeout: Option<Number> },
    Last { session: String },
    Act { session: String, actions: Vec<String> },
    Screen { session: String, clean: bool, raw: bool },
    Expand { session: String, all: bool, block_ids: Vec<String> },
    Gui { session: String },
    Kill { session: String },
    KillAll,
}

/// The pieces without the white space around them.
pub open spec fn trimmed_pieces(pieces: Seq<Seq<char>>) -> Seq<Seq<char>> {
    Seq::new(pieces.len(), |i: int| trim(pieces[i]))
}

/// The states to wait for: those between commas, or idle and dead where none are named.
pub open spec fn states_in(names: Option<Seq<char>>) -> Seq<Seq<char>> {
    match names {
        Some(text) => if text.len() == 0 {
            seq!["idle"@, "dead"@]
        } else {
            trimmed_pieces(split(text, ','))
        },
        None => seq!["idle"@, "dead"@],
    }
}

/// The request that a command makes. There is none where a session is to be spawned with
/// neither a prompt nor a session to resume.
pub open spec fn request_for(command: Command) -> Option<RequestView> {
    match command {
        Command::Spawn { binary_path, prompt, cwd, gui, resume, backend, model } => if prompt
            is None && resume is None {
            None
        } else {
            Some(
                RequestView::Spawn {
                    binary_path: binary_path@,
                    prompt: opt_text(prompt),
                    cwd: opt_text(cwd),
                    gui,
                    resume: opt_text(resume),
                    backend,
                    model: opt_text(model),
                },
            )
        },
        Command::List => Some(RequestView::List),
        Command::State { session, wait, timeout } => Some(
            RequestView::State {
                session: session@,
                wait: match wait {
                    Some(names) => Some(states_in(opt_text(names))),
                    None => None,
                },
                timeout: some_number(timeout),
            },
        ),
        Command::Log { session, follow, since, wait, timeout } => Some(
            RequestView::Log {
                session: session@,
                follow,
                since,
                wait,
                timeout: some_number(timeout),
            },
        ),
        Command::Next { session, wait, timeout } => Some(
            RequestView::Next { session: session@, wait, timeout: some_number(timeout) },
        ),
        Command::Last { session } => Some(RequestView::Last { session: session@ }),
        Command::Act { session, actions } => Some(
            RequestView::Act { session: session@, actions: texts(actions@) },
        ),
        Command::Screen { session, clean, raw } => Some(
            RequestView::Screen { session: session@, clean, raw },
        ),
        Command::Expand { session, all, block_ids } => Some(
            RequestView::Expand {
                session: session@,
                block_ids: if all {
                    seq!["--all"@]
                } else {
                    texts(block_ids@)
                },
            },
        ),
        Command::Gui { session } => Some(RequestView::Gui { session: session@ }),
        Command::Kill { session } => Some(RequestView::Kill { session: session@ }),
        Command::KillAll => Some(RequestView::KillAll),
    }
}

/// The states to wait for.
fn wait_names(names: Option<String>) -> (r: Vec<String>)
    ensures
        texts(r@) == states_in(opt_text(names)),
{
    let mut out: Vec<String> = Vec::new();
    if let Some(text) = names {
        if !text.as_str().is_empty() {
            let pieces = str_split(text.as_str(), ',');
            let ghost all = trimmed_pieces(texts(pieces@));
            let mut i: usize = 0;
            while i < pieces.len()
                invariant
                    i <= pieces@.len(),
                    all == trimmed_pieces(texts(pieces@)),
                    texts(out@) == all.take(i as int),
                decreases pieces@.len() - i,
            {
                let piece = str_trim(pieces[i].as_str()).to_owned();
                proof {
                    lemma_texts_push(out@, piece);
                    assert(all.take(i + 1) =~= all.take(i as int).push(piece@));
                }
                out.push(piece);
                i = i + 1;
            }
            proof {
                assert(all.take(pieces@.len() as int) =~= all);
            }
            return out;
        }
    }
    push_arg(&mut out, "idle");
    push_arg(&mut out, "dead");
    proof {
        assert(texts(out@) =~= seq!["idle"@, "dead"@]);
    }
    out
}

/// The request that a command makes, or what is wrong with the command.
pub fn build_request(command: Command) -> (r: Result<Request, String>)
    ensures
        match r {
            Ok(request) => request_for(command) == Some(request@),
            Err(e) => request_for(command) is None && e@
                == "error: <PROMPT> is required unless --resume is specified"@,
        },
{
    match command {
        Command::Spawn { binary_path, prompt, cwd, gui, resume, backend, model } => {
            if prompt.is_none() && resume.is_none() {
                return Err(
                    "error: <PROMPT> is required unless --resume is specified".to_owned(),
                );
            }
            Ok(Request::Spawn { binary_path, prompt, cwd, gui, resume, backend, model })
        },
        Command::List => Ok(Request::List),
        Command::State { session, wait, timeout } => {
            let wait = match wait {
                Some(names) => Some(wait_names(names)),
                None => None,
            };
            Ok(Request::State { session, wait, timeout })
        },
        Command::Log { session, follow, since, wait, timeout } => Ok(
            Request::Log { session, follow, since, wait, timeout },
        ),
        Command::Next { session, wait, timeout } => Ok(Request::Next { session, wait, timeout }),
        Command::Last { session } => Ok(Request::Last { session }),
        Command::Act { session, actions } => Ok(Request::Act { session, actions }),
        Command::Screen { session, clean, raw } => Ok(Request::Screen { session, clean, raw }),
        Command::Expand { session, all, block_ids } => {
            let block_ids = if all {
                let mut v: Vec<String> = Vec::new();
                push_arg(&mut v, "--all");
                proof {
                    assert(texts(v@) =~= seq!["--all"@]);
                }
                v
            } else {
                block_ids
            };
            Ok(Request::Expand { session, block_ids })
        },
        Command::Gui { session } => Ok(Request::Gui { session }),
        Command::Kill { session } => Ok(Request::Kill { session }),
        Command::KillAll => Ok(Request::KillAll),
    }
}

// ---------------------------------------------------------------------------------------------
// Answers

/// Whether an answer says that something went wrong.
pub open spec fn is_failure(response: JsonModel) -> bool {
    response.get("ok"@) == Some(JsonModel::Bool(false))
}

/// Whether an answer says that something went wrong.
pub fn failed(response: &Json) -> (b: bool)
    ensures
        b == is_failure(response@),
{
    match response.get("ok") {
        Some(Json::Bool(b)) => !*b,
        _ => false,
    }
}

/// An answer over several lines.
pub open spec fn pretty(response: JsonModel) -> Seq<char> {
    printed_pretty(settled(response))
}

/// The strings among the first `n` items.
pub open spec fn strings_to(s: Seq<JsonModel>, n: int) -> Seq<Seq<char>>
    decreases n,
{
    if n <= 0 {
        seq![]
    } else {
        match s[n - 1] {
            JsonModel::Str(text) => strings_to(s, n - 1).push(text),
            _ => strings_to(s, n - 1),
        }
    }
}

/// The lines that an answer holds.
pub open spec fn lines_said(response: JsonModel) -> Seq<Seq<char>> {
    match response.get("lines"@) {
        Some(JsonModel::Array(s)) => strings_to(s, s.len() as int),
        _ => seq![],
    }
}

/// What is shown of a screen: the lines, tidy, or only the conversation among them.
pub open spec fn screen_shown(response: JsonModel, clean: bool) -> Seq<Seq<char>> {
    let tidy = filtered(lines_said(response));
    if clean {
        conversation(tidy)
    } else {
        tidy
    }
}

/// The strings in an array.
fn strings_among(v: &Vec<Json>) -> (r: Vec<String>)
    ensures
        texts(r@) == strings_to(items(v@), v@.len() as int),
{
    let mut out: Vec<String> = Vec::new();
    let mut i: usize = 0;
    proof {
        assert(texts(out@) =~= strings_to(items(v@), 0));
    }
    while i < v.len()
        invariant
            i <= v@.len(),
            texts(out@) == strings_to(items(v@), i as int),
        decreases v@.len() - i,
    {
        proof {
            assert(items(v@)[i as int] == v@[i as int].model());
        }
        if let Json::Str(s) = &v[i] {
            let line = s.clone();
            proof {
                lemma_texts_push(out@, line);
            }
            out.push(line);
        }
        i = i + 1;
    }
    out
}

/// One line.
fn one(line: String) -> (r: Vec<String>)
    ensures
        texts(r@) == seq![line@],
{
    let mut v: Vec<String> = Vec::new();
    v.push(line);
    proof {
        assert(texts(v@) =~= seq![line@]);
    }
    v
}

/// The lines that show a screen.
pub fn format_screen_output(response: &Json, raw: bool, clean: bool) -> (r: Vec<String>)
    ensures
        texts(r@) == if raw {
            seq![pretty(response@)]
        } else {
            screen_shown(response@, clean)
        },
{
    if raw {
        return one(print_pretty(response));
    }
    let lines = match response.get("lines") {
        Some(Json::Array(v)) => strings_among(v),
        _ => {
            let v: Vec<String> = Vec::new();
            proof {
                assert(texts(v@) =~= seq![]);
            }
            v
        },
    };
    let tidy = filter_lines(lines.as_slice());
    if clean {
        strip_ui_chrome(tidy.as_slice())
    } else {
        tidy
    }
}

/// The messages among the first `n` items. An item that is none is passed over.
pub open spec fn messages_to(s: Seq<JsonModel>, n: int) -> Seq<LogView>
    decreases n,
{
    if n <= 0 {
        seq![]
    } else {
        match message_said(s[n - 1]) {
            Some(m) => messages_to(s, n - 1).push(m),
            None => messages_to(s, n - 1),
        }
    }
}

/// The messages in an array.
fn messages_among(v: &Vec<Json>) -> (r: Vec<LogMessage>)
    ensures
        log_views(r@) == messages_to(items(v@), v@.len() as int),
{
    let mut out: Vec<LogMessage> = Vec::new();
    let mut i: usize = 0;
    proof {
        assert(log_views(out@) =~= messages_to(items(v@), 0));
    }
    while i < v.len()
        invariant
            i <= v@.len(),
            log_views(out@) == messages_to(items(v@), i as int),
        decreases v@.len() - i,
    {
        proof {
            assert(items(v@)[i as int] == v@[i as int].model());
        }
        if let Some(m) = LogMessage::from_json(&v[i]) {
            proof {
                assert(log_views(out@.push(m)) =~= log_views(out@).push(m@));
            }
            out.push(m);
        }
        i = i + 1;
    }
    out
}

/// The state that an answer with messages names.
pub open spec fn state_said(response: JsonModel) -> Seq<char> {
    match response.at("_meta"@).at("state"@).text() {
        Some(state) => state,
        None => match response.at("_state"@).text() {
            Some(state) => state,
            None => "unknown"@,
        },
    }
}

/// The number under that name, where there is one.
pub open spec fn number_said(m: JsonModel, name: Seq<char>) -> Option<JsonModel> {
    match m.at(name) {
        JsonModel::Nat(n) => Some(JsonModel::Nat(n)),
        JsonModel::Int(n) => Some(JsonModel::Int(n)),
        JsonModel::Real(s) => Some(JsonModel::Real(s)),
        _ => None,
    }
}

/// The truth value under that name, where there is one.
pub open spec fn bool_said(m: JsonModel, name: Seq<char>) -> Option<bool> {
    match m.at(name) {
        JsonModel::Bool(b) => Some(b),
        _ => None,
    }
}

/// The number of the last message, or 0.
pub open spec fn last_seq(messages: Seq<LogView>) -> u64 {
    if messages.len() > 0 {
        messages.last().seq
    } else {
        0
    }
}

/// The footer under messages.
pub open spec fn footer_for(response: JsonModel, messages: Seq<LogView>) -> JsonModel {
    let meta = response.at("_meta"@);
    footer_model(
        state_said(response),
        last_seq(messages),
        response.get("_meta"@) is Some,
        number_said(meta, "waited_sec"@),
        bool_said(meta, "timed_out"@),
    )
}

/// The lines that show messages: one or none for each, and the footer.
pub open spec fn messages_shown(response: JsonModel, s: Seq<JsonModel>) -> Seq<Seq<char>> {
    let messages = messages_to(s, s.len() as int);
    lines_for(messages).push(printed(settled(footer_for(response, messages))))
}

/// The lines that show a single message: its text, or all of it where it is of another type.
pub open spec fn message_shown(response: JsonModel, kind: Seq<char>) -> Seq<Seq<char>> {
    let text = response.at("text"@).text();
    if kind == "agent_output"@ {
        match text {
            Some(text) => seq![text],
            None => seq![],
        }
    } else if kind == "block"@ {
        match text {
            Some(text) => seq!["### "@ + text],
            None => seq![],
        }
    } else {
        seq![pretty(response)]
    }
}

/// The lines that show an answer about a log.
pub open spec fn log_shown(response: JsonModel) -> Seq<Seq<char>> {
    match response.get("messages"@) {
        Some(JsonModel::Array(s)) => messages_shown(response, s),
        _ => if is_failure(response) {
            seq![pretty(response)]
        } else {
            match response.at("type"@).text() {
                Some(kind) => message_shown(response, kind).push(
                    printed(
                        settled(
                            footer_model(
                                "unknown"@,
                                response.nat_at("seq"@),
                                false,
                                None,
                                None,
                            ),
                        ),
                    ),
                ),
                None => seq![pretty(response)],
            }
        },
    }
}

/// The number under that name, where there is one.
fn number_at(json: &Json, name: &str) -> (r: Option<Number>)
    ensures
        some_number(r) == number_said(json@, name@),
{
    match json.at(name) {
        Json::Number(Number::Nat(n)) => Some(Number::Nat(*n)),
        Json::Number(Number::Int(n)) => Some(Number::Int(*n)),
        Json::Number(Number::Real(s)) => Some(Number::Real(s.clone())),
        _ => None,
    }
}

/// The truth value under that name, where there is one.
fn bool_at(json: &Json, name: &str) -> (r: Option<bool>)
    ensures
        r == bool_said(json@, name@),
{
    match json.at(name) {
        Json::Bool(b) => Some(*b),
        _ => None,
    }
}

/// The lines that show messages.
fn format_messages_output(response: &Json, v: &Vec<Json>) -> (r: Vec<String>)
    ensures
        texts(r@) == messages_shown(response@, items(v@)),
{
    let messages = messages_among(v);
    let mut lines = format_messages(messages.as_slice());
    let meta = response.at("_meta");
    let state = match meta.at("state").as_str() {
        Some(state) => state,
        None => match response.at("_state").as_str() {
            Some(state) => state,
            None => "unknown",
        },
    };
    let seq: u64 = if messages.len() > 0 {
        proof {
            assert(log_views(messages@).last() == messages@.last()@);
        }
        messages[messages.len() - 1].seq
    } else {
        0
    };
    let waited = response.get("_meta").is_some();
    let footer = format_footer(
        state,
        seq,
        waited,
        number_at(meta, "waited_sec"),
        bool_at(meta, "timed_out"),
    );
    let line = print_json(&footer);
    proof {
        assert(items(v@).len() == v@.len());
        lemma_texts_push(lines@, line);
    }
    lines.push(line);
    lines
}

/// The lines that show a single message.
fn format_message_output(response: &Json, kind: &str) -> (r: Vec<String>)
    ensures
        texts(r@) == message_shown(response@, kind@),
{
    let none: Vec<String> = Vec::new();
    proof {
        assert(texts(none@) =~= seq![]);
    }
    if same(kind, "agent_output") {
        match response.at("text").as_str() {
            Some(text) => one(text.to_owned()),
            None => none,
        }
    } else if same(kind, "block") {
        match response.at("text").as_str() {
            Some(text) => {
                let mut line = "### ".to_owned();
                line.append(text);
                one(line)
            },
            None => none,
        }
    } else {
        one(print_pretty(response))
    }
}

/// The lines that show an answer about a log.
pub fn format_log_output(response: &Json) -> (r: Vec<String>)
    ensures
        texts(r@) == log_shown(response@),
{
    if let Some(Json::Array(v)) = response.get("messages") {
        return format_messages_output(response, v);
    }
    if failed(response) {
        // Error response — print as JSON
        return one(print_pretty(response));
    }
    // Single message (last command)
    match response.at("type").as_str() {
        Some(kind) => {
            let mut lines = format_message_output(response, kind);
            let footer = format_footer("unknown", response.nat_at("seq"), false, None, None);
            let line = print_json(&footer);
            proof {
                lemma_texts_push(lines@, line);
            }
            lines.push(line);
            lines
        },
        None => one(print_pretty(response)),
    }
}

/// The lines that show the answer to a request.
pub open spec fn output_shown(request: Request, response: JsonModel) -> Seq<Seq<char>> {
    match request {
        Request::Log { .. } | Request::Next { .. } | Request::Last { .. } => log_shown(response),
        Request::Screen { raw, clean, .. } => if raw {
            seq![pretty(response)]
        } else {
            screen_shown(response, clean)
        },
        _ => seq![pretty(response)],
    }
}

/// The lines that show the answer to a request.
pub fn format_output(request: &Request, response: &Json) -> (r: Vec<String>)
    ensures
        texts(r@) == output_shown(*request, response@),
{
    match request {
        // Text format: markdown-like + JSON footer
        Request::Log { .. } => format_log_output(response),
        Request::Next { .. } => format_log_output(response),
        Request::Last { .. } => format_log_output(response),
        Request::Screen { raw, clean, .. } => format_screen_output(response, *raw, *clean),
        // JSON output
        _ => one(print_pretty(response)),
    }
}

// ---------------------------------------------------------------------------------------------
// Streams

/// What is shown of a message in a stream that came on a line: its text or its change of state,
/// or the line itself where the message is of another type.
pub open spec fn streamed(line: Seq<char>, msg: JsonModel) -> Option<Seq<char>> {
    let text = msg.at("text"@).text();
    match msg.at("type"@).text() {
        Some(kind) => if kind == "agent_output"@ || kind == "status"@ {
            text
        } else if kind == "block"@ {
            match text {
                Some(text) => Some("### "@ + text),
                None => None,
            }
        } else if kind == "state_change"@ {
            match (msg.at("state_from"@).text(), msg.at("state_to"@).text()) {
                (Some(from), Some(to)) => Some("[state: "@ + from + " → "@ + to + "]"@),
                _ => None,
            }
        } else {
            Some(trim(line))
        },
        None => Some(trim(line)),
    }
}

/// The text of a string slice, where there is one, as a string of its own.
fn owned(text: Option<&str>) -> (r: Option<String>)
    ensures
        opt_text(r) == crate::json::opt_str(text),
{
    match text {
        Some(s) => Some(s.to_owned()),
        None => None,
    }
}

/// What is shown of a message in a stream that came on a line.
pub fn format_streamed(line: &str, msg: &Json) -> (r: Option<String>)
    ensures
        opt_text(r) == streamed(line@, msg@),
{
    let text = msg.at("text").as_str();
    match msg.at("type").as_str() {
        Some(kind) => {
            if same(kind, "agent_output") || same(kind, "status") {
                owned(text)
            } else if same(kind, "block") {
                match text {
                    Some(text) => {
                        let mut out = "### ".to_owned();
                        out.append(text);
                        Some(out)
                    },
                    None => None,
                }
            } else if same(kind, "state_change") {
                match (msg.at("state_from").as_str(), msg.at("state_to").as_str()) {
                    (Some(from), Some(to)) => {
                        let mut out = "[state: ".to_owned();
                        out.append(from);
                        out.append(" → ");
                        out.append(to);
                        out.append("]");
                        Some(out)
                    },
                    _ => None,
                }
            } else {
                Some(str_trim(line).to_owned())
            }
        },
        None => Some(str_trim(line).to_owned()),
    }
}

/// What is shown of a line of a stream. A line that is no JSON is an error.
pub fn format_stream_line(line: &str) -> (r: Result<Option<String>, ()>)
    ensures
        match r {
            Ok(text) => parsed(trim(line@)) is Some && opt_text(text) == streamed(
                line@,
                parsed(trim(line@))->0,
            ),
            Err(_) => parsed(trim(line@)) is None,
        },
{
    match parse_json(str_trim(line)) {
        Some(msg) => Ok(format_streamed(line, &msg)),
        None => Err(()),
    }
}

// ---------------------------------------------------------------------------------------------
// Laws

/// What a command asks for: the request of the same name with what the command was given. To spawn
/// without a prompt and without a session to resume is refused, and nothing else is.
pub proof fn law_a_command_asks_for_what_it_says(command: Command, r: Result<Request, String>)
    requires
        call_ensures(build_request, (command,), r),
    ensures
        r is Err <==> command is Spawn && command->Spawn_prompt is None && command->Spawn_resume
            is None,
        r matches Ok(request) ==> match command {
            Command::Spawn { binary_path, prompt, cwd, gui, resume, backend, model } => request@
                == (RequestView::Spawn {
                binary_path: binary_path@,
                prompt: opt_text(prompt),
                cwd: opt_text(cwd),
                gui,
                resume: opt_text(resume),
                backend,
                model: opt_text(model),
            }),
            Command::List => request@ == RequestView::List,
            Command::KillAll => request@ == RequestView::KillAll,
            Command::State { session, wait, timeout } => {
                &&& request@ matches RequestView::State { session: s, wait: w, timeout: t }
                &&& s == session@
                &&& t == some_number(timeout)
                &&& w is None <==> wait is None
            },
            Command::Log { session, follow, since, wait, timeout } => request@
                == (RequestView::Log {
                session: session@,
                follow,
                since,
                wait,
                timeout: some_number(timeout),
            }),
            Command::Next { session, wait, timeout } => request@ == (RequestView::Next {
                session: session@,
                wait,
                timeout: some_number(timeout),
            }),
            Command::Last { session } => request@ == (RequestView::Last { session: session@ }),
            Command::Act { session, actions } => request@ == (RequestView::Act {
                session: session@,
                actions: texts(actions@),
            }),
            Command::Screen { session, clean, raw } => request@ == (RequestView::Screen {
                session: session@,
                clean,
                raw,
            }),
            Command::Expand { session, all, block_ids } => {
                &&& request@ is Expand
                &&& request@->Expand_session == session@
                &&& all ==> request@->Expand_block_ids == seq!["--all"@]
                &&& !all ==> request@->Expand_block_ids == texts(block_ids@)
            },
            Command::Gui { session } => request@ == (RequestView::Gui { session: session@ }),
            Command::Kill { session } => request@ == (RequestView::Kill { session: session@ }),
        },
{
}

/// Which states a command waits for: those between the commas, without the white space around
/// them, and where none are named, until the agent is idle or dead.
pub proof fn law_which_states_are_waited_for(text: Seq<char>)
    ensures
        states_in(None) == seq!["idle"@, "dead"@],
        states_in(Some(seq![])) == seq!["idle"@, "dead"@],
        text.len() > 0 ==> states_in(Some(text)).len() == split(text, ',').len() && forall|i: int|
            0 <= i < states_in(Some(text)).len() ==> #[trigger] states_in(Some(text))[i] == trim(
                split(text, ',')[i],
            ),
{
}

/// An answer is a failure just where it says that all is not well.
pub proof fn law_what_is_a_failure(response: &Json, b: bool)
    requires
        call_ensures(failed, (response,), b),
    ensures
        b <==> response@.get("ok"@) == Some(JsonModel::Bool(false)),
{
}

/// How an answer is shown. Messages are shown by their lines. A screen is shown by its lines,
/// tidied, and cut to the conversation where that is asked for. Anything else, and a screen that is
/// asked for raw, is shown as it is.
pub proof fn law_how_an_answer_is_shown(request: Request, response: JsonModel)
    ensures
        ({
            let shown = output_shown(request, response);
            let lines = filtered(lines_said(response));
            match request {
                Request::Log { .. } | Request::Next { .. } | Request::Last { .. } => shown
                    == log_shown(response),
                Request::Screen { raw, clean, .. } => {
                    &&& raw ==> shown == seq![printed_pretty(settled(response))]
                    &&& !raw && clean ==> shown == conversation(lines)
                    &&& !raw && !clean ==> shown == lines
                },
                _ => shown == seq![printed_pretty(settled(response))],
            }
        }),
{
}

/// The lines of a screen are the texts in the answer, in order.
pub proof fn law_the_lines_of_a_screen(response: JsonModel, lines: Seq<Seq<char>>)
    requires
        response.get("lines"@) == Some(text_array(lines)),
    ensures
        lines_said(response) == lines,
{
    lemma_strings(lines, lines.len() as int);
    assert(lines.take(lines.len() as int) =~= lines);
}

proof fn lemma_strings(lines: Seq<Seq<char>>, n: int)
    requires
        0 <= n <= lines.len(),
    ensures
        strings_to(text_array(lines)->Array_0, n) == lines.take(n),
    decreases n,
{
    if n > 0 {
        lemma_strings(lines, n - 1);
        assert(lines.take(n) =~= lines.take(n - 1).push(lines[n - 1]));
    } else {
        assert(lines.take(0) =~= seq![]);
    }
}

/// How messages are shown: by their lines, with a footer behind them that says the state, the
/// number of the last message and how a wait went.
pub proof fn law_how_messages_are_shown(response: JsonModel, messages: Seq<LogView>)
    requires
        response.get("messages"@) == Some(messages_model(messages)),
    ensures
        ({
            let shown = log_shown(response);
            let footer = footer_for(response, messages);
            &&& shown == lines_for(messages).push(printed(settled(footer)))
            &&& messages.len() > 0 ==> footer.get("seq"@) == Some(
                JsonModel::Nat(messages.last().seq),
            )
            &&& messages.len() == 0 ==> footer.get("seq"@) == Some(JsonModel::Nat(0))
            &&& match (response.get("_meta"@), response.get("_state"@)) {
                (None, Some(JsonModel::Str(state))) => footer.get("state"@) == Some(
                    JsonModel::Str(state),
                ) && footer.get("waited"@) is None,
                _ => true,
            }
        }),
{
    lemma_messages(messages, messages.len() as int);
    assert(messages.take(messages.len() as int) =~= messages);
    law_what_a_footer_says(
        state_said(response),
        last_seq(messages),
        response.get("_meta"@) is Some,
        number_said(response.at("_meta"@), "waited_sec"@),
        bool_said(response.at("_meta"@), "timed_out"@),
    );
}

proof fn lemma_messages(messages: Seq<LogView>, n: int)
    requires
        0 <= n <= messages.len(),
    ensures
        messages_to(messages_model(messages)->Array_0, n) == messages.take(n),
    decreases n,
{
    if n > 0 {
        lemma_messages(messages, n - 1);
        law_message_round_trip(messages[n - 1]);
        assert(messages.take(n) =~= messages.take(n - 1).push(messages[n - 1]));
    } else {
        assert(messages.take(0) =~= seq![]);
    }
}

/// After a wait the footer says in which state it ended, how long it took and whether it timed
/// out.
pub proof fn law_a_footer_tells_of_a_wait(
    response: JsonModel,
    messages: Seq<LogView>,
    meta: JsonModel,
    state: Seq<char>,
    seconds: Seq<char>,
    late: bool,
)
    requires
        response.get("_meta"@) == Some(meta),
        meta.get("state"@) == Some(JsonModel::Str(state)),
        meta.get("waited_sec"@) == Some(JsonModel::Real(seconds)),
        meta.get("timed_out"@) == Some(JsonModel::Bool(late)),
    ensures
        ({
            let footer = footer_for(response, messages);
            &&& footer.get("state"@) == Some(JsonModel::Str(state))
            &&& footer.get("waited"@) == Some(JsonModel::Bool(true))
            &&& footer.get("waited_sec"@) == Some(JsonModel::Real(seconds))
            &&& footer.get("timed_out"@) == Some(JsonModel::Bool(late))
        }),
{
    law_what_a_footer_says(
        state_said(response),
        last_seq(messages),
        true,
        number_said(meta, "waited_sec"@),
        bool_said(meta, "timed_out"@),
    );
}

/// How a streamed message reads: as in a log, where it is of a type that is known there, and
/// otherwise as its line stands.
pub proof fn law_how_a_stream_reads(line: Seq<char>, m: LogView)
    ensures
        ({
            let msg = message_model(m);
            &&& m.msg_type == "agent_output"@ || m.msg_type == "status"@ ==> streamed(line, msg)
                == Some(m.text)
            &&& m.msg_type == "block"@ ==> streamed(line, msg) == Some("### "@ + m.text)
            &&& m.msg_type == "state_change"@ && m.state_from is Some && m.state_to is Some
                ==> streamed(line, msg) == Some(
                "[state: "@ + m.state_from->0 + " → "@ + m.state_to->0 + "]"@,
            )
            &&& m.msg_type != "agent_output"@ && m.msg_type != "status"@ && m.msg_type != "block"@
                && m.msg_type != "state_change"@ ==> streamed(line, msg) == Some(trim(line))
        }),
{
    law_how_a_message_is_written(m);
    reveal_strlit("agent_output");
    reveal_strlit("block");
    reveal_strlit("status");
    reveal_strlit("state_change");
    assert("agent_output"@.len() == 12 && "block"@.len() == 5 && "status"@.len() == 6
        && "state_change"@.len() == 12);
    assert("agent_output"@[0] == 'a' && "state_change"@[0] == 's');
}

/// How the last message is shown by itself: what an agent said as it stands, a block as a heading,
/// and anything else as it is, with a footer behind it that says its number.
pub proof fn law_how_one_message_is_shown(m: LogView)
    ensures
        ({
            let response = message_model(m);
            let shown = log_shown(response);
            let footer = footer_model("unknown"@, m.seq, false, None, None);
            &&& shown.len() == 2
            &&& shown[1] == printed(settled(footer))
            &&& footer.get("seq"@) == Some(JsonModel::Nat(m.seq))
            &&& m.msg_type == "agent_output"@ ==> shown[0] == m.text
            &&& m.msg_type == "block"@ ==> shown[0] == "### "@ + m.text
            &&& m.msg_type != "agent_output"@ && m.msg_type != "block"@ ==> shown[0]
                == printed_pretty(settled(response))
        }),
{
    law_how_a_message_is_written(m);
    law_what_a_footer_says("unknown"@, m.seq, false, None, None);
    lemma_no_answer_names(m);
    reveal_strlit("agent_output");
    reveal_strlit("block");
    assert("agent_output"@.len() == 12 && "block"@.len() == 5);
}

proof fn lemma_no_answer_names(m: LogView)
    ensures
        message_model(m).get("messages"@) is None,
        message_model(m).get("ok"@) is None,
{
    reveal_strlit("messages");
    reveal_strlit("ok");
    reveal_strlit("seq");
    reveal_strlit("ts");
    reveal_strlit("type");
    reveal_strlit("text");
    reveal_strlit("state_from");
    reveal_strlit("block_type");
    reveal_strlit("state_to");
    reveal_strlit("block_id");
    reveal_strlit("body_len");
    reveal_strlit("prompt");
    reveal_strlit("block_lines");
    reveal_strlit("body_offset");
    assert("messages"@.len() == 8 && "messages"@[0] == 'm');
    assert("state_to"@[0] == 's' && "block_id"@[0] == 'b' && "body_len"@[0] == 'b');
    assert("ok"@.len() == 2 && "ok"@[0] == 'o' && "ts"@[0] == 't');
}

/// A failure, and an answer that is no message, are shown as they are.
pub proof fn law_what_is_no_message_is_shown_as_it_is(response: JsonModel)
    requires
        !(response.get("messages"@) is Some && response.get("messages"@)->0 is Array),
        response.get("ok"@) == Some(JsonModel::Bool(false)) || response.at("type"@).text() is None,
    ensures
        log_shown(response) == seq![printed_pretty(settled(response))],
{
}

} // verus!
