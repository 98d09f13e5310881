//! How requests are answered.
use crate::json::{
    int_model, items, json_int, json_nat, json_text, json_texts, print_json, push_item, put,
    text_array, Json, JsonModel, Number, DEPTH,
};
use crate::log::bodies::{body_bytes, body_lines, law_body_round_trip, unbroken};
use crate::log::codec::{
    lemma_message_plain, message_model, messages_model, options_json, options_model,
};
use crate::log::formatter::{format_messages, lines_for};
use crate::log::reader::{
    from_number, lemma_all_from, lemma_from_number_append, lemma_message_line, lemma_nothing_from,
    message_on,
};
use crate::log::record::{log_views, LogMessage, LogView};
use crate::numbers::{decimal, natural, parse_natural};
use crate::parser::prompt::{
    option_views, parse_prompt, prompt, prompt_view, PromptInfo, PromptView,
};
use crate::protocol::{err_json, err_model, law_what_a_refusal_says, ok_members, ok_model};
use crate::session::create::{info_model, law_what_is_told_of_a_session};
use crate::session::screen::filtered;
use crate::session::state::{asks, state_named, SessionState};
use crate::session::wait::{ends_wait, next_wait_step, wait_step, WaitResult, WaitStep};
use crate::session::{lemma_block_wf, meta_views, BlockMeta, MetaView, Session, SessionView};
use crate::text::{same, split, str_split, str_trim, texts, trim};
use vstd::prelude::*;
use vstd::utf8::{decode_utf8, valid_utf8};

verus! {

// ---------------------------------------------------------------------------------------------
// Short answers

/// An answer that says what was tried and why it failed.
pub open spec fn failure_model(what: Seq<char>, why: Seq<char>) -> JsonModel {
    err_model(what + ": "@ + why)
}

/// An answer that says what was tried and why it failed.
pub fn failure_json(what: &str, why: &str) -> (r: Json)
    ensures
        r@ == failure_model(what@, why@),
{
    let mut msg = what.to_owned();
    msg.append(": ");
    msg.append(why);
    err_json(msg.as_str())
}

/// An answer that says no more than that all is well.
pub fn done_json() -> (r: Json)
    ensures
        r@ == JsonModel::Object(ok_model()),
{
    Json::Object(ok_members())
}

/// The answer once a session was spawned.
pub fn spawned_json(session_id: &str) -> (r: Json)
    ensures
        r@ == JsonModel::Object(ok_model().insert("session"@, JsonModel::Str(session_id@))),
{
    let mut m = ok_members();
    put(&mut m, "session", json_text(session_id));
    Json::Object(m)
}

/// What is told of a session in a list: nothing, if it is dead.
pub fn list_entry(session: &Session) -> (r: Option<Json>)
    ensures
        match r {
            Some(json) => session.state != SessionState::Dead && json@ == info_model(
                session.id@,
                session.state,
                session.cwd@,
                session.created_at@,
                session.prompt@,
            ),
            None => session.state == SessionState::Dead,
        },
{
    if session.state != SessionState::Dead {
        Some(session.info_json())
    } else {
        None
    }
}

/// The list of the sessions.
pub fn list_json(sessions: Vec<Json>) -> (r: Json)
    ensures
        r@ == JsonModel::Object(
            Map::<Seq<char>, JsonModel>::empty().insert(
                "sessions"@,
                JsonModel::Array(items(sessions@)),
            ),
        ),
{
    let mut m: Vec<(String, Json)> = Vec::new();
    put(&mut m, "sessions", Json::Array(sessions));
    Json::Object(m)
}

/// The lines of a screen.
pub fn lines_json(lines: &[String]) -> (r: Json)
    ensures
        r@ == JsonModel::Object(
            Map::<Seq<char>, JsonModel>::empty().insert("lines"@, text_array(texts(lines@))),
        ),
{
    let mut m: Vec<(String, Json)> = Vec::new();
    put(&mut m, "lines", json_texts(lines));
    Json::Object(m)
}

/// What a session without a screen would show: its log.
pub fn log_screen_json(messages: &[LogMessage]) -> (r: Json)
    ensures
        r@ == JsonModel::Object(
            Map::<Seq<char>, JsonModel>::empty().insert(
                "lines"@,
                text_array(lines_for(log_views(messages@))),
            ),
        ),
{
    let lines = format_messages(messages);
    lines_json(lines.as_slice())
}

// ---------------------------------------------------------------------------------------------
// State

/// The states in which an agent does not work.
pub open spec fn resting() -> Seq<SessionState> {
    seq![
        SessionState::Idle,
        SessionState::Dead,
        SessionState::Prompting,
        SessionState::PromptingNotes,
    ]
}

/// The states in which an agent is done.
pub open spec fn done() -> Seq<SessionState> {
    seq![SessionState::Idle, SessionState::Dead]
}

/// The states that the first `n` names stand for.
pub open spec fn states_to(names: Seq<Seq<char>>, n: int) -> Seq<SessionState>
    decreases n,
{
    if n <= 0 {
        seq![]
    } else {
        match state_named(names[n - 1]) {
            Some(state) => states_to(names, n - 1).push(state),
            None => states_to(names, n - 1),
        }
    }
}

/// The states to wait for: those that the names stand for. Where they stand for none, any in
/// which the agent does not work.
pub open spec fn targets_named(names: Seq<Seq<char>>) -> Seq<SessionState> {
    let states = states_to(names, names.len() as int);
    if states.len() == 0 {
        resting()
    } else {
        states
    }
}

/// The states in which an agent does not work.
pub fn resting_states() -> (r: Vec<SessionState>)
    ensures
        r@ == resting(),
{
    let mut v: Vec<SessionState> = Vec::new();
    v.push(SessionState::Idle);
    v.push(SessionState::Dead);
    v.push(SessionState::Prompting);
    v.push(SessionState::PromptingNotes);
    proof {
        assert(v@ =~= resting());
    }
    v
}

/// The states in which an agent is done.
pub fn done_states() -> (r: Vec<SessionState>)
    ensures
        r@ == done(),
{
    let mut v: Vec<SessionState> = Vec::new();
    v.push(SessionState::Idle);
    v.push(SessionState::Dead);
    proof {
        assert(v@ =~= done());
    }
    v
}

/// The states to wait for.
pub fn wait_targets(names: &[String]) -> (r: Vec<SessionState>)
    ensures
        r@ == targets_named(texts(names@)),
{
    let ghost t = texts(names@);
    let mut states: Vec<SessionState> = Vec::new();
    let mut i: usize = 0;
    while i < names.len()
        invariant
            i <= names@.len(),
            t == texts(names@),
            states@ == states_to(t, i as int),
        decreases names@.len() - i,
    {
        proof {
            assert(t[i as int] == names@[i as int]@);
        }
        if let Some(state) = SessionState::from_str_loose(names[i].as_str()) {
            states.push(state);
        }
        i = i + 1;
    }
    if states.len() == 0 {
        resting_states()
    } else {
        states
    }
}

/// An exit code, or null where there is none.
pub open spec fn code_model(exit_code: Option<i32>) -> JsonModel {
    match exit_code {
        Some(code) => int_model(code),
        None => JsonModel::Null,
    }
}

/// The members with what a question says.
pub open spec fn with_question(
    m: Map<Seq<char>, JsonModel>,
    info: PromptView,
) -> Map<Seq<char>, JsonModel> {
    m.insert("question_num"@, JsonModel::Nat(info.question_num as u64)).insert(
        "question_total"@,
        JsonModel::Nat(info.question_total as u64),
    ).insert("question_text"@, JsonModel::Str(info.question_text)).insert(
        "options"@,
        options_model(info.options),
    ).insert("selected"@, JsonModel::Nat(info.selected as u64))
}

/// The members with what is to be said of a state beyond its name: the question of a session
/// that asks one, and the exit code of a dead one.
pub open spec fn with_details(
    m: Map<Seq<char>, JsonModel>,
    state: SessionState,
    question: Option<PromptView>,
    exit_code: Option<i32>,
) -> Map<Seq<char>, JsonModel> {
    let asked = match question {
        Some(info) => if asks(state) {
            with_question(m, info)
        } else {
            m
        },
        None => m,
    };
    if state == SessionState::Dead {
        asked.insert("exit_code"@, code_model(exit_code))
    } else {
        asked
    }
}

/// What an answer about a state starts with: the state as it is, or how the wait for it ended.
pub open spec fn state_start(
    state: SessionState,
    waited: Option<(WaitResult, JsonModel)>,
) -> Map<Seq<char>, JsonModel> {
    match waited {
        Some((result, seconds)) => Map::<Seq<char>, JsonModel>::empty().insert(
            "state"@,
            JsonModel::Str(result.state.name()),
        ).insert("waited"@, JsonModel::Bool(result.waited)).insert("waited_sec"@, seconds).insert(
            "timed_out"@,
            JsonModel::Bool(result.timed_out),
        ),
        None => Map::<Seq<char>, JsonModel>::empty().insert(
            "state"@,
            JsonModel::Str(state.name()),
        ).insert("waited"@, JsonModel::Bool(false)),
    }
}

/// How a wait ended and how many seconds it took, where there was one.
pub open spec fn waited_view(waited: Option<(WaitResult, Number)>) -> Option<
    (WaitResult, JsonModel),
> {
    match waited {
        Some((result, seconds)) => Some((result, Json::Number(seconds).model())),
        None => None,
    }
}

/// The answer about a state, from what the session's state, question and exit code are.
pub fn state_answer(
    state: SessionState,
    waited: Option<(WaitResult, Number)>,
    question: &Option<PromptInfo>,
    exit_code: Option<i32>,
) -> (r: Json)
    ensures
        r@ == JsonModel::Object(
            with_details(
                state_start(state, waited_view(waited)),
                state,
                prompt_view(*question),
                exit_code,
            ),
        ),
{
    let mut m: Vec<(String, Json)> = Vec::new();
    match waited {
        Some((result, seconds)) => {
            put(&mut m, "state", json_text(result.state.as_str()));
            put(&mut m, "waited", Json::Bool(result.waited));
            put(&mut m, "waited_sec", Json::Number(seconds));
            put(&mut m, "timed_out", Json::Bool(result.timed_out));
        },
        None => {
            put(&mut m, "state", json_text(state.as_str()));
            put(&mut m, "waited", Json::Bool(false));
        },
    }
    if state == SessionState::Prompting || state == SessionState::PromptingNotes {
        if let Some(info) = question {
            put(&mut m, "question_num", json_nat(info.question_num as u64));
            put(&mut m, "question_total", json_nat(info.question_total as u64));
            put(&mut m, "question_text", json_text(info.question_text.as_str()));
            put(&mut m, "options", options_json(&info.options));
            put(&mut m, "selected", json_nat(info.selected as u64));
        }
    }
    if state == SessionState::Dead {
        put(
            &mut m,
            "exit_code",
            match exit_code {
                Some(code) => json_int(code),
                None => Json::Null,
            },
        );
    }
    Json::Object(m)
}

/// The answer about the state of a session.
pub fn state_json(session: &Session, waited: Option<(WaitResult, Number)>) -> (r: Json)
    ensures
        r@ == JsonModel::Object(
            with_details(
                state_start(session@.state, waited_view(waited)),
                session@.state,
                prompt(filtered(session@.screen())),
                session@.exit_code,
            ),
        ),
{
    let question = if session.state == SessionState::Prompting || session.state
        == SessionState::PromptingNotes {
        let snapshot = session.screen_lines_filtered();
        parse_prompt(snapshot.as_slice())
    } else {
        None
    };
    state_answer(session.state, waited, &question, session.exit_code)
}

// ---------------------------------------------------------------------------------------------
// The log

/// The messages of a log in JSON.
pub fn messages_json(messages: &[LogMessage]) -> (r: Json)
    ensures
        r@ == messages_model(log_views(messages@)),
{
    let ghost all = Seq::new(messages@.len(), |i: int| message_model(log_views(messages@)[i]));
    let mut v: Vec<Json> = Vec::new();
    let mut i: usize = 0;
    proof {
        assert(items(v@) =~= all.take(0));
    }
    while i < messages.len()
        invariant
            i <= messages@.len(),
            all == Seq::new(messages@.len(), |i: int| message_model(log_views(messages@)[i])),
            items(v@) == all.take(i as int),
        decreases messages@.len() - i,
    {
        proof {
            let m = messages@[i as int]@;
            assert(all.take(i + 1) =~= all.take(i as int).push(message_model(m)));
        }
        push_item(&mut v, messages[i].to_json());
        i = i + 1;
    }
    proof {
        assert(all.take(messages@.len() as int) =~= all);
    }
    Json::Array(v)
}

/// The answer with messages of a log: with them comes how the wait for them ended, or the state
/// where nobody waited.
pub open spec fn log_model(
    messages: Seq<LogView>,
    waited: Option<(WaitResult, JsonModel)>,
    state: SessionState,
) -> JsonModel {
    let m = Map::<Seq<char>, JsonModel>::empty().insert("messages"@, messages_model(messages));
    JsonModel::Object(
        match waited {
            Some((result, seconds)) => m.insert(
                "_meta"@,
                JsonModel::Object(
                    Map::<Seq<char>, JsonModel>::empty().insert(
                        "state"@,
                        JsonModel::Str(result.state.name()),
                    ).insert("waited_sec"@, seconds).insert(
                        "timed_out"@,
                        JsonModel::Bool(result.timed_out),
                    ),
                ),
            ),
            None => m.insert("_state"@, JsonModel::Str(state.name())),
        },
    )
}

/// The answer with messages of a log.
pub fn log_json(
    messages: &[LogMessage],
    waited: Option<(WaitResult, Number)>,
    state: SessionState,
) -> (r: Json)
    ensures
        r@ == log_model(log_views(messages@), waited_view(waited), state),
{
    let mut m: Vec<(String, Json)> = Vec::new();
    put(&mut m, "messages", messages_json(messages));
    match waited {
        Some((result, seconds)) => {
            let mut meta: Vec<(String, Json)> = Vec::new();
            put(&mut meta, "state", json_text(result.state.as_str()));
            put(&mut meta, "waited_sec", Json::Number(seconds));
            put(&mut meta, "timed_out", Json::Bool(result.timed_out));
            put(&mut m, "_meta", Json::Object(meta));
        },
        None => {
            put(&mut m, "_state", json_text(state.as_str()));
        },
    }
    Json::Object(m)
}

/// The answer with the last message of a log.
pub fn last_json(messages: &[LogMessage]) -> (r: Json)
    ensures
        r@ == if messages@.len() > 0 {
            message_model(messages@.last()@)
        } else {
            err_model("No messages"@)
        },
{
    if messages.len() > 0 {
        messages[messages.len() - 1].to_json()
    } else {
        err_json("No messages")
    }
}

/// The number from which on to read after the messages, or `cursor` where there are none.
pub open spec fn cursor_past(messages: Seq<LogView>, cursor: u64) -> int {
    if messages.len() > 0 {
        messages.last().seq + 1
    } else {
        cursor as int
    }
}

/// The number from which on to read after the messages, or `cursor` where there are none.
/// `None` says that it has more than 64 bits.
pub fn next_number(messages: &[LogMessage], cursor: u64) -> (r: Option<u64>)
    ensures
        match r {
            Some(n) => cursor_past(log_views(messages@), cursor) == n,
            None => cursor_past(log_views(messages@), cursor) > u64::MAX,
        },
{
    if messages.len() > 0 {
        let last: u64 = messages[messages.len() - 1].seq;
        proof {
            assert(log_views(messages@).last() == messages@.last()@);
        }
        if last < u64::MAX {
            Some(last + 1)
        } else {
            None
        }
    } else {
        Some(cursor)
    }
}

impl Session {
    /// Moves the read cursor past the messages that were read.
    pub fn advance_cursor(&mut self, messages: &[LogMessage])
        requires
            cursor_past(log_views(messages@), old(self)@.read_cursor) <= u64::MAX,
        ensures
            final(self)@ == (SessionView {
                read_cursor: cursor_past(log_views(messages@), old(self)@.read_cursor) as u64,
                ..old(self)@
            }),
            old(self)@.wf() && cursor_past(log_views(messages@), old(self)@.read_cursor)
                <= old(self)@.next_seq ==> final(self)@.wf(),
            final(self).runs_on(*old(self)),
    {
        if let Some(n) = next_number(messages, self.read_cursor) {
            self.read_cursor = n;
        }
    }
}

/// The lines that stream messages: each on a line of its own, from which it can be read back.
pub fn stream_lines(messages: &[LogMessage]) -> (r: Vec<String>)
    ensures
        r@.len() == messages@.len(),
        forall|i: int|
            0 <= i < r@.len() ==> crate::json::one_line((#[trigger] r@[i])@) && message_on(r@[i]@)
                == Some(messages@[i]@),
{
    let mut out: Vec<String> = Vec::new();
    let mut i: usize = 0;
    while i < messages.len()
        invariant
            i <= messages@.len(),
            out@.len() == i,
            forall|j: int|
                0 <= j < i ==> crate::json::one_line((#[trigger] out@[j])@) && message_on(out@[j]@)
                    == Some(messages@[j]@),
        decreases messages@.len() - i,
    {
        let line = print_json(&messages[i].to_json());
        proof {
            let m = messages@[i as int]@;
            lemma_message_plain(m, DEPTH as nat);
            lemma_message_line(line@, m);
        }
        out.push(line);
        i = i + 1;
    }
    out
}

/// Whether a stream of messages ends: the session is dead and has nothing more to say.
pub fn stream_ends(state: SessionState, fresh: &[LogMessage]) -> (b: bool)
    ensures
        b == (state == SessionState::Dead && fresh@.len() == 0),
{
    state == SessionState::Dead && fresh.len() == 0
}

// ---------------------------------------------------------------------------------------------
// Blocks

/// The numbers among the first `n` pieces of an argument.
pub open spec fn numbers_to(pieces: Seq<Seq<char>>, n: int) -> Seq<u64>
    decreases n,
{
    if n <= 0 {
        seq![]
    } else {
        match natural(trim(pieces[n - 1]), u64::MAX as nat) {
            Some(id) => numbers_to(pieces, n - 1).push(id as u64),
            None => numbers_to(pieces, n - 1),
        }
    }
}

/// The numbers in an argument, between commas.
pub open spec fn numbers_in(arg: Seq<char>) -> Seq<u64> {
    numbers_to(split(arg, ','), split(arg, ',').len() as int)
}

/// The numbers in the first `n` arguments.
pub open spec fn all_numbers_to(args: Seq<Seq<char>>, n: int) -> Seq<u64>
    decreases n,
{
    if n <= 0 {
        seq![]
    } else {
        all_numbers_to(args, n - 1) + numbers_in(args[n - 1])
    }
}

/// The place of the block with that number among the first `n`.
pub open spec fn place_of(blocks: Seq<MetaView>, id: u64, n: int) -> Option<int>
    decreases n,
{
    if n <= 0 {
        None
    } else if blocks[n - 1].id == id {
        Some(n - 1)
    } else {
        place_of(blocks, id, n - 1)
    }
}

/// The places of the blocks with the first `n` numbers. A number without a block is passed over.
pub open spec fn places_to(blocks: Seq<MetaView>, ids: Seq<u64>, n: int) -> Seq<int>
    decreases n,
{
    if n <= 0 {
        seq![]
    } else {
        match place_of(blocks, ids[n - 1], blocks.len() as int) {
            Some(i) => places_to(blocks, ids, n - 1).push(i),
            None => places_to(blocks, ids, n - 1),
        }
    }
}

/// The places of the blocks that the arguments ask for: all of them, or those with the numbers
/// that are named, in the order in which they are.
pub open spec fn selected(blocks: Seq<MetaView>, args: Seq<Seq<char>>) -> Seq<int> {
    if args.len() == 1 && args[0] == "--all"@ {
        Seq::new(blocks.len(), |i: int| i)
    } else {
        let ids = all_numbers_to(args, args.len() as int);
        places_to(blocks, ids, ids.len() as int)
    }
}

/// Appends the numbers in an argument.
fn push_numbers(ids: &mut Vec<u64>, arg: &str)
    ensures
        final(ids)@ == old(ids)@ + numbers_in(arg@),
{
    let ghost before = ids@;
    let pieces = str_split(arg, ',');
    let ghost t = texts(pieces@);
    let mut i: usize = 0;
    proof {
        assert(before + numbers_to(t, 0) =~= before);
    }
    while i < pieces.len()
        invariant
            i <= pieces@.len(),
            t == texts(pieces@),
            ids@ == before + numbers_to(t, i as int),
        decreases pieces@.len() - i,
    {
        proof {
            assert(t[i as int] == pieces@[i as int]@);
        }
        if let Some(id) = parse_natural(str_trim(pieces[i].as_str()), u64::MAX) {
            proof {
                assert((before + numbers_to(t, i as int)).push(id) =~= before + numbers_to(
                    t,
                    i as int,
                ).push(id));
            }
            ids.push(id);
        }
        i = i + 1;
    }
}

/// The place of the block with that number.
fn find_block(blocks: &Vec<BlockMeta>, id: u64) -> (r: Option<usize>)
    ensures
        match r {
            Some(i) => i < blocks@.len() && place_of(
                meta_views(blocks@),
                id,
                blocks@.len() as int,
            ) == Some(i as int),
            None => place_of(meta_views(blocks@), id, blocks@.len() as int) is None,
        },
{
    let ghost b = meta_views(blocks@);
    let mut n: usize = blocks.len();
    while n > 0
        invariant
            n <= blocks@.len(),
            b == meta_views(blocks@),
            place_of(b, id, blocks@.len() as int) == place_of(b, id, n as int),
        decreases n,
    {
        proof {
            assert(b[n - 1] == blocks@[n - 1]@);
        }
        if blocks[n - 1].id == id {
            return Some(n - 1);
        }
        n = n - 1;
    }
    None
}

/// The places of the blocks that the arguments of `expand` ask for.
pub fn select_blocks(blocks: &Vec<BlockMeta>, block_ids: &[String]) -> (r: Vec<usize>)
    ensures
        r@.map_values(|i: usize| i as int) == selected(meta_views(blocks@), texts(block_ids@)),
        forall|k: int| 0 <= k < r@.len() ==> (#[trigger] r@[k]) < blocks@.len(),
{
    let ghost b = meta_views(blocks@);
    let ghost args = texts(block_ids@);
    let ghost place = |i: usize| i as int;
    let mut out: Vec<usize> = Vec::new();
    if block_ids.len() == 1 && same(block_ids[0].as_str(), "--all") {
        let mut i: usize = 0;
        while i < blocks.len()
            invariant
                i <= blocks@.len(),
                out@.len() == i,
                forall|k: int| 0 <= k < i ==> (#[trigger] out@[k]) == k,
            decreases blocks@.len() - i,
        {
            out.push(i);
            i = i + 1;
        }
        proof {
            assert(args[0] == block_ids@[0]@);
            assert(out@.map_values(place) =~= selected(b, args));
        }
        return out;
    }
    let mut ids: Vec<u64> = Vec::new();
    let mut i: usize = 0;
    proof {
        assert(args.len() == 1 ==> args[0] == block_ids@[0]@);
        assert(ids@ =~= all_numbers_to(args, 0));
    }
    while i < block_ids.len()
        invariant
            i <= block_ids@.len(),
            args == texts(block_ids@),
            ids@ == all_numbers_to(args, i as int),
        decreases block_ids@.len() - i,
    {
        proof {
            assert(args[i as int] == block_ids@[i as int]@);
        }
        push_numbers(&mut ids, block_ids[i].as_str());
        i = i + 1;
    }
    let mut k: usize = 0;
    proof {
        assert(out@.map_values(place) =~= places_to(b, ids@, 0));
    }
    while k < ids.len()
        invariant
            k <= ids@.len(),
            b == meta_views(blocks@),
            place == (|i: usize| i as int),
            out@.map_values(place) == places_to(b, ids@, k as int),
            forall|j: int| 0 <= j < out@.len() ==> (#[trigger] out@[j]) < blocks@.len(),
        decreases ids@.len() - k,
    {
        if let Some(at) = find_block(blocks, ids[k]) {
            proof {
                assert(out@.push(at).map_values(place) =~= out@.map_values(place).push(at as int));
            }
            out.push(at);
        }
        k = k + 1;
    }
    out
}

/// A block with its body.
pub open spec fn block_model(block: MetaView, body: Seq<Seq<char>>) -> JsonModel {
    JsonModel::Object(
        Map::<Seq<char>, JsonModel>::empty().insert("id"@, JsonModel::Nat(block.id)).insert(
            "block_type"@,
            JsonModel::Str(block.block_type),
        ).insert("header"@, JsonModel::Str(block.header)).insert("body"@, text_array(body)).insert(
            "seq"@,
            JsonModel::Nat(block.seq),
        ),
    )
}

/// A block with its body.
pub fn block_json(block: &BlockMeta, body: &[String]) -> (r: Json)
    ensures
        r@ == block_model(block@, texts(body@)),
{
    let mut m: Vec<(String, Json)> = Vec::new();
    put(&mut m, "id", json_nat(block.id));
    put(&mut m, "block_type", json_text(block.block_type.as_str()));
    put(&mut m, "header", json_text(block.header.as_str()));
    put(&mut m, "body", json_texts(body));
    put(&mut m, "seq", json_nat(block.seq));
    Json::Object(m)
}

/// The answer with blocks.
pub fn expand_json(blocks: Vec<Json>) -> (r: Json)
    ensures
        r@ == JsonModel::Object(
            ok_model().insert("blocks"@, JsonModel::Array(items(blocks@))),
        ),
{
    let mut m = ok_members();
    put(&mut m, "blocks", Json::Array(blocks));
    Json::Object(m)
}

/// All blocks come in the order of their numbers.
pub proof fn law_all_blocks_in_order(session: SessionView)
    requires
        session.wf(),
    ensures
        ({
            let places = selected(session.blocks, seq!["--all"@]);
            &&& places.len() == session.blocks.len()
            &&& forall|i: int, j: int|
                0 <= i < j < places.len() ==> session.blocks[#[trigger] places[i]].id
                    < session.blocks[#[trigger] places[j]].id
        }),
{
}

/// A block is found by its number, whichever of the blocks it is.
pub proof fn law_block_is_found(session: SessionView, i: int)
    requires
        session.wf(),
        0 <= i < session.blocks.len(),
    ensures
        place_of(session.blocks, session.blocks[i].id, session.blocks.len() as int) == Some(i),
{
    lemma_place(session, i, session.blocks.len() as int);
}

proof fn lemma_place(session: SessionView, i: int, n: int)
    requires
        session.wf(),
        0 <= i < n <= session.blocks.len(),
    ensures
        place_of(session.blocks, session.blocks[i].id, n) == Some(i),
    decreases n,
{
    if i < n - 1 {
        assert(session.blocks[i].id < session.blocks[n - 1].id);
        lemma_place(session, i, n - 1);
    }
}

/// In a log whose numbers grow, the cursor that is moved past what was read lies behind every
/// message of the log.
proof fn lemma_read_past(log: Seq<LogView>, cursor: u64)
    requires
        forall|i: int, j: int|
            0 <= i < j < log.len() ==> (#[trigger] log[i]).seq < (#[trigger] log[j]).seq,
    ensures
        forall|i: int|
            0 <= i < log.len() ==> (#[trigger] log[i]).seq < cursor_past(
                from_number(log, cursor),
                cursor,
            ),
    decreases log.len(),
{
    reveal(Seq::filter);
    if log.len() > 0 {
        let rest = log.drop_last();
        assert forall|i: int, j: int| 0 <= i < j < rest.len() implies (#[trigger] rest[i]).seq < (
        #[trigger] rest[j]).seq by {
            assert(rest[i] == log[i] && rest[j] == log[j]);
        }
        lemma_read_past(rest, cursor);
        assert forall|i: int| 0 <= i < log.len() implies (#[trigger] log[i]).seq < cursor_past(
            from_number(log, cursor),
            cursor,
        ) by {
            if i < rest.len() {
                assert(rest[i] == log[i]);
                assert(log[i].seq < log[log.len() - 1].seq);
            }
        }
    }
}

/// Reading on from where the last reading has moved the cursor tells each message just once.
/// `session` is what it is when the log is first read, up to the last number that was given
/// out, and `more` is what is logged from then on. The second reading gives `more`, all of it and
/// in order, and nothing of what was there before; where nothing was logged it gives nothing, and
/// the cursor stays. The session stays well-formed as its cursor moves.
pub proof fn law_next_tells_a_message_once(
    session: SessionView,
    log: Seq<LogView>,
    more: Seq<LogView>,
)
    requires
        session.wf(),
        forall|i: int, j: int|
            0 <= i < j < log.len() ==> (#[trigger] log[i]).seq < (#[trigger] log[j]).seq,
        forall|i: int| 0 <= i < log.len() ==> (#[trigger] log[i]).seq < session.next_seq,
        forall|i: int| 0 <= i < more.len() ==> (#[trigger] more[i]).seq >= session.next_seq,
    ensures
        ({
            let first = from_number(log, session.read_cursor);
            let next = cursor_past(first, session.read_cursor);
            let second = from_number(log + more, next as u64);
            &&& next <= session.next_seq
            &&& (SessionView { read_cursor: next as u64, ..session }).wf()
            &&& second == more
            &&& more.len() == 0 ==> cursor_past(second, next as u64) == next
        }),
{
    let cursor = session.read_cursor;
    let first = from_number(log, cursor);
    lemma_read_past(log, cursor);
    if first.len() > 0 {
        let keep = |m: LogView| m.seq >= cursor;
        assert(first == log.filter(keep));
        assert(first.contains(first[first.len() - 1]));
        log.lemma_filter_contains_rev(keep, first.last());
    }
    let next = cursor_past(first, cursor) as u64;
    lemma_nothing_from(log, next);
    lemma_from_number_append(log, more, next);
    lemma_all_from(more, next);
    assert(Seq::<LogView>::empty() + more =~= more);
    let after = SessionView { read_cursor: next, ..session };
    assert(after.blocks_in_order()) by {
        assert(after.blocks == session.blocks);
    }
    assert(after.numbered()) by {
        assert(after.logged == session.logged);
    }
}

/// A block that was logged can be expanded to the lines that it had: its number finds it, and
/// the bytes at its place in bodies.bin are those lines. `file` is what bodies.bin holds before
/// what waits is written to it, and `later` what is written after. Lines with line feeds in them
/// are left out, and a body of one empty line, whose bytes are those of a body without lines.
pub proof fn law_a_logged_block_can_be_expanded(
    session: SessionView,
    id: u64,
    block_type: Seq<char>,
    header: Seq<char>,
    body: Seq<Seq<char>>,
    file: Seq<u8>,
    later: Seq<u8>,
)
    requires
        session.wf(),
        session.next_seq < u64::MAX,
        id < session.next_block_id,
        forall|i: int| 0 <= i < session.blocks.len() ==> (#[trigger] session.blocks[i]).id < id,
        session.bodies_len + body_bytes(body).len() <= u64::MAX,
        file.len() + session.bodies.len() == session.bodies_len,
        unbroken(body),
        body != seq![Seq::<char>::empty()],
    ensures
        ({
            let after = session.log_block(id, block_type, header, body);
            let last = after.blocks.len() - 1;
            let block = after.blocks[last];
            let written = file + after.bodies + later;
            let end = block.body_offset + block.body_len;
            &&& place_of(after.blocks, id, after.blocks.len() as int) == Some(last)
            &&& block.block_type == block_type
            &&& block.header == header
            &&& end <= written.len()
            &&& valid_utf8(written.subrange(block.body_offset as int, end))
            &&& body_lines(decode_utf8(written.subrange(block.body_offset as int, end))) == body
        }),
{
    let after = session.log_block(id, block_type, header, body);
    lemma_block_wf(session, id, block_type, header, body);
    law_block_is_found(after, after.blocks.len() - 1);
    let start = session.bodies_len as int;
    let written = file + after.bodies + later;
    assert(written.subrange(start, start + body_bytes(body).len()) =~= body_bytes(body));
    law_body_round_trip(body);
}

/// A wait that names no state, or none that there is, ends as soon as the agent does not work,
/// and only then.
pub proof fn law_a_wait_ends_when_work_does(names: Seq<Seq<char>>, state: SessionState)
    requires
        forall|i: int| 0 <= i < names.len() ==> state_named(#[trigger] names[i]) is None,
    ensures
        ends_wait(targets_named(names), state) <==> state != SessionState::Working,
        ends_wait(targets_named(seq![]), state) <==> state != SessionState::Working,
        wait_step(state, targets_named(seq![]), None, 0) is Done <==> state
            != SessionState::Working,
{
    lemma_no_states(names, names.len() as int);
    let all = targets_named(seq![]);
    assert(all == targets_named(names));
    assert(all[0] == SessionState::Idle && all[1] == SessionState::Dead && all[2]
        == SessionState::Prompting && all[3] == SessionState::PromptingNotes && all.len() == 4);
    match state {
        SessionState::Working => {},
        SessionState::Idle => assert(all[0] == state),
        SessionState::Dead => assert(all[1] == state),
        SessionState::Prompting => assert(all[2] == state),
        SessionState::PromptingNotes => assert(all[3] == state),
    }
}

proof fn lemma_no_states(names: Seq<Seq<char>>, n: int)
    requires
        0 <= n <= names.len(),
        forall|i: int| 0 <= i < names.len() ==> state_named(#[trigger] names[i]) is None,
    ensures
        states_to(names, n).len() == 0,
    decreases n,
{
    if n > 0 {
        lemma_no_states(names, n - 1);
        assert(state_named(names[n - 1]) is None);
    }
}

/// A wait that names states ends in each of them, in death, and in no other state.
pub proof fn law_a_wait_ends_in_the_named_states(
    names: Seq<Seq<char>>,
    state: SessionState,
    i: int,
)
    requires
        0 <= i < names.len(),
        state_named(names[i]) is Some,
    ensures
        ends_wait(targets_named(names), state) <==> state == SessionState::Dead || exists|k: int|
            0 <= k < names.len() && state_named(#[trigger] names[k]) == Some(state),
{
    lemma_named_states(names, state, names.len() as int);
    let s = state_named(names[i])->0;
    lemma_named_states(names, s, names.len() as int);
    assert(states_to(names, names.len() as int).contains(s));
}

proof fn lemma_named_states(names: Seq<Seq<char>>, state: SessionState, n: int)
    requires
        0 <= n <= names.len(),
    ensures
        states_to(names, n).contains(state) <==> exists|k: int|
            0 <= k < n && state_named(#[trigger] names[k]) == Some(state),
    decreases n,
{
    if n > 0 {
        lemma_named_states(names, state, n - 1);
        let before = states_to(names, n - 1);
        let all = states_to(names, n);
        if before.contains(state) {
            let k = before.index_of(state);
            assert(all[k] == state);
        }
        if state_named(names[n - 1]) == Some(state) {
            assert(all[all.len() - 1] == state);
        }
        if all.contains(state) && !before.contains(state) {
            let k = all.index_of(state);
            assert(k == before.len());
            assert(state_named(names[n - 1]) == Some(state));
        }
    }
}

/// A wait for messages ends when the agent is idle or dead, and in no other state.
pub proof fn law_a_log_waits_for_the_end(state: SessionState)
    ensures
        ends_wait(done(), state) <==> state == SessionState::Idle || state == SessionState::Dead,
{
    assert(done()[0] == SessionState::Idle);
}

/// The same of what the functions give: a wait for the targets of no names ends at once where the
/// agent does not work, and otherwise sleeps.
pub proof fn law_wait_targets_of_nothing(
    names: &[String],
    targets: Vec<SessionState>,
    slice: &[SessionState],
    state: SessionState,
    step: WaitStep,
)
    requires
        names@.len() == 0,
        call_ensures(wait_targets, (names,), targets),
        slice@ == targets@,
        call_ensures(next_wait_step, (state, slice, None, 0u64), step),
    ensures
        step is Done <==> state != SessionState::Working,
{
    assert(texts(names@) =~= seq![]);
    law_a_wait_ends_when_work_does(seq![], state);
}

/// The names of the members of answers differ where they stand together.
proof fn lemma_answer_names()
    ensures
        "ok"@.len() == 2,
        "session"@.len() == 7,
        "sessions"@.len() == 8,
        "lines"@.len() == 5,
        "state"@.len() == 5,
        "waited"@.len() == 6,
        "waited_sec"@.len() == 10,
        "timed_out"@.len() == 9,
        "exit_code"@.len() == 9,
        "timed_out"@ != "exit_code"@,
        "question_num"@.len() == 12,
        "question_total"@.len() == 14,
        "question_text"@.len() == 13,
        "options"@.len() == 7,
        "selected"@.len() == 8,
        "messages"@.len() == 8,
        "_meta"@.len() == 5,
        "_state"@.len() == 6,
        "blocks"@.len() == 6,
        "id"@.len() == 2,
        "seq"@.len() == 3,
        "body"@.len() == 4,
        "header"@.len() == 6,
        "block_type"@.len() == 10,
{
    reveal_strlit("ok");
    reveal_strlit("session");
    reveal_strlit("sessions");
    reveal_strlit("lines");
    reveal_strlit("state");
    reveal_strlit("waited");
    reveal_strlit("waited_sec");
    reveal_strlit("timed_out");
    reveal_strlit("exit_code");
    reveal_strlit("question_num");
    reveal_strlit("question_total");
    reveal_strlit("question_text");
    reveal_strlit("options");
    reveal_strlit("selected");
    reveal_strlit("messages");
    reveal_strlit("_meta");
    reveal_strlit("_state");
    reveal_strlit("blocks");
    reveal_strlit("id");
    reveal_strlit("seq");
    reveal_strlit("body");
    reveal_strlit("header");
    reveal_strlit("block_type");
    assert("timed_out"@[0] != "exit_code"@[0]);
}

/// What is answered about the state of a session: the state, or the one in which a wait has ended,
/// with how long that took and whether it timed out; the question that is asked, where one is; and
/// the exit code of a dead session, or nothing where it has none.
pub proof fn law_what_a_state_answer_says(
    state: SessionState,
    waited: Option<(WaitResult, Number)>,
    question: &Option<PromptInfo>,
    exit_code: Option<i32>,
    r: Json,
)
    requires
        call_ensures(state_answer, (state, waited, question, exit_code), r),
    ensures
        waited is None ==> r@.get("state"@) == Some(JsonModel::Str(state.name())) && r@.get(
            "waited"@,
        ) == Some(JsonModel::Bool(false)) && r@.get("timed_out"@) is None,
        waited matches Some((result, seconds)) ==> {
            &&& r@.get("state"@) == Some(JsonModel::Str(result.state.name()))
            &&& r@.get("waited"@) == Some(JsonModel::Bool(result.waited))
            &&& r@.get("timed_out"@) == Some(JsonModel::Bool(result.timed_out))
            &&& r@.get("waited_sec"@) == Some(Json::Number(seconds)@)
        },
        ({
            let asking = (state == SessionState::Prompting || state
                == SessionState::PromptingNotes) && *question is Some;
            let info = (*question)->0;
            &&& asking ==> {
                &&& r@.get("question_num"@) == Some(JsonModel::Nat(info.question_num as u64))
                &&& r@.get("question_total"@) == Some(JsonModel::Nat(info.question_total as u64))
                &&& r@.get("question_text"@) == Some(JsonModel::Str(info.question_text@))
                &&& r@.get("options"@) == Some(options_model(option_views(info.options@)))
                &&& r@.get("selected"@) == Some(JsonModel::Nat(info.selected as u64))
            }
            &&& !asking ==> r@.get("question_num"@) is None && r@.get("options"@) is None
                && r@.get("selected"@) is None
        }),
        state == SessionState::Dead && exit_code is None ==> r@.get("exit_code"@) == Some(
            JsonModel::Null,
        ),
        state == SessionState::Dead && exit_code is Some ==> r@.int_at("exit_code"@) == Some(
            exit_code->0 as int,
        ),
        state != SessionState::Dead ==> r@.get("exit_code"@) is None,
{
    lemma_answer_names();
}

/// The state of a session is answered from the session: its state, the question on its screen,
/// and its exit code.
pub proof fn law_a_session_answers_for_itself(
    session: &Session,
    waited: Option<(WaitResult, Number)>,
    r: Json,
)
    requires
        call_ensures(state_json, (session, waited), r),
    ensures
        waited is None ==> r@.get("state"@) == Some(JsonModel::Str(session.state.name())),
        session.state == SessionState::Dead && session.exit_code is Some ==> r@.int_at(
            "exit_code"@,
        ) == Some(session.exit_code->0 as int),
        ({
            let question = prompt(filtered(session@.screen()));
            let asking = session.state == SessionState::Prompting || session.state
                == SessionState::PromptingNotes;
            &&& asking && question is Some ==> r@.get("selected"@) == Some(
                JsonModel::Nat(question->0.selected as u64),
            ) && r@.get("question_text"@) == Some(JsonModel::Str(question->0.question_text))
            &&& !asking || question is None ==> r@.get("selected"@) is None
        }),
{
    lemma_answer_names();
}

/// What is answered with messages: the messages, in order, and the state in which a wait has ended
/// with how long it took and whether it timed out, or else the state of the session.
pub proof fn law_what_a_log_answer_says(
    messages: Seq<LogView>,
    waited: Option<(WaitResult, JsonModel)>,
    state: SessionState,
)
    ensures
        ({
            let r = log_model(messages, waited, state);
            let said = r.get("messages"@);
            &&& said matches Some(JsonModel::Array(s)) && s.len() == messages.len() && forall|i: int|
                0 <= i < s.len() ==> #[trigger] s[i] == message_model(messages[i])
            &&& waited is None ==> r.get("_state"@) == Some(JsonModel::Str(state.name())) && r.get(
                "_meta"@,
            ) is None
            &&& waited matches Some((result, seconds)) ==> {
                &&& r.get("_state"@) is None
                &&& r.get("_meta"@) is Some
                &&& r.get("_meta"@)->0.get("state"@) == Some(JsonModel::Str(result.state.name()))
                &&& r.get("_meta"@)->0.get("waited_sec"@) == Some(seconds)
                &&& r.get("_meta"@)->0.get("timed_out"@) == Some(JsonModel::Bool(result.timed_out))
            }
        }),
{
    lemma_answer_names();
}

/// The last message is the last one, and where there is none that is said.
pub proof fn law_the_last_message_is_told(messages: &[LogMessage], r: Json)
    requires
        call_ensures(last_json, (messages,), r),
    ensures
        messages@.len() > 0 ==> r@ == message_model(messages@[messages@.len() - 1]@),
        messages@.len() == 0 ==> r@.get("ok"@) == Some(JsonModel::Bool(false)) && r@.get("error"@)
            == Some(JsonModel::Str("No messages"@)),
{
    law_what_a_refusal_says("No messages"@);
}

/// The number that comes after messages is one more than that of the last.
pub proof fn law_the_number_after_messages(messages: &[LogMessage], cursor: u64, r: Option<u64>)
    requires
        call_ensures(next_number, (messages, cursor), r),
    ensures
        messages@.len() == 0 ==> r == Some(cursor),
        messages@.len() > 0 && messages@.last().seq < u64::MAX ==> r == Some(
            (messages@.last().seq + 1) as u64,
        ),
        messages@.len() > 0 && messages@.last().seq == u64::MAX ==> r is None,
{
    if messages@.len() > 0 {
        assert(log_views(messages@).last() == messages@.last()@);
    }
}

/// A stream ends when the session is dead and everything was told, and not before.
pub proof fn law_a_stream_ends_with_the_session(state: SessionState, fresh: &[LogMessage], b: bool)
    requires
        call_ensures(stream_ends, (state, fresh), b),
    ensures
        b <==> state == SessionState::Dead && fresh@.len() == 0,
{
}

/// What the short answers say.
pub proof fn law_what_short_answers_say(
    what: &str,
    why: &str,
    failure: Json,
    done_answer: Json,
    id: &str,
    spawned: Json,
    lines: &[String],
    shown: Json,
)
    requires
        call_ensures(failure_json, (what, why), failure),
        call_ensures(done_json, (), done_answer),
        call_ensures(spawned_json, (id,), spawned),
        call_ensures(lines_json, (lines,), shown),
    ensures
        failure@.get("ok"@) == Some(JsonModel::Bool(false)),
        failure@.get("error"@) == Some(JsonModel::Str(what@ + ": "@ + why@)),
        done_answer@.get("ok"@) == Some(JsonModel::Bool(true)),
        spawned@.get("ok"@) == Some(JsonModel::Bool(true)),
        spawned@.get("session"@) == Some(JsonModel::Str(id@)),
        shown@.get("lines"@) == Some(text_array(texts(lines@))),
{
    lemma_answer_names();
    law_what_a_refusal_says(what@ + ": "@ + why@);
}

/// The dead are not listed, and the others are, each with what is told of it.
pub proof fn law_only_the_living_are_listed(session: &Session, r: Option<Json>)
    requires
        call_ensures(list_entry, (session,), r),
    ensures
        r is None <==> session.state == SessionState::Dead,
        r is Some ==> r->0@.get("id"@) == Some(JsonModel::Str(session.id@)) && r->0@.get("state"@)
            == Some(JsonModel::Str(session.state.name())) && r->0@.get("cwd"@) == Some(
            JsonModel::Str(session.cwd@),
        ) && r->0@.get("prompt"@) == Some(JsonModel::Str(session.prompt@)),
{
    law_what_is_told_of_a_session(
        session.id@,
        0,
        session.state,
        session.cwd@,
        session.created_at@,
        session.prompt@,
    );
}

/// A screen without a terminal shows what the log says.
pub proof fn law_a_log_stands_for_a_screen(messages: &[LogMessage], r: Json)
    requires
        call_ensures(log_screen_json, (messages,), r),
    ensures
        r@.get("lines"@) == Some(text_array(lines_for(log_views(messages@)))),
{
}

/// What an expanded block says.
pub proof fn law_what_a_block_answer_says(block: &BlockMeta, body: &[String], r: Json)
    requires
        call_ensures(block_json, (block, body), r),
    ensures
        r@.get("id"@) == Some(JsonModel::Nat(block.id)),
        r@.get("block_type"@) == Some(JsonModel::Str(block.block_type@)),
        r@.get("header"@) == Some(JsonModel::Str(block.header@)),
        r@.get("seq"@) == Some(JsonModel::Nat(block.seq)),
        r@.get("body"@) == Some(text_array(texts(body@))),
{
    lemma_answer_names();
}

/// Which blocks are expanded where they are named by number: for each number, in the order in
/// which they are named, the block that has it. A number that no block has is passed over.
pub proof fn law_blocks_are_expanded_by_number(
    blocks: Seq<MetaView>,
    args: Seq<Seq<char>>,
    ids: Seq<u64>,
)
    requires
        args.len() == ids.len(),
        forall|i: int| 0 <= i < args.len() ==> #[trigger] args[i] == decimal(ids[i] as nat),
        forall|i: int, j: int|
            0 <= i < j < blocks.len() ==> (#[trigger] blocks[i]).id < (#[trigger] blocks[j]).id,
    ensures
        forall|k: int|
            0 <= k < selected(blocks, args).len() ==> 0 <= #[trigger] selected(blocks, args)[k]
                < blocks.len(),
        (forall|i: int| 0 <= i < ids.len() ==> has_block(blocks, #[trigger] ids[i])) ==> {
            &&& selected(blocks, args).len() == ids.len()
            &&& forall|k: int|
                0 <= k < ids.len() ==> blocks[#[trigger] selected(blocks, args)[k]].id == ids[k]
        },
        forall|i: int|
            0 <= i < blocks.len() ==> (exists|k: int|
                0 <= k < selected(blocks, args).len() && #[trigger] selected(blocks, args)[k] == i)
                == ids.contains((#[trigger] blocks[i]).id),
{
    lemma_decimals_are_numbers(args, ids, args.len() as int);
    assert(ids.take(ids.len() as int) =~= ids);
    if args.len() == 1 && args[0] == "--all"@ {
        reveal_strlit("--all");
        crate::numbers::lemma_decimal_value(ids[0] as nat);
        assert(crate::numbers::is_digit(args[0][0]));
    }
    lemma_places(blocks, ids, ids.len() as int);
    let all = selected(blocks, args);
    assert(all == places_to(blocks, ids, ids.len() as int));
}

/// Whether there is a block with that number.
pub open spec fn has_block(blocks: Seq<MetaView>, id: u64) -> bool {
    exists|i: int| 0 <= i < blocks.len() && (#[trigger] blocks[i]).id == id
}

proof fn lemma_decimals_are_numbers(args: Seq<Seq<char>>, ids: Seq<u64>, n: int)
    requires
        0 <= n <= args.len() == ids.len(),
        forall|i: int| 0 <= i < args.len() ==> #[trigger] args[i] == decimal(ids[i] as nat),
    ensures
        all_numbers_to(args, n) == ids.take(n),
    decreases n,
{
    if n > 0 {
        lemma_decimals_are_numbers(args, ids, n - 1);
        let id = ids[n - 1];
        let arg = args[n - 1];
        assert(arg == decimal(id as nat));
        crate::numbers::lemma_decimal_value(id as nat);
        assert(!arg.contains(',')) by {
            if arg.contains(',') {
                let k = arg.index_of(',');
                assert(crate::numbers::is_digit(arg[k]));
            }
        }
        crate::text::law_split_at_each(arg, seq![], ',');
        let pieces = split(arg, ',');
        assert(pieces == seq![arg]);
        assert(crate::numbers::is_digit(arg[0]));
        assert(crate::numbers::is_digit(arg[arg.len() - 1]));
        assert(crate::text::trim_start(arg) == arg);
        assert(trim(arg) == arg);
        crate::numbers::law_decimal_round_trip(id as nat, u64::MAX as nat);
        assert(numbers_to(pieces, 0) =~= seq![]);
        assert(numbers_to(pieces, 1) =~= seq![id]);
        assert(ids.take(n) =~= ids.take(n - 1) + seq![id]);
    } else {
        assert(ids.take(0) =~= seq![]);
    }
}

proof fn lemma_place_of(blocks: Seq<MetaView>, id: u64, n: int)
    requires
        0 <= n <= blocks.len(),
        forall|i: int, j: int|
            0 <= i < j < blocks.len() ==> (#[trigger] blocks[i]).id < (#[trigger] blocks[j]).id,
    ensures
        place_of(blocks, id, n) matches Some(i) ==> 0 <= i < n && blocks[i].id == id,
        place_of(blocks, id, n) is None ==> forall|i: int|
            0 <= i < n ==> (#[trigger] blocks[i]).id != id,
        forall|i: int|
            0 <= i < n && (#[trigger] blocks[i]).id == id ==> place_of(blocks, id, n) == Some(i),
    decreases n,
{
    if n > 0 {
        lemma_place_of(blocks, id, n - 1);
    }
}

proof fn lemma_places(blocks: Seq<MetaView>, ids: Seq<u64>, n: int)
    requires
        0 <= n <= ids.len(),
        forall|i: int, j: int|
            0 <= i < j < blocks.len() ==> (#[trigger] blocks[i]).id < (#[trigger] blocks[j]).id,
    ensures
        forall|k: int|
            0 <= k < places_to(blocks, ids, n).len() ==> 0 <= #[trigger] places_to(
                blocks,
                ids,
                n,
            )[k] < blocks.len(),
        (forall|i: int| 0 <= i < n ==> has_block(blocks, #[trigger] ids[i])) ==> places_to(
            blocks,
            ids,
            n,
        ).len() == n && forall|k: int|
            0 <= k < n ==> blocks[#[trigger] places_to(blocks, ids, n)[k]].id == ids[k],
        forall|i: int|
            0 <= i < blocks.len() ==> (exists|k: int|
                0 <= k < places_to(blocks, ids, n).len() && #[trigger] places_to(
                    blocks,
                    ids,
                    n,
                )[k] == i) == (exists|j: int|
                0 <= j < n && #[trigger] ids[j] == (#[trigger] blocks[i]).id),
    decreases n,
{
    if n > 0 {
        lemma_places(blocks, ids, n - 1);
        let id = ids[n - 1];
        lemma_place_of(blocks, id, blocks.len() as int);
        let before = places_to(blocks, ids, n - 1);
        let all = places_to(blocks, ids, n);
        if forall|i: int| 0 <= i < n ==> has_block(blocks, #[trigger] ids[i]) {
            assert(has_block(blocks, ids[n - 1]));
        }
        assert forall|i: int| 0 <= i < blocks.len() implies (exists|k: int|
            0 <= k < all.len() && #[trigger] all[k] == i) == (exists|j: int|
            0 <= j < n && #[trigger] ids[j] == (#[trigger] blocks[i]).id) by {
            if exists|k: int| 0 <= k < before.len() && #[trigger] before[k] == i {
                let k = choose|k: int| 0 <= k < before.len() && #[trigger] before[k] == i;
                assert(all[k] == i);
            }
            if id == blocks[i].id {
                assert(all[all.len() - 1] == i);
                assert(ids[n - 1] == blocks[i].id);
            }
            if exists|k: int| 0 <= k < all.len() && #[trigger] all[k] == i {
                let k = choose|k: int| 0 <= k < all.len() && #[trigger] all[k] == i;
                if k < before.len() {
                    assert(before[k] == i);
                } else {
                    assert(ids[n - 1] == blocks[i].id);
                }
            }
        }
    }
}

/// Numbers may also be named together, with commas between them.
pub proof fn law_numbers_may_be_named_together(a: Seq<char>, b: Seq<char>)
    requires
        !a.contains(','),
    ensures
        numbers_in(a + seq![','] + b) == numbers_in(a) + numbers_in(b),
{
    crate::text::law_split_at_each(a, b, ',');
    lemma_numbers_append(seq![a], split(b, ','), split(b, ',').len() as int);
    let n = split(b, ',').len() as int;
    assert((seq![a] + split(b, ',')).len() == n + 1);
}

proof fn lemma_numbers_append(a: Seq<Seq<char>>, b: Seq<Seq<char>>, n: int)
    requires
        0 <= n <= b.len(),
    ensures
        numbers_to(a + b, a.len() + n) == numbers_to(a, a.len() as int) + numbers_to(b, n),
    decreases n,
{
    if n > 0 {
        lemma_numbers_append(a, b, n - 1);
        assert((a + b)[a.len() + n - 1] == b[n - 1]);
        assert(numbers_to(a + b, a.len() + n) =~= numbers_to(a, a.len() as int) + numbers_to(b, n));
    } else {
        lemma_numbers_prefix(a, b, a.len() as int);
        assert(numbers_to(a, a.len() as int) + numbers_to(b, 0) =~= numbers_to(
            a,
            a.len() as int,
        ));
    }
}

proof fn lemma_numbers_prefix(a: Seq<Seq<char>>, b: Seq<Seq<char>>, n: int)
    requires
        0 <= n <= a.len(),
    ensures
        numbers_to(a + b, n) == numbers_to(a, n),
    decreases n,
{
    if n > 0 {
        lemma_numbers_prefix(a, b, n - 1);
        assert((a + b)[n - 1] == a[n - 1]);
    }
}

/// What lists say: everything that they are given, in order.
pub proof fn law_what_lists_say(sessions: Vec<Json>, all: Json, blocks: Vec<Json>, expanded: Json)
    requires
        call_ensures(list_json, (sessions,), all),
        call_ensures(expand_json, (blocks,), expanded),
    ensures
        all@.get("sessions"@) == Some(JsonModel::Array(items(sessions@))),
        expanded@.get("blocks"@) == Some(JsonModel::Array(items(blocks@))),
        expanded@.get("ok"@) == Some(JsonModel::Bool(true)),
{
    lemma_answer_names();
}

/// Messages are streamed and answered one by one, in order, as they are.
pub proof fn law_messages_are_told_in_order(
    messages: &[LogMessage],
    lines: Vec<String>,
    answer: Json,
    i: int,
)
    requires
        call_ensures(stream_lines, (messages,), lines),
        call_ensures(messages_json, (messages,), answer),
        0 <= i < messages@.len(),
    ensures
        lines@.len() == messages@.len(),
        answer@ is Array && answer@->Array_0.len() == messages@.len(),
        answer@->Array_0[i] == message_model(messages@[i]@),
{
}

} // verus!
