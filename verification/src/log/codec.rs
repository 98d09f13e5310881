//! Log messages in JSON.
use crate::fields::{by_name, items_by_name};
use crate::json::{
    items, json_nat, json_text, members, plain, plain_members, push_item, put, Json, JsonModel,
};
use crate::log::form::{
    message_fields, message_names, option_fields, option_names, prompt_fields, prompt_names, Form,
};
use crate::log::record::{LogMessage, LogView};
use crate::outline::{leads, StepModel};
use crate::parser::prompt::{
    option_views, prompt_view, OptionView, PromptInfo, PromptOption, PromptView,
};
use vstd::prelude::*;

verus! {

// ---------------------------------------------------------------------------------------------
// Writing

/// The members with one more, where there is a value for it.
pub open spec fn with_some(
    m: Map<Seq<char>, JsonModel>,
    name: Seq<char>,
    value: Option<JsonModel>,
) -> Map<Seq<char>, JsonModel> {
    match value {
        Some(value) => m.insert(name, value),
        None => m,
    }
}

/// A string, where there is a text.
pub open spec fn some_text(text: Option<Seq<char>>) -> Option<JsonModel> {
    match text {
        Some(s) => Some(JsonModel::Str(s)),
        None => None,
    }
}

/// A number, where there is one.
pub open spec fn some_nat(n: Option<u64>) -> Option<JsonModel> {
    match n {
        Some(n) => Some(JsonModel::Nat(n)),
        None => None,
    }
}

/// An option of a question.
pub open spec fn option_model(option: OptionView) -> JsonModel {
    JsonModel::Object(
        Map::<Seq<char>, JsonModel>::empty().insert(
            "number"@,
            JsonModel::Nat(option.number as u64),
        ).insert("label"@, JsonModel::Str(option.label)).insert(
            "description"@,
            JsonModel::Str(option.description),
        ).insert("is_selected"@, JsonModel::Bool(option.is_selected)),
    )
}

/// The options of a question.
pub open spec fn options_model(options: Seq<OptionView>) -> JsonModel {
    JsonModel::Array(Seq::new(options.len(), |i: int| option_model(options[i])))
}

/// A question.
pub open spec fn prompt_model(prompt: PromptView) -> JsonModel {
    JsonModel::Object(
        Map::<Seq<char>, JsonModel>::empty().insert(
            "question_num"@,
            JsonModel::Nat(prompt.question_num as u64),
        ).insert("question_total"@, JsonModel::Nat(prompt.question_total as u64)).insert(
            "question_text"@,
            JsonModel::Str(prompt.question_text),
        ).insert("options"@, options_model(prompt.options)).insert(
            "selected"@,
            JsonModel::Nat(prompt.selected as u64),
        ),
    )
}

/// A question, where there is one.
pub open spec fn some_prompt(prompt: Option<PromptView>) -> Option<JsonModel> {
    match prompt {
        Some(prompt) => Some(prompt_model(prompt)),
        None => None,
    }
}

/// The members that every message has.
pub open spec fn main_members(m: LogView) -> Map<Seq<char>, JsonModel> {
    Map::<Seq<char>, JsonModel>::empty().insert("seq"@, JsonModel::Nat(m.seq)).insert(
        "ts"@,
        JsonModel::Str(m.ts),
    ).insert("type"@, JsonModel::Str(m.msg_type)).insert("text"@, JsonModel::Str(m.text))
}

/// The members of a message that say how a state changed and what was asked, where it does.
pub open spec fn with_change(
    members: Map<Seq<char>, JsonModel>,
    m: LogView,
) -> Map<Seq<char>, JsonModel> {
    with_some(
        with_some(
            with_some(members, "state_from"@, some_text(m.state_from)),
            "state_to"@,
            some_text(m.state_to),
        ),
        "prompt"@,
        some_prompt(m.prompt),
    )
}

/// A number of lines, where there is one.
pub open spec fn wide(n: Option<u32>) -> Option<u64> {
    match n {
        Some(n) => Some(n as u64),
        None => None,
    }
}

/// The members of a message that speak of a block, where it does.
pub open spec fn with_block(
    members: Map<Seq<char>, JsonModel>,
    m: LogView,
) -> Map<Seq<char>, JsonModel> {
    with_some(
        with_some(
            with_some(
                with_some(
                    with_some(members, "block_id"@, some_nat(m.block_id)),
                    "block_type"@,
                    some_text(m.block_type),
                ),
                "block_lines"@,
                some_nat(wide(m.block_lines)),
            ),
            "body_offset"@,
            some_nat(m.body_offset),
        ),
        "body_len"@,
        some_nat(m.body_len),
    )
}

/// A message. What it does not say is left out.
pub open spec fn message_model(m: LogView) -> JsonModel {
    JsonModel::Object(with_block(with_change(main_members(m), m), m))
}

/// The messages of a sequence.
pub open spec fn messages_model(messages: Seq<LogView>) -> JsonModel {
    JsonModel::Array(Seq::new(messages.len(), |i: int| message_model(messages[i])))
}

impl PromptOption {
    /// The option in JSON.
    pub fn to_json(&self) -> (r: Json)
        ensures
            r@ == option_model(self@),
    {
        let mut m: Vec<(String, Json)> = Vec::new();
        put(&mut m, "number", json_nat(self.number as u64));
        put(&mut m, "label", json_text(self.label.as_str()));
        put(&mut m, "description", json_text(self.description.as_str()));
        put(&mut m, "is_selected", Json::Bool(self.is_selected));
        Json::Object(m)
    }
}

/// The options of a question in JSON.
pub fn options_json(options: &Vec<PromptOption>) -> (r: Json)
    ensures
        r@ == options_model(option_views(options@)),
{
    let ghost all = Seq::new(
        options@.len(),
        |i: int| option_model(option_views(options@)[i]),
    );
    let mut v: Vec<Json> = Vec::new();
    let mut i: usize = 0;
    proof {
        assert(items(v@) =~= all.take(0));
    }
    while i < options.len()
        invariant
            i <= options@.len(),
            all == Seq::new(options@.len(), |i: int| option_model(option_views(options@)[i])),
            items(v@) == all.take(i as int),
        decreases options@.len() - i,
    {
        proof {
            assert(all.take(i + 1) =~= all.take(i as int).push(
                option_model(options@[i as int]@),
            ));
        }
        push_item(&mut v, options[i].to_json());
        i = i + 1;
    }
    proof {
        assert(all.take(options@.len() as int) =~= all);
    }
    Json::Array(v)
}

impl PromptInfo {
    /// The question in JSON.
    pub fn to_json(&self) -> (r: Json)
        ensures
            r@ == prompt_model(self@),
    {
        let mut m: Vec<(String, Json)> = Vec::new();
        put(&mut m, "question_num", json_nat(self.question_num as u64));
        put(&mut m, "question_total", json_nat(self.question_total as u64));
        put(&mut m, "question_text", json_text(self.question_text.as_str()));
        put(&mut m, "options", options_json(&self.options));
        put(&mut m, "selected", json_nat(self.selected as u64));
        Json::Object(m)
    }
}

/// Adds a string, where there is a text.
fn put_text(m: &mut Vec<(String, Json)>, name: &str, text: &Option<String>)
    ensures
        members(final(m)@) == with_some(
            members(old(m)@),
            name@,
            some_text(crate::json::opt_text(*text)),
        ),
{
    if let Some(s) = text {
        put(m, name, json_text(s.as_str()));
    }
}

/// Adds a number, where there is one.
fn put_nat(m: &mut Vec<(String, Json)>, name: &str, n: Option<u64>)
    ensures
        members(final(m)@) == with_some(members(old(m)@), name@, some_nat(n)),
{
    if let Some(n) = n {
        put(m, name, json_nat(n));
    }
}

impl LogMessage {
    /// The message in JSON.
    pub fn to_json(&self) -> (r: Json)
        ensures
            r@ == message_model(self@),
    {
        let mut m: Vec<(String, Json)> = Vec::new();
        put(&mut m, "seq", json_nat(self.seq));
        put(&mut m, "ts", json_text(self.ts.as_str()));
        put(&mut m, "type", json_text(self.msg_type.as_str()));
        put(&mut m, "text", json_text(self.text.as_str()));
        put_text(&mut m, "state_from", &self.state_from);
        put_text(&mut m, "state_to", &self.state_to);
        if let Some(prompt) = &self.prompt {
            put(&mut m, "prompt", prompt.to_json());
        }
        put_nat(&mut m, "block_id", self.block_id);
        put_text(&mut m, "block_type", &self.block_type);
        put_nat(
            &mut m,
            "block_lines",
            match self.block_lines {
                Some(n) => Some(n as u64),
                None => None,
            },
        );
        put_nat(&mut m, "body_offset", self.body_offset);
        put_nat(&mut m, "body_len", self.body_len);
        Json::Object(m)
    }
}

// ---------------------------------------------------------------------------------------------
// Reading

/// The option that a document says with its fields under their names.
pub open spec fn option_in(m: JsonModel) -> Option<OptionView> {
    match (
        m.need_nat("number"@, 255),
        m.need_text("label"@),
        m.need_text("description"@),
        m.need_bool("is_selected"@),
    ) {
        (Some(number), Some(label), Some(description), Some(is_selected)) => Some(
            OptionView { number: number as u8, label, description, is_selected },
        ),
        _ => None,
    }
}

/// The option that a document says: an object, or an array of the fields in order.
pub open spec fn option_said(document: JsonModel) -> Option<OptionView> {
    option_in(by_name(document, option_names(), 4))
}

/// The options that the first `n` documents say, if each says one.
pub open spec fn options_said_to(s: Seq<JsonModel>, n: int) -> Option<Seq<OptionView>>
    decreases n,
{
    if n <= 0 {
        Some(seq![])
    } else {
        match (options_said_to(s, n - 1), option_said(s[n - 1])) {
            (Some(before), Some(option)) => Some(before.push(option)),
            _ => None,
        }
    }
}

/// The options that the items of a member say.
pub open spec fn options_said(m: JsonModel, name: Seq<char>) -> Option<Seq<OptionView>> {
    match m.need_items(name) {
        Some(s) => options_said_to(s, s.len() as int),
        None => None,
    }
}

/// The question that a document says with its fields under their names.
pub open spec fn prompt_in(m: JsonModel) -> Option<PromptView> {
    match (
        m.need_nat("question_num"@, 255),
        m.need_nat("question_total"@, 255),
        m.need_text("question_text"@),
        options_said(m, "options"@),
        m.need_nat("selected"@, 255),
    ) {
        (Some(num), Some(total), Some(text), Some(options), Some(selected)) => Some(
            PromptView {
                question_num: num as u8,
                question_total: total as u8,
                question_text: text,
                options,
                selected: selected as u8,
            },
        ),
        _ => None,
    }
}

/// The question that a document says: an object, or an array of the fields in order.
pub open spec fn prompt_said(document: JsonModel) -> Option<PromptView> {
    prompt_in(by_name(document, prompt_names(), 5))
}

/// The question under that name, which may be missing or null.
pub open spec fn may_prompt(m: JsonModel, name: Seq<char>) -> Option<Option<PromptView>> {
    match m.get(name) {
        None | Some(JsonModel::Null) => Some(None),
        Some(p) => match prompt_said(p) {
            Some(prompt) => Some(Some(prompt)),
            None => None,
        },
    }
}

/// A number of lines, where there is one.
pub open spec fn narrow(n: Option<u64>) -> Option<u32> {
    match n {
        Some(n) => Some(n as u32),
        None => None,
    }
}

/// The message that a document says, but for what it says of a block.
pub open spec fn main_said(m: JsonModel) -> Option<LogView> {
    match (
        m.need_nat("seq"@, u64::MAX),
        m.need_text("ts"@),
        m.need_text("type"@),
        m.need_text("text"@),
        m.may_text("state_from"@),
        m.may_text("state_to"@),
        may_prompt(m, "prompt"@),
    ) {
        (
            Some(seq),
            Some(ts),
            Some(msg_type),
            Some(text),
            Some(state_from),
            Some(state_to),
            Some(prompt),
        ) => Some(
            LogView {
                state_from,
                state_to,
                prompt,
                ..LogView::simple(seq, ts, msg_type, text)
            },
        ),
        _ => None,
    }
}

/// The message that a document says with its fields under their names.
pub open spec fn message_in(m: JsonModel) -> Option<LogView> {
    match (
        main_said(m),
        m.may_nat("block_id"@, u64::MAX),
        m.may_text("block_type"@),
        m.may_nat("block_lines"@, u32::MAX as u64),
        m.may_nat("body_offset"@, u64::MAX),
        m.may_nat("body_len"@, u64::MAX),
    ) {
        (
            Some(main),
            Some(block_id),
            Some(block_type),
            Some(block_lines),
            Some(body_offset),
            Some(body_len),
        ) => Some(
            LogView {
                block_id,
                block_type,
                block_lines: narrow(block_lines),
                body_offset,
                body_len,
                ..main
            },
        ),
        _ => None,
    }
}

/// The message that a document says: an object, or an array of the fields in order.
pub open spec fn message_said(document: JsonModel) -> Option<LogView> {
    message_in(by_name(document, message_names(), 10))
}

/// What a message says, where there is one.
pub open spec fn log_view(message: Option<LogMessage>) -> Option<LogView> {
    match message {
        Some(message) => Some(message@),
        None => None,
    }
}

impl PromptOption {
    /// The option that a document says.
    pub fn from_json(json: &Json) -> (r: Option<PromptOption>)
        ensures
            match r {
                Some(option) => option_said(json@) == Some(option@),
                None => option_said(json@) is None,
            },
    {
        match json {
            Json::Array(v) => PromptOption::from_members(&items_by_name(v, &option_fields(), 4)),
            _ => PromptOption::from_members(json),
        }
    }

    /// The option that a document says with its fields under their names.
    fn from_members(json: &Json) -> (r: Option<PromptOption>)
        ensures
            match r {
                Some(option) => option_in(json@) == Some(option@),
                None => option_in(json@) is None,
            },
    {
        match (
            json.need_nat("number", 255),
            json.need_text("label"),
            json.need_text("description"),
            json.need_bool("is_selected"),
        ) {
            (Some(number), Some(label), Some(description), Some(is_selected)) => Some(
                PromptOption { number: number as u8, label, description, is_selected },
            ),
            _ => None,
        }
    }
}

proof fn lemma_options_stop(s: Seq<JsonModel>, i: int, n: int)
    requires
        0 <= i <= n,
        options_said_to(s, i) is None,
    ensures
        options_said_to(s, n) is None,
    decreases n - i,
{
    if i < n {
        lemma_options_stop(s, i, n - 1);
    }
}

/// The options that the documents say, if each says one.
fn options_from_json(v: &Vec<Json>) -> (r: Option<Vec<PromptOption>>)
    ensures
        match r {
            Some(options) => options_said_to(items(v@), v@.len() as int) == Some(
                option_views(options@),
            ),
            None => options_said_to(items(v@), v@.len() as int) is None,
        },
{
    let mut out: Vec<PromptOption> = Vec::new();
    let mut i: usize = 0;
    proof {
        assert(option_views(out@) =~= seq![]);
    }
    while i < v.len()
        invariant
            i <= v@.len(),
            options_said_to(items(v@), i as int) == Some(option_views(out@)),
        decreases v@.len() - i,
    {
        proof {
            assert(items(v@)[i as int] == v@[i as int].model());
        }
        match PromptOption::from_json(&v[i]) {
            Some(option) => {
                proof {
                    assert(option_views(out@.push(option)) =~= option_views(out@).push(option@));
                }
                out.push(option);
            },
            None => {
                proof {
                    lemma_options_stop(items(v@), i + 1, v@.len() as int);
                }
                return None;
            },
        }
        i = i + 1;
    }
    Some(out)
}

impl PromptInfo {
    /// The question that a document says.
    pub fn from_json(json: &Json) -> (r: Option<PromptInfo>)
        ensures
            prompt_view(r) == prompt_said(json@),
    {
        match json {
            Json::Array(v) => PromptInfo::from_members(&items_by_name(v, &prompt_fields(), 5)),
            _ => PromptInfo::from_members(json),
        }
    }

    /// The question that a document says with its fields under their names.
    fn from_members(json: &Json) -> (r: Option<PromptInfo>)
        ensures
            prompt_view(r) == prompt_in(json@),
    {
        let options = match json.need_items("options") {
            Some(v) => options_from_json(v),
            None => None,
        };
        match (
            json.need_nat("question_num", 255),
            json.need_nat("question_total", 255),
            json.need_text("question_text"),
            options,
            json.need_nat("selected", 255),
        ) {
            (Some(num), Some(total), Some(question_text), Some(options), Some(selected)) => Some(
                PromptInfo {
                    question_num: num as u8,
                    question_total: total as u8,
                    question_text,
                    options,
                    selected: selected as u8,
                },
            ),
            _ => None,
        }
    }
}

/// The question under that name, which may be missing or null.
fn prompt_from_json(json: &Json, name: &str) -> (r: Option<Option<PromptInfo>>)
    ensures
        match r {
            Some(prompt) => may_prompt(json@, name@) == Some(prompt_view(prompt)),
            None => may_prompt(json@, name@) is None,
        },
{
    match json.get(name) {
        None => Some(None),
        Some(Json::Null) => Some(None),
        Some(p) => match PromptInfo::from_json(p) {
            Some(prompt) => Some(Some(prompt)),
            None => None,
        },
    }
}

impl LogMessage {
    /// The message that a document says, but for what it says of a block.
    fn main_from_json(json: &Json) -> (r: Option<LogMessage>)
        ensures
            log_view(r) == main_said(json@),
    {
        match (
            json.need_nat("seq", u64::MAX),
            json.need_text("ts"),
            json.need_text("type"),
            json.need_text("text"),
            json.may_text("state_from"),
            json.may_text("state_to"),
            prompt_from_json(json, "prompt"),
        ) {
            (
                Some(seq),
                Some(ts),
                Some(msg_type),
                Some(text),
                Some(state_from),
                Some(state_to),
                Some(prompt),
            ) => Some(
                LogMessage {
                    seq,
                    ts,
                    msg_type,
                    text,
                    state_from,
                    state_to,
                    prompt,
                    block_id: None,
                    block_type: None,
                    block_lines: None,
                    body_offset: None,
                    body_len: None,
                },
            ),
            _ => None,
        }
    }

    /// The message that a document says.
    pub fn from_json(json: &Json) -> (r: Option<LogMessage>)
        ensures
            log_view(r) == message_said(json@),
    {
        match json {
            Json::Array(v) => LogMessage::from_members(&items_by_name(v, &message_fields(), 10)),
            _ => LogMessage::from_members(json),
        }
    }

    /// The message that a document says with its fields under their names.
    fn from_members(json: &Json) -> (r: Option<LogMessage>)
        ensures
            log_view(r) == message_in(json@),
    {
        match (
            LogMessage::main_from_json(json),
            json.may_nat("block_id", u64::MAX),
            json.may_text("block_type"),
            json.may_nat("block_lines", u32::MAX as u64),
            json.may_nat("body_offset", u64::MAX),
            json.may_nat("body_len", u64::MAX),
        ) {
            (
                Some(main),
                Some(block_id),
                Some(block_type),
                Some(block_lines),
                Some(body_offset),
                Some(body_len),
            ) => {
                let mut msg = main;
                msg.block_id = block_id;
                msg.block_type = block_type;
                msg.block_lines = match block_lines {
                    Some(n) => Some(n as u32),
                    None => None,
                };
                msg.body_offset = body_offset;
                msg.body_len = body_len;
                Some(msg)
            },
            _ => None,
        }
    }
}

// ---------------------------------------------------------------------------------------------
// Laws

/// An option written in JSON is read back.
pub proof fn law_option_round_trip(option: OptionView)
    ensures
        option_said(option_model(option)) == Some(option),
{
    reveal_strlit("number");
    reveal_strlit("label");
    reveal_strlit("description");
    reveal_strlit("is_selected");
    assert("number"@.len() == 6 && "label"@.len() == 5);
    assert("description"@.len() == 11 && "is_selected"@.len() == 11);
    assert("description"@[0] != "is_selected"@[0]);
}

proof fn lemma_options_read(options: Seq<OptionView>, s: Seq<JsonModel>, n: int)
    requires
        s == Seq::new(options.len(), |i: int| option_model(options[i])),
        0 <= n <= options.len(),
    ensures
        options_said_to(s, n) == Some(options.take(n)),
    decreases n,
{
    if n > 0 {
        lemma_options_read(options, s, n - 1);
        law_option_round_trip(options[n - 1]);
        assert(options.take(n - 1).push(options[n - 1]) =~= options.take(n));
    } else {
        assert(options.take(0) =~= seq![]);
    }
}

/// The names of a question's members differ.
proof fn lemma_prompt_names()
    ensures
        "question_num"@.len() == 12,
        "question_total"@.len() == 14,
        "question_text"@.len() == 13,
        "options"@.len() == 7,
        "selected"@.len() == 8,
{
    reveal_strlit("question_num");
    reveal_strlit("question_total");
    reveal_strlit("question_text");
    reveal_strlit("options");
    reveal_strlit("selected");
}

/// A question written in JSON is read back.
pub proof fn law_prompt_round_trip(prompt: PromptView)
    ensures
        prompt_said(prompt_model(prompt)) == Some(prompt),
{
    lemma_prompt_names();
    let s = Seq::new(prompt.options.len(), |i: int| option_model(prompt.options[i]));
    lemma_options_read(prompt.options, s, prompt.options.len() as int);
    assert(prompt.options.take(prompt.options.len() as int) =~= prompt.options);
}

/// The names of a message's members differ.
proof fn lemma_message_names()
    ensures
        "seq"@.len() == 3,
        "ts"@.len() == 2,
        "type"@.len() == 4,
        "text"@.len() == 4,
        "type"@ != "text"@,
        "state_from"@.len() == 10,
        "block_type"@.len() == 10,
        "state_from"@ != "block_type"@,
        "state_to"@.len() == 8,
        "block_id"@.len() == 8,
        "body_len"@.len() == 8,
        "state_to"@ != "block_id"@,
        "state_to"@ != "body_len"@,
        "block_id"@ != "body_len"@,
        "prompt"@.len() == 6,
        "block_lines"@.len() == 11,
        "body_offset"@.len() == 11,
        "block_lines"@ != "body_offset"@,
{
    reveal_strlit("seq");
    reveal_strlit("ts");
    reveal_strlit("type");
    reveal_strlit("text");
    reveal_strlit("state_from");
    reveal_strlit("block_type");
    reveal_strlit("state_to");
    reveal_strlit("block_id");
    reveal_strlit("body_len");
    reveal_strlit("prompt");
    reveal_strlit("block_lines");
    reveal_strlit("body_offset");
    assert("type"@[1] != "text"@[1]);
    assert("state_from"@[0] != "block_type"@[0]);
    assert("state_to"@[0] != "block_id"@[0]);
    assert("state_to"@[0] != "body_len"@[0]);
    assert("block_id"@[1] != "body_len"@[1]);
    assert("block_lines"@[1] != "body_offset"@[1]);
}

/// What is said about a change survives what is said about a block.
proof fn lemma_block_members(m: Map<Seq<char>, JsonModel>, v: LogView, name: Seq<char>)
    requires
        name != "block_id"@,
        name != "block_type"@,
        name != "block_lines"@,
        name != "body_offset"@,
        name != "body_len"@,
    ensures
        with_block(m, v).contains_key(name) == m.contains_key(name),
        m.contains_key(name) ==> with_block(m, v)[name] == m[name],
{
}

/// A message written in JSON is read back, whatever it says.
pub proof fn law_message_round_trip(m: LogView)
    ensures
        message_said(message_model(m)) == Some(m),
{
    lemma_message_names();
    let base = with_change(main_members(m), m);
    let j = message_model(m);
    lemma_block_members(base, m, "seq"@);
    lemma_block_members(base, m, "ts"@);
    lemma_block_members(base, m, "type"@);
    lemma_block_members(base, m, "text"@);
    lemma_block_members(base, m, "state_from"@);
    lemma_block_members(base, m, "state_to"@);
    lemma_block_members(base, m, "prompt"@);
    if let Some(prompt) = m.prompt {
        law_prompt_round_trip(prompt);
    }
    assert(main_said(j) == Some(
        LogView {
            state_from: m.state_from,
            state_to: m.state_to,
            prompt: m.prompt,
            ..LogView::simple(m.seq, m.ts, m.msg_type, m.text)
        },
    ));
    assert(j.may_nat("block_id"@, u64::MAX) == Some(m.block_id));
    assert(j.may_text("block_type"@) == Some(m.block_type));
    assert(j.may_nat("block_lines"@, u32::MAX as u64) == Some(wide(m.block_lines)));
    assert(j.may_nat("body_offset"@, u64::MAX) == Some(m.body_offset));
    assert(j.may_nat("body_len"@, u64::MAX) == Some(m.body_len));
}

/// An option has no members but its fields.
proof fn lemma_option_members(option: OptionView, name: Seq<char>)
    requires
        option_model(option)->Object_0.contains_key(name),
    ensures
        option_names().contains(name),
{
    assert(option_names()[0] == "number"@);
    assert(option_names()[1] == "label"@);
    assert(option_names()[2] == "description"@);
    assert(option_names()[3] == "is_selected"@);
}

/// A question has no members but its fields.
proof fn lemma_prompt_members(prompt: PromptView, name: Seq<char>)
    requires
        prompt_model(prompt)->Object_0.contains_key(name),
    ensures
        prompt_names().contains(name),
{
    assert(prompt_names()[0] == "question_num"@);
    assert(prompt_names()[1] == "question_total"@);
    assert(prompt_names()[2] == "question_text"@);
    assert(prompt_names()[3] == "options"@);
    assert(prompt_names()[4] == "selected"@);
}

/// A message has no members but its fields.
proof fn lemma_message_members(m: LogView, name: Seq<char>)
    requires
        message_model(m)->Object_0.contains_key(name),
    ensures
        message_names().contains(name),
{
    assert(message_names()[0] == "seq"@);
    assert(message_names()[1] == "ts"@);
    assert(message_names()[2] == "type"@);
    assert(message_names()[3] == "text"@);
    assert(message_names()[4] == "state_from"@);
    assert(message_names()[5] == "state_to"@);
    assert(message_names()[6] == "prompt"@);
    assert(message_names()[7] == "block_id"@);
    assert(message_names()[8] == "block_type"@);
    assert(message_names()[9] == "block_lines"@);
    assert(message_names()[10] == "body_offset"@);
    assert(message_names()[11] == "body_len"@);
}

/// Every way into a message leads by its fields.
pub proof fn lemma_message_path(m: LogView, path: Seq<StepModel>)
    requires
        leads(message_model(m), path),
    ensures
        Form::Message.strange(path) == 0,
{
    if path.len() > 0 {
        lemma_message_members(m, path[0]->Name_0);
        if Form::Message.in_prompt(path) {
            let rest = path.skip(1);
            lemma_message_names();
            lemma_block_members(with_change(main_members(m), m), m, "prompt"@);
            assert(message_model(m)->Object_0["prompt"@] == prompt_model(m.prompt->0));
            assert(leads(prompt_model(m.prompt->0), rest));
            assert(rest[0] == path[1]);
            lemma_prompt_members(m.prompt->0, path[1]->Name_0);
            if Form::Message.in_option(path) {
                lemma_option_way(m.prompt->0, rest);
                assert(rest[2] == path[3]);
            }
        }
    }
}

/// Every way into an option of a question leads by its fields.
proof fn lemma_option_way(prompt: PromptView, path: Seq<StepModel>)
    requires
        leads(prompt_model(prompt), path),
        path.len() >= 3,
        path[0] == StepModel::Name("options"@),
    ensures
        path[2] is Name ==> option_names().contains(path[2]->Name_0),
{
    lemma_prompt_names();
    let inner = path.skip(1);
    assert(prompt_model(prompt)->Object_0["options"@] == options_model(prompt.options));
    assert(leads(options_model(prompt.options), inner));
    assert(inner[0] == path[1]);
    let i = path[1]->Item_0;
    let last = inner.skip(1);
    assert(last[0] == path[2]);
    assert(options_model(prompt.options)->Array_0[i] == option_model(prompt.options[i]));
    assert(leads(option_model(prompt.options[i]), last));
    lemma_option_members(prompt.options[i], path[2]->Name_0);
}

/// One more plain member leaves an object plain.
pub proof fn lemma_plain_insert(
    m: Map<Seq<char>, JsonModel>,
    name: Seq<char>,
    value: JsonModel,
    depth: nat,
)
    requires
        depth > 0,
        plain(JsonModel::Object(m), depth),
        plain(value, (depth - 1) as nat),
    ensures
        plain(JsonModel::Object(m.insert(name, value)), depth),
{
    let n = m.insert(name, value);
    assert(plain_members(m, (depth - 1) as nat));
    assert forall|k: Seq<char>| #![trigger n[k]] n.contains_key(k) implies plain(
        n[k],
        (depth - 1) as nat,
    ) by {
        if k != name {
            assert(m.contains_key(k));
            assert(plain(m[k], (depth - 1) as nat));
            assert(n[k] == m[k]);
        } else {
            assert(n[k] == value);
        }
    }
}

proof fn lemma_plain_some(
    m: Map<Seq<char>, JsonModel>,
    name: Seq<char>,
    value: Option<JsonModel>,
    depth: nat,
)
    requires
        depth > 0,
        plain(JsonModel::Object(m), depth),
        value is Some ==> plain(value->0, (depth - 1) as nat),
    ensures
        plain(JsonModel::Object(with_some(m, name, value)), depth),
{
    if let Some(v) = value {
        lemma_plain_insert(m, name, v, depth);
    }
}

proof fn lemma_option_plain(option: OptionView, depth: nat)
    requires
        depth > 0,
    ensures
        plain(option_model(option), depth),
{
    let m0 = Map::<Seq<char>, JsonModel>::empty();
    let m1 = m0.insert("number"@, JsonModel::Nat(option.number as u64));
    let m2 = m1.insert("label"@, JsonModel::Str(option.label));
    let m3 = m2.insert("description"@, JsonModel::Str(option.description));
    assert(plain(JsonModel::Object(m0), depth));
    lemma_plain_insert(m0, "number"@, JsonModel::Nat(option.number as u64), depth);
    lemma_plain_insert(m1, "label"@, JsonModel::Str(option.label), depth);
    lemma_plain_insert(m2, "description"@, JsonModel::Str(option.description), depth);
    lemma_plain_insert(m3, "is_selected"@, JsonModel::Bool(option.is_selected), depth);
}

/// Options are plain.
pub proof fn lemma_options_plain(options: Seq<OptionView>, depth: nat)
    requires
        depth > 1,
    ensures
        plain(options_model(options), depth),
{
    let s = Seq::new(options.len(), |i: int| option_model(options[i]));
    assert forall|i: int| 0 <= i < s.len() implies plain(#[trigger] s[i], (depth - 1) as nat) by {
        lemma_option_plain(options[i], (depth - 1) as nat);
    }
}

proof fn lemma_prompt_plain(prompt: PromptView, depth: nat)
    requires
        depth > 2,
    ensures
        plain(prompt_model(prompt), depth),
{
    let m0 = Map::<Seq<char>, JsonModel>::empty();
    let m1 = m0.insert("question_num"@, JsonModel::Nat(prompt.question_num as u64));
    let m2 = m1.insert("question_total"@, JsonModel::Nat(prompt.question_total as u64));
    let m3 = m2.insert("question_text"@, JsonModel::Str(prompt.question_text));
    let m4 = m3.insert("options"@, options_model(prompt.options));
    assert(plain(JsonModel::Object(m0), depth));
    lemma_options_plain(prompt.options, (depth - 1) as nat);
    lemma_plain_insert(m0, "question_num"@, JsonModel::Nat(prompt.question_num as u64), depth);
    lemma_plain_insert(m1, "question_total"@, JsonModel::Nat(prompt.question_total as u64), depth);
    lemma_plain_insert(m2, "question_text"@, JsonModel::Str(prompt.question_text), depth);
    lemma_plain_insert(m3, "options"@, options_model(prompt.options), depth);
    lemma_plain_insert(m4, "selected"@, JsonModel::Nat(prompt.selected as u64), depth);
}

/// Messages are plain: they can be read back from their text.
pub proof fn lemma_message_plain(m: LogView, depth: nat)
    requires
        depth > 3,
    ensures
        plain(message_model(m), depth),
{
    let m0 = Map::<Seq<char>, JsonModel>::empty();
    let m1 = m0.insert("seq"@, JsonModel::Nat(m.seq));
    let m2 = m1.insert("ts"@, JsonModel::Str(m.ts));
    let m3 = m2.insert("type"@, JsonModel::Str(m.msg_type));
    let m4 = m3.insert("text"@, JsonModel::Str(m.text));
    assert(plain(JsonModel::Object(m0), depth));
    lemma_plain_insert(m0, "seq"@, JsonModel::Nat(m.seq), depth);
    lemma_plain_insert(m1, "ts"@, JsonModel::Str(m.ts), depth);
    lemma_plain_insert(m2, "type"@, JsonModel::Str(m.msg_type), depth);
    lemma_plain_insert(m3, "text"@, JsonModel::Str(m.text), depth);
    let m5 = with_some(m4, "state_from"@, some_text(m.state_from));
    let m6 = with_some(m5, "state_to"@, some_text(m.state_to));
    let m7 = with_some(m6, "prompt"@, some_prompt(m.prompt));
    let m8 = with_some(m7, "block_id"@, some_nat(m.block_id));
    let m9 = with_some(m8, "block_type"@, some_text(m.block_type));
    let m10 = with_some(m9, "block_lines"@, some_nat(wide(m.block_lines)));
    let m11 = with_some(m10, "body_offset"@, some_nat(m.body_offset));
    if let Some(prompt) = m.prompt {
        lemma_prompt_plain(prompt, (depth - 1) as nat);
    }
    lemma_plain_some(m4, "state_from"@, some_text(m.state_from), depth);
    lemma_plain_some(m5, "state_to"@, some_text(m.state_to), depth);
    lemma_plain_some(m6, "prompt"@, some_prompt(m.prompt), depth);
    lemma_plain_some(m7, "block_id"@, some_nat(m.block_id), depth);
    lemma_plain_some(m8, "block_type"@, some_text(m.block_type), depth);
    lemma_plain_some(m9, "block_lines"@, some_nat(wide(m.block_lines)), depth);
    lemma_plain_some(m10, "body_offset"@, some_nat(m.body_offset), depth);
    lemma_plain_some(m11, "body_len"@, some_nat(m.body_len), depth);
}

/// Under which names a message is written: its number, time, type and text always, and anything
/// else only where it says that.
pub proof fn law_how_a_message_is_written(m: LogView)
    ensures
        ({
            let j = message_model(m);
            &&& j.get("seq"@) == Some(JsonModel::Nat(m.seq))
            &&& j.get("ts"@) == Some(JsonModel::Str(m.ts))
            &&& j.get("type"@) == Some(JsonModel::Str(m.msg_type))
            &&& j.get("text"@) == Some(JsonModel::Str(m.text))
            &&& m.state_from is None ==> j.get("state_from"@) is None
            &&& m.state_from is Some ==> j.get("state_from"@) == Some(
                JsonModel::Str(m.state_from->0),
            )
            &&& m.state_to is None ==> j.get("state_to"@) is None
            &&& m.state_to is Some ==> j.get("state_to"@) == Some(JsonModel::Str(m.state_to->0))
            &&& m.prompt is None ==> j.get("prompt"@) is None
            &&& m.prompt is Some ==> j.get("prompt"@) == Some(prompt_model(m.prompt->0))
            &&& m.block_id is None ==> j.get("block_id"@) is None
            &&& m.block_id is Some ==> j.get("block_id"@) == Some(JsonModel::Nat(m.block_id->0))
            &&& m.block_type is None ==> j.get("block_type"@) is None
            &&& m.block_type is Some ==> j.get("block_type"@) == Some(
                JsonModel::Str(m.block_type->0),
            )
            &&& m.block_lines is None ==> j.get("block_lines"@) is None
            &&& m.block_lines is Some ==> j.get("block_lines"@) == Some(
                JsonModel::Nat(m.block_lines->0 as u64),
            )
            &&& m.body_offset is None ==> j.get("body_offset"@) is None
            &&& m.body_offset is Some ==> j.get("body_offset"@) == Some(
                JsonModel::Nat(m.body_offset->0),
            )
            &&& m.body_len is None ==> j.get("body_len"@) is None
            &&& m.body_len is Some ==> j.get("body_len"@) == Some(JsonModel::Nat(m.body_len->0))
        }),
{
    lemma_message_names();
}

/// Under which names a question and its options are written.
pub proof fn law_how_a_question_is_written(p: PromptView, o: OptionView)
    ensures
        ({
            let j = prompt_model(p);
            &&& j.get("question_num"@) == Some(JsonModel::Nat(p.question_num as u64))
            &&& j.get("question_total"@) == Some(JsonModel::Nat(p.question_total as u64))
            &&& j.get("question_text"@) == Some(JsonModel::Str(p.question_text))
            &&& j.get("selected"@) == Some(JsonModel::Nat(p.selected as u64))
            &&& j.get("options"@) is Some && j.get("options"@)->0 is Array
            &&& j.get("options"@)->0->Array_0.len() == p.options.len()
            &&& forall|i: int|
                0 <= i < p.options.len() ==> #[trigger] j.get("options"@)->0->Array_0[i]
                    == option_model(p.options[i])
        }),
        ({
            let j = option_model(o);
            &&& j.get("number"@) == Some(JsonModel::Nat(o.number as u64))
            &&& j.get("label"@) == Some(JsonModel::Str(o.label))
            &&& j.get("description"@) == Some(JsonModel::Str(o.description))
            &&& j.get("is_selected"@) == Some(JsonModel::Bool(o.is_selected))
        }),
{
    lemma_prompt_names();
    reveal_strlit("number");
    reveal_strlit("label");
    reveal_strlit("description");
    reveal_strlit("is_selected");
    assert("number"@.len() == 6 && "label"@.len() == 5);
    assert("description"@.len() == 11 && "is_selected"@.len() == 11);
    assert("description"@[0] != "is_selected"@[0]);
}

/// What a message that is read has to have: a number, a time, a type and a text.
pub proof fn law_what_a_message_has_to_have(m: JsonModel)
    requires
        m is Object,
    ensures
        message_said(m) is Some ==> m.get("seq"@) is Some && m.get("ts"@) is Some && m.get("type"@)
            is Some && m.get("text"@) is Some,
        message_said(m) matches Some(v) ==> m.get("seq"@) == Some(JsonModel::Nat(v.seq)) && m.get(
            "ts"@,
        ) == Some(JsonModel::Str(v.ts)) && m.get("type"@) == Some(JsonModel::Str(v.msg_type))
            && m.get("text"@) == Some(JsonModel::Str(v.text)),
{
}

/// In which order the fields of a message stand in an array.
pub proof fn law_the_order_of_a_message(m: LogView)
    requires
        m.state_from is Some,
        m.state_to is Some,
        m.prompt is None,
        m.block_id is Some,
        m.block_type is Some,
        m.block_lines is Some,
        m.body_offset is Some,
        m.body_len is Some,
    ensures
        message_said(
            JsonModel::Array(
                seq![
                    JsonModel::Nat(m.seq),
                    JsonModel::Str(m.ts),
                    JsonModel::Str(m.msg_type),
                    JsonModel::Str(m.text),
                    JsonModel::Str(m.state_from->0),
                    JsonModel::Str(m.state_to->0),
                    JsonModel::Null,
                    JsonModel::Nat(m.block_id->0),
                    JsonModel::Str(m.block_type->0),
                    JsonModel::Nat(m.block_lines->0 as u64),
                    JsonModel::Nat(m.body_offset->0),
                    JsonModel::Nat(m.body_len->0),
                ],
            ),
        ) == Some(m),
{
    let s = seq![
        JsonModel::Nat(m.seq),
        JsonModel::Str(m.ts),
        JsonModel::Str(m.msg_type),
        JsonModel::Str(m.text),
        JsonModel::Str(m.state_from->0),
        JsonModel::Str(m.state_to->0),
        JsonModel::Null,
        JsonModel::Nat(m.block_id->0),
        JsonModel::Str(m.block_type->0),
        JsonModel::Nat(m.block_lines->0 as u64),
        JsonModel::Nat(m.body_offset->0),
        JsonModel::Nat(m.body_len->0),
    ];
    lemma_message_names();
    reveal_with_fuel(crate::fields::named_to, 13);
    let j = by_name(JsonModel::Array(s), message_names(), 10);
    assert(j.need_nat("seq"@, u64::MAX) == Some(m.seq));
    assert(j.need_text("ts"@) == Some(m.ts));
    assert(j.need_text("type"@) == Some(m.msg_type));
    assert(j.need_text("text"@) == Some(m.text));
    assert(j.may_text("state_from"@) == Some(m.state_from));
    assert(j.may_text("state_to"@) == Some(m.state_to));
    assert(may_prompt(j, "prompt"@) == Some(m.prompt));
    assert(j.may_nat("block_id"@, u64::MAX) == Some(m.block_id));
    assert(j.may_text("block_type"@) == Some(m.block_type));
    assert(j.may_nat("block_lines"@, u32::MAX as u64) == Some(wide(m.block_lines)));
    assert(j.may_nat("body_offset"@, u64::MAX) == Some(m.body_offset));
    assert(j.may_nat("body_len"@, u64::MAX) == Some(m.body_len));
}

} // verus!
