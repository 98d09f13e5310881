//! Log messages as text for people.
use crate::json::{json_nat, json_text, put, Json, JsonModel, Number};
use crate::log::codec::with_some;
use crate::log::record::{log_views, LogMessage, LogView};
use crate::numbers::{decimal, push_decimal};
use crate::text::{lemma_texts_push, same, texts};
use vstd::prelude::*;

verus! {

/// The line for a message, if there is one: what the agent said and its status as they are, a
/// block by its header, a change of state and a question in brackets.
pub open spec fn line_for(m: LogView) -> Option<Seq<char>> {
    if m.msg_type == "agent_output"@ {
        Some(m.text)
    } else if m.msg_type == "block"@ {
        Some("### "@ + m.text)
    } else if m.msg_type == "status"@ {
        Some(m.text)
    } else if m.msg_type == "state_change"@ {
        match (m.state_from, m.state_to) {
            (Some(from), Some(to)) => Some("[state: "@ + from + " → "@ + to + "]"@),
            _ => None,
        }
    } else if m.msg_type == "prompt"@ {
        match m.prompt {
            Some(info) => Some(
                "[prompt: Question "@ + decimal(info.question_num as nat) + "/"@ + decimal(
                    info.question_total as nat,
                ) + " - "@ + info.question_text + "]"@,
            ),
            None => Some("[prompt: "@ + m.text + "]"@),
        }
    } else if m.text.len() > 0 {
        Some(m.text)
    } else {
        None
    }
}

/// The lines for the messages.
pub open spec fn lines_for(messages: Seq<LogView>) -> Seq<Seq<char>>
    decreases messages.len(),
{
    if messages.len() == 0 {
        seq![]
    } else {
        let before = lines_for(messages.drop_last());
        match line_for(messages.last()) {
            Some(line) => before.push(line),
            None => before,
        }
    }
}

/// The line for a message, if there is one.
fn format_message(msg: &LogMessage) -> (r: Option<String>)
    ensures
        crate::json::opt_text(r) == line_for(msg@),
{
    let kind = msg.msg_type.as_str();
    if same(kind, "agent_output") {
        Some(msg.text.clone())
    } else if same(kind, "block") {
        let mut line = "### ".to_owned();
        line.append(msg.text.as_str());
        Some(line)
    } else if same(kind, "status") {
        Some(msg.text.clone())
    } else if same(kind, "state_change") {
        match (&msg.state_from, &msg.state_to) {
            (Some(from), Some(to)) => {
                let mut line = "[state: ".to_owned();
                line.append(from.as_str());
                line.append(" → ");
                line.append(to.as_str());
                line.append("]");
                Some(line)
            },
            _ => None,
        }
    } else if same(kind, "prompt") {
        match &msg.prompt {
            Some(info) => {
                let mut line = "[prompt: Question ".to_owned();
                push_decimal(&mut line, info.question_num as u64);
                line.append("/");
                push_decimal(&mut line, info.question_total as u64);
                line.append(" - ");
                line.append(info.question_text.as_str());
                line.append("]");
                Some(line)
            },
            None => {
                let mut line = "[prompt: ".to_owned();
                line.append(msg.text.as_str());
                line.append("]");
                Some(line)
            },
        }
    } else if !msg.text.as_str().is_empty() {
        Some(msg.text.clone())
    } else {
        None
    }
}

/// Format log messages as markdown-like text output.
/// Returns lines of formatted text.
pub fn format_messages(messages: &[LogMessage]) -> (r: Vec<String>)
    ensures
        texts(r@) == lines_for(log_views(messages@)),
{
    let ghost all = log_views(messages@);
    let mut lines: Vec<String> = Vec::new();
    let mut i: usize = 0;
    proof {
        assert(texts(lines@) =~= lines_for(all.take(0)));
    }
    while i < messages.len()
        invariant
            i <= messages@.len(),
            all == log_views(messages@),
            texts(lines@) == lines_for(all.take(i as int)),
        decreases messages@.len() - i,
    {
        proof {
            assert(all.take(i + 1).drop_last() =~= all.take(i as int));
            assert(all.take(i + 1).last() == messages@[i as int]@);
        }
        if let Some(line) = format_message(&messages[i]) {
            proof {
                lemma_texts_push(lines@, line);
            }
            lines.push(line);
        }
        i = i + 1;
    }
    proof {
        assert(all.take(messages@.len() as int) =~= all);
    }
    lines
}

/// A number, where there is one.
pub open spec fn some_number(n: Option<Number>) -> Option<JsonModel> {
    match n {
        Some(n) => Some(Json::Number(n).model()),
        None => None,
    }
}

/// A truth value, where there is one.
pub open spec fn some_bool(b: Option<bool>) -> Option<JsonModel> {
    match b {
        Some(b) => Some(JsonModel::Bool(b)),
        None => None,
    }
}

/// The status footer: the state and the last number, and after a wait for how long and how.
pub open spec fn footer_model(
    state: Seq<char>,
    seq: u64,
    waited: bool,
    waited_sec: Option<JsonModel>,
    timed_out: Option<bool>,
) -> JsonModel {
    let m = Map::<Seq<char>, JsonModel>::empty().insert("state"@, JsonModel::Str(state)).insert(
        "seq"@,
        JsonModel::Nat(seq),
    );
    JsonModel::Object(
        if waited {
            with_some(
                with_some(
                    m.insert("waited"@, JsonModel::Bool(true)),
                    "waited_sec"@,
                    waited_sec,
                ),
                "timed_out"@,
                some_bool(timed_out),
            )
        } else {
            m
        },
    )
}

/// Build the JSON status footer line.
pub fn format_footer(
    state: &str,
    seq: u64,
    waited: bool,
    waited_sec: Option<Number>,
    timed_out: Option<bool>,
) -> (r: Json)
    ensures
        r@ == footer_model(state@, seq, waited, some_number(waited_sec), timed_out),
{
    let mut m: Vec<(String, Json)> = Vec::new();
    put(&mut m, "state", json_text(state));
    put(&mut m, "seq", json_nat(seq));
    if waited {
        put(&mut m, "waited", Json::Bool(true));
        if let Some(ws) = waited_sec {
            put(&mut m, "waited_sec", Json::Number(ws));
        }
        if let Some(to) = timed_out {
            put(&mut m, "timed_out", Json::Bool(to));
        }
    }
    Json::Object(m)
}

// ---------------------------------------------------------------------------------------------
// Laws

/// How a message reads, by its type. What an agent says and a status read as they stand; a block
/// reads as a heading; a change of state names both states; a question has its number; and a
/// message of any other type reads as it stands, if it says anything.
pub proof fn law_how_a_message_reads(m: LogView)
    ensures
        m.msg_type == "agent_output"@ || m.msg_type == "status"@ ==> line_for(m) == Some(m.text),
        m.msg_type == "block"@ ==> line_for(m) == Some("### "@ + m.text),
        m.msg_type == "state_change"@ && m.state_from is Some && m.state_to is Some ==> line_for(m)
            == Some("[state: "@ + m.state_from->0 + " → "@ + m.state_to->0 + "]"@),
        m.msg_type == "state_change"@ && (m.state_from is None || m.state_to is None) ==> line_for(
            m,
        ) is None,
        m.msg_type == "prompt"@ && m.prompt is None ==> line_for(m) == Some(
            "[prompt: "@ + m.text + "]"@,
        ),
        m.msg_type == "prompt"@ && m.prompt is Some ==> line_for(m) == Some(
            "[prompt: Question "@ + decimal(m.prompt->0.question_num as nat) + "/"@ + decimal(
                m.prompt->0.question_total as nat,
            ) + " - "@ + m.prompt->0.question_text + "]"@,
        ),
        m.msg_type != "agent_output"@ && m.msg_type != "status"@ && m.msg_type != "block"@
            && m.msg_type != "state_change"@ && m.msg_type != "prompt"@ ==> line_for(m) == (
        if m.text.len() > 0 {
            Some(m.text)
        } else {
            None
        }),
{
    reveal_strlit("agent_output");
    reveal_strlit("block");
    reveal_strlit("status");
    reveal_strlit("state_change");
    reveal_strlit("prompt");
    assert("agent_output"@.len() == 12 && "block"@.len() == 5 && "status"@.len() == 6
        && "state_change"@.len() == 12 && "prompt"@.len() == 6);
    assert("agent_output"@[0] == 'a' && "state_change"@[0] == 's');
    assert("status"@[0] == 's' && "prompt"@[0] == 'p');
}

/// Messages read one after the other.
pub proof fn law_messages_read_in_order(a: Seq<LogView>, b: Seq<LogView>, m: LogView)
    ensures
        lines_for(a + b) == lines_for(a) + lines_for(b),
        line_for(m) is Some ==> lines_for(seq![m]) == seq![line_for(m)->0],
        line_for(m) is None ==> lines_for(seq![m]) == Seq::<Seq<char>>::empty(),
    decreases b.len(),
{
    assert(seq![m].drop_last() =~= seq![]);
    assert(lines_for(seq![]) =~= seq![]);
    if line_for(m) is Some {
        assert(lines_for(seq![m]) =~= seq![line_for(m)->0]);
    }
    if b.len() > 0 {
        law_messages_read_in_order(a, b.drop_last(), m);
        assert((a + b).drop_last() =~= a + b.drop_last());
        assert((a + b).last() == b.last());
        assert(lines_for(a + b) =~= lines_for(a) + lines_for(b));
    } else {
        assert(a + b =~= a);
        assert(lines_for(a) + lines_for(b) =~= lines_for(a));
    }
}

/// What a footer says: the state and the last number, and, after a wait, that it was one, how long
/// it took and whether it timed out, where these are known.
pub proof fn law_what_a_footer_says(
    state: Seq<char>,
    seq: u64,
    waited: bool,
    seconds: Option<JsonModel>,
    timed_out: Option<bool>,
)
    ensures
        ({
            let f = footer_model(state, seq, waited, seconds, timed_out);
            &&& f.get("state"@) == Some(JsonModel::Str(state))
            &&& f.get("seq"@) == Some(JsonModel::Nat(seq))
            &&& waited ==> f.get("waited"@) == Some(JsonModel::Bool(true)) && f.get("waited_sec"@)
                == seconds
            &&& waited && timed_out is Some ==> f.get("timed_out"@) == Some(
                JsonModel::Bool(timed_out->0),
            )
            &&& waited && timed_out is None ==> f.get("timed_out"@) is None
            &&& !waited ==> f.get("waited"@) is None && f.get("waited_sec"@) is None && f.get(
                "timed_out"@,
            ) is None
        }),
{
    reveal_strlit("state");
    reveal_strlit("seq");
    reveal_strlit("waited");
    reveal_strlit("waited_sec");
    reveal_strlit("timed_out");
    assert("state"@.len() == 5 && "seq"@.len() == 3 && "waited"@.len() == 6 && "waited_sec"@.len()
        == 10 && "timed_out"@.len() == 9);
}

} // verus!
