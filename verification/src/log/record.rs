//! Log messages, and how they are written in JSON.
use crate::json::opt_text;
use crate::parser::prompt::{prompt_view, PromptInfo, PromptView};
use vstd::prelude::*;

verus! {

/// Whether a text has the length and the end of a time in UTC in the form of RFC 3339.
pub open spec fn is_time(text: Seq<char>) -> bool {
    text.len() >= 25 && text.skip(text.len() - 6) == "+00:00"@
}

/// `chrono::Utc::now` in the form of RFC 3339, as `to_rfc3339` gives it: a date of at least ten
/// characters, a `T`, a time of day of at least eight, and the offset of UTC. Which time it is
/// depends on when the call is made, and nothing is claimed of that.
#[verifier::external_body]
pub(crate) fn timestamp() -> (r: String)
    ensures
        is_time(r@),
{
    chrono::Utc::now().to_rfc3339()
}

/// One entry of a session's log.
#[derive(Debug, Clone)]
pub struct LogMessage {
    pub seq: u64,
    pub ts: String,
    pub msg_type: String,
    pub text: String,
    pub state_from: Option<String>,
    pub state_to: Option<String>,
    pub prompt: Option<PromptInfo>,
    pub block_id: Option<u64>,
    pub block_type: Option<String>,
    pub block_lines: Option<u32>,
    /// Byte offset into the session's bodies.bin where this block's body lives.
    /// Allows recovering full body text after a daemon restart without keeping
    /// it in RAM.
    pub body_offset: Option<u64>,
    pub body_len: Option<u64>,
}

/// What a log message says.
pub struct LogView {
    pub seq: u64,
    pub ts: Seq<char>,
    pub msg_type: Seq<char>,
    pub text: Seq<char>,
    pub state_from: Option<Seq<char>>,
    pub state_to: Option<Seq<char>>,
    pub prompt: Option<PromptView>,
    pub block_id: Option<u64>,
    pub block_type: Option<Seq<char>>,
    pub block_lines: Option<u32>,
    pub body_offset: Option<u64>,
    pub body_len: Option<u64>,
}

impl View for LogMessage {
    type V = LogView;

    open spec fn view(&self) -> LogView {
        LogView {
            seq: self.seq,
            ts: self.ts@,
            msg_type: self.msg_type@,
            text: self.text@,
            state_from: opt_text(self.state_from),
            state_to: opt_text(self.state_to),
            prompt: prompt_view(self.prompt),
            block_id: self.block_id,
            block_type: opt_text(self.block_type),
            block_lines: self.block_lines,
            body_offset: self.body_offset,
            body_len: self.body_len,
        }
    }
}

/// What the messages of a sequence say.
pub open spec fn log_views(messages: Seq<LogMessage>) -> Seq<LogView> {
    Seq::new(messages.len(), |i: int| messages[i]@)
}

impl LogView {
    /// A message of which only the number, the time, the type and the text are said.
    pub open spec fn simple(
        seq: u64,
        ts: Seq<char>,
        msg_type: Seq<char>,
        text: Seq<char>,
    ) -> LogView {
        LogView {
            seq,
            ts,
            msg_type,
            text,
            state_from: None,
            state_to: None,
            prompt: None,
            block_id: None,
            block_type: None,
            block_lines: None,
            body_offset: None,
            body_len: None,
        }
    }

    /// What the agent has said.
    pub open spec fn agent_output(seq: u64, ts: Seq<char>, text: Seq<char>) -> LogView {
        LogView::simple(seq, ts, "agent_output"@, text)
    }

    /// How the agent is getting on.
    pub open spec fn status(seq: u64, ts: Seq<char>, text: Seq<char>) -> LogView {
        LogView::simple(seq, ts, "status"@, text)
    }

    /// A change of state.
    pub open spec fn state_change(
        seq: u64,
        ts: Seq<char>,
        from: Seq<char>,
        to: Seq<char>,
    ) -> LogView {
        LogView {
            state_from: Some(from),
            state_to: Some(to),
            ..LogView::simple(seq, ts, "state_change"@, from + " → "@ + to)
        }
    }

    /// A block, without the place of its body.
    pub open spec fn block(
        seq: u64,
        ts: Seq<char>,
        header: Seq<char>,
        block_id: u64,
        block_type: Seq<char>,
        body_lines: u32,
    ) -> LogView {
        LogView {
            block_id: Some(block_id),
            block_type: Some(block_type),
            block_lines: Some(body_lines),
            ..LogView::simple(seq, ts, "block"@, header)
        }
    }

    /// The message with the place of a body.
    pub open spec fn with_body(self, offset: u64, len: u64) -> LogView {
        LogView { body_offset: Some(offset), body_len: Some(len), ..self }
    }

    /// A question.
    pub open spec fn prompt_msg(seq: u64, ts: Seq<char>, info: PromptView) -> LogView {
        LogView { prompt: Some(info), ..LogView::simple(seq, ts, "prompt"@, info.question_text) }
    }

    /// The message without its time.
    pub open spec fn untimed(self) -> LogView {
        LogView { ts: seq![], ..self }
    }
}

impl LogMessage {
    fn simple(seq: u64, msg_type: &str, text: String) -> (r: LogMessage)
        ensures
            r@ == LogView::simple(seq, r.ts@, msg_type@, text@),
            is_time(r.ts@),
    {
        LogMessage {
            seq,
            ts: timestamp(),
            msg_type: msg_type.to_owned(),
            text,
            state_from: None,
            state_to: None,
            prompt: None,
            block_id: None,
            block_type: None,
            block_lines: None,
            body_offset: None,
            body_len: None,
        }
    }

    pub fn agent_output(seq: u64, text: String) -> (r: LogMessage)
        ensures
            r@ == LogView::agent_output(seq, r.ts@, text@),
            is_time(r.ts@),
    {
        LogMessage::simple(seq, "agent_output", text)
    }

    pub fn status(seq: u64, text: String) -> (r: LogMessage)
        ensures
            r@ == LogView::status(seq, r.ts@, text@),
            is_time(r.ts@),
    {
        LogMessage::simple(seq, "status", text)
    }

    pub fn state_change(seq: u64, from: &str, to: &str) -> (r: LogMessage)
        ensures
            r@ == LogView::state_change(seq, r.ts@, from@, to@),
            is_time(r.ts@),
    {
        let mut text = from.to_owned();
        text.append(" → ");
        text.append(to);
        let mut msg = LogMessage::simple(seq, "state_change", text);
        msg.state_from = Some(from.to_owned());
        msg.state_to = Some(to.to_owned());
        msg
    }

    pub fn block(
        seq: u64,
        header: &str,
        block_id: u64,
        block_type: &str,
        body_lines: u32,
    ) -> (r: LogMessage)
        ensures
            r@ == LogView::block(seq, r.ts@, header@, block_id, block_type@, body_lines),
            is_time(r.ts@),
    {
        let mut msg = LogMessage::simple(seq, "block", header.to_owned());
        msg.block_id = Some(block_id);
        msg.block_type = Some(block_type.to_owned());
        msg.block_lines = Some(body_lines);
        msg
    }

    /// The message with the place of its body in bodies.bin.
    pub fn with_body(self, body_offset: u64, body_len: u64) -> (r: LogMessage)
        ensures
            r@ == self@.with_body(body_offset, body_len),
    {
        let mut msg = self;
        msg.body_offset = Some(body_offset);
        msg.body_len = Some(body_len);
        msg
    }

    pub fn prompt_msg(seq: u64, info: PromptInfo) -> (r: LogMessage)
        ensures
            r@ == LogView::prompt_msg(seq, r.ts@, info@),
            is_time(r.ts@),
    {
        let mut msg = LogMessage::simple(seq, "prompt", info.question_text.clone());
        msg.prompt = Some(info);
        msg
    }
}

// ---------------------------------------------------------------------------------------------
// Laws

/// What each kind of message is called, what its text is, and what else it says. Of anything else
/// it says nothing.
pub proof fn law_what_messages_say(
    seq: u64,
    ts: Seq<char>,
    a: Seq<char>,
    b: Seq<char>,
    id: u64,
    lines: u32,
    info: PromptView,
)
    ensures
        ({
            let plain = LogView {
                seq,
                ts,
                msg_type: seq![],
                text: seq![],
                state_from: None,
                state_to: None,
                prompt: None,
                block_id: None,
                block_type: None,
                block_lines: None,
                body_offset: None,
                body_len: None,
            };
            &&& LogView::agent_output(seq, ts, a) == (LogView {
                msg_type: "agent_output"@,
                text: a,
                ..plain
            })
            &&& LogView::status(seq, ts, a) == (LogView { msg_type: "status"@, text: a, ..plain })
            &&& LogView::state_change(seq, ts, a, b) == (LogView {
                msg_type: "state_change"@,
                text: a + " → "@ + b,
                state_from: Some(a),
                state_to: Some(b),
                ..plain
            })
            &&& LogView::block(seq, ts, a, id, b, lines) == (LogView {
                msg_type: "block"@,
                text: a,
                block_id: Some(id),
                block_type: Some(b),
                block_lines: Some(lines),
                ..plain
            })
            &&& LogView::prompt_msg(seq, ts, info) == (LogView {
                msg_type: "prompt"@,
                text: info.question_text,
                prompt: Some(info),
                ..plain
            })
        }),
{
}

/// The place of a body is added to a message, and its time taken out of it, without touching
/// anything else.
pub proof fn law_a_body_has_its_place(m: LogView, offset: u64, len: u64)
    ensures
        m.with_body(offset, len) == (LogView {
            body_offset: Some(offset),
            body_len: Some(len),
            ..m
        }),
        m.untimed() == (LogView { ts: Seq::empty(), ..m }),
{
}

} // verus!
