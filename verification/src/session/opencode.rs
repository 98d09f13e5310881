//! OpenCode backend: the command line of `opencode run --format json`, and its NDJSON events
//! as log messages.
use crate::json::{opt_str, opt_text, parse_json, parsed, Json, JsonModel};
use crate::log::record::LogView;
use crate::numbers::{decimal, push_decimal, push_signed, signed_decimal};
use crate::paths::{file_name, file_name_of};
use crate::session::state::SessionState;
use crate::session::{lemma_block_wf, lemma_log_wf, lemma_renamed_wf, Session, SessionView};
use crate::text::{lemma_texts_push, lines_of, same, str_lines, str_trim, texts, trim};
use vstd::prelude::*;
use vstd::utf8::encode_utf8;

verus! {

// ---------------------------------------------------------------------------------------------
// Events

/// A piece of text with another in front of it.
pub open spec fn prefixed(prefix: Seq<char>, lines: Seq<Seq<char>>) -> Seq<Seq<char>> {
    Seq::new(lines.len(), |i: int| prefix + lines[i])
}

/// The lines of a new file, numbered, as they are shown.
pub open spec fn added_lines(lines: Seq<Seq<char>>) -> Seq<Seq<char>> {
    Seq::new(lines.len(), |i: int| "    "@ + decimal((i + 1) as nat) + " +"@ + lines[i])
}

/// The low 32 bits of an integer, as an integer with a sign.
pub open spec fn low_integer(n: int) -> int {
    let low = n % 0x1_0000_0000;
    if low >= 0x8000_0000 {
        low - 0x1_0000_0000
    } else {
        low
    }
}

/// A title, or `unknown` where there is none.
pub open spec fn title_or_unknown(title: Seq<char>) -> Seq<char> {
    if title.len() > 0 {
        title
    } else {
        "unknown"@
    }
}

impl SessionView {
    /// After the next number for blocks was given out.
    pub open spec fn take_block_id(self) -> SessionView {
        SessionView { next_block_id: (self.next_block_id + 1) as u64, ..self }
    }

    /// After a file was written.
    pub open spec fn log_write(
        self,
        bid: u64,
        input: JsonModel,
        metadata: JsonModel,
    ) -> SessionView {
        let path = input.text_at("filePath"@);
        let lines = lines_of(input.text_at("content"@));
        let exists = metadata.flag_at("exists"@);
        let verb = if exists {
            "Edited"@
        } else {
            "Created"@
        };
        let base = match file_name_of(path) {
            Some(name) => name,
            None => path,
        };
        self.log_block(
            bid,
            if exists {
                "edited"@
            } else {
                "created"@
            },
            verb + " "@ + base + " (+"@ + decimal(lines.len()) + " -0)"@,
            added_lines(lines),
        )
    }

    /// The lines that an edit takes away and those that it adds; where there are none, what the
    /// tool says.
    pub open spec fn edit_body(input: JsonModel, output: Seq<char>) -> Seq<Seq<char>> {
        let body = prefixed("- "@, lines_of(input.text_at("oldString"@))) + prefixed(
            "+ "@,
            lines_of(input.text_at("newString"@)),
        );
        if body.len() == 0 && output.len() > 0 {
            seq![output]
        } else {
            body
        }
    }

    /// After a file was edited.
    pub open spec fn log_edit(
        self,
        bid: u64,
        input: JsonModel,
        title: Seq<char>,
        output: Seq<char>,
    ) -> SessionView {
        self.log_block(
            bid,
            "edited"@,
            "Edited "@ + title_or_unknown(title),
            SessionView::edit_body(input, output),
        )
    }

    /// The number with which a command ended.
    pub open spec fn exit_number(metadata: JsonModel) -> int {
        match metadata.int_at("exit"@) {
            Some(n) => low_integer(n),
            None => 0,
        }
    }

    /// After a command was run: its output is a block, and a number other than 0 with which it
    /// ended is a status.
    pub open spec fn log_run(
        self,
        bid: u64,
        input: JsonModel,
        metadata: JsonModel,
        output: Seq<char>,
    ) -> SessionView {
        let description = input.text_at("description"@);
        let header = "Ran "@ + if description.len() > 0 {
            description
        } else {
            input.text_at("command"@)
        };
        let lines = lines_of(output);
        let body = if metadata.flag_at("truncated"@) {
            lines.push("[output truncated]"@)
        } else {
            lines
        };
        let run = self.log_block(bid, "ran"@, header, body);
        let exit = SessionView::exit_number(metadata);
        if exit != 0 {
            run.log_status("[exit code: "@ + signed_decimal(exit) + "]"@)
        } else {
            run
        }
    }

    /// After a tool was used, under the number `bid`.
    pub open spec fn log_tool(self, bid: u64, tool: Seq<char>, state: JsonModel) -> SessionView {
        let input = state.at("input"@);
        let output = state.text_at("output"@);
        let title = state.text_at("title"@);
        let metadata = state.at("metadata"@);
        if tool == "write"@ {
            self.log_write(bid, input, metadata)
        } else if tool == "edit"@ {
            self.log_edit(bid, input, title, output)
        } else if tool == "bash"@ {
            self.log_run(bid, input, metadata, output)
        } else if tool == "read"@ {
            self.log_block(bid, "read"@, "Read "@ + title_or_unknown(title), lines_of(output))
        } else if tool == "todowrite"@ {
            self.log_status("[plan: "@ + title + "]"@)
        } else {
            self.log_block(bid, tool, tool + ": "@ + title, lines_of(output))
        }
    }

    /// After an event that speaks of a tool: it is logged once the tool is done, whether it
    /// went well or not.
    pub open spec fn tool_event(self, part: JsonModel) -> SessionView {
        let state = part.at("state"@);
        let status = state.text_at("status"@);
        let tool = part.text_at("tool"@);
        if status == "completed"@ || status == "error"@ {
            let used = self.take_block_id().log_tool(self.next_block_id, tool, state);
            if status == "error"@ {
                used.log_status("[tool error: "@ + tool + "] "@ + state.text_at("output"@))
            } else {
                used
            }
        } else {
            self
        }
    }

    /// After the end of a step. `cost` is what the step cost, in four decimals, where it cost
    /// something.
    pub open spec fn step_event(self, part: JsonModel, cost: Option<Seq<char>>) -> SessionView {
        match cost {
            Some(cost) => self.log_status(
                "[step: reason="@ + part.text_at("reason"@) + " cost=$"@ + cost + " tokens="@
                    + decimal(part.at("tokens"@).nat_at("total"@) as nat) + "]"@,
            ),
            None => self,
        }
    }

    /// After an event.
    pub open spec fn process_event(
        self,
        event_type: Seq<char>,
        part: JsonModel,
        cost: Option<Seq<char>>,
    ) -> SessionView {
        if event_type == "text"@ {
            if trim(part.text_at("text"@)).len() > 0 {
                self.log_output("• "@ + part.text_at("text"@))
            } else {
                self
            }
        } else if event_type == "tool_use"@ {
            self.tool_event(part)
        } else if event_type == "step_finish"@ {
            self.step_event(part, cost)
        } else {
            self
        }
    }
}

/// Puts `prefix` in front of each line.
fn prefix_lines(prefix: &str, lines: &[String], out: &mut Vec<String>)
    ensures
        texts(final(out)@) == texts(old(out)@) + prefixed(prefix@, texts(lines@)),
{
    let ghost before = texts(out@);
    let ghost all = prefixed(prefix@, texts(lines@));
    let mut i: usize = 0;
    proof {
        assert(before + all.take(0) =~= before);
    }
    while i < lines.len()
        invariant
            i <= lines@.len(),
            all == prefixed(prefix@, texts(lines@)),
            texts(out@) == before + all.take(i as int),
        decreases lines@.len() - i,
    {
        let mut line = prefix.to_owned();
        line.append(lines[i].as_str());
        proof {
            lemma_texts_push(out@, line);
            assert(line@ == all[i as int]);
            assert(before + all.take(i + 1) =~= (before + all.take(i as int)).push(line@));
        }
        out.push(line);
        i = i + 1;
    }
    proof {
        assert(all.take(lines@.len() as int) =~= all);
    }
}

/// The lines of a new file, numbered.
fn number_lines(lines: &[String]) -> (r: Vec<String>)
    ensures
        texts(r@) == added_lines(texts(lines@)),
{
    let ghost all = added_lines(texts(lines@));
    let mut out: Vec<String> = Vec::new();
    let mut i: usize = 0;
    while i < lines.len()
        invariant
            i <= lines@.len(),
            all == added_lines(texts(lines@)),
            texts(out@) == all.take(i as int),
        decreases lines@.len() - i,
    {
        let mut line = "    ".to_owned();
        push_decimal(&mut line, i as u64 + 1);
        line.append(" +");
        line.append(lines[i].as_str());
        proof {
            lemma_texts_push(out@, line);
            assert(line@ == all[i as int]);
            assert(all.take(i + 1) =~= all.take(i as int).push(line@));
        }
        out.push(line);
        i = i + 1;
    }
    proof {
        assert(all.take(lines@.len() as int) =~= all);
    }
    out
}

/// The low 32 bits of an integer, as an integer with a sign.
fn low_i32(n: i64) -> (r: i32)
    ensures
        r == low_integer(n as int),
{
    let low: i128 = (n as i128 + 0x1_0000_0000_0000_0000) % 0x1_0000_0000;
    proof {
        assert((n as int + 0x1_0000_0000_0000_0000) % 0x1_0000_0000 == n as int % 0x1_0000_0000)
            by (nonlinear_arith);
    }
    if low >= 0x8000_0000 {
        (low - 0x1_0000_0000) as i32
    } else {
        low as i32
    }
}

impl Session {
    /// Logs that a file was written.
    fn log_write(&mut self, bid: u64, input: &Json, metadata: &Json)
        requires
            old(self)@.next_seq < u64::MAX,
            old(self)@.bodies.len() <= old(self)@.bodies_len,
        ensures
            final(self)@ == old(self)@.log_write(bid, input@, metadata@),
            final(self).runs_on(*old(self)),
    {
        let path = input.text_at("filePath");
        let lines = str_lines(input.text_at("content"));
        let exists = metadata.flag_at("exists");
        let mut header = if exists {
            "Edited".to_owned()
        } else {
            "Created".to_owned()
        };
        header.append(" ");
        match file_name(path) {
            Some(name) => {
                header.append(name.as_str());
            },
            None => {
                header.append(path);
            },
        }
        header.append(" (+");
        push_decimal(&mut header, lines.len() as u64);
        header.append(" -0)");
        let body = number_lines(lines.as_slice());
        let block_type = if exists {
            "edited"
        } else {
            "created"
        };
        proof {
            assert(texts(lines@).len() == lines@.len());
        }
        self.log_block(bid, block_type, header.as_str(), body.as_slice());
    }

    /// Logs that a file was edited.
    fn log_edit(&mut self, bid: u64, input: &Json, title: &str, output: &str)
        requires
            old(self)@.next_seq < u64::MAX,
            old(self)@.bodies.len() <= old(self)@.bodies_len,
        ensures
            final(self)@ == old(self)@.log_edit(bid, input@, title@, output@),
            final(self).runs_on(*old(self)),
    {
        let mut header = "Edited ".to_owned();
        if !title.is_empty() {
            header.append(title);
        } else {
            header.append("unknown");
        }
        let removed = str_lines(input.text_at("oldString"));
        let added = str_lines(input.text_at("newString"));
        let mut body: Vec<String> = Vec::new();
        proof {
            assert(texts(body@) + prefixed("- "@, texts(removed@)) =~= prefixed(
                "- "@,
                texts(removed@),
            ));
        }
        prefix_lines("- ", removed.as_slice(), &mut body);
        prefix_lines("+ ", added.as_slice(), &mut body);
        proof {
            assert(texts(body@).len() == body@.len());
        }
        if body.len() == 0 && !output.is_empty() {
            let line = output.to_owned();
            proof {
                lemma_texts_push(body@, line);
                assert(texts(body@).push(line@) =~= seq![line@]);
            }
            body.push(line);
        }
        self.log_block(bid, "edited", header.as_str(), body.as_slice());
    }

    /// Logs that a command was run.
    fn log_run(&mut self, bid: u64, input: &Json, metadata: &Json, output: &str)
        requires
            old(self)@.next_seq + 2 <= u64::MAX,
            old(self)@.bodies.len() <= old(self)@.bodies_len,
        ensures
            final(self)@ == old(self)@.log_run(bid, input@, metadata@, output@),
            final(self).runs_on(*old(self)),
    {
        let description = input.text_at("description");
        let mut header = "Ran ".to_owned();
        if !description.is_empty() {
            header.append(description);
        } else {
            header.append(input.text_at("command"));
        }
        let exit_code: i32 = match metadata.int_at("exit") {
            Some(n) => low_i32(n),
            None => 0,
        };
        let mut body = str_lines(output);
        if metadata.flag_at("truncated") {
            let line = "[output truncated]".to_owned();
            proof {
                lemma_texts_push(body@, line);
            }
            body.push(line);
        }
        self.log_block(bid, "ran", header.as_str(), body.as_slice());
        if exit_code != 0 {
            let mut text = "[exit code: ".to_owned();
            push_signed(&mut text, exit_code);
            text.append("]");
            self.log_status(text);
        }
    }

    /// Logs that a tool was used, under the number `bid`.
    fn log_tool(&mut self, bid: u64, tool: &str, state: &Json)
        requires
            old(self)@.next_seq + 2 <= u64::MAX,
            old(self)@.bodies.len() <= old(self)@.bodies_len,
        ensures
            final(self)@ == old(self)@.log_tool(bid, tool@, state@),
            final(self).runs_on(*old(self)),
    {
        let input = state.at("input");
        let output = state.text_at("output");
        let title = state.text_at("title");
        let metadata = state.at("metadata");
        if same(tool, "write") {
            self.log_write(bid, input, metadata);
        } else if same(tool, "edit") {
            self.log_edit(bid, input, title, output);
        } else if same(tool, "bash") {
            self.log_run(bid, input, metadata, output);
        } else if same(tool, "read") {
            let mut header = "Read ".to_owned();
            if !title.is_empty() {
                header.append(title);
            } else {
                header.append("unknown");
            }
            let body = str_lines(output);
            self.log_block(bid, "read", header.as_str(), body.as_slice());
        } else if same(tool, "todowrite") {
            let mut text = "[plan: ".to_owned();
            text.append(title);
            text.append("]");
            self.log_status(text);
        } else {
            let mut header = tool.to_owned();
            header.append(": ");
            header.append(title);
            let body = str_lines(output);
            self.log_block(bid, tool, header.as_str(), body.as_slice());
        }
    }

    /// Takes note of an event that speaks of a tool.
    fn tool_event(&mut self, part: &Json)
        requires
            old(self)@.has_room(3),
            old(self)@.wf(),
        ensures
            final(self)@ == old(self)@.tool_event(part@),
            final(self).runs_on(*old(self)),
    {
        let state = part.at("state");
        let status = state.text_at("status");
        if !same(status, "completed") && !same(status, "error") {
            return;
        }
        let tool = part.text_at("tool");
        let bid = self.next_block_id;
        self.next_block_id = bid + 1;
        proof {
            lemma_tool(old(self)@, tool@, state@);
        }
        self.log_tool(bid, tool, state);
        if same(status, "error") {
            let mut text = "[tool error: ".to_owned();
            text.append(tool);
            text.append("] ");
            text.append(state.text_at("output"));
            self.log_status(text);
        }
    }

    /// Process a single NDJSON event, writing to the session log. `cost` is what the step cost,
    /// in four decimals, where it cost something.
    pub fn process_event(&mut self, event_type: &str, part: &Json, cost: Option<&str>)
        requires
            old(self)@.has_room(3),
            old(self)@.wf(),
        ensures
            final(self)@ == old(self)@.process_event(event_type@, part@, opt_str(cost)),
            final(self)@.wf(),
            final(self).runs_on(*old(self)),
    {
        proof {
            lemma_process_event(old(self)@, event_type@, part@, opt_str(cost));
        }
        if same(event_type, "text") {
            let text = part.text_at("text");
            if !str_trim(text).is_empty() {
                let mut line = "• ".to_owned();
                line.append(text);
                self.log_output(line);
            }
        } else if same(event_type, "tool_use") {
            self.tool_event(part);
        } else if same(event_type, "step_finish") {
            if let Some(cost) = cost {
                let mut text = "[step: reason=".to_owned();
                text.append(part.text_at("reason"));
                text.append(" cost=$");
                text.append(cost);
                text.append(" tokens=");
                push_decimal(&mut text, part.at("tokens").nat_at("total"));
                text.append("]");
                self.log_status(text);
            }
        }
    }
}

/// Giving out a number for a block keeps a session well-formed.
proof fn lemma_take_id(s: SessionView)
    requires
        s.wf(),
        s.next_block_id < u64::MAX,
    ensures
        s.take_block_id().wf(),
        forall|i: int|
            0 <= i < s.blocks.len() ==> (#[trigger] s.take_block_id().blocks[i]).id
                < s.next_block_id,
{
    let t = s.take_block_id();
    assert forall|i: int| 0 <= i < t.logged.len() implies (#[trigger] t.logged[i]).seq + (
    t.logged.len() - i) == t.next_seq by {
        assert(s.logged[i].seq + (s.logged.len() - i) == s.next_seq);
    }
    assert forall|i: int| 0 <= i < t.blocks.len() implies (#[trigger] t.blocks[i]).id
        < s.next_block_id && t.blocks[i].body_offset + t.blocks[i].body_len <= t.bodies_len by {
        assert(t.blocks[i] == s.blocks[i]);
    }
    assert forall|i: int, j: int| 0 <= i < j < t.blocks.len() implies (#[trigger] t.blocks[i]).id
        < (#[trigger] t.blocks[j]).id by {
        assert(t.blocks[i] == s.blocks[i] && t.blocks[j] == s.blocks[j]);
    }
}

/// Logging the use of a tool keeps a session well-formed and takes at most two numbers.
proof fn lemma_tool(s: SessionView, tool: Seq<char>, state: JsonModel)
    requires
        s.wf(),
        s.has_room(3),
    ensures
        s.take_block_id().log_tool(s.next_block_id, tool, state).wf(),
        s.take_block_id().log_tool(s.next_block_id, tool, state).next_seq <= s.next_seq + 2,
{
    lemma_take_id(s);
    let t = s.take_block_id();
    let id = s.next_block_id;
    let input = state.at("input"@);
    let output = state.text_at("output"@);
    let title = state.text_at("title"@);
    let metadata = state.at("metadata"@);
    if tool == "write"@ {
        let path = input.text_at("filePath"@);
        let lines = lines_of(input.text_at("content"@));
        let exists = metadata.flag_at("exists"@);
        let verb = if exists {
            "Edited"@
        } else {
            "Created"@
        };
        let base = match file_name_of(path) {
            Some(name) => name,
            None => path,
        };
        lemma_block_wf(
            t,
            id,
            if exists {
                "edited"@
            } else {
                "created"@
            },
            verb + " "@ + base + " (+"@ + decimal(lines.len()) + " -0)"@,
            added_lines(lines),
        );
    } else if tool == "edit"@ {
        lemma_block_wf(
            t,
            id,
            "edited"@,
            "Edited "@ + title_or_unknown(title),
            SessionView::edit_body(input, output),
        );
    } else if tool == "bash"@ {
        let description = input.text_at("description"@);
        let header = "Ran "@ + if description.len() > 0 {
            description
        } else {
            input.text_at("command"@)
        };
        let lines = lines_of(output);
        let body = if metadata.flag_at("truncated"@) {
            lines.push("[output truncated]"@)
        } else {
            lines
        };
        lemma_block_wf(t, id, "ran"@, header, body);
        let run = t.log_block(id, "ran"@, header, body);
        let exit = SessionView::exit_number(metadata);
        lemma_log_wf(
            run,
            LogView::status(
                run.next_seq,
                seq![],
                "[exit code: "@ + signed_decimal(exit) + "]"@,
            ),
        );
    } else if tool == "read"@ {
        lemma_block_wf(t, id, "read"@, "Read "@ + title_or_unknown(title), lines_of(output));
    } else if tool == "todowrite"@ {
        lemma_log_wf(t, LogView::status(t.next_seq, seq![], "[plan: "@ + title + "]"@));
    } else {
        lemma_block_wf(t, id, tool, tool + ": "@ + title, lines_of(output));
    }
}

/// Taking note of an event keeps a session well-formed and takes at most three numbers.
pub proof fn lemma_process_event(
    s: SessionView,
    event_type: Seq<char>,
    part: JsonModel,
    cost: Option<Seq<char>>,
)
    requires
        s.wf(),
        s.has_room(3),
    ensures
        s.process_event(event_type, part, cost).wf(),
        s.process_event(event_type, part, cost).next_seq <= s.next_seq + 3,
{
    if event_type == "text"@ {
        lemma_log_wf(
            s,
            LogView::agent_output(s.next_seq, seq![], "• "@ + part.text_at("text"@)),
        );
    } else if event_type == "tool_use"@ {
        let state = part.at("state"@);
        let tool = part.text_at("tool"@);
        lemma_tool(s, tool, state);
        let used = s.take_block_id().log_tool(s.next_block_id, tool, state);
        lemma_log_wf(
            used,
            LogView::status(
                used.next_seq,
                seq![],
                "[tool error: "@ + tool + "] "@ + state.text_at("output"@),
            ),
        );
    } else if event_type == "step_finish"@ {
        if let Some(cost) = cost {
            let text = "[step: reason="@ + part.text_at("reason"@) + " cost=$"@ + cost
                + " tokens="@ + decimal(part.at("tokens"@).nat_at("total"@) as nat) + "]"@;
            lemma_log_wf(s, LogView::status(s.next_seq, seq![], text));
        }
    }
}

// ---------------------------------------------------------------------------------------------
// A run

/// What has come of a run so far.
#[derive(Debug, Clone)]
pub struct Run {
    pub session_id: Option<String>,
    /// Message from an `{"type":"error"}` NDJSON event, if any.
    pub error: Option<String>,
    /// True if the model produced any text or tool activity.
    pub saw_output: bool,
}

/// What has come of a run so far.
pub struct RunView {
    pub session_id: Option<Seq<char>>,
    pub error: Option<Seq<char>>,
    pub saw_output: bool,
}

impl View for Run {
    type V = RunView;

    open spec fn view(&self) -> RunView {
        RunView {
            session_id: opt_text(self.session_id),
            error: opt_text(self.error),
            saw_output: self.saw_output,
        }
    }
}

/// What an event says went wrong: a name, and a message where there is one.
pub open spec fn error_text(event: JsonModel) -> Seq<char> {
    let err = event.at("error"@);
    let name = match err.get("name"@) {
        Some(JsonModel::Str(s)) => s,
        _ => "Error"@,
    };
    let message = err.at("data"@).text_at("message"@);
    if message.len() == 0 {
        name
    } else {
        name + ": "@ + message
    }
}

impl RunView {
    /// After an event: the first session that is named is the run's session.
    pub open spec fn named(self, event: JsonModel) -> RunView {
        match (self.session_id, event.at("sessionID"@).text()) {
            (None, Some(sid)) => RunView { session_id: Some(sid), ..self },
            _ => self,
        }
    }

    /// What comes of a run with an event.
    pub open spec fn consume(self, event: JsonModel) -> RunView {
        let named = self.named(event);
        let kind = event.text_at("type"@);
        if kind == "error"@ {
            RunView { error: Some(error_text(event)), ..named }
        } else if kind == "text"@ || kind == "tool_use"@ {
            RunView { saw_output: true, ..named }
        } else {
            named
        }
    }
}

impl SessionView {
    /// What comes of a session with an event of a run.
    pub open spec fn consume(self, event: JsonModel, cost: Option<Seq<char>>) -> SessionView {
        if event.text_at("type"@) == "error"@ {
            self.log_status("[opencode error] "@ + error_text(event))
        } else {
            self.process_event(event.text_at("type"@), event.at("part"@), cost)
        }
    }
}

/// The event on a line of a run's output.
pub open spec fn event_on(line: Seq<char>) -> Option<JsonModel> {
    if trim(line).len() == 0 {
        None
    } else {
        parsed(trim(line))
    }
}

impl Run {
    /// Nothing has come of it yet.
    pub fn new() -> (r: Run)
        ensures
            r@ == (RunView { session_id: None, error: None, saw_output: false }),
    {
        Run { session_id: None, error: None, saw_output: false }
    }

    /// Takes note of an event. `cost` is what a step cost, in four decimals, where it cost
    /// something.
    pub fn consume_event(&mut self, session: &mut Session, event: &Json, cost: Option<&str>)
        requires
            old(session)@.has_room(3),
            old(session)@.wf(),
        ensures
            final(self)@ == old(self)@.consume(event@),
            final(session)@ == old(session)@.consume(event@, opt_str(cost)),
            final(session)@.wf(),
            final(session).runs_on(*old(session)),
    {
        if self.session_id.is_none() {
            if let Some(sid) = event.at("sessionID").as_str() {
                self.session_id = Some(sid.to_owned());
            }
        }
        let event_type = event.text_at("type");
        // Errors arrive as their own top-level event with no `part`.
        if same(event_type, "error") {
            let err = event.at("error");
            let name = match err.get("name") {
                Some(Json::Str(s)) => s.as_str(),
                _ => "Error",
            };
            let message = err.at("data").text_at("message");
            let mut text = name.to_owned();
            if !message.is_empty() {
                text.append(": ");
                text.append(message);
            }
            let mut line = "[opencode error] ".to_owned();
            line.append(text.as_str());
            proof {
                let s = session@;
                lemma_log_wf(s, LogView::status(s.next_seq, seq![], line@));
            }
            session.log_status(line);
            self.error = Some(text);
            return;
        }
        if same(event_type, "text") || same(event_type, "tool_use") {
            self.saw_output = true;
        }
        session.process_event(event_type, event.at("part"), cost);
    }

    /// Takes note of a line of the run's output. A line that is blank or no JSON is passed over.
    pub fn consume_line(&mut self, session: &mut Session, line: &str, cost: Option<&str>)
        requires
            old(session)@.has_room(3),
            old(session)@.wf(),
        ensures
            match event_on(line@) {
                Some(event) => {
                    &&& final(self)@ == old(self)@.consume(event)
                    &&& final(session)@ == old(session)@.consume(event, opt_str(cost))
                },
                None => {
                    &&& final(self)@ == old(self)@
                    &&& final(session)@ == old(session)@
                },
            },
            final(session)@.wf(),
            final(session).runs_on(*old(session)),
    {
        let trimmed = str_trim(line);
        if trimmed.is_empty() {
            return;
        }
        if let Some(event) = parse_json(trimmed) {
            self.consume_event(session, &event, cost);
        }
    }

    /// What the run has produced, once it has ended.
    pub fn finish(self, exit_code: Option<i32>, stderr: String) -> (r: RunOutcome)
        ensures
            opt_text(r.session_id) == self@.session_id,
            r.exit_code == exit_code,
            opt_text(r.error) == self@.error,
            r.stderr == stderr,
            r.saw_output == self@.saw_output,
    {
        RunOutcome {
            session_id: self.session_id,
            exit_code,
            error: self.error,
            stderr,
            saw_output: self.saw_output,
        }
    }
}

/// What a single `opencode run` produced. Carries enough detail for the
/// caller to tell a clean completion from a failure that produced no
/// output at all.
#[derive(Debug, Clone)]
pub struct RunOutcome {
    pub session_id: Option<String>,
    pub exit_code: Option<i32>,
    /// Message from an `{"type":"error"}` NDJSON event, if any.
    pub error: Option<String>,
    /// Whatever opencode wrote to stderr (fatal startup errors land here).
    pub stderr: String,
    /// True if the model produced any text or tool activity.
    pub saw_output: bool,
}

/// How many bytes of stderr are enough: once there are as many, no more lines are kept.
pub const STDERR_LIMIT: usize = 8192;

/// What is kept of the error output after one more line of it: the line too, unless enough is
/// kept already.
pub open spec fn stderr_after(kept: Seq<char>, line: Seq<char>) -> Seq<char> {
    if encode_utf8(kept).len() < STDERR_LIMIT {
        kept + line
    } else {
        kept
    }
}

/// Keeps a line of stderr, unless there is enough of it.
pub fn keep_stderr(kept: &mut String, line: &str)
    ensures
        final(kept)@ == if encode_utf8(old(kept)@).len() < STDERR_LIMIT {
            old(kept)@ + line@
        } else {
            old(kept)@
        },
        final(kept)@ == stderr_after(old(kept)@, line@),
{
    if kept.as_str().as_bytes().len() < STDERR_LIMIT {
        kept.append(line);
    }
}

impl SessionView {
    /// After a run has ended: the session is idle, not dead, as it can be continued.
    pub open spec fn end_run(
        self,
        session_id: Option<Seq<char>>,
        exit_code: Option<i32>,
    ) -> SessionView {
        let named = SessionView {
            opencode_session_id: match session_id {
                Some(sid) => Some(sid),
                None => self.opencode_session_id,
            },
            ..self
        };
        SessionView {
            state: SessionState::Idle,
            exit_code,
            ..named.log_change(self.state.name(), "idle"@)
        }
    }

    /// Before a run is started in a session that waits.
    pub open spec fn begin_run(self) -> SessionView {
        SessionView {
            state: SessionState::Working,
            ..self.log_change(self.state.name(), "working"@)
        }
    }
}

impl Session {
    /// Takes over what a run has produced.
    pub fn end_run(&mut self, session_id: Option<String>, exit_code: Option<i32>)
        requires
            old(self)@.next_seq < u64::MAX,
        ensures
            final(self)@ == old(self)@.end_run(opt_text(session_id), exit_code),
            old(self)@.wf() ==> final(self)@.wf(),
            final(self).runs_on(*old(self)),
    {
        let ghost start = self@;
        if session_id.is_some() {
            self.opencode_session_id = session_id;
        }
        let ghost named = self@;
        let old_state = self.state;
        self.log_change(old_state.as_str(), "idle");
        let ghost logged = self@;
        self.state = SessionState::Idle;
        self.exit_code = exit_code;
        proof {
            if start.wf() {
                lemma_renamed_wf(start, named);
                lemma_log_wf(
                    named,
                    LogView::state_change(named.next_seq, seq![], start.state.name(), "idle"@),
                );
                lemma_renamed_wf(logged, self@);
            }
        }
    }

    /// Takes note that a run is about to start.
    pub fn begin_run(&mut self)
        requires
            old(self)@.next_seq < u64::MAX,
        ensures
            final(self)@ == old(self)@.begin_run(),
            old(self)@.wf() ==> final(self)@.wf(),
            final(self).runs_on(*old(self)),
    {
        let ghost start = self@;
        let old_state = self.state;
        self.log_change(old_state.as_str(), "working");
        let ghost logged = self@;
        self.state = SessionState::Working;
        proof {
            if start.wf() {
                lemma_log_wf(
                    start,
                    LogView::state_change(start.next_seq, seq![], start.state.name(), "working"@),
                );
                lemma_renamed_wf(logged, self@);
            }
        }
    }
}

// ---------------------------------------------------------------------------------------------
// The command line

/// What follows the name of the program in a run.
pub open spec fn run_args(
    prompt: Seq<char>,
    cwd: Seq<char>,
    session_id: Option<Seq<char>>,
    model: Option<Seq<char>>,
) -> Seq<Seq<char>> {
    let start = seq!["run"@, "--format"@, "json"@, "--dir"@, cwd];
    let with_model = match model {
        Some(m) => start + seq!["--model"@, m],
        None => start,
    };
    let with_session = match session_id {
        Some(sid) => with_model + seq!["--continue"@, "--session"@, sid],
        None => with_model,
    };
    with_session.push(prompt)
}

/// Appends an argument.
pub fn push_arg(args: &mut Vec<String>, arg: &str)
    ensures
        texts(final(args)@) == texts(old(args)@).push(arg@),
{
    let arg = arg.to_owned();
    proof {
        lemma_texts_push(args@, arg);
    }
    args.push(arg);
}

/// What follows the name of the program in `opencode run --format json ...`, which is run
/// directly. An absent model leaves opencode's configured one.
pub fn opencode_args(prompt: &str, cwd: &str, session_id: Option<&str>, model: Option<&str>) -> (r:
    Vec<String>)
    ensures
        texts(r@) == run_args(prompt@, cwd@, opt_str(session_id), opt_str(model)),
{
    let mut args: Vec<String> = Vec::new();
    push_arg(&mut args, "run");
    push_arg(&mut args, "--format");
    push_arg(&mut args, "json");
    push_arg(&mut args, "--dir");
    push_arg(&mut args, cwd);
    let ghost start = seq!["run"@, "--format"@, "json"@, "--dir"@, cwd@];
    proof {
        assert(texts(args@) =~= start);
    }
    if let Some(m) = model {
        push_arg(&mut args, "--model");
        push_arg(&mut args, m);
        proof {
            assert(texts(args@) =~= start + seq!["--model"@, m@]);
        }
    }
    let ghost with_model = texts(args@);
    if let Some(sid) = session_id {
        push_arg(&mut args, "--continue");
        push_arg(&mut args, "--session");
        push_arg(&mut args, sid);
        proof {
            assert(texts(args@) =~= with_model + seq!["--continue"@, "--session"@, sid@]);
        }
    }
    push_arg(&mut args, prompt);
    args
}

// ---------------------------------------------------------------------------------------------
// Laws

/// Once a run has named its session, no later event changes it.
pub proof fn law_first_session_counts(run: RunView, event: JsonModel)
    requires
        run.session_id is Some,
    ensures
        run.consume(event).session_id == run.session_id,
{
}

/// A failure that an event reports is never dropped: it is kept, and the log says it.
pub proof fn law_errors_surface(run: RunView, session: SessionView, event: JsonModel, cost: Option<
    Seq<char>,
>)
    requires
        event.text_at("type"@) == "error"@,
    ensures
        run.consume(event).error == Some(error_text(event)),
        session.consume(event, cost).logged.len() == session.logged.len() + 1,
        session.consume(event, cost).logged.last().text == "[opencode error] "@ + error_text(event),
{
}

/// A tool that is still at work leaves no trace in the log.
pub proof fn law_unfinished_tools_are_silent(session: SessionView, part: JsonModel)
    requires
        part.at("state"@).text_at("status"@) != "completed"@,
        part.at("state"@).text_at("status"@) != "error"@,
    ensures
        session.tool_event(part) == session,
{
}

/// How a run is started. It is a run that answers in JSON, in the session's directory. The prompt
/// comes last. A conversation that has a name is continued under it, whether or not there is a
/// model, right before the prompt, and one without a name is begun anew. A model is named if there
/// is one, and not otherwise.
pub proof fn law_a_run_continues_its_conversation(
    prompt: Seq<char>,
    cwd: Seq<char>,
    session_id: Option<Seq<char>>,
    model: Option<Seq<char>>,
)
    ensures
        ({
            let args = run_args(prompt, cwd, session_id, model);
            let n = args.len() as int;
            &&& n == 6 + (if model is Some { 2int } else { 0 }) + (if session_id is Some {
                3int
            } else {
                0
            })
            &&& args[n - 1] == prompt
            &&& args[0] == "run"@ && args[1] == "--format"@ && args[2] == "json"@
            &&& args[3] == "--dir"@ && args[4] == cwd
            &&& session_id matches Some(id) ==> args[n - 4] == "--continue"@ && args[n - 3]
                == "--session"@ && args[n - 2] == id
            &&& model matches Some(m) ==> args[5] == "--model"@ && args[6] == m
        }),
{
}

/// A run without a conversation or a model says nothing of either.
pub proof fn law_a_new_run_names_nothing(
    prompt: Seq<char>,
    cwd: Seq<char>,
    id: Seq<char>,
    model: Seq<char>,
)
    ensures
        run_args(prompt, cwd, None, None) == seq![
            "run"@,
            "--format"@,
            "json"@,
            "--dir"@,
            cwd,
            prompt,
        ],
        run_args(prompt, cwd, Some(id), Some(model)).remove(5).remove(5) == run_args(
            prompt,
            cwd,
            Some(id),
            None,
        ),
        run_args(prompt, cwd, Some(id), Some(model)).remove(7).remove(7).remove(7) == run_args(
            prompt,
            cwd,
            None,
            Some(model),
        ),
{
    let all = run_args(prompt, cwd, Some(id), Some(model));
    assert(run_args(prompt, cwd, None, None) =~= seq![
        "run"@,
        "--format"@,
        "json"@,
        "--dir"@,
        cwd,
        prompt,
    ]);
    assert(all.remove(5).remove(5) =~= run_args(prompt, cwd, Some(id), None));
    assert(all.remove(7).remove(7).remove(7) =~= run_args(prompt, cwd, None, Some(model)));
}

/// The same of what [`opencode_args`] gives: a conversation that has a name is continued.
pub proof fn law_arguments_continue_the_conversation(
    prompt: &str,
    cwd: &str,
    id: &str,
    model: Option<&str>,
    r: Vec<String>,
)
    requires
        call_ensures(opencode_args, (prompt, cwd, Some(id), model), r),
    ensures
        r@.len() >= 9,
        r@[r@.len() - 4]@ == "--continue"@,
        r@[r@.len() - 3]@ == "--session"@,
        r@[r@.len() - 2]@ == id@,
        r@[r@.len() - 1]@ == prompt@,
{
    law_a_run_continues_its_conversation(prompt@, cwd@, Some(id@), opt_str(model));
    let t = texts(r@);
    assert(t[t.len() - 4] == r@[r@.len() - 4]@);
    assert(t[t.len() - 3] == r@[r@.len() - 3]@);
    assert(t[t.len() - 2] == r@[r@.len() - 2]@);
    assert(t[t.len() - 1] == r@[r@.len() - 1]@);
}

/// What an agent says is logged as it stands, behind a bullet, and nothing else is; a blank text
/// is nothing said.
pub proof fn law_what_is_said_is_logged(s: SessionView, part: JsonModel, cost: Option<Seq<char>>)
    ensures
        ({
            let text = match part.get("text"@) {
                Some(JsonModel::Str(text)) => text,
                _ => seq![],
            };
            let after = s.process_event("text"@, part, cost);
            &&& trim(text).len() > 0 ==> after == s.log_output("• "@ + text)
            &&& trim(text).len() == 0 ==> after == s
        }),
{
    lemma_event_names();
}

/// An event of any other kind than a text, a tool and the end of a step leaves no trace.
pub proof fn law_other_events_are_passed_over(
    s: SessionView,
    kind: Seq<char>,
    part: JsonModel,
    cost: Option<Seq<char>>,
)
    requires
        kind != "text"@,
        kind != "tool_use"@,
        kind != "step_finish"@,
    ensures
        s.process_event(kind, part, cost) == s,
{
}

proof fn lemma_event_names()
    ensures
        "text"@.len() == 4,
        "tool_use"@.len() == 8,
        "step_finish"@.len() == 11,
        "error"@.len() == 5,
        "completed"@.len() == 9,
{
    reveal_strlit("text");
    reveal_strlit("tool_use");
    reveal_strlit("step_finish");
    reveal_strlit("error");
    reveal_strlit("completed");
}

/// The end of a step is logged as a status with its reason, its cost and its tokens, where there
/// is a cost to tell.
pub proof fn law_a_step_is_a_status(s: SessionView, part: JsonModel, cost: Seq<char>)
    ensures
        s.process_event("step_finish"@, part, Some(cost)) == s.log_status(
            "[step: reason="@ + part.text_at("reason"@) + " cost=$"@ + cost + " tokens="@ + decimal(
                part.at("tokens"@).nat_at("total"@) as nat,
            ) + "]"@,
        ),
        s.process_event("step_finish"@, part, None) == s,
{
    lemma_event_names();
}

/// The tools have different names.
proof fn lemma_tool_names()
    ensures
        "write"@.len() == 5,
        "edit"@.len() == 4,
        "bash"@.len() == 4,
        "read"@.len() == 4,
        "todowrite"@.len() == 9,
        "edit"@ != "bash"@,
        "edit"@ != "read"@,
        "bash"@ != "read"@,
{
    reveal_strlit("write");
    reveal_strlit("edit");
    reveal_strlit("bash");
    reveal_strlit("read");
    reveal_strlit("todowrite");
    assert("edit"@[0] == 'e' && "bash"@[0] == 'b' && "read"@[0] == 'r');
}

/// What becomes of a tool that has completed: the next number for blocks is used up. What was read
/// is a block of the lines of the output, a plan is a status, and a tool of which nothing else is
/// known is a block of the lines of the output under its own name.
pub proof fn law_a_completed_tool_is_told(
    s: SessionView,
    part: JsonModel,
    tool: Seq<char>,
    state: JsonModel,
    cost: Option<Seq<char>>,
)
    requires
        part.get("state"@) == Some(state),
        part.get("tool"@) == Some(JsonModel::Str(tool)),
        state.get("status"@) == Some(JsonModel::Str("completed"@)),
        s.next_block_id < u64::MAX,
    ensures
        ({
            let after = s.process_event("tool_use"@, part, cost);
            let id = s.next_block_id;
            let taken = SessionView { next_block_id: (id + 1) as u64, ..s };
            let output = lines_of(state.text_at("output"@));
            let title = state.text_at("title"@);
            let named = if title.len() > 0 {
                title
            } else {
                "unknown"@
            };
            &&& tool == "read"@ ==> after == taken.log_block(id, "read"@, "Read "@ + named, output)
            &&& tool == "todowrite"@ ==> after == taken.log_status("[plan: "@ + title + "]"@)
            &&& tool != "write"@ && tool != "edit"@ && tool != "bash"@ && tool != "read"@ && tool
                != "todowrite"@ ==> after == taken.log_block(id, tool, tool + ": "@ + title, output)
        }),
{
    lemma_event_names();
    lemma_tool_names();
}

/// Whether a body tells an edit: the old lines, each behind a minus, then the new ones, each
/// behind a plus; where there are none of either, the output, if there is any.
pub open spec fn edit_told(
    old_lines: Seq<Seq<char>>,
    new_lines: Seq<Seq<char>>,
    output: Seq<char>,
    body: Seq<Seq<char>>,
) -> bool {
    if old_lines.len() + new_lines.len() > 0 {
        &&& body.len() == old_lines.len() + new_lines.len()
        &&& forall|i: int| 0 <= i < old_lines.len() ==> #[trigger] body[i] == "- "@ + old_lines[i]
        &&& forall|i: int|
            old_lines.len() <= i < body.len() ==> #[trigger] body[i] == "+ "@ + new_lines[i
                - old_lines.len()]
    } else if output.len() > 0 {
        body == seq![output]
    } else {
        body.len() == 0
    }
}

/// What becomes of an edit: a block that tells it, under the title of the edit.
pub proof fn law_an_edit_is_told(
    s: SessionView,
    part: JsonModel,
    state: JsonModel,
    cost: Option<Seq<char>>,
) -> (body: Seq<Seq<char>>)
    requires
        part.get("state"@) == Some(state),
        part.get("tool"@) == Some(JsonModel::Str("edit"@)),
        state.get("status"@) == Some(JsonModel::Str("completed"@)),
        s.next_block_id < u64::MAX,
    ensures
        ({
            let after = s.process_event("tool_use"@, part, cost);
            let id = s.next_block_id;
            let taken = SessionView { next_block_id: (id + 1) as u64, ..s };
            let title = state.text_at("title"@);
            &&& title.len() > 0 ==> after == taken.log_block(
                id,
                "edited"@,
                "Edited "@ + title,
                body,
            )
            &&& title.len() == 0 ==> after == taken.log_block(
                id,
                "edited"@,
                "Edited "@ + "unknown"@,
                body,
            )
        }),
        edit_told(
            lines_of(state.at("input"@).text_at("oldString"@)),
            lines_of(state.at("input"@).text_at("newString"@)),
            state.text_at("output"@),
            body,
        ),
{
    lemma_event_names();
    lemma_tool_names();
    SessionView::edit_body(state.at("input"@), state.text_at("output"@))
}

/// What becomes of a file that was written: a block of its lines, each numbered and marked as
/// added, under a header that names the file and counts the lines, as edited or created.
pub proof fn law_a_written_file_is_told(
    s: SessionView,
    part: JsonModel,
    state: JsonModel,
    cost: Option<Seq<char>>,
) -> (body: Seq<Seq<char>>)
    requires
        part.get("state"@) == Some(state),
        part.get("tool"@) == Some(JsonModel::Str("write"@)),
        state.get("status"@) == Some(JsonModel::Str("completed"@)),
        s.next_block_id < u64::MAX,
    ensures
        ({
            let after = s.process_event("tool_use"@, part, cost);
            let id = s.next_block_id;
            let taken = SessionView { next_block_id: (id + 1) as u64, ..s };
            let path = state.at("input"@).text_at("filePath"@);
            let lines = lines_of(state.at("input"@).text_at("content"@));
            let file = match file_name_of(path) {
                Some(name) => name,
                None => path,
            };
            let count = " (+"@ + decimal(lines.len()) + " -0)"@;
            let existed = state.at("metadata"@).get("exists"@) == Some(JsonModel::Bool(true));
            &&& existed ==> after == taken.log_block(id, "edited"@, "Edited "@ + file + count, body)
            &&& !existed ==> after == taken.log_block(
                id,
                "created"@,
                "Created "@ + file + count,
                body,
            )
            &&& body.len() == lines.len()
            &&& forall|i: int|
                0 <= i < lines.len() ==> #[trigger] body[i] == "    "@ + decimal((i + 1) as nat)
                    + " +"@ + lines[i]
        }),
{
    lemma_event_names();
    lemma_tool_names();
    reveal_strlit("Edited");
    reveal_strlit("Created");
    reveal_strlit("Edited ");
    reveal_strlit("Created ");
    reveal_strlit(" ");
    assert("Edited"@ + " "@ =~= "Edited "@);
    assert("Created"@ + " "@ =~= "Created "@);
    let path = state.at("input"@).text_at("filePath"@);
    let lines = lines_of(state.at("input"@).text_at("content"@));
    let file = match file_name_of(path) {
        Some(name) => name,
        None => path,
    };
    let n = decimal(lines.len());
    assert("Edited "@ + file + " (+"@ + n + " -0)"@ =~= "Edited "@ + file + (" (+"@ + n
        + " -0)"@));
    assert("Created "@ + file + " (+"@ + n + " -0)"@ =~= "Created "@ + file + (" (+"@ + n
        + " -0)"@));
    added_lines(lines)
}

/// What becomes of a command that was run: a block of the lines that it has put out, with a note
/// where these are cut, under its description, or under itself where it has none. Where it has
/// failed its exit code follows as a status.
pub proof fn law_a_command_is_told(
    s: SessionView,
    part: JsonModel,
    state: JsonModel,
    cost: Option<Seq<char>>,
)
    requires
        part.get("state"@) == Some(state),
        part.get("tool"@) == Some(JsonModel::Str("bash"@)),
        state.get("status"@) == Some(JsonModel::Str("completed"@)),
        s.next_block_id < u64::MAX,
    ensures
        ({
            let after = s.process_event("tool_use"@, part, cost);
            let id = s.next_block_id;
            let taken = SessionView { next_block_id: (id + 1) as u64, ..s };
            let described = state.at("input"@).text_at("description"@);
            let header = if described.len() > 0 {
                "Ran "@ + described
            } else {
                "Ran "@ + state.at("input"@).text_at("command"@)
            };
            let metadata = state.at("metadata"@);
            let output = lines_of(state.text_at("output"@));
            let body = if metadata.get("truncated"@) == Some(JsonModel::Bool(true)) {
                output.push("[output truncated]"@)
            } else {
                output
            };
            let run = taken.log_block(id, "ran"@, header, body);
            &&& metadata.int_at("exit"@) is None ==> after == run
            &&& metadata.int_at("exit"@) == Some(0int) ==> after == run
            &&& match metadata.int_at("exit"@) {
                Some(code) => code != 0 && i32::MIN <= code && code <= i32::MAX ==> after
                    == run.log_status("[exit code: "@ + signed_decimal(code) + "]"@),
                None => true,
            }
        }),
{
    lemma_event_names();
    lemma_tool_names();
}

/// A tool that has failed is told as one that has completed, and a status with its name and its
/// output follows.
pub proof fn law_a_failed_tool_is_told(
    s: SessionView,
    part: JsonModel,
    completed: JsonModel,
    cost: Option<Seq<char>>,
)
    requires
        part.at("state"@).text_at("status"@) == "error"@,
        completed.at("state"@).text_at("status"@) == "completed"@,
        completed.at("state"@).at("input"@) == part.at("state"@).at("input"@),
        completed.at("state"@).at("metadata"@) == part.at("state"@).at("metadata"@),
        completed.at("state"@).text_at("output"@) == part.at("state"@).text_at("output"@),
        completed.at("state"@).text_at("title"@) == part.at("state"@).text_at("title"@),
        completed.text_at("tool"@) == part.text_at("tool"@),
    ensures
        s.process_event("tool_use"@, part, cost) == s.process_event(
            "tool_use"@,
            completed,
            cost,
        ).log_status(
            "[tool error: "@ + part.text_at("tool"@) + "] "@ + part.at("state"@).text_at("output"@),
        ),
{
    lemma_event_names();
}

/// What a run learns from an event. The first name that an event has for the conversation is the
/// one that counts; an error is kept; and there was output once there was a text or a tool.
pub proof fn law_what_a_run_learns(run: RunView, event: JsonModel)
    ensures
        ({
            let after = run.consume(event);
            let kind = event.text_at("type"@);
            &&& run.session_id is None ==> after.session_id == event.at("sessionID"@).text()
            &&& run.session_id is Some ==> after.session_id == run.session_id
            &&& after.saw_output <==> run.saw_output || kind == "text"@ || kind == "tool_use"@
            &&& kind != "error"@ ==> after.error == run.error
            &&& kind == "error"@ ==> after.error is Some
        }),
{
    lemma_event_names();
}

/// What an error says: its name, or that it is one, and behind it the message, where there is one.
pub proof fn law_what_an_error_says(run: RunView, event: JsonModel, session: SessionView)
    requires
        event.text_at("type"@) == "error"@,
    ensures
        ({
            let name = match event.at("error"@).get("name"@) {
                Some(JsonModel::Str(name)) => name,
                _ => "Error"@,
            };
            let message = event.at("error"@).at("data"@).text_at("message"@);
            let text = if message.len() > 0 {
                name + ": "@ + message
            } else {
                name
            };
            &&& run.consume(event).error == Some(text)
            &&& session.consume(event, None) == session.log_status("[opencode error] "@ + text)
        }),
{
}

/// An event that is no error is told by its kind and its part.
pub proof fn law_an_event_is_told_by_its_kind(
    session: SessionView,
    event: JsonModel,
    cost: Option<Seq<char>>,
)
    requires
        event.text_at("type"@) != "error"@,
    ensures
        session.consume(event, cost) == session.process_event(
            event.text_at("type"@),
            event.at("part"@),
            cost,
        ),
{
}

/// When a run ends the agent is idle and its exit code is known, and the change is logged. A
/// conversation that was named keeps the name, and one that was not keeps what it had.
pub proof fn law_a_run_ends_idle(
    s: SessionView,
    session_id: Option<Seq<char>>,
    exit_code: Option<i32>,
)
    requires
        s.next_seq < u64::MAX,
    ensures
        ({
            let after = s.end_run(session_id, exit_code);
            &&& after.state == SessionState::Idle
            &&& after.exit_code == exit_code
            &&& after.logged == s.log_change(s.state.name(), "idle"@).logged
            &&& after.next_seq == s.next_seq + 1
            &&& session_id is Some ==> after.opencode_session_id == session_id
            &&& session_id is None ==> after.opencode_session_id == s.opencode_session_id
            &&& after == (SessionView {
                state: after.state,
                exit_code: after.exit_code,
                logged: after.logged,
                next_seq: after.next_seq,
                opencode_session_id: after.opencode_session_id,
                ..s
            })
        }),
{
}

/// When a run begins the agent works, and the change is logged. A run that begins and ends leaves
/// the conversation's name, where it has learned none.
pub proof fn law_a_run_begins_with_work(s: SessionView, exit_code: Option<i32>)
    requires
        s.next_seq < u64::MAX,
    ensures
        ({
            let after = s.begin_run();
            &&& after.state == SessionState::Working
            &&& after.logged == s.log_change(s.state.name(), "working"@).logged
            &&& after == (SessionView {
                state: after.state,
                logged: after.logged,
                next_seq: (s.next_seq + 1) as u64,
                ..s
            })
            &&& after.end_run(None, exit_code).opencode_session_id == s.opencode_session_id
        }),
{
}

/// What a run has come to is told as it was learned.
pub proof fn law_an_outcome_is_what_was_learned(
    run: Run,
    exit_code: Option<i32>,
    stderr: String,
    r: RunOutcome,
)
    requires
        call_ensures(Run::finish, (run, exit_code, stderr), r),
    ensures
        opt_text(r.session_id) == opt_text(run.session_id),
        opt_text(r.error) == opt_text(run.error),
        r.saw_output == run.saw_output,
        r.exit_code == exit_code,
        r.stderr@ == stderr@,
{
}

/// A run begins with nothing learned.
pub proof fn law_a_run_begins_empty(r: Run)
    requires
        call_ensures(Run::new, (), r),
    ensures
        r.session_id is None,
        r.error is None,
        !r.saw_output,
{
}

/// A line has an event just where it is JSON, and not where it is blank.
pub proof fn law_events_are_on_lines(line: Seq<char>)
    ensures
        trim(line).len() == 0 ==> event_on(line) is None,
        trim(line).len() > 0 ==> event_on(line) == parsed(trim(line)),
{
}

/// The error output is kept from its start, line by line, until 8192 bytes are reached, and no
/// more after that.
pub proof fn law_stderr_is_kept_up_to_a_limit(kept: Seq<char>, line: Seq<char>, more: Seq<char>)
    ensures
        encode_utf8(kept).len() < 8192 ==> stderr_after(kept, line) == kept + line,
        encode_utf8(kept).len() >= 8192 ==> stderr_after(kept, line) == kept,
        encode_utf8(kept).len() >= 8192 ==> stderr_after(stderr_after(kept, line), more) == kept,
{
}

/// An exit code of any size is told by its low 32 bits, with their sign.
pub proof fn law_an_exit_code_has_32_bits(n: int)
    ensures
        i32::MIN <= low_integer(n) <= i32::MAX,
        (n - low_integer(n)) % 0x1_0000_0000 == 0,
        i32::MIN <= n <= i32::MAX ==> low_integer(n) == n,
{
}

} // verus!
