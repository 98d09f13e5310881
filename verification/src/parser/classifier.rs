//! What kind of message a line of output is.
use crate::pattern::{captures_of, is_match};
use crate::text::{contains, starts_with, str_contains, str_starts_with, str_trim, trim};
use vstd::prelude::*;

verus! {

/// A timer such as `(1m 00s •`.
pub const TIMER: &'static str = "\\(\\d+[ms]\\s+\\d+[ms]\\s*•";

/// A frame of a spinner.
pub const SPINNER: &'static str = "[⠋⠙⠹⠸⠼⠴⠦⠧⠇⠏⣾⣽⣻⢿⡿⣟⣯⣷]";

/// A duration such as `1m 00s`.
pub const TIMER_SIMPLE: &'static str = "\\d+m\\s+\\d+s";

/// Message types for classified output.
#[derive(Debug, Clone, Copy, PartialEq, Eq, Structural)]
pub enum MsgType {
    AgentOutput,
    Status,
    StateChange,
    Prompt,
    Block,
    Raw,
}

impl MsgType {
    /// The name of the type in a log.
    pub open spec fn name(self) -> Seq<char> {
        match self {
            MsgType::AgentOutput => "agent_output"@,
            MsgType::Status => "status"@,
            MsgType::StateChange => "state_change"@,
            MsgType::Prompt => "prompt"@,
            MsgType::Block => "block"@,
            MsgType::Raw => "raw"@,
        }
    }

    pub fn as_str(&self) -> (s: &'static str)
        ensures
            s@ == self.name(),
    {
        match self {
            MsgType::AgentOutput => "agent_output",
            MsgType::Status => "status",
            MsgType::StateChange => "state_change",
            MsgType::Prompt => "prompt",
            MsgType::Block => "block",
            MsgType::Raw => "raw",
        }
    }
}

/// The type of a line of which the white space at the ends is cut off, by whether it holds a
/// timer, a spinner frame and a duration.
pub open spec fn class_in(trimmed: Seq<char>, timer: bool, spinner: bool, simple: bool) -> MsgType {
    if trimmed.len() == 0 {
        MsgType::Raw
    } else if timer || spinner || (simple && contains(trimmed, "esc to interrupt"@)) {
        MsgType::Status
    } else if starts_with(trimmed, "Question "@) {
        MsgType::Prompt
    } else {
        MsgType::AgentOutput
    }
}

/// The type of a line.
pub open spec fn class(line: Seq<char>) -> MsgType {
    class_in(
        trim(line),
        captures_of(TIMER@, trim(line)) is Some,
        captures_of(SPINNER@, trim(line)) is Some,
        captures_of(TIMER_SIMPLE@, trim(line)) is Some,
    )
}

/// The type of a trimmed line, by what the patterns find in it.
pub fn classify_by(trimmed: &str, timer: bool, spinner: bool, simple: bool) -> (r: MsgType)
    ensures
        r == class_in(trimmed@, timer, spinner, simple),
{
    if trimmed.is_empty() {
        return MsgType::Raw;
    }
    if timer || spinner || (simple && str_contains(trimmed, "esc to interrupt")) {
        return MsgType::Status;
    }
    // Block headers are found apart, with the blocks that they start.
    if str_starts_with(trimmed, "Question ") {
        return MsgType::Prompt;
    }
    MsgType::AgentOutput
}

/// Classify a line of diff text into a message type.
pub fn classify_line(line: &str) -> (r: MsgType)
    ensures
        r == class(line@),
{
    let trimmed = str_trim(line);
    let timer = is_match(TIMER, trimmed);
    let spinner = is_match(SPINNER, trimmed);
    let simple = is_match(TIMER_SIMPLE, trimmed);
    classify_by(trimmed, timer, spinner, simple)
}

/// What makes a line of each type. A blank line says nothing. A line with a timer, with a frame
/// of a spinner, or with a duration beside the words by which work can be interrupted, is a
/// status. A line that starts with `Question ` asks, and any other is the agent's.
pub proof fn law_what_makes_a_type(line: Seq<char>)
    ensures
        ({
            let text = trim(line);
            let timer = captures_of("\\(\\d+[ms]\\s+\\d+[ms]\\s*•"@, text) is Some;
            let spinner = captures_of("[⠋⠙⠹⠸⠼⠴⠦⠧⠇⠏⣾⣽⣻⢿⡿⣟⣯⣷]"@, text) is Some;
            let duration = captures_of("\\d+m\\s+\\d+s"@, text) is Some;
            let busy = timer || spinner || (duration && contains(text, "esc to interrupt"@));
            &&& class(line) == MsgType::Raw <==> text.len() == 0
            &&& class(line) == MsgType::Status <==> text.len() > 0 && busy
            &&& class(line) == MsgType::Prompt <==> text.len() > 0 && !busy && starts_with(
                text,
                "Question "@,
            )
            &&& class(line) == MsgType::AgentOutput <==> text.len() > 0 && !busy && !starts_with(
                text,
                "Question "@,
            )
        }),
{
}

/// The types have these names in a log.
pub proof fn law_type_names()
    ensures
        MsgType::AgentOutput.name() == "agent_output"@,
        MsgType::Status.name() == "status"@,
        MsgType::StateChange.name() == "state_change"@,
        MsgType::Prompt.name() == "prompt"@,
        MsgType::Block.name() == "block"@,
        MsgType::Raw.name() == "raw"@,
{
}

} // verus!
