//! What an agent is doing, as its screen shows it.
use crate::clock::{passed, passed_since, SECOND};
use crate::parser::prompt::{parse_prompt, prompt, prompt_view, PromptInfo, PromptView};
use crate::text::{
    any_contains, contains, folded, is_small, lemma_folded_twice, lemma_lowered_name,
    lemma_small_is_folded, lines_contain, lowered, same, str_folded, texts,
};
use vstd::prelude::*;

verus! {

/// What an agent is doing.
#[derive(Debug, Clone, Copy, PartialEq, Eq, Structural)]
pub enum SessionState {
    Working,
    Idle,
    Prompting,
    PromptingNotes,
    Dead,
}

/// The state with that name, whatever the case of its letters.
pub open spec fn state_named(text: Seq<char>) -> Option<SessionState> {
    let name = folded(text);
    if name == "working"@ {
        Some(SessionState::Working)
    } else if name == "idle"@ {
        Some(SessionState::Idle)
    } else if name == "prompting"@ {
        Some(SessionState::Prompting)
    } else if name == "prompting_notes"@ {
        Some(SessionState::PromptingNotes)
    } else if name == "dead"@ {
        Some(SessionState::Dead)
    } else {
        None
    }
}

impl SessionState {
    /// The name of the state.
    pub open spec fn name(self) -> Seq<char> {
        match self {
            SessionState::Working => "working"@,
            SessionState::Idle => "idle"@,
            SessionState::Prompting => "prompting"@,
            SessionState::PromptingNotes => "prompting_notes"@,
            SessionState::Dead => "dead"@,
        }
    }

    /// The name of the state.
    pub fn as_str(&self) -> (s: &'static str)
        ensures
            s@ == self.name(),
    {
        match self {
            SessionState::Working => "working",
            SessionState::Idle => "idle",
            SessionState::Prompting => "prompting",
            SessionState::PromptingNotes => "prompting_notes",
            SessionState::Dead => "dead",
        }
    }

    /// The name of the state.
    pub fn to_string(&self) -> (s: String)
        ensures
            s@ == self.name(),
    {
        self.as_str().to_owned()
    }

    /// The state with that name, whatever the case of its letters.
    pub fn from_str_loose(s: &str) -> (r: Option<SessionState>)
        ensures
            r == state_named(s@),
    {
        let name = str_folded(s);
        if same(name.as_str(), "working") {
            Some(SessionState::Working)
        } else if same(name.as_str(), "idle") {
            Some(SessionState::Idle)
        } else if same(name.as_str(), "prompting") {
            Some(SessionState::Prompting)
        } else if same(name.as_str(), "prompting_notes") {
            Some(SessionState::PromptingNotes)
        } else if same(name.as_str(), "dead") {
            Some(SessionState::Dead)
        } else {
            None
        }
    }
}

/// Result of state detection including optional prompt info.
#[derive(Debug, Clone)]
pub struct DetectedState {
    pub state: SessionState,
    pub prompt_info: Option<PromptInfo>,
}

/// What a state detection says.
pub struct DetectedView {
    pub state: SessionState,
    pub prompt_info: Option<PromptView>,
}

impl View for DetectedState {
    type V = DetectedView;

    open spec fn view(&self) -> DetectedView {
        DetectedView { state: self.state, prompt_info: prompt_view(self.prompt_info) }
    }
}

/// The state that a screen shows at `now`, where a sign of work was last seen at
/// `last_esc_seen`: questions come first, then signs of work; without any the agent is idle
/// after one second.
pub open spec fn state_shown(lines: Seq<Seq<char>>, last_esc_seen: u64, now: u64) -> SessionState {
    let question = any_contains(lines, "Question "@);
    if question && any_contains(lines, "tab or esc to clear notes"@) {
        SessionState::PromptingNotes
    } else if question && any_contains(lines, "enter to submit"@) {
        SessionState::Prompting
    } else if any_contains(lines, "esc to interrupt"@) {
        SessionState::Working
    } else if passed(last_esc_seen, now) >= SECOND {
        SessionState::Idle
    } else {
        SessionState::Working
    }
}

/// Whether a question is on the screen in that state.
pub open spec fn asks(state: SessionState) -> bool {
    state == SessionState::Prompting || state == SessionState::PromptingNotes
}

/// What a screen shows at `now`: the state, and the question where there is one.
pub open spec fn detected(lines: Seq<Seq<char>>, last_esc_seen: u64, now: u64) -> DetectedView {
    let state = state_shown(lines, last_esc_seen, now);
    DetectedView {
        state,
        prompt_info: if asks(state) {
            prompt(lines)
        } else {
            None
        },
    }
}

/// Detect the current session state from screen lines.
///
/// `last_esc_seen` is the last time "esc to interrupt" was observed on screen.
/// `now` is the current instant.
///
/// State detection runs on EVERY PTY read (no debounce).
pub fn detect_state(screen_lines: &[String], last_esc_seen: u64, now: u64) -> (r: DetectedState)
    ensures
        r@ == detected(texts(screen_lines@), last_esc_seen, now),
{
    let has_esc_to_interrupt = lines_contain(screen_lines, "esc to interrupt");
    let has_clear_notes = lines_contain(screen_lines, "tab or esc to clear notes");
    let has_enter_submit = lines_contain(screen_lines, "enter to submit");
    let has_question = lines_contain(screen_lines, "Question ");

    if has_clear_notes && has_question {
        return DetectedState {
            state: SessionState::PromptingNotes,
            prompt_info: parse_prompt(screen_lines),
        };
    }
    if has_question && has_enter_submit {
        return DetectedState {
            state: SessionState::Prompting,
            prompt_info: parse_prompt(screen_lines),
        };
    }
    if has_esc_to_interrupt {
        return DetectedState { state: SessionState::Working, prompt_info: None };
    }
    if passed_since(last_esc_seen, now) >= SECOND {
        return DetectedState { state: SessionState::Idle, prompt_info: None };
    }
    // Grace period: still consider Working
    DetectedState { state: SessionState::Working, prompt_info: None }
}

// ---------------------------------------------------------------------------------------------
// Laws

/// The names of the states are in small letters.
proof fn lemma_state_names()
    ensures
        is_small("working"@),
        is_small("idle"@),
        is_small("prompting"@),
        is_small("prompting_notes"@),
        is_small("dead"@),
{
    reveal_strlit("working");
    reveal_strlit("idle");
    reveal_strlit("prompting");
    reveal_strlit("prompting_notes");
    reveal_strlit("dead");
}

/// A state can be told from its name.
pub proof fn law_state_has_its_name(state: SessionState)
    ensures
        state_named(state.name()) == Some(state),
{
    reveal_strlit("working");
    reveal_strlit("idle");
    reveal_strlit("prompting");
    reveal_strlit("prompting_notes");
    reveal_strlit("dead");
    lemma_state_names();
    lemma_small_is_folded(state.name());
    assert("working"@.len() == 7 && "idle"@.len() == 4 && "prompting"@.len() == 9
        && "prompting_notes"@.len() == 15 && "dead"@.len() == 4);
    assert("idle"@[0] == 'i' && "dead"@[0] == 'd');
}

/// The case of the letters makes no difference to the name of a state: a text names the same
/// state as its form in lower case, and as any text that has the same small letters.
pub proof fn law_state_name_ignores_case(text: Seq<char>, other: Seq<char>)
    requires
        lowered(text, other) || folded(text) == folded(other),
    ensures
        state_named(other) == state_named(text),
{
    lemma_state_names();
    if lowered(text, other) {
        lemma_lowered_name(text, other, "working"@);
        lemma_lowered_name(text, other, "idle"@);
        lemma_lowered_name(text, other, "prompting"@);
        lemma_lowered_name(text, other, "prompting_notes"@);
        lemma_lowered_name(text, other, "dead"@);
    }
}

/// In small letters a text names the same state as it does, and it names one just where those
/// are the name of a state.
pub proof fn law_state_name_in_small_letters(text: Seq<char>)
    ensures
        state_named(folded(text)) == state_named(text),
        state_named(text) is Some <==> exists|state: SessionState|
            folded(text) == #[trigger] state.name(),
{
    lemma_folded_twice(text);
    if state_named(text) is Some {
        assert(folded(text) == state_named(text)->0.name());
    }
    if exists|state: SessionState| folded(text) == #[trigger] state.name() {
        let state = choose|state: SessionState| folded(text) == #[trigger] state.name();
        law_state_has_its_name(state);
    }
}

/// A screen by itself never shows that an agent is dead, and shows it idle only after a second
/// without a sign of work.
pub proof fn law_idle_takes_a_second(lines: Seq<Seq<char>>, last_esc_seen: u64, now: u64)
    ensures
        state_shown(lines, last_esc_seen, now) != SessionState::Dead,
        state_shown(lines, last_esc_seen, now) == SessionState::Idle ==> passed(last_esc_seen, now)
            >= SECOND && !any_contains(lines, "esc to interrupt"@),
        any_contains(lines, "esc to interrupt"@) && !any_contains(lines, "Question "@)
            ==> state_shown(lines, last_esc_seen, now) == SessionState::Working,
{
}

/// What a screen has to show for each state. A question is only there with one of its two
/// footers, and then the agent asks. Without one it works as long as it shows that it can be
/// interrupted, and for one second after it last did, and is idle from then on, whatever else
/// the lines say. No screen shows that an agent is dead.
pub proof fn law_what_a_state_shows(lines: Seq<Seq<char>>, last_esc_seen: u64, now: u64)
    ensures
        ({
            let shown = detected(lines, last_esc_seen, now);
            let question = exists|i: int|
                0 <= i < lines.len() && contains(#[trigger] lines[i], "Question "@);
            let notes = exists|i: int|
                0 <= i < lines.len() && contains(#[trigger] lines[i], "tab or esc to clear notes"@);
            let submit = exists|i: int|
                0 <= i < lines.len() && contains(#[trigger] lines[i], "enter to submit"@);
            let work = exists|i: int|
                0 <= i < lines.len() && contains(#[trigger] lines[i], "esc to interrupt"@);
            let quiet = now - last_esc_seen >= 1_000_000_000;
            &&& shown.state == SessionState::PromptingNotes <==> question && notes
            &&& shown.state == SessionState::Prompting <==> question && submit && !notes
            &&& !(question && (notes || submit)) ==> {
                &&& shown.state == SessionState::Working <==> work || !quiet
                &&& shown.state == SessionState::Idle <==> !work && quiet
            }
            &&& shown.state != SessionState::Dead
            &&& question && (notes || submit) ==> shown.prompt_info == prompt(lines)
            &&& !(question && (notes || submit)) ==> shown.prompt_info is None
        }),
{
}

/// The five states have these names, and a text names a state just where it is one of these in
/// letters of any case.
pub proof fn law_the_five_names(text: Seq<char>)
    ensures
        SessionState::Working.name() == "working"@,
        SessionState::Idle.name() == "idle"@,
        SessionState::Prompting.name() == "prompting"@,
        SessionState::PromptingNotes.name() == "prompting_notes"@,
        SessionState::Dead.name() == "dead"@,
        state_named(text) == Some(SessionState::Working) <==> folded(text) == "working"@,
        state_named(text) == Some(SessionState::Idle) <==> folded(text) == "idle"@,
        state_named(text) == Some(SessionState::Prompting) <==> folded(text) == "prompting"@,
        state_named(text) == Some(SessionState::PromptingNotes) <==> folded(text)
            == "prompting_notes"@,
        state_named(text) == Some(SessionState::Dead) <==> folded(text) == "dead"@,
{
    reveal_strlit("working");
    reveal_strlit("idle");
    reveal_strlit("prompting");
    reveal_strlit("prompting_notes");
    reveal_strlit("dead");
    assert("working"@.len() == 7 && "idle"@.len() == 4 && "prompting"@.len() == 9
        && "prompting_notes"@.len() == 15 && "dead"@.len() == 4);
    assert("idle"@[0] == 'i' && "dead"@[0] == 'd');
}

/// The same of what [`detect_state`] gives.
pub proof fn law_detect_state_goes_by_the_footers(
    screen: &[String],
    last_esc_seen: u64,
    now: u64,
    r: DetectedState,
)
    requires
        call_ensures(detect_state, (screen, last_esc_seen, now), r),
    ensures
        ({
            let lines = texts(screen@);
            let question = any_contains(lines, "Question "@);
            let notes = any_contains(lines, "tab or esc to clear notes"@);
            let submit = any_contains(lines, "enter to submit"@);
            let work = any_contains(lines, "esc to interrupt"@);
            &&& r.state == SessionState::PromptingNotes <==> question && notes
            &&& r.state == SessionState::Prompting <==> question && submit && !notes
            &&& r.state == SessionState::Idle <==> !(question && (notes || submit)) && !work && now
                - last_esc_seen >= 1_000_000_000
            &&& r.state != SessionState::Dead
            &&& r.prompt_info is Some ==> question && (notes || submit)
        }),
{
    law_what_a_state_shows(texts(screen@), last_esc_seen, now);
}

} // verus!
