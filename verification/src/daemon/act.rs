//! What is typed into a session, and what is said to one without a screen.
use crate::clock::SECOND;
use crate::json::{opt_text, Json, JsonModel};
use crate::protocol::{err_json, err_model, law_what_a_refusal_says, Backend};
use crate::session::input::{
    action_named, action_views, all_steps, key_named, law_key_names, parse_actions, plan_actions,
    step_views, ActionView, KeyCode, Step, StepView,
};
use crate::session::state::SessionState;
use crate::session::{Session, SessionView};
use crate::text::{
    folded, join, lemma_texts_push, same, starts_with, str_folded, str_join, str_starts_with,
    str_trim, texts, trim,
};
use vstd::prelude::*;

verus! {

// ---------------------------------------------------------------------------------------------
// Prompts

/// Whether an argument is a keystroke or a pause, which mean nothing to an agent without a
/// screen: the name of a key, or a pause. The other words for a key are text to such an agent.
pub open spec fn is_keystroke(arg: Seq<char>) -> bool {
    ||| key_named(arg) is Some && folded(arg) == key_named(arg)->0.name()
    ||| starts_with(folded(arg), "wait:"@)
}

/// The first `n` arguments without the keystrokes.
pub open spec fn words_to(args: Seq<Seq<char>>, n: int) -> Seq<Seq<char>>
    decreases n,
{
    if n <= 0 {
        seq![]
    } else if is_keystroke(args[n - 1]) {
        words_to(args, n - 1)
    } else {
        words_to(args, n - 1).push(args[n - 1])
    }
}

/// The prompt that actions come to for an agent without a screen.
pub open spec fn prompt_text(actions: Seq<Seq<char>>) -> Seq<char> {
    join(words_to(actions, actions.len() as int), " "@)
}

/// Whether an argument is a keystroke or a pause.
fn keystroke(arg: &str) -> (b: bool)
    ensures
        b == is_keystroke(arg@),
{
    let lower = str_folded(arg);
    let is_key = match KeyCode::from_name(arg) {
        Some(key) => same(lower.as_str(), key.as_str()),
        None => false,
    };
    is_key || str_starts_with(lower.as_str(), "wait:")
}

/// The prompt that actions come to for an agent without a screen, if they come to one.
/// For opencode, actions are treated as a prompt string
/// (ignore keystrokes like "enter", "esc" — they don't apply)
pub fn opencode_prompt(actions: &[String]) -> (r: Option<String>)
    ensures
        match r {
            Some(text) => text@ == prompt_text(texts(actions@)) && trim(text@).len() > 0,
            None => trim(prompt_text(texts(actions@))).len() == 0,
        },
{
    let ghost t = texts(actions@);
    let mut words: Vec<String> = Vec::new();
    let mut i: usize = 0;
    proof {
        assert(texts(words@) =~= words_to(t, 0));
    }
    while i < actions.len()
        invariant
            i <= actions@.len(),
            t == texts(actions@),
            texts(words@) == words_to(t, i as int),
        decreases actions@.len() - i,
    {
        proof {
            assert(t[i as int] == actions@[i as int]@);
        }
        if !keystroke(actions[i].as_str()) {
            let word = actions[i].clone();
            proof {
                lemma_texts_push(words@, word);
            }
            words.push(word);
        }
        i = i + 1;
    }
    let text = str_join(words.as_slice(), " ");
    if str_trim(text.as_str()).is_empty() {
        None
    } else {
        Some(text)
    }
}

/// What is typed to accept a directory as trusted. Codex highlights "Yes, continue" by default,
/// so a single Enter accepts. Kimi highlights "Don't trust" (which exits kimi), so we need
/// Up-arrow first to move to "Trust this folder".
pub fn trust_answer(backend: Backend) -> (r: Vec<u8>)
    ensures
        r@ == if backend == Backend::Kimi {
            seq![0x1bu8, 0x5b, 0x41, 0x0d]
        } else {
            seq![0x0du8]
        },
{
    let mut v: Vec<u8> = Vec::new();
    if backend == Backend::Kimi {
        v.push(0x1b);
        v.push(0x5b);
        v.push(0x41);
    }
    v.push(0x0d);
    proof {
        assert(v@ =~= if backend == Backend::Kimi {
            seq![0x1bu8, 0x5b, 0x41, 0x0d]
        } else {
            seq![0x0du8]
        });
    }
    v
}

// ---------------------------------------------------------------------------------------------
// Actions

/// What is to be done with the actions for a session.
#[derive(Debug)]
pub enum Act {
    /// Answer that they cannot be performed.
    Refuse(Json),
    /// Type them.
    Type(Vec<Step>),
    /// Give the prompt to a new run once the session does not work any more.
    Queue(String),
    /// Give the prompt to a new run.
    Run(String),
}

/// What is to be done with the actions for a session.
pub enum ActView {
    Refuse(JsonModel),
    Type(Seq<StepView>),
    Queue(Seq<char>),
    Run(Seq<char>),
}

impl View for Act {
    type V = ActView;

    open spec fn view(&self) -> ActView {
        match *self {
            Act::Refuse(answer) => ActView::Refuse(answer@),
            Act::Type(steps) => ActView::Type(step_views(steps@)),
            Act::Queue(prompt) => ActView::Queue(prompt@),
            Act::Run(prompt) => ActView::Run(prompt@),
        }
    }
}

/// What is to be done with the actions for a session: a dead one can do nothing; to one without
/// a screen they are a prompt, which waits while the session works; to any other they are typed.
pub open spec fn act_for(session: SessionView, actions: Seq<Seq<char>>) -> ActView {
    let prompt = prompt_text(actions);
    if session.state == SessionState::Dead {
        ActView::Refuse(err_model("Session is dead"@))
    } else if session.backend != Backend::Opencode {
        ActView::Type(all_steps(Seq::new(actions.len(), |i: int| action_named(actions[i]))))
    } else if trim(prompt).len() == 0 {
        ActView::Refuse(
            err_model("No prompt text found in actions (opencode mode ignores keystrokes)"@),
        )
    } else if session.state == SessionState::Working {
        ActView::Queue(prompt)
    } else {
        ActView::Run(prompt)
    }
}

/// The steps that type actions into a session.
fn type_actions(actions: &[String]) -> (r: Vec<Step>)
    ensures
        step_views(r@) == all_steps(
            Seq::new(actions@.len(), |i: int| action_named(texts(actions@)[i])),
        ),
{
    let mut args: Vec<&str> = Vec::new();
    let mut i: usize = 0;
    while i < actions.len()
        invariant
            i <= actions@.len(),
            args@.len() == i,
            forall|j: int| 0 <= j < i ==> (#[trigger] args@[j])@ == actions@[j]@,
        decreases actions@.len() - i,
    {
        args.push(actions[i].as_str());
        i = i + 1;
    }
    let parsed = parse_actions(args.as_slice());
    proof {
        assert(action_views(parsed@) =~= Seq::new(
            actions@.len(),
            |i: int| action_named(texts(actions@)[i]),
        ));
    }
    plan_actions(parsed.as_slice())
}

/// What is to be done with the actions for a session.
pub fn plan_act(session: &Session, actions: &[String]) -> (r: Act)
    ensures
        r@ == act_for(session@, texts(actions@)),
{
    if session.state == SessionState::Dead {
        return Act::Refuse(err_json("Session is dead"));
    }
    if session.backend != Backend::Opencode {
        let steps = type_actions(actions);
        proof {
            let t = texts(actions@);
            assert(Seq::new(actions@.len(), |i: int| action_named(texts(actions@)[i]))
                =~= Seq::new(t.len(), |i: int| action_named(t[i])));
        }
        return Act::Type(steps);
    }
    match opencode_prompt(actions) {
        None => Act::Refuse(
            err_json("No prompt text found in actions (opencode mode ignores keystrokes)"),
        ),
        Some(prompt) => {
            if session.state == SessionState::Working {
                Act::Queue(prompt)
            } else {
                Act::Run(prompt)
            }
        },
    }
}

/// How long a prompt waits for the session to rest, in nanoseconds.
pub const QUEUE_LIMIT: u64 = 300 * SECOND;

/// What keeps a prompt that has waited from being given to a new run: the session has died.
pub fn after_queue(session: &Session) -> (r: Option<Json>)
    ensures
        match r {
            Some(answer) => session@.state == SessionState::Dead && answer@ == err_model(
                "Session died while waiting"@,
            ),
            None => session@.state != SessionState::Dead,
        },
{
    if session.state == SessionState::Dead {
        Some(err_json("Session died while waiting"))
    } else {
        None
    }
}

/// The program of a new run, or an answer that says that none is known.
pub fn run_program(session: &Session) -> (r: Result<String, Json>)
    ensures
        match r {
            Ok(binary) => opt_text(session.opencode_binary) == Some(binary@),
            Err(answer) => session.opencode_binary is None && answer@ == err_model(
                "Opencode session has no recorded binary path (was it spawned before this fix?)"@,
            ),
        },
{
    match &session.opencode_binary {
        Some(binary) => Ok(binary.clone()),
        None => Err(
            err_json(
                "Opencode session has no recorded binary path (was it spawned before this fix?)",
            ),
        ),
    }
}

// ---------------------------------------------------------------------------------------------
// Laws

/// A dead session is never typed into and never starts a run, whatever the actions are.
pub proof fn law_the_dead_do_not_act(session: SessionView, actions: Seq<Seq<char>>)
    requires
        session.state == SessionState::Dead,
    ensures
        act_for(session, actions) is Refuse,
{
}

/// Nothing is typed into a session that has no screen.
pub proof fn law_nothing_is_typed_without_a_screen(session: SessionView, actions: Seq<Seq<char>>)
    requires
        session.backend == Backend::Opencode,
    ensures
        !(act_for(session, actions) is Type),
{
}

/// Which arguments mean nothing to an agent without a screen: the names of the keys, and pauses,
/// in letters of any case.
pub proof fn law_what_is_a_keystroke(arg: Seq<char>)
    ensures
        ({
            let name = folded(arg);
            is_keystroke(arg) <==> starts_with(name, "wait:"@) || name == "enter"@ || name
                == "tab"@ || name == "esc"@ || name == "space"@ || name == "up"@ || name == "down"@
                || name == "left"@ || name == "right"@ || name == "backspace"@ || name
                == "ctrl+c"@ || name == "ctrl+d"@ || name == "ctrl+z"@ || name == "ctrl+l"@
        }),
{
    if key_named(arg) is Some && folded(arg) == key_named(arg)->0.name() {
        law_key_names(arg);
    }
    law_key_names(arg);
}

/// The prompt for an agent without a screen is made of the other arguments, all of them and in
/// their order, with blanks between them.
pub proof fn law_a_prompt_is_what_is_not_keys(actions: Seq<Seq<char>>)
    ensures
        prompt_text(actions) == join(actions.filter(|arg: Seq<char>| !is_keystroke(arg)), " "@),
{
    lemma_words_are_filtered(actions, actions.len() as int);
    assert(actions.take(actions.len() as int) =~= actions);
}

proof fn lemma_words_are_filtered(args: Seq<Seq<char>>, n: int)
    requires
        0 <= n <= args.len(),
    ensures
        words_to(args, n) == args.take(n).filter(|arg: Seq<char>| !is_keystroke(arg)),
    decreases n,
{
    reveal(Seq::filter);
    if n > 0 {
        lemma_words_are_filtered(args, n - 1);
        assert(args.take(n).drop_last() =~= args.take(n - 1));
        assert(args.take(n).last() == args[n - 1]);
    } else {
        assert(args.take(0) =~= seq![]);
    }
}

/// What becomes of actions. A dead session refuses them. A session with a screen has each typed,
/// in order. One without a screen gets what is no key as a prompt, at once or, while it works,
/// later; where there is nothing but keys it refuses.
pub proof fn law_what_becomes_of_actions(session: &Session, actions: &[String], r: Act)
    requires
        call_ensures(plan_act, (session, actions), r),
    ensures
        ({
            let prompt = prompt_text(texts(actions@));
            let dead = session.state == SessionState::Dead;
            let screen = session.backend != Backend::Opencode;
            &&& r is Type <==> !dead && screen
            &&& r is Queue <==> !dead && !screen && trim(prompt).len() > 0 && session.state
                == SessionState::Working
            &&& r is Run <==> !dead && !screen && trim(prompt).len() > 0 && session.state
                != SessionState::Working
            &&& r is Refuse <==> dead || (!screen && trim(prompt).len() == 0)
            &&& r matches Act::Queue(text) ==> text@ == prompt
            &&& r matches Act::Run(text) ==> text@ == prompt
            &&& r matches Act::Type(steps) ==> exists|keys: Seq<ActionView>|
                step_views(steps@) == #[trigger] all_steps(keys) && keys.len() == actions@.len()
                    && forall|i: int|
                    0 <= i < keys.len() ==> #[trigger] keys[i] == action_named(actions@[i]@)
            &&& r matches Act::Refuse(answer) ==> answer@.get("ok"@) == Some(
                JsonModel::Bool(false),
            ) && answer@.get("error"@) == Some(
                JsonModel::Str(
                    if dead {
                        "Session is dead"@
                    } else {
                        "No prompt text found in actions (opencode mode ignores keystrokes)"@
                    },
                ),
            )
        }),
{
    law_what_a_refusal_says("Session is dead"@);
    law_what_a_refusal_says(
        "No prompt text found in actions (opencode mode ignores keystrokes)"@,
    );
    let t = texts(actions@);
    let keys = Seq::new(t.len(), |i: int| action_named(t[i]));
    if r is Type {
        assert(step_views(r->Type_0@) == all_steps(keys));
        assert(forall|i: int| 0 <= i < keys.len() ==> #[trigger] keys[i] == action_named(
            actions@[i]@,
        ));
    }
}

/// A trusted directory is accepted with the keys for it: Enter, and for kimi Up before it.
pub proof fn law_trust_is_typed_with_keys(backend: Backend, r: Vec<u8>)
    requires
        call_ensures(trust_answer, (backend,), r),
    ensures
        backend == Backend::Kimi ==> r@ == KeyCode::Up.bytes() + KeyCode::Enter.bytes(),
        backend != Backend::Kimi ==> r@ == KeyCode::Enter.bytes(),
{
    assert(seq![0x1bu8, 0x5b, 0x41, 0x0d] =~= KeyCode::Up.bytes() + KeyCode::Enter.bytes());
    assert(seq![0x0du8] =~= KeyCode::Enter.bytes());
}

/// After a prompt has waited it is dropped just where the session has died meanwhile.
pub proof fn law_the_dead_get_no_prompt(session: &Session, r: Option<Json>)
    requires
        call_ensures(after_queue, (session,), r),
    ensures
        r is Some <==> session.state == SessionState::Dead,
        r is Some ==> r->0@.get("error"@) == Some(JsonModel::Str("Session died while waiting"@))
            && r->0@.get("ok"@) == Some(JsonModel::Bool(false)),
{
    law_what_a_refusal_says("Session died while waiting"@);
}

/// A run is made with the program that the session was started with.
pub proof fn law_the_same_program_runs(session: &Session, r: Result<String, Json>)
    requires
        call_ensures(run_program, (session,), r),
    ensures
        r is Ok <==> session.opencode_binary is Some,
        r is Ok ==> r->Ok_0@ == session.opencode_binary->0@,
{
}

} // verus!
