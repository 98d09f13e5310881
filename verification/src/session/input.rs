//! What is typed into an agent's terminal: keys, text and pauses.
use crate::numbers::{decimal, law_decimal_round_trip, natural, parse_natural};
use crate::text::{
    chars_of, folded, is_small, lemma_folded_twice, lemma_lowered_name, lemma_small_is_folded,
    lowered, same, starts_with, str_folded, str_strip_prefix,
};
use vstd::prelude::*;
use vstd::utf8::encode_utf8;

verus! {

/// A key code that maps to terminal escape bytes.
#[derive(Debug, Clone, Copy, PartialEq, Eq, Structural)]
pub enum KeyCode {
    Enter,
    Tab,
    Esc,
    Up,
    Down,
    Left,
    Right,
    Backspace,
    Space,
    CtrlC,
    CtrlD,
    CtrlZ,
    CtrlL,
}

/// The key with that name, whatever the case of its letters.
pub open spec fn key_named(text: Seq<char>) -> Option<KeyCode> {
    let name = folded(text);
    if name == "enter"@ || name == "return"@ {
        Some(KeyCode::Enter)
    } else if name == "tab"@ {
        Some(KeyCode::Tab)
    } else if name == "esc"@ || name == "escape"@ {
        Some(KeyCode::Esc)
    } else if name == "up"@ {
        Some(KeyCode::Up)
    } else if name == "down"@ {
        Some(KeyCode::Down)
    } else if name == "left"@ {
        Some(KeyCode::Left)
    } else if name == "right"@ {
        Some(KeyCode::Right)
    } else if name == "backspace"@ {
        Some(KeyCode::Backspace)
    } else if name == "space"@ {
        Some(KeyCode::Space)
    } else if name == "ctrl+c"@ {
        Some(KeyCode::CtrlC)
    } else if name == "ctrl+d"@ {
        Some(KeyCode::CtrlD)
    } else if name == "ctrl+z"@ {
        Some(KeyCode::CtrlZ)
    } else if name == "ctrl+l"@ {
        Some(KeyCode::CtrlL)
    } else {
        None
    }
}

impl KeyCode {
    /// The name of the key.
    pub open spec fn name(self) -> Seq<char> {
        match self {
            KeyCode::Enter => "enter"@,
            KeyCode::Tab => "tab"@,
            KeyCode::Esc => "esc"@,
            KeyCode::Up => "up"@,
            KeyCode::Down => "down"@,
            KeyCode::Left => "left"@,
            KeyCode::Right => "right"@,
            KeyCode::Backspace => "backspace"@,
            KeyCode::Space => "space"@,
            KeyCode::CtrlC => "ctrl+c"@,
            KeyCode::CtrlD => "ctrl+d"@,
            KeyCode::CtrlZ => "ctrl+z"@,
            KeyCode::CtrlL => "ctrl+l"@,
        }
    }

    /// The name of the key.
    pub fn as_str(&self) -> (s: &'static str)
        ensures
            s@ == self.name(),
    {
        match self {
            KeyCode::Enter => "enter",
            KeyCode::Tab => "tab",
            KeyCode::Esc => "esc",
            KeyCode::Up => "up",
            KeyCode::Down => "down",
            KeyCode::Left => "left",
            KeyCode::Right => "right",
            KeyCode::Backspace => "backspace",
            KeyCode::Space => "space",
            KeyCode::CtrlC => "ctrl+c",
            KeyCode::CtrlD => "ctrl+d",
            KeyCode::CtrlZ => "ctrl+z",
            KeyCode::CtrlL => "ctrl+l",
        }
    }

    /// The bytes that a terminal sends for the key.
    pub open spec fn bytes(self) -> Seq<u8> {
        match self {
            KeyCode::Enter => seq![0x0du8],
            KeyCode::Tab => seq![0x09u8],
            KeyCode::Esc => seq![0x1bu8],
            KeyCode::Up => seq![0x1bu8, 0x5b, 0x41],
            KeyCode::Down => seq![0x1bu8, 0x5b, 0x42],
            KeyCode::Right => seq![0x1bu8, 0x5b, 0x43],
            KeyCode::Left => seq![0x1bu8, 0x5b, 0x44],
            KeyCode::Backspace => seq![0x7fu8],
            KeyCode::Space => seq![0x20u8],
            KeyCode::CtrlC => seq![0x03u8],
            KeyCode::CtrlD => seq![0x04u8],
            KeyCode::CtrlZ => seq![0x1au8],
            KeyCode::CtrlL => seq![0x0cu8],
        }
    }

    /// The bytes that a terminal sends for the key.
    pub fn to_bytes(&self) -> (r: &[u8])
        ensures
            r@ == self.bytes(),
    {
        match self {
            KeyCode::Enter => &[0x0d],
            KeyCode::Tab => &[0x09],
            KeyCode::Esc => &[0x1b],
            KeyCode::Up => &[0x1b, 0x5b, 0x41],
            KeyCode::Down => &[0x1b, 0x5b, 0x42],
            KeyCode::Right => &[0x1b, 0x5b, 0x43],
            KeyCode::Left => &[0x1b, 0x5b, 0x44],
            KeyCode::Backspace => &[0x7f],
            KeyCode::Space => &[0x20],
            KeyCode::CtrlC => &[0x03],
            KeyCode::CtrlD => &[0x04],
            KeyCode::CtrlZ => &[0x1a],
            KeyCode::CtrlL => &[0x0c],
        }
    }

    /// The key with that name, whatever the case of its letters.
    pub fn from_name(name: &str) -> (r: Option<KeyCode>)
        ensures
            r == key_named(name@),
    {
        let lower = str_folded(name);
        let name = lower.as_str();
        if same(name, "enter") || same(name, "return") {
            Some(KeyCode::Enter)
        } else if same(name, "tab") {
            Some(KeyCode::Tab)
        } else if same(name, "esc") || same(name, "escape") {
            Some(KeyCode::Esc)
        } else if same(name, "up") {
            Some(KeyCode::Up)
        } else if same(name, "down") {
            Some(KeyCode::Down)
        } else if same(name, "left") {
            Some(KeyCode::Left)
        } else if same(name, "right") {
            Some(KeyCode::Right)
        } else if same(name, "backspace") {
            Some(KeyCode::Backspace)
        } else if same(name, "space") {
            Some(KeyCode::Space)
        } else if same(name, "ctrl+c") {
            Some(KeyCode::CtrlC)
        } else if same(name, "ctrl+d") {
            Some(KeyCode::CtrlD)
        } else if same(name, "ctrl+z") {
            Some(KeyCode::CtrlZ)
        } else if same(name, "ctrl+l") {
            Some(KeyCode::CtrlL)
        } else {
            None
        }
    }
}

/// An action to perform on the PTY. A wait is given in milliseconds.
#[derive(Debug, Clone, PartialEq, Eq)]
pub enum Action {
    Key(KeyCode),
    Text(String),
    Wait(u64),
}

/// What an action says.
pub enum ActionView {
    Key(KeyCode),
    Text(Seq<char>),
    Wait(u64),
}

impl View for Action {
    type V = ActionView;

    open spec fn view(&self) -> ActionView {
        match *self {
            Action::Key(key) => ActionView::Key(key),
            Action::Text(text) => ActionView::Text(text@),
            Action::Wait(ms) => ActionView::Wait(ms),
        }
    }
}

/// What the actions of a sequence say.
pub open spec fn action_views(actions: Seq<Action>) -> Seq<ActionView> {
    Seq::new(actions.len(), |i: int| actions[i]@)
}

/// The action that an argument stands for.
pub open spec fn action_named(arg: Seq<char>) -> ActionView {
    if starts_with(arg, "text:"@) {
        ActionView::Text(arg.skip("text:"@.len() as int))
    } else if starts_with(arg, "wait:"@) {
        match natural(arg.skip("wait:"@.len() as int), u64::MAX as nat) {
            Some(ms) => ActionView::Wait(ms as u64),
            None => ActionView::Text(arg),
        }
    } else {
        match key_named(arg) {
            Some(key) => ActionView::Key(key),
            None => ActionView::Text(arg),
        }
    }
}

/// The action that an argument stands for.
fn parse_action(arg: &str) -> (r: Action)
    ensures
        r@ == action_named(arg@),
{
    if let Some(text) = str_strip_prefix(arg, "text:") {
        return Action::Text(text.to_owned());
    }
    if let Some(ms_str) = str_strip_prefix(arg, "wait:") {
        return match parse_natural(ms_str, u64::MAX) {
            Some(ms) => Action::Wait(ms),
            None => Action::Text(arg.to_owned()),
        };
    }
    match KeyCode::from_name(arg) {
        Some(key) => Action::Key(key),
        None => Action::Text(arg.to_owned()),
    }
}

/// Parse a list of action arguments into Action values.
/// Reserved key names (case-insensitive) become Key actions.
/// "text:" prefix forces literal text.
/// "wait:N" becomes a Wait action (N in milliseconds).
/// Everything else is Text.
pub fn parse_actions(args: &[&str]) -> (r: Vec<Action>)
    ensures
        action_views(r@) == Seq::new(args@.len(), |i: int| action_named(args@[i]@)),
{
    let ghost all = Seq::new(args@.len(), |i: int| action_named(args@[i]@));
    let mut actions: Vec<Action> = Vec::new();
    let mut i: usize = 0;
    while i < args.len()
        invariant
            i <= args@.len(),
            all == Seq::new(args@.len(), |i: int| action_named(args@[i]@)),
            action_views(actions@) == all.take(i as int),
        decreases args@.len() - i,
    {
        let action = parse_action(args[i]);
        proof {
            assert(action_views(actions@.push(action)) =~= action_views(actions@).push(action@));
            assert(all.take(i + 1) =~= all.take(i as int).push(action@));
        }
        actions.push(action);
        i = i + 1;
    }
    proof {
        assert(all.take(args@.len() as int) =~= all);
    }
    actions
}

// ---------------------------------------------------------------------------------------------
// Performing actions

/// From how many characters on a text is written in chunks.
pub const LONG_TEXT: usize = 50;

/// How many bytes a chunk of a long text has.
pub const CHUNK: usize = 32;

/// The pause after a chunk, in milliseconds.
pub const CHUNK_PAUSE: u64 = 10;

/// The pause between two actions, in milliseconds.
pub const ACTION_PAUSE: u64 = 30;

/// One thing to do to a PTY: write bytes to it, or let it be for some milliseconds.
#[derive(Debug, Clone, PartialEq, Eq)]
pub enum Step {
    Write(Vec<u8>),
    Sleep(u64),
}

/// What a step does.
pub enum StepView {
    Write(Seq<u8>),
    Sleep(u64),
}

impl View for Step {
    type V = StepView;

    open spec fn view(&self) -> StepView {
        match *self {
            Step::Write(bytes) => StepView::Write(bytes@),
            Step::Sleep(ms) => StepView::Sleep(ms),
        }
    }
}

/// What the steps of a sequence do.
pub open spec fn step_views(steps: Seq<Step>) -> Seq<StepView> {
    Seq::new(steps.len(), |i: int| steps[i]@)
}

/// Writing the bytes in chunks, with a pause after each.
pub open spec fn chunked(bytes: Seq<u8>) -> Seq<StepView>
    decreases bytes.len(),
{
    if bytes.len() == 0 {
        seq![]
    } else {
        let n = if bytes.len() < CHUNK {
            bytes.len() as int
        } else {
            CHUNK as int
        };
        seq![StepView::Write(bytes.take(n)), StepView::Sleep(CHUNK_PAUSE)] + chunked(bytes.skip(n))
    }
}

/// What one action comes to: a short text is written as a whole, a long one in chunks.
pub open spec fn steps_of(action: ActionView) -> Seq<StepView> {
    match action {
        ActionView::Key(key) => seq![StepView::Write(key.bytes())],
        ActionView::Text(text) => if text.len() < LONG_TEXT {
            seq![StepView::Write(encode_utf8(text))]
        } else {
            chunked(encode_utf8(text))
        },
        ActionView::Wait(ms) => seq![StepView::Sleep(ms)],
    }
}

/// What a sequence of actions comes to, with a pause between every two.
pub open spec fn all_steps(actions: Seq<ActionView>) -> Seq<StepView>
    decreases actions.len(),
{
    if actions.len() == 0 {
        seq![]
    } else {
        let before = all_steps(actions.drop_last());
        let pause = if actions.len() > 1 {
            seq![StepView::Sleep(ACTION_PAUSE)]
        } else {
            seq![]
        };
        before + pause + steps_of(actions.last())
    }
}

/// The bytes `from` to `to` of a slice.
pub(crate) fn bytes_between(bytes: &[u8], from: usize, to: usize) -> (r: Vec<u8>)
    requires
        from <= to <= bytes@.len(),
    ensures
        r@ == bytes@.subrange(from as int, to as int),
{
    let mut out: Vec<u8> = Vec::new();
    let mut i: usize = from;
    while i < to
        invariant
            from <= i <= to <= bytes@.len(),
            out@ == bytes@.subrange(from as int, i as int),
        decreases to - i,
    {
        out.push(bytes[i]);
        proof {
            assert(bytes@.subrange(from as int, i + 1) =~= bytes@.subrange(
                from as int,
                i as int,
            ).push(bytes@[i as int]));
        }
        i = i + 1;
    }
    out
}

/// Appends one step.
pub(crate) fn push_step(steps: &mut Vec<Step>, step: Step)
    ensures
        step_views(final(steps)@) == step_views(old(steps)@).push(step@),
{
    proof {
        assert(step_views(steps@.push(step)) =~= step_views(steps@).push(step@));
    }
    steps.push(step);
}

/// Appends the steps that write the bytes in chunks.
fn push_chunks(steps: &mut Vec<Step>, bytes: &[u8])
    ensures
        step_views(final(steps)@) == step_views(old(steps)@) + chunked(bytes@),
{
    let ghost before = step_views(steps@);
    let mut i: usize = 0;
    proof {
        assert(bytes@.skip(0) =~= bytes@);
    }
    while i < bytes.len()
        invariant
            i <= bytes@.len(),
            step_views(steps@) + chunked(bytes@.skip(i as int)) == before + chunked(bytes@),
        decreases bytes@.len() - i,
    {
        let to: usize = if bytes.len() - i < CHUNK {
            bytes.len()
        } else {
            i + CHUNK
        };
        let chunk = bytes_between(bytes, i, to);
        proof {
            let rest = bytes@.skip(i as int);
            let here = seq![StepView::Write(chunk@), StepView::Sleep(CHUNK_PAUSE)];
            assert(rest.take(to - i) =~= chunk@);
            assert(rest.skip(to - i) =~= bytes@.skip(to as int));
            assert(chunked(rest) == here + chunked(bytes@.skip(to as int)));
            assert(step_views(steps@).push(here[0]).push(here[1]) + chunked(bytes@.skip(to as int))
                =~= step_views(steps@) + (here + chunked(bytes@.skip(to as int))));
        }
        push_step(steps, Step::Write(chunk));
        push_step(steps, Step::Sleep(CHUNK_PAUSE));
        i = to;
    }
    proof {
        assert(bytes@.skip(bytes@.len() as int) =~= seq![]);
        assert(step_views(steps@) + seq![] =~= step_views(steps@));
    }
}

/// What is to be done to a PTY for a sequence of actions.
/// 30ms pause between actions. Text <50 chars sent whole,
/// >=50 chars chunked at 32 bytes with 10ms pause.
pub fn plan_actions(actions: &[Action]) -> (r: Vec<Step>)
    ensures
        step_views(r@) == all_steps(action_views(actions@)),
{
    let ghost all = action_views(actions@);
    let mut steps: Vec<Step> = Vec::new();
    let mut i: usize = 0;
    proof {
        assert(step_views(steps@) =~= all_steps(all.take(0)));
    }
    while i < actions.len()
        invariant
            i <= actions@.len(),
            all == action_views(actions@),
            step_views(steps@) == all_steps(all.take(i as int)),
        decreases actions@.len() - i,
    {
        let ghost before = all_steps(all.take(i as int));
        let ghost pause = if i > 0 {
            seq![StepView::Sleep(ACTION_PAUSE)]
        } else {
            seq![]
        };
        proof {
            assert(all.take(i + 1).drop_last() =~= all.take(i as int));
            assert(all.take(i + 1).last() == actions@[i as int]@);
            assert(before + seq![] =~= before);
            assert(before.push(StepView::Sleep(ACTION_PAUSE)) =~= before + seq![
                StepView::Sleep(ACTION_PAUSE),
            ]);
        }
        if i > 0 {
            push_step(&mut steps, Step::Sleep(ACTION_PAUSE));
        }
        let ghost so_far = before + pause;
        match &actions[i] {
            Action::Key(key) => {
                let bytes = key.to_bytes();
                let chunk = bytes_between(bytes, 0, bytes.len());
                proof {
                    assert(chunk@ =~= key.bytes());
                    assert(so_far.push(StepView::Write(chunk@)) =~= so_far + seq![
                        StepView::Write(chunk@),
                    ]);
                }
                push_step(&mut steps, Step::Write(chunk));
            },
            Action::Text(text) => {
                let bytes = text.as_str().as_bytes();
                if chars_of(text.as_str()).len() < LONG_TEXT {
                    let chunk = bytes_between(bytes, 0, bytes.len());
                    proof {
                        assert(chunk@ =~= bytes@);
                        assert(so_far.push(StepView::Write(chunk@)) =~= so_far + seq![
                            StepView::Write(chunk@),
                        ]);
                    }
                    push_step(&mut steps, Step::Write(chunk));
                } else {
                    push_chunks(&mut steps, bytes);
                }
            },
            Action::Wait(ms) => {
                proof {
                    assert(so_far.push(StepView::Sleep(*ms)) =~= so_far + seq![
                        StepView::Sleep(*ms),
                    ]);
                }
                push_step(&mut steps, Step::Sleep(*ms));
            },
        }
        i = i + 1;
    }
    proof {
        assert(all.take(actions@.len() as int) =~= all);
    }
    steps
}

// ---------------------------------------------------------------------------------------------
// Laws

/// The bytes that a sequence of steps writes, in order.
pub open spec fn written(steps: Seq<StepView>) -> Seq<u8>
    decreases steps.len(),
{
    if steps.len() == 0 {
        seq![]
    } else {
        match steps.last() {
            StepView::Write(bytes) => written(steps.drop_last()) + bytes,
            StepView::Sleep(_) => written(steps.drop_last()),
        }
    }
}

/// The bytes that a sequence of actions types.
pub open spec fn typed(actions: Seq<ActionView>) -> Seq<u8>
    decreases actions.len(),
{
    if actions.len() == 0 {
        seq![]
    } else {
        typed(actions.drop_last()) + match actions.last() {
            ActionView::Key(key) => key.bytes(),
            ActionView::Text(text) => encode_utf8(text),
            ActionView::Wait(_) => seq![],
        }
    }
}

proof fn lemma_written_add(a: Seq<StepView>, b: Seq<StepView>)
    ensures
        written(a + b) == written(a) + written(b),
    decreases b.len(),
{
    if b.len() == 0 {
        assert(a + b =~= a);
        assert(written(a) + seq![] =~= written(a));
    } else {
        assert((a + b).drop_last() =~= a + b.drop_last());
        lemma_written_add(a, b.drop_last());
        if let StepView::Write(bytes) = b.last() {
            assert(written(a) + written(b.drop_last()) + bytes =~= written(a) + (written(
                b.drop_last(),
            ) + bytes));
        }
    }
}

proof fn lemma_written_one(step: StepView)
    ensures
        written(seq![step]) == match step {
            StepView::Write(bytes) => bytes,
            StepView::Sleep(_) => seq![],
        },
{
    assert(seq![step].drop_last() =~= seq![]);
    assert(written(seq![]) =~= seq![]);
    if let StepView::Write(bytes) = step {
        assert(Seq::<u8>::empty() + bytes =~= bytes);
    }
}

/// Cutting bytes into chunks loses none, and no chunk is longer than the limit.
pub proof fn law_chunks_are_whole(bytes: Seq<u8>)
    ensures
        written(chunked(bytes)) == bytes,
        forall|i: int|
            0 <= i < chunked(bytes).len() ==> match #[trigger] chunked(bytes)[i] {
                StepView::Write(chunk) => 0 < chunk.len() <= CHUNK,
                StepView::Sleep(ms) => ms == CHUNK_PAUSE,
            },
    decreases bytes.len(),
{
    if bytes.len() == 0 {
        assert(bytes =~= seq![]);
    } else {
        let n = if bytes.len() < CHUNK {
            bytes.len() as int
        } else {
            CHUNK as int
        };
        let first = StepView::Write(bytes.take(n));
        let second = StepView::Sleep(CHUNK_PAUSE);
        let rest = chunked(bytes.skip(n));
        law_chunks_are_whole(bytes.skip(n));
        lemma_written_one(first);
        lemma_written_one(second);
        assert(seq![first, second] =~= seq![first] + seq![second]);
        lemma_written_add(seq![first], seq![second]);
        lemma_written_add(seq![first, second], rest);
        assert(bytes.take(n) + seq![] + bytes.skip(n) =~= bytes);
        assert forall|i: int| 0 <= i < chunked(bytes).len() implies match #[trigger] chunked(
            bytes,
        )[i] {
            StepView::Write(chunk) => 0 < chunk.len() <= CHUNK,
            StepView::Sleep(ms) => ms == CHUNK_PAUSE,
        } by {
            if i >= 2 {
                assert(chunked(bytes)[i] == rest[i - 2]);
            }
        }
    }
}

/// What is written to the PTY is what the actions type, byte for byte and in order.
pub proof fn law_plan_types_the_actions(actions: Seq<ActionView>)
    ensures
        written(all_steps(actions)) == typed(actions),
    decreases actions.len(),
{
    if actions.len() > 0 {
        let before = all_steps(actions.drop_last());
        let pause = if actions.len() > 1 {
            seq![StepView::Sleep(ACTION_PAUSE)]
        } else {
            seq![]
        };
        let here = steps_of(actions.last());
        law_plan_types_the_actions(actions.drop_last());
        lemma_written_one(StepView::Sleep(ACTION_PAUSE));
        assert(written(seq![]) =~= seq![]);
        lemma_written_add(before, pause);
        lemma_written_add(before + pause, here);
        assert(written(before) + seq![] =~= written(before));
        match actions.last() {
            ActionView::Key(key) => {
                lemma_written_one(StepView::Write(key.bytes()));
            },
            ActionView::Text(text) => {
                lemma_written_one(StepView::Write(encode_utf8(text)));
                law_chunks_are_whole(encode_utf8(text));
            },
            ActionView::Wait(ms) => {
                lemma_written_one(StepView::Sleep(ms));
            },
        }
    }
}

/// The names of the keys are in small letters.
proof fn lemma_key_names()
    ensures
        is_small("enter"@),
        is_small("return"@),
        is_small("tab"@),
        is_small("esc"@),
        is_small("escape"@),
        is_small("up"@),
        is_small("down"@),
        is_small("left"@),
        is_small("right"@),
        is_small("backspace"@),
        is_small("space"@),
        is_small("ctrl+c"@),
        is_small("ctrl+d"@),
        is_small("ctrl+z"@),
        is_small("ctrl+l"@),
{
    reveal_strlit("enter");
    reveal_strlit("return");
    reveal_strlit("tab");
    reveal_strlit("esc");
    reveal_strlit("escape");
    reveal_strlit("up");
    reveal_strlit("down");
    reveal_strlit("left");
    reveal_strlit("right");
    reveal_strlit("backspace");
    reveal_strlit("space");
    reveal_strlit("ctrl+c");
    reveal_strlit("ctrl+d");
    reveal_strlit("ctrl+z");
    reveal_strlit("ctrl+l");
}

/// A key can be told from its name.
pub proof fn law_key_has_its_name(key: KeyCode)
    ensures
        key_named(key.name()) == Some(key),
{
    reveal_strlit("enter");
    reveal_strlit("return");
    reveal_strlit("tab");
    reveal_strlit("esc");
    reveal_strlit("escape");
    reveal_strlit("up");
    reveal_strlit("down");
    reveal_strlit("left");
    reveal_strlit("right");
    reveal_strlit("backspace");
    reveal_strlit("space");
    reveal_strlit("ctrl+c");
    reveal_strlit("ctrl+d");
    reveal_strlit("ctrl+z");
    reveal_strlit("ctrl+l");
    lemma_key_names();
    lemma_small_is_folded(key.name());
    assert("return"@[0] == 'r' && "escape"@[0] == 'e' && "ctrl+c"@[5] == 'c');
    assert("tab"@[0] == 't' && "esc"@[0] == 'e');
    assert("down"@[0] == 'd' && "left"@[0] == 'l');
    assert("enter"@[0] == 'e' && "right"@[0] == 'r' && "space"@[0] == 's');
    assert("ctrl+d"@[5] == 'd' && "ctrl+z"@[5] == 'z' && "ctrl+l"@[5] == 'l');
    assert("ctrl+c"@[0] == 'c' && "ctrl+d"@[0] == 'c' && "ctrl+z"@[0] == 'c' && "ctrl+l"@[0]
        == 'c');
}

/// The case of the letters makes no difference to a key's name: a text names the same key as its
/// form in lower case, and as any text that has the same small letters.
pub proof fn law_key_name_ignores_case(text: Seq<char>, other: Seq<char>)
    requires
        lowered(text, other) || folded(text) == folded(other),
    ensures
        key_named(other) == key_named(text),
{
    lemma_key_names();
    if lowered(text, other) {
        lemma_lowered_name(text, other, "enter"@);
        lemma_lowered_name(text, other, "return"@);
        lemma_lowered_name(text, other, "tab"@);
        lemma_lowered_name(text, other, "esc"@);
        lemma_lowered_name(text, other, "escape"@);
        lemma_lowered_name(text, other, "up"@);
        lemma_lowered_name(text, other, "down"@);
        lemma_lowered_name(text, other, "left"@);
        lemma_lowered_name(text, other, "right"@);
        lemma_lowered_name(text, other, "backspace"@);
        lemma_lowered_name(text, other, "space"@);
        lemma_lowered_name(text, other, "ctrl+c"@);
        lemma_lowered_name(text, other, "ctrl+d"@);
        lemma_lowered_name(text, other, "ctrl+z"@);
        lemma_lowered_name(text, other, "ctrl+l"@);
    }
}

/// In small letters a text names the same key as it does.
pub proof fn law_key_name_in_small_letters(text: Seq<char>)
    ensures
        key_named(folded(text)) == key_named(text),
{
    lemma_folded_twice(text);
}

/// What follows `text:` is typed as it stands, also where it names a key or a pause.
pub proof fn law_text_is_literal(text: Seq<char>)
    ensures
        action_named("text:"@ + text) == ActionView::Text(text),
{
    let arg = "text:"@ + text;
    assert(arg.subrange(0, "text:"@.len() as int) =~= "text:"@);
    assert(arg.skip("text:"@.len() as int) =~= text);
}

/// Each key is named by its name in letters of any case, Enter also by `return` and Esc by
/// `escape`, and by nothing else.
pub proof fn law_key_names(text: Seq<char>)
    ensures
        key_named(text) == Some(KeyCode::Enter) <==> folded(text) == "enter"@ || folded(text)
            == "return"@,
        KeyCode::Enter.name() == "enter"@,
        key_named(text) == Some(KeyCode::Tab) <==> folded(text) == "tab"@,
        KeyCode::Tab.name() == "tab"@,
        key_named(text) == Some(KeyCode::Esc) <==> folded(text) == "esc"@ || folded(text)
            == "escape"@,
        KeyCode::Esc.name() == "esc"@,
        key_named(text) == Some(KeyCode::Up) <==> folded(text) == "up"@,
        KeyCode::Up.name() == "up"@,
        key_named(text) == Some(KeyCode::Down) <==> folded(text) == "down"@,
        KeyCode::Down.name() == "down"@,
        key_named(text) == Some(KeyCode::Left) <==> folded(text) == "left"@,
        KeyCode::Left.name() == "left"@,
        key_named(text) == Some(KeyCode::Right) <==> folded(text) == "right"@,
        KeyCode::Right.name() == "right"@,
        key_named(text) == Some(KeyCode::Backspace) <==> folded(text) == "backspace"@,
        KeyCode::Backspace.name() == "backspace"@,
        key_named(text) == Some(KeyCode::Space) <==> folded(text) == "space"@,
        KeyCode::Space.name() == "space"@,
        key_named(text) == Some(KeyCode::CtrlC) <==> folded(text) == "ctrl+c"@,
        KeyCode::CtrlC.name() == "ctrl+c"@,
        key_named(text) == Some(KeyCode::CtrlD) <==> folded(text) == "ctrl+d"@,
        KeyCode::CtrlD.name() == "ctrl+d"@,
        key_named(text) == Some(KeyCode::CtrlZ) <==> folded(text) == "ctrl+z"@,
        KeyCode::CtrlZ.name() == "ctrl+z"@,
        key_named(text) == Some(KeyCode::CtrlL) <==> folded(text) == "ctrl+l"@,
        KeyCode::CtrlL.name() == "ctrl+l"@,
{
    reveal_strlit("enter");
    reveal_strlit("return");
    reveal_strlit("tab");
    reveal_strlit("esc");
    reveal_strlit("escape");
    reveal_strlit("up");
    reveal_strlit("down");
    reveal_strlit("left");
    reveal_strlit("right");
    reveal_strlit("backspace");
    reveal_strlit("space");
    reveal_strlit("ctrl+c");
    reveal_strlit("ctrl+d");
    reveal_strlit("ctrl+z");
    reveal_strlit("ctrl+l");
    assert("return"@[0] == 'r' && "escape"@[0] == 'e' && "ctrl+c"@[5] == 'c');
    assert("tab"@[0] == 't' && "esc"@[0] == 'e');
    assert("down"@[0] == 'd' && "left"@[0] == 'l');
    assert("enter"@[0] == 'e' && "right"@[0] == 'r' && "space"@[0] == 's');
    assert("ctrl+d"@[5] == 'd' && "ctrl+z"@[5] == 'z' && "ctrl+l"@[5] == 'l');
    assert("ctrl+c"@[0] == 'c' && "ctrl+d"@[0] == 'c' && "ctrl+z"@[0] == 'c' && "ctrl+l"@[0]
        == 'c');
    assert("up"@.len() == 2 && "tab"@.len() == 3 && "esc"@.len() == 3 && "down"@.len() == 4
        && "left"@.len() == 4 && "enter"@.len() == 5 && "right"@.len() == 5 && "space"@.len() == 5);
    assert("return"@.len() == 6 && "escape"@.len() == 6 && "backspace"@.len() == 9);
    assert("ctrl+c"@.len() == 6 && "ctrl+d"@.len() == 6 && "ctrl+z"@.len() == 6 && "ctrl+l"@.len()
        == 6);
}

/// What a terminal sends for the keys.
pub proof fn law_key_bytes()
    ensures
        KeyCode::Enter.bytes() == seq![0x0du8],
        KeyCode::Tab.bytes() == seq![0x09u8],
        KeyCode::Esc.bytes() == seq![0x1bu8],
        KeyCode::Up.bytes() == seq![0x1bu8, 0x5b, 0x41],
        KeyCode::Down.bytes() == seq![0x1bu8, 0x5b, 0x42],
        KeyCode::Left.bytes() == seq![0x1bu8, 0x5b, 0x44],
        KeyCode::Right.bytes() == seq![0x1bu8, 0x5b, 0x43],
        KeyCode::Backspace.bytes() == seq![0x7fu8],
        KeyCode::Space.bytes() == seq![0x20u8],
        KeyCode::CtrlC.bytes() == seq![0x03u8],
        KeyCode::CtrlD.bytes() == seq![0x04u8],
        KeyCode::CtrlZ.bytes() == seq![0x1au8],
        KeyCode::CtrlL.bytes() == seq![0x0cu8],
{
}

/// What an argument stands for. Behind `text:` it is text, whatever it says; behind `wait:` a
/// number is a pause of so many milliseconds; the name of a key is the key; and anything else is
/// text as it stands.
pub proof fn law_what_an_argument_stands_for(arg: Seq<char>, ms: u64)
    ensures
        action_named("wait:"@ + decimal(ms as nat)) == ActionView::Wait(ms),
        !starts_with(arg, "text:"@) && !starts_with(arg, "wait:"@) ==> match key_named(arg) {
            Some(key) => action_named(arg) == ActionView::Key(key),
            None => action_named(arg) == ActionView::Text(arg),
        },
        starts_with(arg, "text:"@) ==> action_named(arg) == ActionView::Text(arg.skip(5)),
        starts_with(arg, "wait:"@) && natural(arg.skip(5), u64::MAX as nat) is None
            ==> action_named(arg) == ActionView::Text(arg),
        starts_with(arg, "wait:"@) && natural(arg.skip(5), u64::MAX as nat) is Some
            ==> action_named(arg) == ActionView::Wait(
            natural(arg.skip(5), u64::MAX as nat)->0 as u64,
        ),
{
    reveal_strlit("wait:");
    reveal_strlit("text:");
    assert("wait:"@.len() == 5 && "text:"@.len() == 5);
    assert("wait:"@[0] == 'w' && "text:"@[0] == 't');
    let pause = "wait:"@ + decimal(ms as nat);
    assert(pause.subrange(0, 5) =~= "wait:"@);
    assert(pause.skip(5) =~= decimal(ms as nat));
    law_decimal_round_trip(ms as nat, u64::MAX as nat);
    assert(pause[0] == 'w');
    if starts_with(pause, "text:"@) {
        assert(pause.subrange(0, 5)[0] == 't');
    }
    if starts_with(arg, "wait:"@) {
        assert(arg.subrange(0, 5)[0] == 'w');
    }
    if starts_with(arg, "text:"@) {
        assert(arg.subrange(0, 5)[0] == 't');
    }
}

/// How actions are carried out. A key is one write, and so is a text of less than 50 characters;
/// a longer one is written in pieces of at most 32 bytes with 10 milliseconds behind each; a pause
/// is slept. Between two actions there are 30 milliseconds.
pub proof fn law_how_actions_are_carried_out(
    actions: Seq<ActionView>,
    key: KeyCode,
    text: Seq<char>,
    ms: u64,
    last: ActionView,
)
    ensures
        all_steps(seq![ActionView::Key(key)]) == seq![StepView::Write(key.bytes())],
        all_steps(seq![ActionView::Wait(ms)]) == seq![StepView::Sleep(ms)],
        text.len() < 50 ==> all_steps(seq![ActionView::Text(text)]) == seq![
            StepView::Write(encode_utf8(text)),
        ],
        text.len() >= 50 ==> {
            let steps = all_steps(seq![ActionView::Text(text)]);
            &&& written(steps) == encode_utf8(text)
            &&& forall|i: int|
                0 <= i < steps.len() ==> match #[trigger] steps[i] {
                    StepView::Write(piece) => 0 < piece.len() <= 32,
                    StepView::Sleep(pause) => pause == 10,
                }
        },
        actions.len() > 0 ==> all_steps(actions.push(last)) == all_steps(actions) + seq![
            StepView::Sleep(30),
        ] + all_steps(seq![last]),
        all_steps(seq![]) == Seq::<StepView>::empty(),
{
    lemma_one_action(ActionView::Key(key));
    lemma_one_action(ActionView::Wait(ms));
    lemma_one_action(ActionView::Text(text));
    lemma_one_action(last);
    law_chunks_are_whole(encode_utf8(text));
    assert(actions.push(last).drop_last() =~= actions);
}

proof fn lemma_one_action(action: ActionView)
    ensures
        all_steps(seq![action]) == steps_of(action),
{
    let one = seq![action];
    assert(one.drop_last() =~= seq![]);
    assert(all_steps(seq![]) =~= seq![]);
    assert(Seq::<StepView>::empty() + seq![] + steps_of(action) =~= steps_of(action));
}

/// Each piece of a long text but the last is 32 bytes long, and a pause follows each.
pub proof fn law_pieces_are_full(bytes: Seq<u8>)
    requires
        bytes.len() > 0,
    ensures
        bytes.len() <= 32 ==> chunked(bytes) == seq![StepView::Write(bytes), StepView::Sleep(10)],
        bytes.len() > 32 ==> chunked(bytes) == seq![
            StepView::Write(bytes.take(32)),
            StepView::Sleep(10),
        ] + chunked(bytes.skip(32)),
{
    if bytes.len() <= 32 {
        let n = bytes.len() as int;
        assert(bytes.take(n) =~= bytes);
        assert(bytes.skip(n) =~= seq![]);
        assert(chunked(bytes.skip(n)) =~= seq![]);
        assert(chunked(bytes) =~= seq![StepView::Write(bytes), StepView::Sleep(10)]);
    }
}

/// Each argument is one action, in order.
pub proof fn law_each_argument_is_an_action(args: &[&str], r: Vec<Action>, i: int)
    requires
        call_ensures(parse_actions, (args,), r),
    ensures
        r@.len() == args@.len(),
        0 <= i < r@.len() ==> r@[i]@ == action_named(args@[i]@),
{
    assert(action_views(r@).len() == r@.len());
    if 0 <= i < r@.len() {
        assert(action_views(r@)[i] == r@[i]@);
    }
}

} // verus!
