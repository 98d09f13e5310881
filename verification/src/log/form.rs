//! The fields of messages and blocks, and what of a line belongs to them.
use crate::json::{is_json, parse_json, parsed, well_formed, Json, JsonModel};
use crate::outline::{
    among, is_field, lemma_names_passed, lemma_passed_stays, path_view, path_views, paths,
    repeated_paths, repeats, walked, Step, StepModel, Walk, Walker,
};
use crate::text::{chars_of, strs};
use vstd::prelude::*;

verus! {

/// The names of the fields of an option, in order.
pub open spec fn option_names() -> Seq<Seq<char>> {
    seq![
        "number"@,
        "label"@,
        "description"@,
        "is_selected"@,
    ]
}

/// The names of the fields of an option, in order.
pub(crate) fn option_fields() -> (r: Vec<&'static str>)
    ensures
        strs(r@) == option_names(),
{
    let r = vec![
        "number",
        "label",
        "description",
        "is_selected",
    ];
    proof {
        assert(strs(r@) =~= option_names());
    }
    r
}

/// The names of the fields of a question, in order.
pub open spec fn prompt_names() -> Seq<Seq<char>> {
    seq![
        "question_num"@,
        "question_total"@,
        "question_text"@,
        "options"@,
        "selected"@,
    ]
}

/// The names of the fields of a question, in order.
pub(crate) fn prompt_fields() -> (r: Vec<&'static str>)
    ensures
        strs(r@) == prompt_names(),
{
    let r = vec![
        "question_num",
        "question_total",
        "question_text",
        "options",
        "selected",
    ];
    proof {
        assert(strs(r@) =~= prompt_names());
    }
    r
}

/// The names of the fields of a message, in order.
pub open spec fn message_names() -> Seq<Seq<char>> {
    seq![
        "seq"@,
        "ts"@,
        "type"@,
        "text"@,
        "state_from"@,
        "state_to"@,
        "prompt"@,
        "block_id"@,
        "block_type"@,
        "block_lines"@,
        "body_offset"@,
        "body_len"@,
    ]
}

/// The names of the fields of a message, in order.
pub(crate) fn message_fields() -> (r: Vec<&'static str>)
    ensures
        strs(r@) == message_names(),
{
    let r = vec![
        "seq",
        "ts",
        "type",
        "text",
        "state_from",
        "state_to",
        "prompt",
        "block_id",
        "block_type",
        "block_lines",
        "body_offset",
        "body_len",
    ];
    proof {
        assert(strs(r@) =~= message_names());
    }
    r
}

/// The names of the fields of a block, in order.
pub open spec fn block_names() -> Seq<Seq<char>> {
    seq![
        "id"@,
        "block_type"@,
        "header"@,
        "body"@,
        "seq"@,
    ]
}

/// The names of the fields of a block, in order.
pub(crate) fn block_fields() -> (r: Vec<&'static str>)
    ensures
        strs(r@) == block_names(),
{
    let r = vec![
        "id",
        "block_type",
        "header",
        "body",
        "seq",
    ];
    proof {
        assert(strs(r@) =~= block_names());
    }
    r
}

/// What a line is read as.
#[derive(Debug, Clone, Copy, PartialEq, Eq, Structural)]
pub enum Form {
    Message,
    Block,
}

impl Form {
    /// The names of its fields, in order.
    pub open spec fn names(self) -> Seq<Seq<char>> {
        match self {
            Form::Message => message_names(),
            Form::Block => block_names(),
        }
    }

    /// Whether the way leads into the question of a message.
    pub open spec fn in_prompt(self, path: Seq<StepModel>) -> bool {
        self == Form::Message && path.len() >= 2 && is_field(path[0], "prompt"@, 6)
    }

    /// Whether the way leads into an option of the question of a message.
    pub open spec fn in_option(self, path: Seq<StepModel>) -> bool {
        self.in_prompt(path) && path.len() >= 4 && is_field(path[1], "options"@, 3)
            && path[2] is Item
    }

    /// Whether the way leads to a field: its own, or one of the question or an option in it.
    pub open spec fn has_field(self, path: Seq<StepModel>) -> bool {
        ||| path.len() == 1 && among(path[0], self.names())
        ||| path.len() == 2 && self.in_prompt(path) && among(path[1], prompt_names())
        ||| path.len() == 4 && self.in_option(path) && among(path[3], option_names())
    }

    /// After how many steps the way has led to a member for which there is no field, or 0.
    pub open spec fn strange(self, path: Seq<StepModel>) -> int {
        if path.len() >= 1 && path[0] is Name && !among(path[0], self.names()) {
            1
        } else if self.in_prompt(path) && path[1] is Name && !among(path[1], prompt_names()) {
            2
        } else if self.in_option(path) && path[3] is Name && !among(path[3], option_names()) {
            4
        } else {
            0
        }
    }

    /// The names of its fields, in order.
    fn fields(self) -> (r: Vec<&'static str>)
        ensures
            strs(r@) == self.names(),
    {
        match self {
            Form::Message => message_fields(),
            Form::Block => block_fields(),
        }
    }

    /// Whether the way leads into the question of a message.
    fn is_in_prompt(self, path: &Vec<Step>) -> (b: bool)
        ensures
            b == self.in_prompt(path_view(path@)),
    {
        match self {
            Form::Message => path.len() >= 2 && path[0].is_to("prompt", 6),
            Form::Block => false,
        }
    }

    /// Whether the way leads into an option of the question of a message.
    fn is_in_option(self, path: &Vec<Step>) -> (b: bool)
        ensures
            b == self.in_option(path_view(path@)),
    {
        self.is_in_prompt(path) && path.len() >= 4 && path[1].is_to("options", 3)
            && path[2].is_item()
    }

    /// Whether the way leads to a field.
    fn holds(self, path: &Vec<Step>) -> (b: bool)
        ensures
            b == self.has_field(path_view(path@)),
    {
        if path.len() == 1 {
            path[0].is_among(&self.fields())
        } else if path.len() == 2 {
            self.is_in_prompt(path) && path[1].is_among(&prompt_fields())
        } else {
            path.len() == 4 && self.is_in_option(path) && path[3].is_among(&option_fields())
        }
    }

    /// After how many steps the way has led to a member for which there is no field, or 0.
    fn leaves(self, path: &Vec<Step>) -> (n: usize)
        ensures
            n == self.strange(path_view(path@)),
    {
        if path.len() >= 1 && path[0].is_name() && !path[0].is_among(&self.fields()) {
            1
        } else if self.is_in_prompt(path) && path[1].is_name() && !path[1].is_among(
            &prompt_fields(),
        ) {
            2
        } else if self.is_in_option(path) && path[3].is_name() && !path[3].is_among(
            &option_fields(),
        ) {
            4
        } else {
            0
        }
    }
}

// ---------------------------------------------------------------------------------------------
// What is passed over

/// What is kept of the character `c` behind a walk. The values of members for which there is no
/// field are passed over: a zero stands in their place.
pub open spec fn piece(form: Form, walk: Walk, c: char) -> Seq<char> {
    let n = form.strange(walk.path);
    if n == 0 {
        seq![c]
    } else if walk.path.len() == n && walk.at_name {
        if c == ':' && !walk.in_string {
            seq![':', '0']
        } else {
            seq![c]
        }
    } else if walk.path.len() == n && !walk.in_string && (c == ',' || c == '}') {
        seq![c]
    } else {
        seq![]
    }
}

/// What is kept of the first `n` characters of a JSON text.
pub open spec fn kept_to(form: Form, text: Seq<char>, n: int) -> Seq<char>
    decreases n,
{
    if n <= 0 {
        seq![]
    } else {
        kept_to(form, text, n - 1) + piece(form, walked(text, n - 1), text[n - 1])
    }
}

/// A JSON text without the values of members for which there is no field.
pub open spec fn kept(form: Form, text: Seq<char>) -> Seq<char> {
    kept_to(form, text, text.len() as int)
}

/// Whether a JSON text gives a field twice.
pub open spec fn given_twice(form: Form, text: Seq<char>) -> bool {
    exists|i: int| 0 <= i < repeats(text).len() && form.has_field(#[trigger] repeats(text)[i])
}

/// The document on a line, as far as there are fields for it. What there is no field for has to
/// be JSON and is not looked at.
pub open spec fn document_on(form: Form, line: Seq<char>) -> Option<JsonModel> {
    if well_formed(line) && !given_twice(form, line) {
        parsed(kept(form, line))
    } else {
        None
    }
}

/// Of a text that has no members without a field everything is kept.
pub proof fn lemma_all_kept(form: Form, text: Seq<char>)
    requires
        forall|i: int|
            0 <= i < paths(text).len() ==> form.strange(#[trigger] paths(text)[i]) == 0,
    ensures
        kept(form, text) == text,
{
    lemma_all_kept_to(form, text, text.len() as int);
    assert(text.take(text.len() as int) =~= text);
}

proof fn lemma_all_kept_to(form: Form, text: Seq<char>, n: int)
    requires
        0 <= n <= text.len(),
        forall|i: int|
            0 <= i < paths(text).len() ==> form.strange(#[trigger] paths(text)[i]) == 0,
    ensures
        kept_to(form, text, n) == text.take(n),
    decreases n,
{
    if n > 0 {
        lemma_all_kept_to(form, text, n - 1);
        let walk = walked(text, n - 1);
        let k = form.strange(walk.path);
        if k != 0 {
            lemma_names_passed(text, n - 1);
            lemma_passed_stays(text, n - 1, text.len() as int);
            let path = walk.path.take(k);
            assert(walk.path[k - 1] is Name);
            assert(walk.found.contains(path));
            let i = walk.found.index_of(path);
            assert(paths(text)[i] == path);
            assert(form.strange(path) == k);
        }
        assert(text.take(n) =~= text.take(n - 1) + seq![text[n - 1]]);
    } else {
        assert(text.take(0) =~= seq![]);
    }
}

/// A JSON text without the values of members for which there is no field.
fn without_strange(form: Form, text: &str) -> (r: String)
    ensures
        r@ == kept(form, text@),
{
    let v = chars_of(text);
    let mut walker = Walker::start();
    let mut r = String::new();
    let mut i: usize = 0;
    proof {
        assert(r@ =~= seq![]);
    }
    while i < v.len()
        invariant
            i <= v@.len(),
            v@ == text@,
            walker.model() == walked(text@, i as int),
            walker.counted(i as int),
            walker.in_string ==> walker.start < i,
            r@ == kept_to(form, text@, i as int),
        decreases v@.len() - i,
    {
        let c = v[i];
        let n = form.leaves(&walker.path);
        let ghost before = r@;
        let ghost walk = walker.model();
        let at_end = n > 0 && walker.path.len() == n;
        if n == 0 || (at_end && (walker.at_name || (!walker.in_string && (c == ',' || c == '}')))) {
            r.push(c);
            proof {
                assert(before.push(c) =~= before + seq![c]);
            }
            if at_end && walker.at_name && c == ':' && !walker.in_string {
                r.push('0');
                proof {
                    assert(before.push(c).push('0') =~= before + seq![':', '0']);
                }
            }
        } else {
            proof {
                assert(before + Seq::<char>::empty() =~= before);
            }
        }
        proof {
            assert(r@ == before + piece(form, walk, c));
        }
        walker.next(text, &v, i);
        i = i + 1;
    }
    r
}

/// Whether a JSON text gives a field twice.
fn gives_twice(form: Form, text: &str) -> (b: bool)
    ensures
        b == given_twice(form, text@),
{
    let again = repeated_paths(text);
    let mut i: usize = 0;
    while i < again.len()
        invariant
            i <= again@.len(),
            path_views(again@) == repeats(text@),
            forall|j: int| 0 <= j < i ==> !form.has_field(#[trigger] repeats(text@)[j]),
        decreases again@.len() - i,
    {
        proof {
            assert(repeats(text@)[i as int] == path_view(again@[i as int]@));
        }
        if form.holds(&again[i]) {
            return true;
        }
        i = i + 1;
    }
    proof {
        assert(repeats(text@).len() == again@.len());
    }
    false
}

/// The document on a line, as far as there are fields for it.
pub fn read_document(form: Form, line: &str) -> (r: Option<Json>)
    ensures
        match r {
            Some(json) => document_on(form, line@) == Some(json@),
            None => document_on(form, line@) is None,
        },
{
    if is_json(line) && !gives_twice(form, line) {
        parse_json(without_strange(form, line).as_str())
    } else {
        None
    }
}

// ---------------------------------------------------------------------------------------------
// Laws

/// Of which members nothing is looked at: those of a message, of its question or of an option
/// that none of the fields has for its name. What stands under a field is looked at.
pub proof fn law_what_is_not_looked_at(name: Seq<char>, i: int)
    ensures
        ({
            let top = seq![StepModel::Name(name)];
            let asked = seq![StepModel::Name("prompt"@), StepModel::Name(name)];
            let chosen = seq![
                StepModel::Name("prompt"@),
                StepModel::Name("options"@),
                StepModel::Item(i),
                StepModel::Name(name),
            ];
            let field = name == "seq"@ || name == "ts"@ || name == "type"@ || name == "text"@
                || name == "state_from"@ || name == "state_to"@ || name == "prompt"@ || name
                == "block_id"@ || name == "block_type"@ || name == "block_lines"@ || name
                == "body_offset"@ || name == "body_len"@;
            &&& Form::Message.strange(top) == 0 <==> field
            &&& Form::Message.strange(asked) == 0 <==> name == "question_num"@ || name
                == "question_total"@ || name == "question_text"@ || name == "options"@ || name
                == "selected"@
            &&& Form::Message.strange(chosen) == 0 <==> name == "number"@ || name == "label"@
                || name == "description"@ || name == "is_selected"@
            &&& Form::Block.strange(top) == 0 <==> name == "id"@ || name == "block_type"@ || name
                == "header"@ || name == "body"@ || name == "seq"@
        }),
{
    let m = message_names();
    assert(m[0] == "seq"@ && m[1] == "ts"@ && m[2] == "type"@ && m[3] == "text"@ && m[4]
        == "state_from"@ && m[5] == "state_to"@ && m[6] == "prompt"@ && m[7] == "block_id"@ && m[8]
        == "block_type"@ && m[9] == "block_lines"@ && m[10] == "body_offset"@ && m[11]
        == "body_len"@);
    let p = prompt_names();
    assert(p[0] == "question_num"@ && p[1] == "question_total"@ && p[2] == "question_text"@ && p[3]
        == "options"@ && p[4] == "selected"@);
    let o = option_names();
    assert(o[0] == "number"@ && o[1] == "label"@ && o[2] == "description"@ && o[3]
        == "is_selected"@);
    let b = block_names();
    assert(b[0] == "id"@ && b[1] == "block_type"@ && b[2] == "header"@ && b[3] == "body"@ && b[4]
        == "seq"@);
    assert(m.contains("prompt"@));
    assert(p.contains("options"@));
}

/// Of a text in which everything is looked at everything is kept, and what is not looked at is
/// passed over from its colon to the comma or the brace behind it.
pub proof fn law_what_is_kept(form: Form, walk: Walk, c: char)
    ensures
        ({
            let n = form.strange(walk.path);
            let outside = walk.path.len() == n && walk.at_name;
            let ends = walk.path.len() == n && !walk.in_string && (c == ',' || c == '}');
            &&& n == 0 ==> piece(form, walk, c) == seq![c]
            &&& n != 0 && outside && (c != ':' || walk.in_string) ==> piece(form, walk, c)
                == seq![c]
            &&& n != 0 && !outside && ends ==> piece(form, walk, c) == seq![c]
            &&& n != 0 && !outside && !ends ==> piece(form, walk, c).len() == 0
            &&& n != 0 && outside && c == ':' && !walk.in_string ==> piece(form, walk, c)
                == seq![':', '0']
        }),
{
}

} // verus!
