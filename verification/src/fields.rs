//! Reading the members of JSON objects, where each has to be of a kind.
use crate::json::{items, members, put, Json, JsonModel, Number};
use crate::text::{lemma_texts_push, strs, texts};
use vstd::prelude::*;

verus! {

impl JsonModel {
    /// The text of a member that has to be there.
    pub open spec fn need_text(self, name: Seq<char>) -> Option<Seq<char>> {
        match self.get(name) {
            Some(JsonModel::Str(s)) => Some(s),
            _ => None,
        }
    }

    /// The number, up to `max`, of a member that has to be there.
    pub open spec fn need_nat(self, name: Seq<char>, max: u64) -> Option<u64> {
        match self.get(name) {
            Some(JsonModel::Nat(n)) => if n <= max {
                Some(n)
            } else {
                None
            },
            _ => None,
        }
    }

    /// The truth value of a member that has to be there.
    pub open spec fn need_bool(self, name: Seq<char>) -> Option<bool> {
        match self.get(name) {
            Some(JsonModel::Bool(b)) => Some(b),
            _ => None,
        }
    }

    /// The items of a member that has to be there.
    pub open spec fn need_items(self, name: Seq<char>) -> Option<Seq<JsonModel>> {
        match self.get(name) {
            Some(JsonModel::Array(s)) => Some(s),
            _ => None,
        }
    }

    /// The text of a member that may be missing or null.
    pub open spec fn may_text(self, name: Seq<char>) -> Option<Option<Seq<char>>> {
        match self.get(name) {
            None | Some(JsonModel::Null) => Some(None),
            Some(JsonModel::Str(s)) => Some(Some(s)),
            _ => None,
        }
    }

    /// The number, up to `max`, of a member that may be missing or null.
    pub open spec fn may_nat(self, name: Seq<char>, max: u64) -> Option<Option<u64>> {
        match self.get(name) {
            None | Some(JsonModel::Null) => Some(None),
            Some(JsonModel::Nat(n)) => if n <= max {
                Some(Some(n))
            } else {
                None
            },
            _ => None,
        }
    }

    /// The truth value of a member that is false where it is missing.
    pub open spec fn may_bool(self, name: Seq<char>) -> Option<bool> {
        match self.get(name) {
            None => Some(false),
            Some(JsonModel::Bool(b)) => Some(b),
            _ => None,
        }
    }
}

/// The first `n` items, each under the name for its place.
pub open spec fn named_to(s: Seq<JsonModel>, names: Seq<Seq<char>>, n: int) -> Map<
    Seq<char>,
    JsonModel,
>
    decreases n,
{
    if n <= 0 {
        Map::empty()
    } else {
        named_to(s, names, n - 1).insert(names[n - 1], s[n - 1])
    }
}

/// A document that says the fields with these names: an object as it is, and an array with its
/// items under the names in their order. The first `least` fields may not be left out of an
/// array; one that has too few items or too many says nothing.
pub open spec fn by_name(document: JsonModel, names: Seq<Seq<char>>, least: int) -> JsonModel {
    match document {
        JsonModel::Array(s) => if least <= s.len() <= names.len() {
            JsonModel::Object(named_to(s, names, s.len() as int))
        } else {
            JsonModel::Null
        },
        _ => document,
    }
}

/// The texts in the first `n` items, if all of them are strings.
pub open spec fn texts_to(s: Seq<JsonModel>, n: int) -> Option<Seq<Seq<char>>>
    decreases n,
{
    if n <= 0 {
        Some(seq![])
    } else {
        match (texts_to(s, n - 1), s[n - 1]) {
            (Some(before), JsonModel::Str(text)) => Some(before.push(text)),
            _ => None,
        }
    }
}

/// The texts in an array, if all its items are strings.
pub open spec fn texts_in(s: Seq<JsonModel>) -> Option<Seq<Seq<char>>> {
    texts_to(s, s.len() as int)
}

impl Json {
    /// The text of a member that has to be there.
    pub fn need_text(&self, name: &str) -> (r: Option<String>)
        ensures
            match r {
                Some(s) => self@.need_text(name@) == Some(s@),
                None => self@.need_text(name@) is None,
            },
    {
        match self.get(name) {
            Some(Json::Str(s)) => Some(s.clone()),
            _ => None,
        }
    }

    /// The number, up to `max`, of a member that has to be there.
    pub fn need_nat(&self, name: &str, max: u64) -> (r: Option<u64>)
        ensures
            r == self@.need_nat(name@, max),
    {
        match self.get(name) {
            Some(Json::Number(Number::Nat(n))) => if *n <= max {
                Some(*n)
            } else {
                None
            },
            _ => None,
        }
    }

    /// The truth value of a member that has to be there.
    pub fn need_bool(&self, name: &str) -> (r: Option<bool>)
        ensures
            r == self@.need_bool(name@),
    {
        match self.get(name) {
            Some(Json::Bool(b)) => Some(*b),
            _ => None,
        }
    }

    /// The items of a member that has to be there.
    pub fn need_items(&self, name: &str) -> (r: Option<&Vec<Json>>)
        ensures
            match r {
                Some(v) => self@.need_items(name@) == Some(items(v@)),
                None => self@.need_items(name@) is None,
            },
    {
        match self.get(name) {
            Some(Json::Array(v)) => Some(v),
            _ => None,
        }
    }

    /// The text of a member that may be missing or null.
    pub fn may_text(&self, name: &str) -> (r: Option<Option<String>>)
        ensures
            match r {
                Some(Some(s)) => self@.may_text(name@) == Some(Some(s@)),
                Some(None) => self@.may_text(name@) == Some(None::<Seq<char>>),
                None => self@.may_text(name@) is None,
            },
    {
        match self.get(name) {
            None => Some(None),
            Some(Json::Null) => Some(None),
            Some(Json::Str(s)) => Some(Some(s.clone())),
            _ => None,
        }
    }

    /// The number, up to `max`, of a member that may be missing or null.
    pub fn may_nat(&self, name: &str, max: u64) -> (r: Option<Option<u64>>)
        ensures
            r == self@.may_nat(name@, max),
    {
        match self.get(name) {
            None => Some(None),
            Some(Json::Null) => Some(None),
            Some(Json::Number(Number::Nat(n))) => if *n <= max {
                Some(Some(*n))
            } else {
                None
            },
            _ => None,
        }
    }

    /// The truth value of a member that is false where it is missing.
    pub fn may_bool(&self, name: &str) -> (r: Option<bool>)
        ensures
            r == self@.may_bool(name@),
    {
        match self.get(name) {
            None => Some(false),
            Some(Json::Bool(b)) => Some(*b),
            _ => None,
        }
    }
}

/// The items of an array that says the fields with these names, under those names.
pub fn items_by_name(v: &Vec<Json>, names: &Vec<&str>, least: usize) -> (r: Json)
    ensures
        r@ == by_name(JsonModel::Array(items(v@)), strs(names@), least as int),
{
    if v.len() < least || v.len() > names.len() {
        return Json::Null;
    }
    let mut m: Vec<(String, Json)> = Vec::new();
    let mut i: usize = 0;
    while i < v.len()
        invariant
            i <= v@.len() <= names@.len(),
            members(m@) == named_to(items(v@), strs(names@), i as int),
        decreases v@.len() - i,
    {
        let item = v[i].copy();
        proof {
            assert(items(v@)[i as int] == v@[i as int].model());
            assert(strs(names@)[i as int] == names@[i as int]@);
        }
        put(&mut m, names[i], item);
        i = i + 1;
    }
    Json::Object(m)
}

/// A missing text makes the texts of the items up to any later one missing too.
proof fn lemma_texts_stop(s: Seq<JsonModel>, i: int, n: int)
    requires
        0 <= i <= n,
        texts_to(s, i) is None,
    ensures
        texts_to(s, n) is None,
    decreases n - i,
{
    if i < n {
        lemma_texts_stop(s, i, n - 1);
    }
}

/// The texts in an array, if all its items are strings.
pub fn strings_in(v: &Vec<Json>) -> (r: Option<Vec<String>>)
    ensures
        match r {
            Some(lines) => texts_in(items(v@)) == Some(texts(lines@)),
            None => texts_in(items(v@)) is None,
        },
{
    let mut out: Vec<String> = Vec::new();
    let mut i: usize = 0;
    proof {
        assert(texts(out@) =~= seq![]);
    }
    while i < v.len()
        invariant
            i <= v@.len(),
            texts_to(items(v@), i as int) == Some(texts(out@)),
        decreases v@.len() - i,
    {
        proof {
            assert(items(v@)[i as int] == v@[i as int].model());
        }
        match &v[i] {
            Json::Str(s) => {
                let line = s.clone();
                proof {
                    lemma_texts_push(out@, line);
                }
                out.push(line);
            },
            _ => {
                proof {
                    lemma_texts_stop(items(v@), i + 1, v@.len() as int);
                }
                return None;
            },
        }
        i = i + 1;
    }
    Some(out)
}

/// Strings put into an array are found there.
pub proof fn lemma_texts_of_array(lines: Seq<Seq<char>>)
    ensures
        texts_in(Seq::new(lines.len(), |i: int| JsonModel::Str(lines[i]))) == Some(lines),
{
    lemma_texts_of_array_to(lines, lines.len() as int);
    assert(lines.take(lines.len() as int) =~= lines);
}

proof fn lemma_texts_of_array_to(lines: Seq<Seq<char>>, n: int)
    requires
        0 <= n <= lines.len(),
    ensures
        texts_to(Seq::new(lines.len(), |i: int| JsonModel::Str(lines[i])), n) == Some(
            lines.take(n),
        ),
    decreases n,
{
    if n > 0 {
        lemma_texts_of_array_to(lines, n - 1);
        assert(lines.take(n - 1).push(lines[n - 1]) =~= lines.take(n));
    } else {
        assert(lines.take(0) =~= seq![]);
    }
}

// ---------------------------------------------------------------------------------------------
// Laws

/// What a member that has to be there may be: of its kind, and for a number within the bound.
pub proof fn law_what_a_needed_member_is(m: JsonModel, name: Seq<char>, max: u64)
    ensures
        m.need_text(name) is Some <==> m.get(name) is Some && m.get(name)->0 is Str,
        m.need_text(name) is Some ==> m.get(name) == Some(JsonModel::Str(m.need_text(name)->0)),
        m.need_nat(name, max) is Some <==> m.get(name) is Some && m.get(name)->0 is Nat && m.get(
            name,
        )->0->Nat_0 <= max,
        m.need_nat(name, max) is Some ==> m.get(name) == Some(
            JsonModel::Nat(m.need_nat(name, max)->0),
        ),
        m.need_bool(name) is Some <==> m.get(name) is Some && m.get(name)->0 is Bool,
        m.need_bool(name) is Some ==> m.get(name) == Some(JsonModel::Bool(m.need_bool(name)->0)),
        m.need_items(name) is Some <==> m.get(name) is Some && m.get(name)->0 is Array,
        m.need_items(name) is Some ==> m.get(name) == Some(JsonModel::Array(m.need_items(name)->0)),
{
}

/// What a member that may be missing is: where it is missing, or null where that says the same,
/// nothing, and otherwise what it would be if it had to be there. A truth value that is missing is
/// false, and one that is null is none.
pub proof fn law_what_a_missing_member_is(m: JsonModel, name: Seq<char>, max: u64)
    ensures
        ({
            let nothing = m.get(name) is None || m.get(name) == Some(JsonModel::Null);
            &&& nothing ==> m.may_text(name) == Some(None::<Seq<char>>) && m.may_nat(name, max)
                == Some(None::<u64>)
            &&& !nothing && m.need_text(name) is Some ==> m.may_text(name) == Some(
                Some(m.need_text(name)->0),
            )
            &&& !nothing && m.need_text(name) is None ==> m.may_text(name) is None
            &&& !nothing && m.need_nat(name, max) is Some ==> m.may_nat(name, max) == Some(
                Some(m.need_nat(name, max)->0),
            )
            &&& !nothing && m.need_nat(name, max) is None ==> m.may_nat(name, max) is None
            &&& m.get(name) is None ==> m.may_bool(name) == Some(false)
            &&& m.get(name) is Some ==> m.may_bool(name) == m.need_bool(name)
        }),
{
}

/// An array of fields says what an object says that has the same under their names.
pub proof fn law_an_array_of_fields(
    s: Seq<JsonModel>,
    names: Seq<Seq<char>>,
    least: int,
    i: int,
)
    requires
        least <= s.len() <= names.len(),
        0 <= i < names.len(),
        forall|j: int, k: int|
            0 <= j < k < names.len() ==> #[trigger] names[j] != #[trigger] names[k],
    ensures
        i < s.len() ==> by_name(JsonModel::Array(s), names, least).get(names[i]) == Some(s[i]),
        i >= s.len() ==> by_name(JsonModel::Array(s), names, least).get(names[i]) is None,
{
    lemma_named(s, names, s.len() as int, i);
}

proof fn lemma_named(s: Seq<JsonModel>, names: Seq<Seq<char>>, n: int, i: int)
    requires
        0 <= n <= s.len() <= names.len(),
        0 <= i < names.len(),
        forall|j: int, k: int|
            0 <= j < k < names.len() ==> #[trigger] names[j] != #[trigger] names[k],
    ensures
        named_to(s, names, n).contains_key(names[i]) <==> i < n,
        i < n ==> named_to(s, names, n)[names[i]] == s[i],
    decreases n,
{
    if n > 0 {
        lemma_named(s, names, n - 1, i);
        if i < n - 1 {
            assert(names[i] != names[n - 1]);
        } else if i > n - 1 {
            assert(names[n - 1] != names[i]);
        }
    }
}

/// An array that is too short or too long says nothing, and an object says what it says.
pub proof fn law_only_fitting_arrays(
    s: Seq<JsonModel>,
    m: Map<Seq<char>, JsonModel>,
    names: Seq<Seq<char>>,
    least: int,
)
    ensures
        s.len() < least || s.len() > names.len() ==> by_name(JsonModel::Array(s), names, least)
            == JsonModel::Null,
        by_name(JsonModel::Object(m), names, least) == JsonModel::Object(m),
{
}

} // verus!
