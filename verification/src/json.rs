//! JSON documents.
use crate::outline::tidy;
use crate::text::{is_space, texts, trim, trim_end, trim_start};
use serde_json::Value;
use vstd::prelude::*;

verus! {

/// A JSON number: a natural number, a negative integer, or another number in decimal digits.
#[derive(Debug, Clone, PartialEq, Eq)]
pub enum Number {
    Nat(u64),
    Int(i64),
    Real(String),
}

/// A JSON document. Where a name occurs twice in an object, the later member counts.
#[derive(Debug, PartialEq, Eq)]
pub enum Json {
    Null,
    Bool(bool),
    Number(Number),
    Str(String),
    Array(Vec<Json>),
    Object(Vec<(String, Json)>),
}

/// What a JSON document says. The members of an object have no order.
pub enum JsonModel {
    Null,
    Bool(bool),
    Nat(u64),
    Int(i64),
    Real(Seq<char>),
    Str(Seq<char>),
    Array(Seq<JsonModel>),
    Object(Map<Seq<char>, JsonModel>),
}

/// What the members of an object say.
pub open spec fn members(s: Seq<(String, Json)>) -> Map<Seq<char>, JsonModel>
    decreases s,
{
    if s.len() == 0 {
        Map::empty()
    } else {
        members(s.drop_last()).insert(s.last().0@, s.last().1.model())
    }
}

/// What the items of an array say.
pub open spec fn items(s: Seq<Json>) -> Seq<JsonModel>
    decreases s,
{
    Seq::new(
        s.len(),
        |i: int|
            if 0 <= i < s.len() {
                s[i].model()
            } else {
                JsonModel::Null
            },
    )
}

impl Json {
    /// What the document says.
    pub open spec fn model(self) -> JsonModel
        decreases self,
    {
        match self {
            Json::Null => JsonModel::Null,
            Json::Bool(b) => JsonModel::Bool(b),
            Json::Number(Number::Nat(n)) => JsonModel::Nat(n),
            Json::Number(Number::Int(n)) => JsonModel::Int(n),
            Json::Number(Number::Real(s)) => JsonModel::Real(s@),
            Json::Str(s) => JsonModel::Str(s@),
            Json::Array(v) => JsonModel::Array(items(v@)),
            Json::Object(v) => JsonModel::Object(members(v@)),
        }
    }
}

impl View for Json {
    type V = JsonModel;

    open spec fn view(&self) -> JsonModel {
        self.model()
    }
}

// ---------------------------------------------------------------------------------------------
// Looking into a document

impl JsonModel {
    /// The member of that name, if the document is an object that has one.
    pub open spec fn get(self, name: Seq<char>) -> Option<JsonModel> {
        match self {
            JsonModel::Object(m) => if m.contains_key(name) {
                Some(m[name])
            } else {
                None
            },
            _ => None,
        }
    }

    /// The text, if the document is a string.
    pub open spec fn text(self) -> Option<Seq<char>> {
        match self {
            JsonModel::Str(s) => Some(s),
            _ => None,
        }
    }

    /// The text of the member of that name, or the empty text.
    pub open spec fn text_at(self, name: Seq<char>) -> Seq<char> {
        match self.get(name) {
            Some(JsonModel::Str(s)) => s,
            _ => seq![],
        }
    }

    /// The member of that name, or null.
    pub open spec fn at(self, name: Seq<char>) -> JsonModel {
        match self.get(name) {
            Some(m) => m,
            None => JsonModel::Null,
        }
    }

    /// Whether the member of that name is true.
    pub open spec fn flag_at(self, name: Seq<char>) -> bool {
        self.get(name) == Some(JsonModel::Bool(true))
    }

    /// The natural number under that name, or 0.
    pub open spec fn nat_at(self, name: Seq<char>) -> u64 {
        match self.get(name) {
            Some(JsonModel::Nat(n)) => n,
            _ => 0,
        }
    }

    /// The integer under that name, if it has 64 bits at most.
    pub open spec fn int_at(self, name: Seq<char>) -> Option<int> {
        match self.get(name) {
            Some(JsonModel::Nat(n)) => if n <= i64::MAX {
                Some(n as int)
            } else {
                None
            },
            Some(JsonModel::Int(n)) => Some(n as int),
            _ => None,
        }
    }
}

/// The member at `i`, after which none has its name, is the member of that name.
proof fn lemma_member(s: Seq<(String, Json)>, i: int)
    requires
        0 <= i < s.len(),
        forall|j: int| i < j < s.len() ==> (#[trigger] s[j]).0@ != s[i].0@,
    ensures
        members(s).contains_key(s[i].0@),
        members(s)[s[i].0@] == s[i].1.model(),
    decreases s.len(),
{
    if i < s.len() - 1 {
        let rest = s.drop_last();
        assert(rest[i] == s[i]);
        assert forall|j: int| i < j < rest.len() implies (#[trigger] rest[j]).0@ != rest[i].0@ by {
            assert(rest[j] == s[j]);
        }
        lemma_member(rest, i);
        assert(s[s.len() - 1].0@ != s[i].0@);
    }
}

proof fn lemma_no_member(s: Seq<(String, Json)>, name: Seq<char>)
    requires
        forall|j: int| 0 <= j < s.len() ==> (#[trigger] s[j]).0@ != name,
    ensures
        !members(s).contains_key(name),
    decreases s.len(),
{
    if s.len() > 0 {
        let rest = s.drop_last();
        assert forall|j: int| 0 <= j < rest.len() implies (#[trigger] rest[j]).0@ != name by {
            assert(rest[j] == s[j]);
        }
        lemma_no_member(rest, name);
        assert(s[s.len() - 1].0@ != name);
    }
}

impl Json {
    /// The member of that name, if the document is an object that has one.
    pub fn get(&self, name: &str) -> (r: Option<&Json>)
        ensures
            match r {
                Some(json) => self@.get(name@) == Some(json@),
                None => self@.get(name@) is None,
            },
    {
        match self {
            Json::Object(v) => {
                let mut n: usize = v.len();
                while n > 0
                    invariant
                        n <= v@.len(),
                        *self == Json::Object(*v),
                        forall|j: int| n <= j < v@.len() ==> (#[trigger] v@[j]).0@ != name@,
                    decreases n,
                {
                    n = n - 1;
                    if crate::text::same(v[n].0.as_str(), name) {
                        proof {
                            lemma_member(v@, n as int);
                        }
                        return Some(&v[n].1);
                    }
                }
                proof {
                    lemma_no_member(v@, name@);
                }
                None
            },
            _ => None,
        }
    }

    /// The text, if the document is a string.
    pub fn as_str(&self) -> (r: Option<&str>)
        ensures
            match r {
                Some(s) => self@.text() == Some(s@),
                None => self@.text() is None,
            },
    {
        match self {
            Json::Str(s) => Some(s.as_str()),
            _ => None,
        }
    }

    /// The member of that name, or null.
    pub fn at(&self, name: &str) -> (r: &Json)
        ensures
            r@ == self@.at(name@),
    {
        match self.get(name) {
            Some(json) => json,
            None => &Json::Null,
        }
    }

    /// The text of the member of that name, or the empty text.
    pub fn text_at(&self, name: &str) -> (r: &str)
        ensures
            r@ == self@.text_at(name@),
    {
        match self.get(name) {
            Some(Json::Str(s)) => s.as_str(),
            _ => {
                proof {
                    reveal_strlit("");
                    assert(""@ =~= seq![]);
                }
                ""
            },
        }
    }

    /// Whether the member of that name is true.
    pub fn flag_at(&self, name: &str) -> (r: bool)
        ensures
            r == self@.flag_at(name@),
    {
        match self.get(name) {
            Some(Json::Bool(b)) => *b,
            _ => false,
        }
    }

    /// The natural number under that name, or 0.
    pub fn nat_at(&self, name: &str) -> (r: u64)
        ensures
            r == self@.nat_at(name@),
    {
        match self.get(name) {
            Some(Json::Number(Number::Nat(n))) => *n,
            _ => 0,
        }
    }

    /// The integer under that name, if it has 64 bits at most.
    pub fn int_at(&self, name: &str) -> (r: Option<i64>)
        ensures
            match r {
                Some(n) => self@.int_at(name@) == Some(n as int),
                None => self@.int_at(name@) is None,
            },
    {
        match self.get(name) {
            Some(Json::Number(Number::Nat(n))) => {
                if *n <= 0x7fff_ffff_ffff_ffff {
                    Some(*n as i64)
                } else {
                    None
                }
            },
            Some(Json::Number(Number::Int(n))) => Some(*n),
            _ => None,
        }
    }
}

// ---------------------------------------------------------------------------------------------
// Making documents

/// A string, or null where there is none.
pub open spec fn text_or_null(text: Option<Seq<char>>) -> JsonModel {
    match text {
        Some(s) => JsonModel::Str(s),
        None => JsonModel::Null,
    }
}

/// The text of a string, where there is one.
pub open spec fn opt_text(text: Option<String>) -> Option<Seq<char>> {
    match text {
        Some(s) => Some(s@),
        None => None,
    }
}

/// The text of a string slice, where there is one.
pub open spec fn opt_str(text: Option<&str>) -> Option<Seq<char>> {
    match text {
        Some(s) => Some(s@),
        None => None,
    }
}

/// An array of strings.
pub open spec fn text_array(lines: Seq<Seq<char>>) -> JsonModel {
    JsonModel::Array(Seq::new(lines.len(), |i: int| JsonModel::Str(lines[i])))
}

/// A string.
pub fn json_text(s: &str) -> (r: Json)
    ensures
        r@ == JsonModel::Str(s@),
{
    Json::Str(s.to_owned())
}

/// A natural number.
pub fn json_nat(n: u64) -> (r: Json)
    ensures
        r@ == JsonModel::Nat(n),
{
    Json::Number(Number::Nat(n))
}

/// An integer of 32 bits.
pub open spec fn int_model(n: i32) -> JsonModel {
    if n >= 0 {
        JsonModel::Nat(n as u64)
    } else {
        JsonModel::Int(n as i64)
    }
}

/// An integer of 32 bits.
pub fn json_int(n: i32) -> (r: Json)
    ensures
        r@ == int_model(n),
{
    if n >= 0 {
        Json::Number(Number::Nat(n as u64))
    } else {
        Json::Number(Number::Int(n as i64))
    }
}

/// A string, or null where there is none.
pub fn json_opt_text(text: &Option<String>) -> (r: Json)
    ensures
        r@ == text_or_null(opt_text(*text)),
{
    match text {
        Some(s) => json_text(s.as_str()),
        None => Json::Null,
    }
}

/// An array of strings.
pub fn json_texts(lines: &[String]) -> (r: Json)
    ensures
        r@ == text_array(texts(lines@)),
{
    let mut v: Vec<Json> = Vec::new();
    let mut i: usize = 0;
    while i < lines.len()
        invariant
            i <= lines@.len(),
            v@.len() == i,
            forall|j: int| 0 <= j < i ==> (#[trigger] v@[j]).model() == JsonModel::Str(lines@[j]@),
        decreases lines@.len() - i,
    {
        v.push(json_text(lines[i].as_str()));
        i = i + 1;
    }
    let r = Json::Array(v);
    proof {
        let all = Seq::new(lines@.len(), |i: int| JsonModel::Str(texts(lines@)[i]));
        assert forall|j: int| 0 <= j < v@.len() implies items(v@)[j] == all[j] by {
            assert(v@[j].model() == JsonModel::Str(lines@[j]@));
        }
        assert(items(v@) =~= all);
    }
    r
}

/// Adds a member to an object.
pub fn put(object: &mut Vec<(String, Json)>, name: &str, value: Json)
    ensures
        members(final(object)@) == members(old(object)@).insert(name@, value@),
        final(object)@.len() == old(object)@.len() + 1,
{
    let member = (name.to_owned(), value);
    proof {
        assert(object@.push(member).drop_last() =~= object@);
    }
    object.push(member);
}

/// Adds an item to an array.
pub fn push_item(array: &mut Vec<Json>, item: Json)
    ensures
        items(final(array)@) == items(old(array)@).push(item@),
{
    let ghost before = array@;
    array.push(item);
    proof {
        assert forall|i: int| 0 <= i < array@.len() implies items(array@)[i] == items(before).push(
            item@,
        )[i] by {
            if i < before.len() {
                assert(array@[i] == before[i]);
            }
        }
        assert(items(array@) =~= items(before).push(item@));
    }
}

impl Json {
    /// A copy of the document.
    pub fn copy(&self) -> (r: Json)
        ensures
            r@ == self@,
        decreases self,
    {
        match self {
            Json::Null => Json::Null,
            Json::Bool(b) => Json::Bool(*b),
            Json::Number(Number::Nat(n)) => Json::Number(Number::Nat(*n)),
            Json::Number(Number::Int(n)) => Json::Number(Number::Int(*n)),
            Json::Number(Number::Real(s)) => Json::Number(Number::Real(s.clone())),
            Json::Str(s) => Json::Str(s.clone()),
            Json::Array(v) => {
                let mut out: Vec<Json> = Vec::new();
                let mut i: usize = 0;
                proof {
                    assert(items(out@) =~= items(v@).take(0));
                }
                while i < v.len()
                    invariant
                        i <= v@.len(),
                        *self == Json::Array(*v),
                        items(out@) == items(v@).take(i as int),
                    decreases v@.len() - i,
                {
                    proof {
                        assert(decreases_to!(*self => self->Array_0));
                        assert(decreases_to!(*v => v@));
                        assert(decreases_to!(v@ => v@[i as int]));
                    }
                    let item = v[i].copy();
                    proof {
                        assert(items(v@).take(i + 1) =~= items(v@).take(i as int).push(item@));
                    }
                    push_item(&mut out, item);
                    i = i + 1;
                }
                proof {
                    assert(items(v@).take(v@.len() as int) =~= items(v@));
                }
                Json::Array(out)
            },
            Json::Object(v) => {
                let mut out: Vec<(String, Json)> = Vec::new();
                let mut i: usize = 0;
                proof {
                    assert(v@.take(0) =~= seq![]);
                    assert(members(out@) =~= members(v@.take(0)));
                }
                while i < v.len()
                    invariant
                        i <= v@.len(),
                        *self == Json::Object(*v),
                        members(out@) == members(v@.take(i as int)),
                    decreases v@.len() - i,
                {
                    proof {
                        assert(decreases_to!(*self => self->Object_0));
                        assert(decreases_to!(*v => v@));
                        assert(decreases_to!(v@ => v@[i as int]));
                        assert(decreases_to!(v@[i as int] => v@[i as int].1));
                    }
                    let value = v[i].1.copy();
                    proof {
                        assert(v@.take(i + 1).drop_last() =~= v@.take(i as int));
                        assert(v@.take(i + 1).last() == v@[i as int]);
                    }
                    put(&mut out, v[i].0.as_str(), value);
                    i = i + 1;
                }
                proof {
                    assert(v@.take(v@.len() as int) =~= v@);
                }
                Json::Object(out)
            },
        }
    }
}

// ---------------------------------------------------------------------------------------------
// Text

#[verifier::external_type_specification]
#[verifier::external_body]
pub struct ExValue(serde_json::Value);

/// The document that a `serde_json::Value` holds.
pub uninterp spec fn held(value: serde_json::Value) -> JsonModel;

/// The document that a text spells, as `serde_json::from_str` reads it.
pub uninterp spec fn parsed(text: Seq<char>) -> Option<JsonModel>;

/// Whether a text is JSON, as `serde_json::from_str` to a `serde::de::IgnoredAny` tells it: numbers
/// of any size and escapes of any surrogates are passed over there, as deep as they may stand.
pub uninterp spec fn well_formed(text: Seq<char>) -> bool;

/// The text that spells a document, as `serde_json::to_string` writes it.
pub uninterp spec fn printed(document: JsonModel) -> Seq<char>;

/// The text that spells a document over several lines, as `serde_json::to_string_pretty`
/// writes it.
pub uninterp spec fn printed_pretty(document: JsonModel) -> Seq<char>;

/// A document as a `serde_json::Value` holds it: the same, but that an integer that is not
/// negative is held as such, and that a number that is no integer is what its digits are read
/// as, or null where they cannot be read.
pub open spec fn settled(document: JsonModel) -> JsonModel
    decreases document,
{
    match document {
        JsonModel::Int(n) => if n < 0 {
            document
        } else {
            JsonModel::Nat(n as u64)
        },
        JsonModel::Real(digits) => match parsed(digits) {
            Some(read) => read,
            None => JsonModel::Null,
        },
        JsonModel::Array(s) => JsonModel::Array(settled_items(s)),
        JsonModel::Object(m) => JsonModel::Object(
            Map::new(
                |name: Seq<char>| m.contains_key(name),
                |name: Seq<char>|
                    if m.contains_key(name) {
                        settled(m[name])
                    } else {
                        JsonModel::Null
                    },
            ),
        ),
        _ => document,
    }
}

/// The items of an array, each as it is held.
pub open spec fn settled_items(s: Seq<JsonModel>) -> Seq<JsonModel>
    decreases s,
{
    Seq::new(
        s.len(),
        |i: int|
            if 0 <= i < s.len() {
                settled(s[i])
            } else {
                JsonModel::Null
            },
    )
}

/// Whether a document is nested at most `depth` deep and all its numbers are integers.
pub open spec fn plain(document: JsonModel, depth: nat) -> bool
    decreases depth, 0nat,
{
    match document {
        JsonModel::Int(n) => n < 0,
        JsonModel::Real(_) => false,
        JsonModel::Array(s) => depth > 0 && plain_items(s, (depth - 1) as nat),
        JsonModel::Object(m) => depth > 0 && plain_members(m, (depth - 1) as nat),
        _ => true,
    }
}

/// Whether that holds of each item of an array.
pub open spec fn plain_items(s: Seq<JsonModel>, depth: nat) -> bool
    decreases depth, 1nat,
{
    forall|i: int| 0 <= i < s.len() ==> plain(#[trigger] s[i], depth)
}

/// Whether that holds of each member of an object.
pub open spec fn plain_members(m: Map<Seq<char>, JsonModel>, depth: nat) -> bool
    decreases depth, 1nat,
{
    forall|name: Seq<char>| m.contains_key(name) ==> plain(#[trigger] m[name], depth)
}

/// How deep a document may be nested so that it can be read back whatever it holds.
pub const DEPTH: u64 = 100;

/// `serde_json::from_str` to a `serde_json::Value`. What it reads depends on the text alone.
#[verifier::external_body]
fn value_in(text: &str) -> (r: Option<serde_json::Value>)
    ensures
        match r {
            Some(value) => parsed(text@) == Some(held(value)),
            None => parsed(text@) is None,
        },
{
    serde_json::from_str(text).ok()
}

/// `serde_json::from_str` to a `serde::de::IgnoredAny`. Whether it succeeds depends on the text
/// alone.
#[verifier::external_body]
pub(crate) fn is_json(text: &str) -> (b: bool)
    ensures
        b == well_formed(text@),
{
    serde_json::from_str::<serde::de::IgnoredAny>(text).is_ok()
}

/// Takes a `serde_json::Value` apart: the document it holds, member for member. A number that
/// is no integer of 64 bits is kept in the digits that `serde_json` writes for it.
#[verifier::external_body]
fn json_in(value: &Value) -> (r: Json)
    ensures
        r@ == held(*value),
{
    match value {
        Value::Null => Json::Null,
        Value::Bool(b) => Json::Bool(*b),
        Value::Number(n) => Json::Number(match (n.as_u64(), n.as_i64()) {
            (Some(u), _) => Number::Nat(u),
            (None, Some(i)) => Number::Int(i),
            (None, None) => Number::Real(n.to_string()),
        }),
        Value::String(s) => Json::Str(s.clone()),
        Value::Array(a) => Json::Array(a.iter().map(json_in).collect()),
        Value::Object(m) => {
            Json::Object(m.iter().map(|(name, v)| (name.clone(), json_in(v))).collect())
        },
    }
}

/// Puts a document into a `serde_json::Value`, member for member. Where a number is no integer,
/// `serde_json::from_str` reads its digits.
#[verifier::external_body]
fn value_of(json: &Json) -> (r: Value)
    ensures
        held(r) == settled(json@),
{
    match json {
        Json::Null => Value::Null,
        Json::Bool(b) => Value::from(*b),
        Json::Number(Number::Nat(n)) => Value::from(*n),
        Json::Number(Number::Int(n)) => Value::from(*n),
        Json::Number(Number::Real(s)) => serde_json::from_str(s).unwrap_or_default(),
        Json::Str(s) => Value::from(s.as_str()),
        Json::Array(v) => Value::Array(v.iter().map(value_of).collect()),
        Json::Object(v) => {
            Value::Object(v.iter().map(|m| (m.0.clone(), value_of(&m.1))).collect())
        },
    }
}

/// `serde_json::to_string`. The text depends on the document alone, has no control characters,
/// is never blank, has the members of the document and none twice, and is read back as the same
/// document where that is plain.
#[verifier::external_body]
fn text_of(value: &Value) -> (r: String)
    ensures
        r@ == printed(held(*value)),
        plain(held(*value), DEPTH as nat) ==> parsed(r@) == Some(held(*value)),
        r@.len() > 0,
        !is_space(r@[0]),
        !is_space(r@.last()),
        forall|i: int| 0 <= i < r@.len() ==> #[trigger] r@[i] >= ' ',
        tidy(r@, held(*value)),
{
    serde_json::to_string(value).unwrap_or_default()
}

/// `serde_json::to_string_pretty`. The text depends on the document alone.
#[verifier::external_body]
fn pretty_text_of(value: &Value) -> (r: String)
    ensures
        r@ == printed_pretty(held(*value)),
{
    serde_json::to_string_pretty(value).unwrap_or_default()
}

/// A plain document is held as it is.
pub proof fn lemma_plain_settled(document: JsonModel, depth: nat)
    requires
        plain(document, depth),
    ensures
        settled(document) == document,
    decreases depth,
{
    match document {
        JsonModel::Array(s) => {
            assert forall|i: int| 0 <= i < s.len() implies settled_items(s)[i] == s[i] by {
                lemma_plain_settled(s[i], (depth - 1) as nat);
            }
            assert(settled_items(s) =~= s);
        },
        JsonModel::Object(m) => {
            let held = settled(document)->Object_0;
            assert forall|name: Seq<char>| m.contains_key(name) implies held[name] == m[name] by {
                lemma_plain_settled(m[name], (depth - 1) as nat);
            }
            assert(held =~= m);
        },
        _ => {},
    }
}

/// The document that a text spells, if it spells one.
pub fn parse_json(text: &str) -> (r: Option<Json>)
    ensures
        match r {
            Some(json) => parsed(text@) == Some(json@),
            None => parsed(text@) is None,
        },
{
    match value_in(text) {
        Some(value) => Some(json_in(&value)),
        None => None,
    }
}

/// Whether a text can stand on a line of its own and be found there: it is not blank, it has no
/// white space at its ends and no control character in it.
pub open spec fn one_line(text: Seq<char>) -> bool {
    &&& text.len() > 0
    &&& !is_space(text[0])
    &&& !is_space(text.last())
    &&& forall|i: int| 0 <= i < text.len() ==> #[trigger] text[i] >= ' '
}

/// A text that can stand on a line of its own has no white space to be cut off.
pub proof fn lemma_trimmed(text: Seq<char>)
    requires
        one_line(text),
    ensures
        trim(text) == text,
{
    assert(trim_start(text) == text);
    assert(trim_end(text) == text);
}

/// The text that spells a document, on one line.
pub fn print_json(json: &Json) -> (r: String)
    ensures
        r@ == printed(settled(json@)),
        plain(json@, DEPTH as nat) ==> r@ == printed(json@) && parsed(r@) == Some(json@) && tidy(
            r@,
            json@,
        ),
        one_line(r@),
        tidy(r@, settled(json@)),
{
    proof {
        if plain(json@, DEPTH as nat) {
            lemma_plain_settled(json@, DEPTH as nat);
        }
    }
    text_of(&value_of(json))
}

/// The text that spells a document over several lines.
pub fn print_pretty(json: &Json) -> (r: String)
    ensures
        r@ == printed_pretty(settled(json@)),
        plain(json@, DEPTH as nat) ==> r@ == printed_pretty(json@),
{
    proof {
        if plain(json@, DEPTH as nat) {
            lemma_plain_settled(json@, DEPTH as nat);
        }
    }
    pretty_text_of(&value_of(json))
}

// ---------------------------------------------------------------------------------------------
// Laws

/// What is found in an object: what was last put under the name, and nothing under a name under
/// which nothing was put. In anything else nothing is found.
pub proof fn law_what_is_found(
    m: Map<Seq<char>, JsonModel>,
    name: Seq<char>,
    other: Seq<char>,
    value: JsonModel,
)
    ensures
        ({
            let object = JsonModel::Object(m.insert(name, value));
            &&& object.get(name) == Some(value)
            &&& object.at(name) == value
            &&& other != name ==> object.get(other) == JsonModel::Object(m).get(other)
            &&& JsonModel::Object(Map::empty()).get(name) is None
            &&& JsonModel::Object(Map::empty()).at(name) == JsonModel::Null
            &&& value is Str ==> object.text_at(name) == value->Str_0
            &&& !(value is Str) ==> object.text_at(name).len() == 0
            &&& object.flag_at(name) <==> value == JsonModel::Bool(true)
            &&& value is Nat ==> object.nat_at(name) == value->Nat_0
            &&& !(value is Nat) ==> object.nat_at(name) == 0
            &&& value is Nat && value->Nat_0 <= i64::MAX ==> object.int_at(name) == Some(
                value->Nat_0 as int,
            )
            &&& value is Int ==> object.int_at(name) == Some(value->Int_0 as int)
            &&& !(value is Nat) && !(value is Int) ==> object.int_at(name) is None
        }),
        !(value is Object) ==> value.get(name) is None && value.at(name) == JsonModel::Null,
        value is Str ==> value.text() == Some(value->Str_0),
        !(value is Str) ==> value.text() is None,
{
}

/// What a value holds of a document: integers, texts and truth values as they are, arrays item by
/// item and objects member by member, and other numbers as their digits are read.
pub proof fn law_what_a_value_holds(
    s: Seq<JsonModel>,
    m: Map<Seq<char>, JsonModel>,
    n: u64,
    i: i64,
    text: Seq<char>,
    b: bool,
)
    ensures
        settled(JsonModel::Null) == JsonModel::Null,
        settled(JsonModel::Bool(b)) == JsonModel::Bool(b),
        settled(JsonModel::Nat(n)) == JsonModel::Nat(n),
        i < 0 ==> settled(JsonModel::Int(i)) == JsonModel::Int(i),
        i >= 0 ==> settled(JsonModel::Int(i)) == JsonModel::Nat(i as u64),
        settled(JsonModel::Str(text)) == JsonModel::Str(text),
        parsed(text) is Some ==> settled(JsonModel::Real(text)) == parsed(text)->0,
        parsed(text) is None ==> settled(JsonModel::Real(text)) == JsonModel::Null,
        settled(JsonModel::Array(s)) is Array,
        settled(JsonModel::Array(s))->Array_0.len() == s.len(),
        forall|k: int|
            0 <= k < s.len() ==> #[trigger] settled(JsonModel::Array(s))->Array_0[k] == settled(
                s[k],
            ),
        settled(JsonModel::Object(m)) is Object,
        forall|name: Seq<char>|
            #[trigger] settled(JsonModel::Object(m))->Object_0.contains_key(name)
                == m.contains_key(name),
        forall|name: Seq<char>|
            m.contains_key(name) ==> #[trigger] settled(JsonModel::Object(m))->Object_0[name]
                == settled(m[name]),
{
    assert(settled(JsonModel::Array(s)) == JsonModel::Array(settled_items(s)));
    assert(settled_items(s).len() == s.len());
}

} // verus!
