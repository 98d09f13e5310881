//! Where the members of the objects in a JSON text stand, and which of them stand twice. A
//! document that was read has each member once, whatever the text has.
use crate::json::{parse_json, parsed, well_formed, Json, JsonModel};
use crate::text::{chars_of, same, strs};
use vstd::prelude::*;

verus! {

/// A step on the way to a member: the member of an object, or the item of an array. In an object
/// whose first member is not named yet it is open.
#[derive(Debug, Clone, PartialEq, Eq)]
pub enum Step {
    Open,
    Name(String),
    Item(usize),
}

/// What a step says.
pub enum StepModel {
    Open,
    Name(Seq<char>),
    Item(int),
}

impl View for Step {
    type V = StepModel;

    open spec fn view(&self) -> StepModel {
        match *self {
            Step::Open => StepModel::Open,
            Step::Name(name) => StepModel::Name(name@),
            Step::Item(n) => StepModel::Item(n as int),
        }
    }
}

/// The way to a member, from the outermost object or array on.
pub open spec fn path_view(path: Seq<Step>) -> Seq<StepModel> {
    Seq::new(path.len(), |i: int| path[i]@)
}

/// The ways to members.
pub open spec fn path_views(paths: Seq<Vec<Step>>) -> Seq<Seq<StepModel>> {
    Seq::new(paths.len(), |i: int| path_view(paths[i]@))
}

// ---------------------------------------------------------------------------------------------
// Walking through a text

/// How far a walk through a text has come: the way to the innermost object or array, ending in
/// its current member or item; whether the walk is in a string, and behind a backslash in it;
/// where the last string started; whether a string would be the name of a member; and the ways to
/// the members that were passed.
pub struct Walk {
    pub path: Seq<StepModel>,
    pub in_string: bool,
    pub escaped: bool,
    pub start: int,
    pub at_name: bool,
    pub found: Seq<Seq<StepModel>>,
}

/// The text that a string in JSON stands for.
pub open spec fn spelled(literal: Seq<char>) -> Seq<char> {
    match parsed(literal) {
        Some(JsonModel::Str(s)) => s,
        _ => seq![],
    }
}

impl Walk {
    /// Whether the walk is in an object, and not in an array or outside of both.
    pub open spec fn in_object(self) -> bool {
        self.path.len() > 0 && !(self.path.last() is Item)
    }

    /// The walk after the quotation mark that ends the string `literal`.
    pub open spec fn end_string(self, literal: Seq<char>) -> Walk {
        if self.at_name && self.in_object() {
            let path = self.path.drop_last().push(StepModel::Name(spelled(literal)));
            Walk { in_string: false, path, found: self.found.push(path), ..self }
        } else {
            Walk { in_string: false, ..self }
        }
    }

    /// The walk after a comma.
    pub open spec fn comma(self) -> Walk {
        if self.path.len() == 0 {
            self
        } else {
            match self.path.last() {
                StepModel::Item(n) => Walk {
                    path: self.path.drop_last().push(StepModel::Item(n + 1)),
                    ..self
                },
                _ => Walk { at_name: true, ..self },
            }
        }
    }

    /// The walk after the character at `i`.
    pub open spec fn next(self, text: Seq<char>, i: int) -> Walk {
        let c = text[i];
        if self.in_string {
            if self.escaped {
                Walk { escaped: false, ..self }
            } else if c == '\\' {
                Walk { escaped: true, ..self }
            } else if c == '"' {
                self.end_string(text.subrange(self.start, i + 1))
            } else {
                self
            }
        } else if c == '"' {
            Walk { in_string: true, start: i, ..self }
        } else if c == '{' {
            Walk { path: self.path.push(StepModel::Open), at_name: true, ..self }
        } else if c == '[' {
            Walk { path: self.path.push(StepModel::Item(0)), at_name: false, ..self }
        } else if c == '}' || c == ']' {
            Walk {
                path: if self.path.len() > 0 {
                    self.path.drop_last()
                } else {
                    self.path
                },
                at_name: false,
                ..self
            }
        } else if c == ':' {
            Walk { at_name: false, ..self }
        } else if c == ',' {
            self.comma()
        } else {
            self
        }
    }
}

/// The walk through the first `n` characters.
pub open spec fn walked(text: Seq<char>, n: int) -> Walk
    decreases n,
{
    if n <= 0 {
        Walk {
            path: seq![],
            in_string: false,
            escaped: false,
            start: 0,
            at_name: false,
            found: seq![],
        }
    } else {
        walked(text, n - 1).next(text, n - 1)
    }
}

/// The ways to the members of the objects in a JSON text, in the order in which they stand.
pub open spec fn paths(text: Seq<char>) -> Seq<Seq<StepModel>> {
    walked(text, text.len() as int).found
}

/// The ways among the first `n` that were there before.
pub open spec fn repeats_to(paths: Seq<Seq<StepModel>>, n: int) -> Seq<Seq<StepModel>>
    decreases n,
{
    if n <= 0 {
        seq![]
    } else if paths.take(n - 1).contains(paths[n - 1]) {
        repeats_to(paths, n - 1).push(paths[n - 1])
    } else {
        repeats_to(paths, n - 1)
    }
}

/// The ways to members of the objects in a JSON text whose names stood in the same object before.
pub open spec fn repeats(text: Seq<char>) -> Seq<Seq<StepModel>> {
    repeats_to(paths(text), paths(text).len() as int)
}

/// Whether the way leads to something in a document.
pub open spec fn leads(document: JsonModel, path: Seq<StepModel>) -> bool
    decreases path.len(),
{
    if path.len() == 0 {
        true
    } else {
        match (document, path[0]) {
            (JsonModel::Object(m), StepModel::Name(name)) => m.contains_key(name) && leads(
                m[name],
                path.skip(1),
            ),
            (JsonModel::Array(s), StepModel::Item(i)) => 0 <= i < s.len() && leads(
                s[i],
                path.skip(1),
            ),
            _ => false,
        }
    }
}

/// Whether a JSON text has the members of a document, and none of them twice.
pub open spec fn tidy(text: Seq<char>, document: JsonModel) -> bool {
    &&& well_formed(text)
    &&& repeats(text).len() == 0
    &&& forall|i: int| 0 <= i < paths(text).len() ==> leads(document, #[trigger] paths(text)[i])
}

/// Every name on the way to where a walk has come is one that it has passed.
pub proof fn lemma_names_passed(text: Seq<char>, n: int)
    ensures
        forall|k: int|
            0 <= k < walked(text, n).path.len() && #[trigger] walked(text, n).path[k] is Name
                ==> walked(text, n).found.contains(walked(text, n).path.take(k + 1)),
    decreases n,
{
    if n > 0 {
        lemma_names_passed(text, n - 1);
        let a = walked(text, n - 1);
        let b = walked(text, n);
        assert forall|k: int| 0 <= k < b.path.len() && #[trigger] b.path[k] is Name implies b
            .found.contains(b.path.take(k + 1)) by {
            if k < a.path.len() && a.path.take(k + 1) =~= b.path.take(k + 1) {
                assert(a.path[k] == a.path.take(k + 1)[k]);
                assert(b.path[k] == b.path.take(k + 1)[k]);
                let i = a.found.index_of(a.path.take(k + 1));
                assert(b.found[i] == a.found[i]);
            } else {
                assert(b.path.take(k + 1) =~= b.path);
                assert(b.found[b.found.len() - 1] == b.path);
            }
        }
    }
}

/// What a walk has passed it has passed for good.
pub proof fn lemma_passed_stays(text: Seq<char>, n: int, m: int)
    requires
        n <= m,
    ensures
        walked(text, n).found.len() <= walked(text, m).found.len(),
        forall|i: int|
            0 <= i < walked(text, n).found.len() ==> #[trigger] walked(text, m).found[i] == walked(
                text,
                n,
            ).found[i],
    decreases m - n,
{
    if n < m && m > 0 {
        lemma_passed_stays(text, n, m - 1);
    }
}

// ---------------------------------------------------------------------------------------------
// Steps

/// Whether a step goes to a member with one of the names.
pub open spec fn among(step: StepModel, names: Seq<Seq<char>>) -> bool {
    match step {
        StepModel::Name(name) => names.contains(name),
        _ => false,
    }
}

/// Whether a step goes to a field: to the member `name` of an object, or to the item `place` of
/// an array.
pub open spec fn is_field(step: StepModel, name: Seq<char>, place: int) -> bool {
    step == StepModel::Name(name) || step == StepModel::Item(place)
}

impl Step {
    /// A copy of the step.
    fn copy(&self) -> (r: Step)
        ensures
            r@ == self@,
    {
        match self {
            Step::Open => Step::Open,
            Step::Name(name) => Step::Name(name.clone()),
            Step::Item(n) => Step::Item(*n),
        }
    }

    /// Whether two steps are the same.
    fn equals(&self, other: &Step) -> (b: bool)
        ensures
            b == (self@ == other@),
    {
        match (self, other) {
            (Step::Open, Step::Open) => true,
            (Step::Name(a), Step::Name(b)) => same(a.as_str(), b.as_str()),
            (Step::Item(a), Step::Item(b)) => *a == *b,
            _ => false,
        }
    }

    /// Whether the step goes to an item of an array.
    pub fn is_item(&self) -> (b: bool)
        ensures
            b == self@ is Item,
    {
        match self {
            Step::Item(_) => true,
            _ => false,
        }
    }

    /// Whether the step goes to a member of an object.
    pub fn is_name(&self) -> (b: bool)
        ensures
            b == self@ is Name,
    {
        match self {
            Step::Name(_) => true,
            _ => false,
        }
    }

    /// Whether the step goes to a member with one of the names.
    pub fn is_among(&self, names: &Vec<&str>) -> (b: bool)
        ensures
            b == among(self@, strs(names@)),
    {
        match self {
            Step::Open | Step::Item(_) => false,
            Step::Name(name) => {
                let mut i: usize = 0;
                while i < names.len()
                    invariant
                        i <= names@.len(),
                        self@ == StepModel::Name(name@),
                        forall|j: int| 0 <= j < i ==> #[trigger] strs(names@)[j] != name@,
                    decreases names@.len() - i,
                {
                    if same(name.as_str(), names[i]) {
                        proof {
                            assert(strs(names@)[i as int] == name@);
                        }
                        return true;
                    }
                    i = i + 1;
                }
                false
            },
        }
    }

    /// Whether the step goes to a field.
    pub fn is_to(&self, name: &str, place: usize) -> (b: bool)
        ensures
            b == is_field(self@, name@, place as int),
    {
        match self {
            Step::Open => false,
            Step::Name(n) => same(n.as_str(), name),
            Step::Item(n) => *n == place,
        }
    }
}

/// A copy of a way.
fn copy_path(path: &Vec<Step>) -> (r: Vec<Step>)
    ensures
        path_view(r@) == path_view(path@),
{
    let mut r: Vec<Step> = Vec::new();
    let mut i: usize = 0;
    while i < path.len()
        invariant
            i <= path@.len(),
            path_view(r@) == path_view(path@).take(i as int),
        decreases path@.len() - i,
    {
        let step = path[i].copy();
        proof {
            assert(path_view(r@.push(step)) =~= path_view(r@).push(step@));
            assert(path_view(path@).take(i + 1) =~= path_view(path@).take(i as int).push(step@));
        }
        r.push(step);
        i = i + 1;
    }
    proof {
        assert(path_view(path@).take(i as int) =~= path_view(path@));
    }
    r
}

/// Whether two ways are the same.
fn same_path(a: &Vec<Step>, b: &Vec<Step>) -> (r: bool)
    ensures
        r == (path_view(a@) == path_view(b@)),
{
    if a.len() != b.len() {
        proof {
            assert(path_view(a@).len() != path_view(b@).len());
        }
        return false;
    }
    let mut i: usize = 0;
    while i < a.len()
        invariant
            i <= a@.len() == b@.len(),
            forall|j: int| 0 <= j < i ==> #[trigger] path_view(a@)[j] == path_view(b@)[j],
        decreases a@.len() - i,
    {
        if !a[i].equals(&b[i]) {
            proof {
                assert(path_view(a@)[i as int] != path_view(b@)[i as int]);
            }
            return false;
        }
        i = i + 1;
    }
    proof {
        assert(path_view(a@) =~= path_view(b@));
    }
    true
}

// ---------------------------------------------------------------------------------------------
// Finding the members

/// The text that a string in JSON stands for.
fn spelled_by(literal: &str) -> (r: String)
    ensures
        r@ == spelled(literal@),
{
    match parse_json(literal) {
        Some(Json::Str(s)) => s,
        _ => {
            let r = String::new();
            proof {
                assert(r@ =~= seq![]);
            }
            r
        },
    }
}

/// A walk, as it is made.
pub(crate) struct Walker {
    pub(crate) path: Vec<Step>,
    pub(crate) in_string: bool,
    pub(crate) escaped: bool,
    pub(crate) start: usize,
    pub(crate) at_name: bool,
    pub(crate) found: Vec<Vec<Step>>,
}

impl Walker {
    pub(crate) open spec fn model(self) -> Walk {
        Walk {
            path: path_view(self.path@),
            in_string: self.in_string,
            escaped: self.escaped,
            start: self.start as int,
            at_name: self.at_name,
            found: path_views(self.found@),
        }
    }

    /// No item has a number above `n`.
    pub(crate) open spec fn counted(self, n: int) -> bool {
        forall|k: int|
            0 <= k < self.path@.len() ==> match #[trigger] self.path@[k] {
                Step::Item(m) => m <= n,
                _ => true,
            }
    }

    /// A walk that has not begun.
    pub(crate) fn start() -> (r: Walker)
        ensures
            forall|text: Seq<char>| r.model() == #[trigger] walked(text, 0),
            r.counted(0),
            !r.in_string,
    {
        let r = Walker {
            path: Vec::new(),
            in_string: false,
            escaped: false,
            start: 0,
            at_name: false,
            found: Vec::new(),
        };
        proof {
            assert(r.model().path =~= seq![]);
            assert(r.model().found =~= seq![]);
        }
        r
    }

    /// Passes the quotation mark that ends a string.
    fn end_string(&mut self, literal: &str)
        ensures
            final(self).model() == old(self).model().end_string(literal@),
            forall|n: int| old(self).counted(n) ==> #[trigger] final(self).counted(n),
    {
        self.in_string = false;
        let last = self.path.len();
        if self.at_name && last > 0 && !self.path[last - 1].is_item() {
            let _ = self.path.pop();
            let name = Step::Name(spelled_by(literal));
            proof {
                assert(path_view(self.path@) =~= old(self).model().path.drop_last());
                assert(path_view(self.path@.push(name)) =~= path_view(self.path@).push(name@));
            }
            self.path.push(name);
            let path = copy_path(&self.path);
            proof {
                assert(path_views(self.found@.push(path)) =~= path_views(self.found@).push(
                    path_view(path@),
                ));
            }
            self.found.push(path);
        }
    }

    /// Passes a comma.
    fn comma(&mut self, i: usize)
        requires
            old(self).counted(i as int),
            i < usize::MAX,
        ensures
            final(self).model() == old(self).model().comma(),
            final(self).counted(i + 1),
    {
        match self.path.pop() {
            None => {},
            Some(Step::Item(n)) => {
                proof {
                    assert(old(self).path@[old(self).path@.len() - 1] == Step::Item(n));
                    assert(path_view(self.path@) =~= old(self).model().path.drop_last());
                    assert(path_view(self.path@.push(Step::Item((n + 1) as usize))) =~= path_view(
                        self.path@,
                    ).push(StepModel::Item(n + 1)));
                }
                self.path.push(Step::Item(n + 1));
            },
            Some(step) => {
                self.path.push(step);
                self.at_name = true;
                proof {
                    assert(self.path@ =~= old(self).path@);
                }
            },
        }
    }

    /// Passes the character at `i`.
    pub(crate) fn next(&mut self, text: &str, v: &Vec<char>, i: usize)
        requires
            v@ == text@,
            i < v@.len(),
            old(self).counted(i as int),
            old(self).in_string ==> old(self).start <= i,
        ensures
            final(self).model() == old(self).model().next(text@, i as int),
            final(self).counted(i + 1),
            final(self).in_string ==> final(self).start <= i,
    {
        let c = v[i];
        let len: usize = v.len();
        proof {
            assert(i < len);
        }
        if self.in_string {
            if self.escaped {
                self.escaped = false;
            } else if c == '\\' {
                self.escaped = true;
            } else if c == '"' {
                let literal = text.substring_char(self.start, i + 1);
                self.end_string(literal);
                proof {
                    assert(self.counted(i as int));
                }
            }
        } else if c == '"' {
            self.in_string = true;
            self.start = i;
        } else if c == '{' {
            proof {
                assert(path_view(self.path@.push(Step::Open)) =~= path_view(self.path@).push(
                    StepModel::Open,
                ));
            }
            self.path.push(Step::Open);
            self.at_name = true;
        } else if c == '[' {
            proof {
                assert(path_view(self.path@.push(Step::Item(0))) =~= path_view(self.path@).push(
                    StepModel::Item(0),
                ));
            }
            self.path.push(Step::Item(0));
            self.at_name = false;
        } else if c == '}' || c == ']' {
            let _ = self.path.pop();
            self.at_name = false;
            proof {
                if old(self).path@.len() > 0 {
                    assert(path_view(self.path@) =~= old(self).model().path.drop_last());
                }
            }
        } else if c == ':' {
            self.at_name = false;
        } else if c == ',' {
            self.comma(i);
        }
    }
}

/// The ways to the members of the objects in a JSON text, in the order in which they stand.
pub fn paths_in(text: &str) -> (r: Vec<Vec<Step>>)
    ensures
        path_views(r@) == paths(text@),
{
    let v = chars_of(text);
    let mut walker = Walker::start();
    let mut i: usize = 0;
    while i < v.len()
        invariant
            i <= v@.len(),
            v@ == text@,
            walker.model() == walked(text@, i as int),
            walker.counted(i as int),
            walker.in_string ==> walker.start < i,
        decreases v@.len() - i,
    {
        walker.next(text, &v, i);
        i = i + 1;
    }
    walker.found
}

proof fn lemma_contains_push(
    paths: Seq<Seq<StepModel>>,
    path: Seq<StepModel>,
    wanted: Seq<StepModel>,
)
    ensures
        paths.push(path).contains(wanted) == (paths.contains(wanted) || path == wanted),
{
    let more = paths.push(path);
    if paths.contains(wanted) {
        let k = paths.index_of(wanted);
        assert(more[k] == wanted);
    }
    if path == wanted {
        assert(more[paths.len() as int] == wanted);
    }
    if more.contains(wanted) && path != wanted {
        let k = more.index_of(wanted);
        assert(paths[k] == wanted);
    }
}

/// The ways to members of the objects in a JSON text whose names stood in the same object before.
pub fn repeated_paths(text: &str) -> (r: Vec<Vec<Step>>)
    ensures
        path_views(r@) == repeats(text@),
{
    let all = paths_in(text);
    let ghost p = paths(text@);
    let mut r: Vec<Vec<Step>> = Vec::new();
    let mut i: usize = 0;
    proof {
        assert(path_views(r@) =~= seq![]);
    }
    while i < all.len()
        invariant
            i <= all@.len(),
            p == path_views(all@),
            path_views(r@) == repeats_to(p, i as int),
        decreases all@.len() - i,
    {
        let mut j: usize = 0;
        let mut again = false;
        while j < i
            invariant
                j <= i < all@.len(),
                p == path_views(all@),
                again == p.take(j as int).contains(p[i as int]),
            decreases i - j,
        {
            proof {
                lemma_contains_push(p.take(j as int), p[j as int], p[i as int]);
                assert(p.take(j + 1) =~= p.take(j as int).push(p[j as int]));
            }
            if same_path(&all[j], &all[i]) {
                again = true;
            }
            j = j + 1;
        }
        if again {
            let path = copy_path(&all[i]);
            proof {
                assert(path_views(r@.push(path)) =~= path_views(r@).push(path_view(path@)));
            }
            r.push(path);
        }
        i = i + 1;
    }
    r
}

// ---------------------------------------------------------------------------------------------
// Laws

/// What is repeated is just what stands there twice.
pub proof fn law_what_is_repeated(paths: Seq<Seq<StepModel>>, path: Seq<StepModel>)
    ensures
        repeats_to(paths, paths.len() as int).contains(path) <==> exists|i: int, j: int|
            0 <= i < j < paths.len() && #[trigger] paths[i] == path && #[trigger] paths[j] == path,
{
    lemma_repeats(paths, path, paths.len() as int);
}

proof fn lemma_repeats(paths: Seq<Seq<StepModel>>, path: Seq<StepModel>, n: int)
    requires
        0 <= n <= paths.len(),
    ensures
        repeats_to(paths, n).contains(path) <==> exists|i: int, j: int|
            0 <= i < j < n && #[trigger] paths[i] == path && #[trigger] paths[j] == path,
    decreases n,
{
    if n > 0 {
        lemma_repeats(paths, path, n - 1);
        let before = repeats_to(paths, n - 1);
        let last = paths[n - 1];
        if paths.take(n - 1).contains(last) {
            lemma_contains_push(before, last, path);
            if last == path {
                let i = paths.take(n - 1).index_of(last);
                assert(paths[i] == path && paths[n - 1] == path);
            }
        } else if last == path {
            if exists|i: int, j: int|
                0 <= i < j < n && #[trigger] paths[i] == path && #[trigger] paths[j] == path {
                let (i, j) = choose|i: int, j: int|
                    0 <= i < j < n && #[trigger] paths[i] == path && #[trigger] paths[j] == path;
                assert(paths.take(n - 1)[i] == last);
            }
        }
    }
}

/// Where a walk goes at each mark outside of strings. A brace or a bracket leads in, and its
/// counterpart out again, to where it was; a comma leads to the next item or name; and a colon
/// leads from a name to its value.
pub proof fn law_where_a_walk_goes(w: Walk, text: Seq<char>, i: int)
    requires
        !w.in_string,
        0 <= i < text.len(),
    ensures
        text[i] == '{' ==> w.next(text, i).path.drop_last() == w.path && w.next(text, i).path.last()
            == StepModel::Open && w.next(text, i).at_name,
        text[i] == '[' ==> w.next(text, i).path.drop_last() == w.path && w.next(text, i).path.last()
            == StepModel::Item(0),
        (text[i] == '}' || text[i] == ']') && w.path.len() > 0 ==> w.next(text, i).path
            == w.path.drop_last(),
        text[i] == ':' ==> !w.next(text, i).at_name && w.next(text, i).path == w.path,
        text[i] == ',' && w.path.len() > 0 && w.path.last() is Item ==> w.next(text, i).path
            == w.path.drop_last().push(StepModel::Item(w.path.last()->Item_0 + 1)),
        text[i] == ',' && w.path.len() > 0 && !(w.path.last() is Item) ==> w.next(text, i).at_name
            && w.next(text, i).path == w.path,
        text[i] == '"' ==> w.next(text, i).in_string && w.next(text, i).start == i,
        w.next(text, i).found == w.found,
{
    let after = w.next(text, i);
    if text[i] == '{' || text[i] == '[' {
        assert(after.path.drop_last() =~= w.path);
    }
}

} // verus!
