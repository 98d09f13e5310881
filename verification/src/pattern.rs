//! Regular expressions.
use crate::parser::blocks::BLOCK_HEADER;
use crate::text::texts;
use vstd::prelude::*;

verus! {

/// What a search for a pattern gives: the groups of the match, or nothing.
pub type Found = Option<Vec<Option<String>>>;

/// The texts that a search for a pattern gives.
pub type Groups = Option<Seq<Option<Seq<char>>>>;

/// The texts of the groups of a match.
pub open spec fn group_texts(groups: Seq<Option<String>>) -> Seq<Option<Seq<char>>> {
    Seq::new(
        groups.len(),
        |i: int|
            match groups[i] {
                Some(text) => Some(text@),
                None => None,
            },
    )
}

/// The texts of the groups of a match, where there is a match.
pub open spec fn match_texts(found: Found) -> Groups {
    match found {
        Some(groups) => Some(group_texts(groups@)),
        None => None,
    }
}

/// The text of group `n`, where there is a match in which the group took part.
pub open spec fn group(found: Groups, n: int) -> Option<Seq<char>> {
    match found {
        Some(groups) => if 0 <= n < groups.len() {
            groups[n]
        } else {
            None
        },
        None => None,
    }
}

/// The groups of the leftmost match of the regular expression `pattern` in `text`, as
/// `regex::Regex::captures` gives them: group 0 is the whole match, and a group that took no
/// part in it is `None`. `None` as a whole says that nothing matches, or that `pattern` is no
/// regular expression.
pub uninterp spec fn captures_of(pattern: Seq<char>, text: Seq<char>) -> Option<
    Seq<Option<Seq<char>>>,
>;

/// `regex::Regex::new`, and on what it builds `captures`: the groups of the leftmost match.
/// They depend on the pattern and the text alone. The pattern of a block's header starts with
/// `^[•]`, so a text in which it is found starts with the bullet.
#[verifier::external_body]
pub(crate) fn captures(pattern: &str, text: &str) -> (found: Found)
    ensures
        match_texts(found) == captures_of(pattern@, text@),
        pattern@ == BLOCK_HEADER@ && found is Some ==> text@.len() > 0 && text@[0] == '•',
{
    let found = regex::Regex::new(pattern).ok()?.captures(text)?;
    Some(found.iter().map(|group| group.map(|text| text.as_str().to_string())).collect())
}

/// Whether `pattern` matches somewhere in `text`.
pub(crate) fn is_match(pattern: &str, text: &str) -> (b: bool)
    ensures
        b == captures_of(pattern@, text@) is Some,
{
    captures(pattern, text).is_some()
}

/// The text of group `n` of a match.
pub fn group_text(found: &Found, n: usize) -> (r: Option<&String>)
    ensures
        match r {
            Some(text) => group(match_texts(*found), n as int) == Some(text@),
            None => group(match_texts(*found), n as int) is None,
        },
{
    match found {
        Some(groups) => {
            if n < groups.len() {
                groups[n].as_ref()
            } else {
                None
            }
        },
        None => None,
    }
}

/// What the searches of a sequence give.
pub open spec fn all_texts(found: Seq<Found>) -> Seq<Groups> {
    Seq::new(found.len(), |i: int| match_texts(found[i]))
}

/// What a search for `pattern` gives in each line.
pub open spec fn all_captures(pattern: Seq<char>, lines: Seq<Seq<char>>) -> Seq<Groups> {
    Seq::new(lines.len(), |i: int| captures_of(pattern, lines[i]))
}

/// Searches each line for `pattern`.
pub(crate) fn find_all(pattern: &str, lines: &[String]) -> (found: Vec<Found>)
    ensures
        all_texts(found@) == all_captures(pattern@, texts(lines@)),
{
    let ghost all = all_captures(pattern@, texts(lines@));
    let mut found: Vec<Found> = Vec::new();
    let mut i: usize = 0;
    while i < lines.len()
        invariant
            i <= lines@.len(),
            all == all_captures(pattern@, texts(lines@)),
            all_texts(found@) == all.take(i as int),
        decreases lines@.len() - i,
    {
        let one = captures(pattern, lines[i].as_str());
        proof {
            assert(all_texts(found@.push(one)) =~= all_texts(found@).push(match_texts(one)));
            assert(all.take(i + 1) =~= all.take(i as int).push(match_texts(one)));
        }
        found.push(one);
        i = i + 1;
    }
    proof {
        assert(all.take(lines@.len() as int) =~= all);
    }
    found
}

} // verus!
