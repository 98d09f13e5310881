//! Paths, as text.
use crate::text::{
    chars_of, law_join_undoes_split, law_split_at_each, lemma_split_last, same, split, str_split,
    texts,
};
use vstd::prelude::*;

verus! {

/// The path of `name` in the directory `base`. `name` is not an absolute path.
pub open spec fn joined(base: Seq<char>, name: Seq<char>) -> Seq<char> {
    if base.len() == 0 || base.last() == '/' {
        base + name
    } else {
        base.push('/') + name
    }
}

/// The path of `name` in the directory `base`.
pub fn path_join(base: &str, name: &str) -> (r: String)
    ensures
        r@ == joined(base@, name@),
{
    let v = chars_of(base);
    let mut out = base.to_owned();
    if v.len() > 0 && v[v.len() - 1] != '/' {
        out.push('/');
    }
    out.append(name);
    out
}

/// The last of the first `n` pieces of a path that says something: not an empty piece, nor a
/// piece that is a single dot.
pub open spec fn last_piece(pieces: Seq<Seq<char>>, n: int) -> Option<Seq<char>>
    decreases n,
{
    if n <= 0 {
        None
    } else if pieces[n - 1].len() == 0 || (pieces[n - 1] == "."@ && n > 1) {
        last_piece(pieces, n - 1)
    } else {
        Some(pieces[n - 1])
    }
}

/// The name of the file at the end of a path. There is none if the path is empty, goes to the
/// root, or ends in a step up. A dot is dropped anywhere but at the very start, where it stands
/// for the current directory and names no file either.
pub open spec fn file_name_of(path: Seq<char>) -> Option<Seq<char>> {
    let pieces = split(path, '/');
    match last_piece(pieces, pieces.len() as int) {
        Some(piece) => if piece == ".."@ || piece == "."@ {
            None
        } else {
            Some(piece)
        },
        None => None,
    }
}

/// The name of the file at the end of a path.
pub fn file_name(path: &str) -> (r: Option<String>)
    ensures
        match r {
            Some(name) => file_name_of(path@) == Some(name@),
            None => file_name_of(path@) is None,
        },
{
    let pieces = str_split(path, '/');
    let ghost p = texts(pieces@);
    let mut n: usize = pieces.len();
    while n > 0
        invariant
            n <= pieces@.len(),
            p == texts(pieces@),
            p == split(path@, '/'),
            last_piece(p, p.len() as int) == last_piece(p, n as int),
        decreases n,
    {
        let piece = &pieces[n - 1];
        proof {
            assert(p[n - 1] == piece@);
        }
        if !(piece.as_str().is_empty() || (n > 1 && same(piece.as_str(), "."))) {
            if same(piece.as_str(), "..") || same(piece.as_str(), ".") {
                return None;
            }
            return Some(piece.clone());
        }
        n = n - 1;
    }
    None
}

// ---------------------------------------------------------------------------------------------
// Laws

/// A file in a directory has its own name, and the directory stands before it, with one slash
/// between them.
pub proof fn law_a_file_keeps_its_name(base: Seq<char>, name: Seq<char>)
    requires
        name.len() > 0,
        !name.contains('/'),
        name != "."@,
        name != ".."@,
    ensures
        file_name_of(joined(base, name)) == Some(name),
        base.len() > 0 && base.last() != '/' ==> joined(base, name) == base + seq!['/'] + name,
        base.len() == 0 || base.last() == '/' ==> joined(base, name) == base + name,
{
    let path = joined(base, name);
    let pieces = split(path, '/');
    if base.len() == 0 {
        assert(path =~= name);
        law_split_at_each(name, seq![], '/');
    } else {
        let a = if base.last() == '/' {
            base.drop_last()
        } else {
            base
        };
        assert(path =~= a + seq!['/'] + name);
        lemma_split_last(a, name, '/');
        assert(base.push('/') + name =~= base + seq!['/'] + name);
    }
    assert(pieces.last() == name);
}

/// A slash or a lone dot at the end of a path changes nothing, and a step up names no file.
pub proof fn law_the_end_of_a_path(path: Seq<char>)
    ensures
        file_name_of(path + seq!['/']) == file_name_of(path),
        file_name_of(path + seq!['/', '.']) == file_name_of(path),
        file_name_of(path + seq!['/', '.', '.']) is None,
        file_name_of(seq![]) is None,
{
    reveal_strlit(".");
    reveal_strlit("..");
    let none = Seq::<char>::empty();
    let dot = seq!['.'];
    let up = seq!['.', '.'];
    assert("."@ =~= dot);
    assert(".."@ =~= up);
    assert(path + seq!['/'] =~= path + seq!['/'] + none);
    assert(path + seq!['/', '.'] =~= path + seq!['/'] + dot);
    assert(path + seq!['/', '.', '.'] =~= path + seq!['/'] + up);
    lemma_split_last(path, none, '/');
    lemma_split_last(path, dot, '/');
    lemma_split_last(path, up, '/');
    law_split_at_each(none, none, '/');
    law_join_undoes_split(path, '/');
    let n = split(path, '/').len() as int;
    lemma_last_piece(split(path, '/'), none, n);
    lemma_last_piece(split(path, '/'), dot, n);
    assert(last_piece(seq![none], 0) is None);
}

proof fn lemma_last_piece(pieces: Seq<Seq<char>>, more: Seq<char>, n: int)
    requires
        0 <= n <= pieces.len(),
    ensures
        last_piece(pieces.push(more), n) == last_piece(pieces, n),
    decreases n,
{
    if n > 0 {
        lemma_last_piece(pieces, more, n - 1);
    }
}

} // verus!
