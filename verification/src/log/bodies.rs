//! The bodies of blocks as bytes.
use crate::text::{
    join, lemma_span, lemma_span_bound, span, split, str_join, str_split, texts,
};
use vstd::prelude::*;
use vstd::utf8::{decode_utf8, encode_utf8, valid_utf8};

verus! {

/// The text that `String::from_utf8_lossy` reads in bytes.
pub uninterp spec fn lossy(bytes: Seq<u8>) -> Seq<char>;

/// `String::from_utf8_lossy`. The text depends on the bytes alone. Bytes that are UTF-8 are read
/// as they are; in others the replacement character stands for what cannot be read.
#[verifier::external_body]
fn lossy_text(bytes: &[u8]) -> (r: String)
    ensures
        r@ == lossy(bytes@),
        valid_utf8(bytes@) ==> r@ == decode_utf8(bytes@),
{
    String::from_utf8_lossy(bytes).into_owned()
}

/// The bytes of a body: its lines in UTF-8, with line feeds between them.
pub open spec fn body_bytes(lines: Seq<Seq<char>>) -> Seq<u8> {
    encode_utf8(join(lines, "\n"@))
}

/// The lines of a body's text. An empty text has none.
pub open spec fn body_lines(text: Seq<char>) -> Seq<Seq<char>> {
    if text.len() == 0 {
        seq![]
    } else {
        split(text, '\n')
    }
}

/// The bytes of a body.
pub fn encode_body(lines: &[String]) -> (r: Vec<u8>)
    ensures
        r@ == body_bytes(texts(lines@)),
{
    let text = str_join(lines, "\n");
    let bytes = text.as_str().as_bytes();
    let mut out: Vec<u8> = Vec::new();
    let mut i: usize = 0;
    while i < bytes.len()
        invariant
            i <= bytes@.len(),
            out@ == bytes@.take(i as int),
        decreases bytes@.len() - i,
    {
        out.push(bytes[i]);
        proof {
            assert(bytes@.take(i + 1) =~= bytes@.take(i as int).push(bytes@[i as int]));
        }
        i = i + 1;
    }
    proof {
        assert(bytes@.take(bytes@.len() as int) =~= bytes@);
    }
    out
}

/// The lines of a body's text.
pub fn split_body(text: &str) -> (r: Vec<String>)
    ensures
        texts(r@) == body_lines(text@),
{
    if text.is_empty() {
        let r: Vec<String> = Vec::new();
        proof {
            assert(texts(r@) =~= seq![]);
        }
        r
    } else {
        str_split(text, '\n')
    }
}

/// The lines of a body, from its bytes.
pub fn decode_body(bytes: &[u8]) -> (r: Vec<String>)
    ensures
        texts(r@) == body_lines(lossy(bytes@)),
        valid_utf8(bytes@) ==> texts(r@) == body_lines(decode_utf8(bytes@)),
{
    split_body(lossy_text(bytes).as_str())
}

// ---------------------------------------------------------------------------------------------
// Laws

/// Whether no line has a line feed in it.
pub open spec fn unbroken(lines: Seq<Seq<char>>) -> bool {
    forall|i: int| 0 <= i < lines.len() ==> !(#[trigger] lines[i]).contains('\n')
}

proof fn lemma_split_append(a: Seq<char>, b: Seq<char>, c: char)
    requires
        !b.contains(c),
    ensures
        split(a + seq![c] + b, c) == split(a, c).push(b),
    decreases a.len(),
{
    let s = a + seq![c] + b;
    let n = span(a, c) as int;
    lemma_span_bound(a, c);
    if n >= a.len() {
        assert forall|j: int| 0 <= j < a.len() implies s[j] != c by {
            assert(s[j] == a[j]);
        }
        lemma_span(s, c, a.len() as int);
        assert(s.take(a.len() as int) =~= a);
        assert(s.skip(a.len() as int + 1) =~= b);
        assert forall|j: int| 0 <= j < b.len() implies b[j] != c by {
            assert(b.contains(b[j]));
        }
        lemma_span(b, c, b.len() as int);
        assert(split(b, c) == seq![b]);
        assert(seq![a] + seq![b] =~= seq![a].push(b));
    } else {
        assert forall|j: int| 0 <= j < n implies s[j] != c by {
            assert(s[j] == a[j]);
        }
        lemma_span(s, c, n);
        assert(s.take(n) =~= a.take(n));
        assert(s.skip(n + 1) =~= a.skip(n + 1) + seq![c] + b);
        lemma_split_append(a.skip(n + 1), b, c);
        assert(seq![a.take(n)] + split(a.skip(n + 1), c).push(b) =~= (seq![a.take(n)] + split(
            a.skip(n + 1),
            c,
        )).push(b));
    }
}

proof fn lemma_split_join(lines: Seq<Seq<char>>)
    requires
        lines.len() > 0,
        unbroken(lines),
    ensures
        split(join(lines, "\n"@), '\n') == lines,
    decreases lines.len(),
{
    reveal_strlit("\n");
    assert("\n"@ =~= seq!['\n']);
    let last = lines.last();
    assert(!lines[lines.len() - 1].contains('\n'));
    if lines.len() == 1 {
        assert forall|j: int| 0 <= j < last.len() implies last[j] != '\n' by {
            assert(last.contains(last[j]));
        }
        lemma_span(last, '\n', last.len() as int);
        assert(seq![last] =~= lines);
    } else {
        let rest = lines.drop_last();
        assert forall|i: int| 0 <= i < rest.len() implies !(#[trigger] rest[i]).contains('\n') by {
            assert(rest[i] == lines[i]);
        }
        lemma_split_join(rest);
        lemma_split_append(join(rest, "\n"@), last, '\n');
        assert(rest.push(last) =~= lines);
    }
}

proof fn lemma_join_empty(lines: Seq<Seq<char>>)
    requires
        join(lines, "\n"@).len() == 0,
    ensures
        lines.len() == 0 || lines == seq![Seq::<char>::empty()],
{
    reveal_strlit("\n");
    if lines.len() == 1 {
        assert(lines[0] =~= seq![]);
        assert(lines =~= seq![Seq::<char>::empty()]);
    }
}

/// A body is read back line for line, if its lines have no line feeds in them. A body of one
/// empty line is left out: its bytes are those of a body without lines.
pub proof fn law_body_round_trip(lines: Seq<Seq<char>>)
    requires
        unbroken(lines),
        lines != seq![Seq::<char>::empty()],
    ensures
        valid_utf8(body_bytes(lines)),
        body_lines(decode_utf8(body_bytes(lines))) == lines,
{
    let text = join(lines, "\n"@);
    vstd::utf8::encode_utf8_valid_utf8(text);
    vstd::utf8::encode_utf8_decode_utf8(text);
    if text.len() == 0 {
        lemma_join_empty(lines);
        assert(lines =~= seq![]);
    } else {
        assert(lines.len() > 0);
        lemma_split_join(lines);
    }
}

/// A body is its lines with line feeds between them, in UTF-8.
pub proof fn law_a_body_is_its_lines(lines: Seq<Seq<char>>)
    ensures
        body_bytes(lines) == encode_utf8(join(lines, seq!['\n'])),
{
    reveal_strlit("\n");
    assert("\n"@ =~= seq!['\n']);
}

} // verus!
