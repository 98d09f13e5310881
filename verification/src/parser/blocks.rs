//! Blocks: a header line such as `• Edited main.rs (+1 -1)` with the indented lines under it.
use crate::pattern::{captures, captures_of, group, group_text, match_texts, Found, Groups};
use crate::text::{
    chars_of, folded, is_space, lemma_texts_push, same, str_folded, str_strip_leading, str_trim,
    strip_leading, texts, trim, trim_start,
};
use vstd::prelude::*;

verus! {

/// What a header line looks like: a bullet, what was done, and to what.
pub const BLOCK_HEADER: &'static str = "^[•]\\s+(Edited|Created|Deleted|Ran|Read)\\s+(.+)$";

/// A detected block with header and body lines.
#[derive(Debug, Clone)]
pub struct Block {
    pub id: u64,
    pub block_type: String,
    pub header: String,
    pub body: Vec<String>,
    pub seq: u64,
}

/// What a block holds.
pub struct BlockView {
    pub id: u64,
    pub block_type: Seq<char>,
    pub header: Seq<char>,
    pub body: Seq<Seq<char>>,
    pub seq: u64,
}

impl View for Block {
    type V = BlockView;

    open spec fn view(&self) -> BlockView {
        BlockView {
            id: self.id,
            block_type: self.block_type@,
            header: self.header@,
            body: texts(self.body@),
            seq: self.seq,
        }
    }
}

/// What the blocks of a sequence hold.
pub open spec fn block_views(blocks: Seq<Block>) -> Seq<BlockView> {
    Seq::new(blocks.len(), |i: int| blocks[i]@)
}

/// What a header says: the block's type and the header's text.
pub open spec fn head_view(head: Option<(String, String)>) -> Option<(Seq<char>, Seq<char>)> {
    match head {
        Some((block_type, text)) => Some((block_type@, text@)),
        None => None,
    }
}

/// What each line says as a header.
pub open spec fn head_views(heads: Seq<Option<(String, String)>>) -> Seq<
    Option<(Seq<char>, Seq<char>)>,
> {
    Seq::new(heads.len(), |i: int| head_view(heads[i]))
}

/// The type of a block whose header says `word`: the word in small letters, but `ran_command`
/// for `Ran`.
pub open spec fn type_of(word: Seq<char>) -> Seq<char> {
    if folded(word) == "ran"@ {
        "ran_command"@
    } else {
        folded(word)
    }
}

/// What the line says as a header when the header pattern finds `found` in it.
pub open spec fn header_in(line: Seq<char>, found: Groups) -> Option<(Seq<char>, Seq<char>)> {
    match group(found, 1) {
        Some(word) => Some((type_of(word), trim(strip_leading(line, '•')))),
        None => None,
    }
}

/// What the line says as a header.
pub open spec fn header(line: Seq<char>) -> Option<(Seq<char>, Seq<char>)> {
    header_in(line, captures_of(BLOCK_HEADER@, line))
}

/// What each line says as a header.
pub open spec fn headers(lines: Seq<Seq<char>>) -> Seq<Option<(Seq<char>, Seq<char>)>> {
    Seq::new(lines.len(), |i: int| header(lines[i]))
}

/// The block type and the text of a header line, from what the header pattern finds in it.
pub fn header_from(line: &str, found: &Found) -> (r: Option<(String, String)>)
    ensures
        head_view(r) == header_in(line@, match_texts(*found)),
{
    match group_text(found, 1) {
        Some(word) => {
            let lower = str_folded(word.as_str());
            let block_type = if same(lower.as_str(), "ran") {
                "ran_command".to_owned()
            } else {
                lower
            };
            let text = str_trim(str_strip_leading(line, '•')).to_owned();
            Some((block_type, text))
        },
        None => None,
    }
}

/// Parse a block header line, returning the block type and header text.
pub fn parse_block_header(line: &str) -> (r: Option<(String, String)>)
    ensures
        head_view(r) == header(line@),
        r is Some ==> line@.len() > 0 && line@[0] == '•',
{
    header_from(line, &captures(BLOCK_HEADER, line))
}

/// A text that starts with something else than white space is not blank.
proof fn lemma_not_blank(s: Seq<char>)
    requires
        s.len() > 0,
        !is_space(s[0]),
    ensures
        trim(s).len() > 0,
    decreases s.len(),
{
    if is_space(s.last()) {
        let rest = s.drop_last();
        assert(rest[0] == s[0]);
        lemma_not_blank(rest);
        assert(trim_start(rest) == rest);
    }
    assert(trim_start(s) == s);
}

/// No header is a blank line.
pub open spec fn no_blank_header(
    lines: Seq<Seq<char>>,
    heads: Seq<Option<(Seq<char>, Seq<char>)>>,
) -> bool {
    forall|i: int|
        0 <= i < lines.len() && heads[i] is Some ==> trim(#[trigger] lines[i]).len() > 0
}

/// What each line says as a header.
fn parse_headers(lines: &[String]) -> (heads: Vec<Option<(String, String)>>)
    ensures
        head_views(heads@) == headers(texts(lines@)),
        no_blank_header(texts(lines@), headers(texts(lines@))),
{
    let mut heads: Vec<Option<(String, String)>> = Vec::new();
    let mut i: usize = 0;
    while i < lines.len()
        invariant
            i <= lines@.len(),
            head_views(heads@) == headers(texts(lines@)).take(i as int),
            forall|k: int|
                0 <= k < i && headers(texts(lines@))[k] is Some ==> trim(
                    #[trigger] texts(lines@)[k],
                ).len() > 0,
        decreases lines@.len() - i,
    {
        let head = parse_block_header(lines[i].as_str());
        proof {
            assert(texts(lines@)[i as int] == lines@[i as int]@);
            if head is Some {
                lemma_not_blank(lines@[i as int]@);
            }
            assert(head_views(heads@.push(head)) =~= head_views(heads@).push(head_view(head)));
            assert(headers(texts(lines@)).take(i + 1) =~= headers(texts(lines@)).take(
                i as int,
            ).push(head_view(head)));
        }
        heads.push(head);
        i = i + 1;
    }
    proof {
        assert(headers(texts(lines@)).take(lines@.len() as int) =~= headers(texts(lines@)));
    }
    heads
}

// ---------------------------------------------------------------------------------------------
// Where blocks begin and end

/// A line that can stand in the body of a block: it is empty, or it starts with a blank or a
/// tab.
pub open spec fn is_body(line: Seq<char>) -> bool {
    line.len() == 0 || line[0] == ' ' || line[0] == '\t'
}

/// Whether line `i` belongs to the body that a line before it started.
pub open spec fn carries_on(
    lines: Seq<Seq<char>>,
    heads: Seq<Option<(Seq<char>, Seq<char>)>>,
    i: int,
) -> bool {
    heads[i] is None && is_body(lines[i])
}

/// Where the body that starts at line `i` ends: at the first line that is a header or cannot
/// stand in a body.
pub open spec fn body_end(
    lines: Seq<Seq<char>>,
    heads: Seq<Option<(Seq<char>, Seq<char>)>>,
    i: int,
) -> int
    decreases lines.len() - i,
{
    if i < lines.len() && carries_on(lines, heads, i) {
        body_end(lines, heads, i + 1)
    } else {
        i
    }
}

/// The lines without the blank ones at the end.
pub open spec fn without_blank_end(lines: Seq<Seq<char>>) -> Seq<Seq<char>>
    decreases lines.len(),
{
    if lines.len() > 0 && trim(lines.last()).len() == 0 {
        without_blank_end(lines.drop_last())
    } else {
        lines
    }
}

/// The block whose header is line `i`.
pub open spec fn block_at(
    lines: Seq<Seq<char>>,
    heads: Seq<Option<(Seq<char>, Seq<char>)>>,
    i: int,
) -> BlockView {
    let (block_type, header) = heads[i]->0;
    BlockView {
        id: 0,
        block_type,
        header,
        body: without_blank_end(lines.subrange(i + 1, body_end(lines, heads, i + 1))),
        seq: 0,
    }
}

/// The blocks whose headers stand in the first `n` lines.
pub open spec fn blocks_to(
    lines: Seq<Seq<char>>,
    heads: Seq<Option<(Seq<char>, Seq<char>)>>,
    n: int,
) -> Seq<BlockView>
    decreases n,
{
    if n <= 0 {
        seq![]
    } else if heads[n - 1] is Some {
        blocks_to(lines, heads, n - 1).push(block_at(lines, heads, n - 1))
    } else {
        blocks_to(lines, heads, n - 1)
    }
}

/// The blocks in `lines`, of which line `i` says `heads[i]` as a header.
pub open spec fn blocks_in(
    lines: Seq<Seq<char>>,
    heads: Seq<Option<(Seq<char>, Seq<char>)>>,
) -> Seq<BlockView> {
    blocks_to(lines, heads, lines.len() as int)
}

/// Whether line `i` is a header, or follows a header with only body lines between.
pub open spec fn in_block(
    lines: Seq<Seq<char>>,
    heads: Seq<Option<(Seq<char>, Seq<char>)>>,
    i: int,
) -> bool
    decreases i + 1,
{
    if i < 0 {
        false
    } else {
        heads[i] is Some || (is_body(lines[i]) && in_block(lines, heads, i - 1))
    }
}

/// The lines among the first `n` that stand in no block and are not blank.
pub open spec fn loose_to(
    lines: Seq<Seq<char>>,
    heads: Seq<Option<(Seq<char>, Seq<char>)>>,
    n: int,
) -> Seq<Seq<char>>
    decreases n,
{
    if n <= 0 {
        seq![]
    } else if !in_block(lines, heads, n - 1) && trim(lines[n - 1]).len() > 0 {
        loose_to(lines, heads, n - 1).push(lines[n - 1])
    } else {
        loose_to(lines, heads, n - 1)
    }
}

/// The lines that stand in no block and are not blank.
pub open spec fn loose_in(
    lines: Seq<Seq<char>>,
    heads: Seq<Option<(Seq<char>, Seq<char>)>>,
) -> Seq<Seq<char>> {
    loose_to(lines, heads, lines.len() as int)
}

/// Check if a line looks like block body content (indented or empty).
fn is_block_body_line(line: &str) -> (b: bool)
    ensures
        b == is_body(line@),
{
    let v = chars_of(line);
    v.len() == 0 || v[0] == ' ' || v[0] == '\t'
}

/// The body of the block whose header is line `i`.
fn body_under(lines: &[String], heads: &[Option<(String, String)>], i: usize) -> (body: Vec<
    String,
>)
    requires
        heads@.len() == lines@.len(),
        i < lines.len(),
    ensures
        texts(body@) == block_at(texts(lines@), head_views(heads@), i as int).body,
{
    let ghost t = texts(lines@);
    let ghost h = head_views(heads@);
    let mut body: Vec<String> = Vec::new();
    let mut j: usize = i + 1;
    proof {
        assert(texts(body@) =~= t.subrange(i + 1, i + 1));
    }
    while j < lines.len() && heads[j].is_none() && is_block_body_line(lines[j].as_str())
        invariant
            i < j <= lines@.len() == heads@.len(),
            t == texts(lines@),
            h == head_views(heads@),
            body_end(t, h, i + 1) == body_end(t, h, j as int),
            texts(body@) == t.subrange(i + 1, j as int),
        decreases lines@.len() - j,
    {
        let line = lines[j].clone();
        proof {
            lemma_texts_push(body@, line);
            assert(t.subrange(i + 1, j + 1) =~= t.subrange(i + 1, j as int).push(t[j as int]));
        }
        body.push(line);
        j = j + 1;
    }
    let ghost whole = t.subrange(i + 1, j as int);
    while body.len() > 0 && str_trim(body[body.len() - 1].as_str()).is_empty()
        invariant
            without_blank_end(texts(body@)) == without_blank_end(whole),
        decreases body.len(),
    {
        proof {
            assert(texts(body@).drop_last() =~= texts(body@.drop_last()));
            assert(texts(body@).last() == body@.last()@);
        }
        let _ = body.pop();
    }
    proof {
        assert(body@.len() > 0 ==> texts(body@).last() == body@.last()@);
    }
    body
}

/// The blocks in `lines`, of which line `i` says `heads[i]` as a header.
pub fn blocks_under(lines: &[String], heads: &[Option<(String, String)>]) -> (blocks: Vec<Block>)
    requires
        heads@.len() == lines@.len(),
    ensures
        block_views(blocks@) == blocks_in(texts(lines@), head_views(heads@)),
{
    let ghost t = texts(lines@);
    let ghost h = head_views(heads@);
    let mut blocks: Vec<Block> = Vec::new();
    let mut i: usize = 0;
    proof {
        assert(block_views(blocks@) =~= blocks_to(t, h, 0));
    }
    while i < lines.len()
        invariant
            i <= lines@.len() == heads@.len(),
            t == texts(lines@),
            h == head_views(heads@),
            block_views(blocks@) == blocks_to(t, h, i as int),
        decreases lines@.len() - i,
    {
        if let Some((block_type, header)) = &heads[i] {
            let block = Block {
                id: 0,
                block_type: block_type.clone(),
                header: header.clone(),
                body: body_under(lines, heads, i),
                seq: 0,
            };
            proof {
                assert(h[i as int] == Some((block_type@, header@)));
                assert(block@ == block_at(t, h, i as int));
                assert(block_views(blocks@.push(block)) =~= block_views(blocks@).push(block@));
            }
            blocks.push(block);
        } else {
            proof {
                assert(h[i as int] is None);
            }
        }
        i = i + 1;
    }
    blocks
}

/// Detect blocks in diff lines. Returns blocks with placeholder IDs (0).
/// The caller should assign proper IDs and seq numbers.
pub fn detect_blocks(lines: &[String]) -> (blocks: Vec<Block>)
    ensures
        block_views(blocks@) == blocks_in(texts(lines@), headers(texts(lines@))),
{
    let heads = parse_headers(lines);
    proof {
        assert(head_views(heads@).len() == headers(texts(lines@)).len());
    }
    blocks_under(lines, heads.as_slice())
}

/// The lines outside the blocks, where line `i` says `heads[i]` as a header.
pub fn text_outside(lines: &[String], heads: &[Option<(String, String)>]) -> (r: Vec<String>)
    requires
        heads@.len() == lines@.len(),
    ensures
        texts(r@) == loose_in(texts(lines@), head_views(heads@)),
{
    let ghost t = texts(lines@);
    let ghost h = head_views(heads@);
    let mut result: Vec<String> = Vec::new();
    let mut inside = false;
    let mut i: usize = 0;
    proof {
        assert(texts(result@) =~= loose_to(t, h, 0));
    }
    while i < lines.len()
        invariant
            i <= lines@.len() == heads@.len(),
            t == texts(lines@),
            h == head_views(heads@),
            inside == in_block(t, h, i - 1),
            texts(result@) == loose_to(t, h, i as int),
        decreases lines@.len() - i,
    {
        proof {
            assert(h[i as int] is Some == heads@[i as int] is Some);
            assert(t[i as int] == lines@[i as int]@);
        }
        inside = heads[i].is_some() || (inside && is_block_body_line(lines[i].as_str()));
        if !inside && !str_trim(lines[i].as_str()).is_empty() {
            let line = lines[i].clone();
            proof {
                lemma_texts_push(result@, line);
            }
            result.push(line);
        }
        i = i + 1;
    }
    result
}

/// Extract lines not covered by any block. Every line that is not blank is one of these, the
/// header of a block, or in the body of one, and no line is two of these.
pub fn extract_non_block_text(lines: &[String], _blocks: &[Block]) -> (r: Vec<String>)
    ensures
        texts(r@) == loose_in(texts(lines@), headers(texts(lines@))),
        ({
            let blocks = blocks_in(texts(lines@), headers(texts(lines@)));
            told(texts(lines@)) == r@.len() + blocks.len() + told_in_bodies(blocks)
        }),
{
    let heads = parse_headers(lines);
    proof {
        law_each_line_is_told_once(texts(lines@), headers(texts(lines@)));
        assert(head_views(heads@).len() == headers(texts(lines@)).len());
    }
    let outside = text_outside(lines, heads.as_slice());
    proof {
        assert(texts(outside@).len() == outside@.len());
    }
    outside
}

// ---------------------------------------------------------------------------------------------
// Laws

/// How many of the first `n` lines are headers.
pub open spec fn header_count(heads: Seq<Option<(Seq<char>, Seq<char>)>>, n: int) -> nat
    decreases n,
{
    if n <= 0 {
        0
    } else {
        header_count(heads, n - 1) + if heads[n - 1] is Some {
            1nat
        } else {
            0nat
        }
    }
}

/// Every header line makes one block, and nothing else does.
pub proof fn law_one_block_per_header(
    lines: Seq<Seq<char>>,
    heads: Seq<Option<(Seq<char>, Seq<char>)>>,
)
    requires
        heads.len() == lines.len(),
    ensures
        blocks_in(lines, heads).len() == header_count(heads, lines.len() as int),
{
    lemma_block_count(lines, heads, lines.len() as int);
}

proof fn lemma_block_count(
    lines: Seq<Seq<char>>,
    heads: Seq<Option<(Seq<char>, Seq<char>)>>,
    n: int,
)
    ensures
        blocks_to(lines, heads, n).len() == header_count(heads, n),
    decreases n,
{
    if n > 0 {
        lemma_block_count(lines, heads, n - 1);
    }
}

proof fn lemma_body_end(
    lines: Seq<Seq<char>>,
    heads: Seq<Option<(Seq<char>, Seq<char>)>>,
    i: int,
)
    requires
        0 <= i <= lines.len(),
    ensures
        i <= body_end(lines, heads, i) <= lines.len(),
        forall|k: int|
            i <= k < body_end(lines, heads, i) ==> #[trigger] carries_on(lines, heads, k),
    decreases lines.len() - i,
{
    if i < lines.len() && carries_on(lines, heads, i) {
        lemma_body_end(lines, heads, i + 1);
    }
}

/// Lines from `i` on that can all stand in a body, none of them a header, are all passed over.
proof fn lemma_body_reaches(
    lines: Seq<Seq<char>>,
    heads: Seq<Option<(Seq<char>, Seq<char>)>>,
    i: int,
    k: int,
)
    requires
        0 <= i <= k < lines.len(),
        forall|m: int| i <= m <= k ==> #[trigger] carries_on(lines, heads, m),
    ensures
        k < body_end(lines, heads, i),
    decreases k - i,
{
    assert(carries_on(lines, heads, i));
    if i < k {
        lemma_body_reaches(lines, heads, i + 1, k);
    } else {
        lemma_body_end(lines, heads, i + 1);
    }
}

/// Whether line `i` belongs to the block whose header is line `j`.
pub open spec fn covered_by(
    lines: Seq<Seq<char>>,
    heads: Seq<Option<(Seq<char>, Seq<char>)>>,
    i: int,
    j: int,
) -> bool {
    heads[j] is Some && j <= i < body_end(lines, heads, j + 1)
}

/// The text outside the blocks leaves out exactly the lines that the blocks cover, and blank
/// lines: a line stands in a block just when some header reaches it.
pub proof fn law_outside_is_uncovered(
    lines: Seq<Seq<char>>,
    heads: Seq<Option<(Seq<char>, Seq<char>)>>,
    i: int,
)
    requires
        heads.len() == lines.len(),
        0 <= i < lines.len(),
    ensures
        in_block(lines, heads, i) <==> exists|j: int|
            0 <= j <= i && #[trigger] covered_by(lines, heads, i, j),
{
    if in_block(lines, heads, i) {
        let j = lemma_header_above(lines, heads, i);
        if j < i {
            lemma_body_reaches(lines, heads, j + 1, i);
        } else {
            lemma_body_end(lines, heads, j + 1);
        }
        assert(covered_by(lines, heads, i, j));
    }
    if exists|j: int| 0 <= j <= i && #[trigger] covered_by(lines, heads, i, j) {
        let j = choose|j: int| 0 <= j <= i && #[trigger] covered_by(lines, heads, i, j);
        lemma_below_header(lines, heads, i, j);
    }
}

proof fn lemma_header_above(
    lines: Seq<Seq<char>>,
    heads: Seq<Option<(Seq<char>, Seq<char>)>>,
    i: int,
) -> (j: int)
    requires
        0 <= i < lines.len(),
        in_block(lines, heads, i),
    ensures
        0 <= j <= i,
        heads[j] is Some,
        forall|m: int| j < m <= i ==> #[trigger] carries_on(lines, heads, m),
    decreases i,
{
    if heads[i] is Some {
        i
    } else {
        assert(in_block(lines, heads, i - 1));
        lemma_header_above(lines, heads, i - 1)
    }
}

proof fn lemma_below_header(
    lines: Seq<Seq<char>>,
    heads: Seq<Option<(Seq<char>, Seq<char>)>>,
    i: int,
    j: int,
)
    requires
        0 <= j <= i < lines.len(),
        covered_by(lines, heads, i, j),
    ensures
        in_block(lines, heads, i),
    decreases i - j,
{
    if j < i {
        lemma_below_header(lines, heads, i - 1, j);
        lemma_body_end(lines, heads, j + 1);
        assert(carries_on(lines, heads, i));
    }
}

/// The body of a block is made of the lines right under its header, each of them empty or
/// indented, and does not end in a blank line.
pub proof fn law_body_lines(
    lines: Seq<Seq<char>>,
    heads: Seq<Option<(Seq<char>, Seq<char>)>>,
    i: int,
)
    requires
        heads.len() == lines.len(),
        0 <= i < lines.len(),
    ensures
        ({
            let body = block_at(lines, heads, i).body;
            &&& i + 1 + body.len() <= lines.len()
            &&& body == lines.subrange(i + 1, i + 1 + body.len())
            &&& body.len() > 0 ==> trim(body.last()).len() > 0
            &&& forall|k: int| 0 <= k < body.len() ==> #[trigger] is_body(body[k])
        }),
{
    lemma_body_end(lines, heads, i + 1);
    let whole = lines.subrange(i + 1, body_end(lines, heads, i + 1));
    lemma_blank_end(whole);
    let body = without_blank_end(whole);
    assert(body =~= lines.subrange(i + 1, i + 1 + body.len()));
    assert forall|k: int| 0 <= k < body.len() implies #[trigger] is_body(body[k]) by {
        assert(carries_on(lines, heads, i + 1 + k));
    }
}

proof fn lemma_blank_end(lines: Seq<Seq<char>>)
    ensures
        without_blank_end(lines).len() <= lines.len(),
        without_blank_end(lines) == lines.take(without_blank_end(lines).len() as int),
        without_blank_end(lines).len() > 0 ==> trim(without_blank_end(lines).last()).len() > 0,
    decreases lines.len(),
{
    if lines.len() > 0 && trim(lines.last()).len() == 0 {
        let rest = lines.drop_last();
        lemma_blank_end(rest);
        let n = without_blank_end(rest).len() as int;
        assert(rest.take(n) =~= lines.take(n));
    } else {
        assert(lines.take(lines.len() as int) =~= lines);
    }
}

/// The text outside the blocks is made of lines in the order in which they stood, each where no
/// block is, so that none is a header, and none blank. The result says where each line stood.
pub proof fn law_outside_keeps_order(
    lines: Seq<Seq<char>>,
    heads: Seq<Option<(Seq<char>, Seq<char>)>>,
) -> (places: Seq<int>)
    requires
        heads.len() == lines.len(),
    ensures
        places.len() == loose_in(lines, heads).len(),
        forall|k: int|
            0 <= k < places.len() ==> 0 <= #[trigger] places[k] < lines.len() && loose_in(
                lines,
                heads,
            )[k] == lines[places[k]] && heads[places[k]] is None && !in_block(
                lines,
                heads,
                places[k],
            ) && trim(lines[places[k]]).len() > 0,
        forall|j: int, k: int| 0 <= j < k < places.len() ==> #[trigger] places[j]
            < #[trigger] places[k],
{
    lemma_loose_places(lines, heads, lines.len() as int)
}

proof fn lemma_loose_places(
    lines: Seq<Seq<char>>,
    heads: Seq<Option<(Seq<char>, Seq<char>)>>,
    n: int,
) -> (places: Seq<int>)
    requires
        0 <= n <= lines.len(),
    ensures
        places.len() == loose_to(lines, heads, n).len(),
        forall|k: int|
            0 <= k < places.len() ==> 0 <= #[trigger] places[k] < n && loose_to(
                lines,
                heads,
                n,
            )[k] == lines[places[k]] && heads[places[k]] is None && !in_block(
                lines,
                heads,
                places[k],
            ) && trim(lines[places[k]]).len() > 0,
        forall|j: int, k: int| 0 <= j < k < places.len() ==> #[trigger] places[j]
            < #[trigger] places[k],
    decreases n,
{
    if n <= 0 {
        seq![]
    } else {
        let before = lemma_loose_places(lines, heads, n - 1);
        if !in_block(lines, heads, n - 1) && trim(lines[n - 1]).len() > 0 {
            before.push(n - 1)
        } else {
            before
        }
    }
}

/// How many of the lines are not blank.
pub open spec fn told(lines: Seq<Seq<char>>) -> nat
    decreases lines.len(),
{
    if lines.len() == 0 {
        0
    } else {
        told(lines.drop_last()) + if trim(lines.last()).len() > 0 {
            1nat
        } else {
            0nat
        }
    }
}

/// How many lines in the bodies of blocks are not blank.
pub open spec fn told_in_bodies(blocks: Seq<BlockView>) -> nat
    decreases blocks.len(),
{
    if blocks.len() == 0 {
        0
    } else {
        told_in_bodies(blocks.drop_last()) + told(blocks.last().body)
    }
}

/// How many of the first `n` lines are headers or not blank.
pub open spec fn told_to(
    lines: Seq<Seq<char>>,
    heads: Seq<Option<(Seq<char>, Seq<char>)>>,
    n: int,
) -> nat
    decreases n,
{
    if n <= 0 {
        0
    } else {
        told_to(lines, heads, n - 1) + if heads[n - 1] is Some || trim(lines[n - 1]).len() > 0 {
            1nat
        } else {
            0nat
        }
    }
}

/// No line is lost and none is told twice: each line that is a header or not blank is the header
/// of a block, stands in the body of a block, or stands outside the blocks, and in just one of
/// these. Where no header is blank these are the lines that are not blank.
pub proof fn law_each_line_is_told_once(
    lines: Seq<Seq<char>>,
    heads: Seq<Option<(Seq<char>, Seq<char>)>>,
)
    requires
        heads.len() == lines.len(),
    ensures
        told_to(lines, heads, lines.len() as int) == loose_in(lines, heads).len() + blocks_in(
            lines,
            heads,
        ).len() + told_in_bodies(blocks_in(lines, heads)),
        no_blank_header(lines, heads) ==> told(lines) == loose_in(lines, heads).len() + blocks_in(
            lines,
            heads,
        ).len() + told_in_bodies(blocks_in(lines, heads)),
{
    let n = lines.len() as int;
    lemma_bodies_before(lines, heads, n);
    assert(!in_block(lines, heads, -1));
    lemma_bodies_are_inside(lines, heads, 0);
    lemma_lines_before(lines, heads, n);
    lemma_block_count(lines, heads, n);
    if no_blank_header(lines, heads) {
        lemma_told_to(lines, heads, n);
        assert(lines.take(n) =~= lines);
    }
}

/// How many lines that are not blank stand in the bodies of the blocks whose headers are line
/// `i` or stand below it.
spec fn bodies_from(
    lines: Seq<Seq<char>>,
    heads: Seq<Option<(Seq<char>, Seq<char>)>>,
    i: int,
) -> nat
    decreases lines.len() - i,
{
    if i >= lines.len() {
        0
    } else {
        bodies_from(lines, heads, i + 1) + if heads[i] is Some {
            told(block_at(lines, heads, i).body)
        } else {
            0
        }
    }
}

/// How many lines from `i` on stand in a block, are no header, and are not blank.
spec fn inside_from(
    lines: Seq<Seq<char>>,
    heads: Seq<Option<(Seq<char>, Seq<char>)>>,
    i: int,
) -> nat
    decreases lines.len() - i,
{
    if i >= lines.len() {
        0
    } else {
        inside_from(lines, heads, i + 1) + if heads[i] is None && in_block(lines, heads, i) && trim(
            lines[i],
        ).len() > 0 {
            1nat
        } else {
            0nat
        }
    }
}

proof fn lemma_told_without_end(lines: Seq<Seq<char>>)
    ensures
        told(without_blank_end(lines)) == told(lines),
    decreases lines.len(),
{
    if lines.len() > 0 && trim(lines.last()).len() == 0 {
        lemma_told_without_end(lines.drop_last());
    }
}

proof fn lemma_told_to(
    lines: Seq<Seq<char>>,
    heads: Seq<Option<(Seq<char>, Seq<char>)>>,
    n: int,
)
    requires
        0 <= n <= lines.len(),
        no_blank_header(lines, heads),
    ensures
        told_to(lines, heads, n) == told(lines.take(n)),
    decreases n,
{
    if n > 0 {
        lemma_told_to(lines, heads, n - 1);
        assert(lines.take(n).drop_last() =~= lines.take(n - 1));
        assert(lines.take(n).last() == lines[n - 1]);
    }
}

proof fn lemma_bodies_before(
    lines: Seq<Seq<char>>,
    heads: Seq<Option<(Seq<char>, Seq<char>)>>,
    n: int,
)
    requires
        0 <= n <= lines.len(),
    ensures
        told_in_bodies(blocks_to(lines, heads, n)) + bodies_from(lines, heads, n) == bodies_from(
            lines,
            heads,
            0,
        ),
    decreases n,
{
    if n > 0 {
        lemma_bodies_before(lines, heads, n - 1);
        let before = blocks_to(lines, heads, n - 1);
        if heads[n - 1] is Some {
            assert(before.push(block_at(lines, heads, n - 1)).drop_last() =~= before);
        }
    }
}

proof fn lemma_lines_before(
    lines: Seq<Seq<char>>,
    heads: Seq<Option<(Seq<char>, Seq<char>)>>,
    n: int,
)
    requires
        0 <= n <= lines.len(),
    ensures
        told_to(lines, heads, n) + inside_from(lines, heads, n) == loose_to(lines, heads, n).len()
            + header_count(heads, n) + inside_from(lines, heads, 0),
    decreases n,
{
    if n > 0 {
        lemma_lines_before(lines, heads, n - 1);
    }
}

/// The lines under the header `i`, up to line `k` of its body.
proof fn lemma_body_span(
    lines: Seq<Seq<char>>,
    heads: Seq<Option<(Seq<char>, Seq<char>)>>,
    i: int,
    k: int,
)
    requires
        0 <= i < lines.len(),
        heads[i] is Some,
        i + 1 <= k <= body_end(lines, heads, i + 1),
    ensures
        bodies_from(lines, heads, k) == bodies_from(lines, heads, i + 1),
        told(lines.subrange(i + 1, k)) + inside_from(lines, heads, k) == inside_from(
            lines,
            heads,
            i + 1,
        ),
    decreases k - i,
{
    lemma_body_end(lines, heads, i + 1);
    if k > i + 1 {
        lemma_body_span(lines, heads, i, k - 1);
        assert(carries_on(lines, heads, k - 1));
        assert(covered_by(lines, heads, k - 1, i));
        lemma_below_header(lines, heads, k - 1, i);
        assert(lines.subrange(i + 1, k).drop_last() =~= lines.subrange(i + 1, k - 1));
        assert(lines.subrange(i + 1, k).last() == lines[k - 1]);
    }
}

/// From a line on that carries no body on, the lines inside blocks are those of their bodies.
proof fn lemma_bodies_are_inside(
    lines: Seq<Seq<char>>,
    heads: Seq<Option<(Seq<char>, Seq<char>)>>,
    i: int,
)
    requires
        0 <= i <= lines.len(),
        i == lines.len() || heads[i] is Some || !in_block(lines, heads, i),
    ensures
        bodies_from(lines, heads, i) == inside_from(lines, heads, i),
    decreases lines.len() - i,
{
    if i < lines.len() {
        if heads[i] is Some {
            let end = body_end(lines, heads, i + 1);
            lemma_body_end(lines, heads, i + 1);
            lemma_past_body(lines, heads, i + 1);
            lemma_body_span(lines, heads, i, end);
            lemma_told_without_end(lines.subrange(i + 1, end));
            lemma_bodies_are_inside(lines, heads, end);
        } else {
            lemma_bodies_are_inside(lines, heads, i + 1);
        }
    }
}

/// The line at which a body ends does not carry it on.
proof fn lemma_past_body(
    lines: Seq<Seq<char>>,
    heads: Seq<Option<(Seq<char>, Seq<char>)>>,
    i: int,
)
    ensures
        body_end(lines, heads, i) < lines.len() ==> !carries_on(
            lines,
            heads,
            body_end(lines, heads, i),
        ),
    decreases lines.len() - i,
{
    if i < lines.len() && carries_on(lines, heads, i) {
        lemma_past_body(lines, heads, i + 1);
    }
}

/// Which lines stand in the body of a block, said of their characters: the lines right under its
/// header that are empty or start with a blank or a tab, up to the first header or other line.
/// Of these the blank ones at the end are left out, and no others.
pub proof fn law_body_is_indented(
    lines: Seq<Seq<char>>,
    heads: Seq<Option<(Seq<char>, Seq<char>)>>,
    i: int,
) -> (end: int)
    requires
        heads.len() == lines.len(),
        0 <= i < lines.len(),
    ensures
        ({
            let body = block_at(lines, heads, i).body;
            &&& i + 1 + body.len() <= end <= lines.len()
            &&& forall|k: int|
                0 <= k < body.len() ==> #[trigger] body[k] == lines[i + 1 + k] && (body[k].len()
                    == 0 || body[k][0] == ' ' || body[k][0] == '\t') && heads[i + 1 + k] is None
            &&& body.len() > 0 ==> trim(body.last()).len() > 0
            &&& forall|k: int|
                i + 1 + body.len() <= k < end ==> trim(#[trigger] lines[k]).len() == 0
            &&& end < lines.len() ==> heads[end] is Some || (lines[end].len() > 0 && lines[end][0]
                != ' ' && lines[end][0] != '\t')
        }),
{
    law_body_lines(lines, heads, i);
    lemma_body_end(lines, heads, i + 1);
    lemma_past_body(lines, heads, i + 1);
    let end = body_end(lines, heads, i + 1);
    let body = block_at(lines, heads, i).body;
    assert forall|k: int| 0 <= k < body.len() implies #[trigger] body[k] == lines[i + 1 + k] && (
    body[k].len() == 0 || body[k][0] == ' ' || body[k][0] == '\t') && heads[i + 1 + k] is None by {
        assert(is_body(body[k]));
        lemma_blank_end(lines.subrange(i + 1, end));
        assert(carries_on(lines, heads, i + 1 + k));
    }
    let whole = lines.subrange(i + 1, end);
    lemma_blank_rest(whole);
    lemma_blank_end(whole);
    assert forall|k: int| i + 1 + body.len() <= k < end implies trim(
        #[trigger] lines[k],
    ).len() == 0 by {
        assert(whole[k - i - 1] == lines[k]);
    }
    end
}

proof fn lemma_blank_rest(lines: Seq<Seq<char>>)
    ensures
        forall|k: int|
            without_blank_end(lines).len() <= k < lines.len() ==> trim(#[trigger] lines[k]).len()
                == 0,
    decreases lines.len(),
{
    if lines.len() > 0 && trim(lines.last()).len() == 0 {
        let rest = lines.drop_last();
        lemma_blank_rest(rest);
        assert forall|k: int| without_blank_end(lines).len() <= k < lines.len() implies trim(
            #[trigger] lines[k],
        ).len() == 0 by {
            if k < rest.len() {
                assert(rest[k] == lines[k]);
            }
        }
    }
}

/// What an agent says at the start of a line is never lost in a block: a line that is no header,
/// is not blank, and starts with something else than a blank or a tab stands outside the blocks.
pub proof fn law_unindented_text_is_outside(
    lines: Seq<Seq<char>>,
    heads: Seq<Option<(Seq<char>, Seq<char>)>>,
    i: int,
)
    requires
        heads.len() == lines.len(),
        0 <= i < lines.len(),
        heads[i] is None,
        lines[i].len() > 0,
        lines[i][0] != ' ',
        lines[i][0] != '\t',
        trim(lines[i]).len() > 0,
    ensures
        !in_block(lines, heads, i),
        loose_in(lines, heads).contains(lines[i]),
{
    lemma_loose_holds(lines, heads, i, lines.len() as int);
}

proof fn lemma_loose_holds(
    lines: Seq<Seq<char>>,
    heads: Seq<Option<(Seq<char>, Seq<char>)>>,
    i: int,
    n: int,
)
    requires
        0 <= i < n <= lines.len(),
        !in_block(lines, heads, i),
        trim(lines[i]).len() > 0,
    ensures
        loose_to(lines, heads, n).contains(lines[i]),
    decreases n,
{
    let all = loose_to(lines, heads, n);
    if i == n - 1 {
        assert(all[all.len() - 1] == lines[i]);
    } else {
        lemma_loose_holds(lines, heads, i, n - 1);
        let before = loose_to(lines, heads, n - 1);
        let k = before.index_of(lines[i]);
        assert(all[k] == lines[i]);
    }
}

/// An indented line right under a header, or under a line of a block, belongs to the block.
pub proof fn law_indented_text_is_inside(
    lines: Seq<Seq<char>>,
    heads: Seq<Option<(Seq<char>, Seq<char>)>>,
    i: int,
)
    requires
        heads.len() == lines.len(),
        0 < i < lines.len(),
        heads[i - 1] is Some || in_block(lines, heads, i - 1),
        lines[i].len() == 0 || lines[i][0] == ' ' || lines[i][0] == '\t',
    ensures
        in_block(lines, heads, i),
{
    assert(in_block(lines, heads, i - 1));
}

/// The blocks come in the order of their headers, one for each header and with what it says, and
/// with no number yet. The result says at which line each has its header.
pub proof fn law_blocks_follow_their_headers(
    lines: Seq<Seq<char>>,
    heads: Seq<Option<(Seq<char>, Seq<char>)>>,
) -> (places: Seq<int>)
    requires
        heads.len() == lines.len(),
    ensures
        places.len() == blocks_in(lines, heads).len(),
        forall|j: int, k: int|
            0 <= j < k < places.len() ==> #[trigger] places[j] < #[trigger] places[k],
        forall|k: int|
            0 <= k < places.len() ==> 0 <= #[trigger] places[k] < lines.len() && heads[places[k]]
                == Some((blocks_in(lines, heads)[k].block_type, blocks_in(lines, heads)[k].header))
                && blocks_in(lines, heads)[k].body == block_at(lines, heads, places[k]).body
                && blocks_in(lines, heads)[k].id == 0 && blocks_in(lines, heads)[k].seq == 0,
        forall|i: int| 0 <= i < lines.len() && heads[i] is Some ==> #[trigger] places.contains(i),
{
    lemma_block_places(lines, heads, lines.len() as int)
}

proof fn lemma_block_places(
    lines: Seq<Seq<char>>,
    heads: Seq<Option<(Seq<char>, Seq<char>)>>,
    n: int,
) -> (places: Seq<int>)
    requires
        heads.len() == lines.len(),
        0 <= n <= lines.len(),
    ensures
        places.len() == blocks_to(lines, heads, n).len(),
        forall|j: int, k: int|
            0 <= j < k < places.len() ==> #[trigger] places[j] < #[trigger] places[k],
        forall|k: int|
            0 <= k < places.len() ==> 0 <= #[trigger] places[k] < n && heads[places[k]] is Some
                && blocks_to(lines, heads, n)[k] == block_at(lines, heads, places[k]),
        forall|i: int| 0 <= i < n && heads[i] is Some ==> #[trigger] places.contains(i),
    decreases n,
{
    if n <= 0 {
        seq![]
    } else {
        let before = lemma_block_places(lines, heads, n - 1);
        if heads[n - 1] is Some {
            let places = before.push(n - 1);
            assert forall|i: int| 0 <= i < n && heads[i] is Some implies #[trigger] places.contains(
                i,
            ) by {
                if i == n - 1 {
                    assert(places[before.len() as int] == i);
                } else {
                    assert(before.contains(i));
                    let k = before.index_of(i);
                    assert(places[k] == i);
                }
            }
            places
        } else {
            before
        }
    }
}

/// What a header says: what was done, in small letters and with a command for what was run, and
/// the line without its bullets and the white space at its ends. A line in which the pattern finds
/// no such word is no header.
pub proof fn law_what_a_header_says(line: Seq<char>)
    ensures
        ({
            let word = group(
                captures_of("^[•]\\s+(Edited|Created|Deleted|Ran|Read)\\s+(.+)$"@, line),
                1,
            );
            &&& header(line) is Some <==> word is Some
            &&& header(line) is Some ==> {
                let (block_type, text) = header(line)->0;
                &&& folded(word->0) == "ran"@ ==> block_type == "ran_command"@
                &&& folded(word->0) != "ran"@ ==> block_type == folded(word->0)
                &&& exists|n: int|
                    0 <= n <= line.len() && text == trim(#[trigger] line.skip(n)) && (n
                        == line.len() || line[n] != '•') && forall|k: int|
                        0 <= k < n ==> line[k] == '•'
            }
        }),
{
    lemma_bullets(line);
}

proof fn lemma_bullets(line: Seq<char>)
    ensures
        exists|n: int|
            0 <= n <= line.len() && strip_leading(line, '•') == #[trigger] line.skip(n) && (n
                == line.len() || line[n] != '•') && forall|k: int| 0 <= k < n ==> line[k] == '•',
    decreases line.len(),
{
    if line.len() > 0 && line[0] == '•' {
        let rest = line.skip(1);
        lemma_bullets(rest);
        let n = choose|n: int|
            0 <= n <= rest.len() && strip_leading(rest, '•') == #[trigger] rest.skip(n) && (n
                == rest.len() || rest[n] != '•') && forall|k: int| 0 <= k < n ==> rest[k] == '•';
        assert(line.skip(n + 1) =~= rest.skip(n));
        assert forall|k: int| 0 <= k < n + 1 implies line[k] == '•' by {
            if k > 0 {
                assert(rest[k - 1] == line[k]);
            }
        }
        assert(n == rest.len() || rest[n] == line[n + 1]);
    } else {
        assert(line.skip(0) =~= line);
    }
}

/// What [`detect_blocks`] puts into the body of a block: only lines that are empty or start with
/// a blank or a tab.
pub proof fn law_detected_bodies_are_indented(lines: &[String], blocks: Vec<Block>, k: int, j: int)
    requires
        call_ensures(detect_blocks, (lines,), blocks),
        0 <= k < blocks@.len(),
        0 <= j < blocks@[k].body@.len(),
    ensures
        ({
            let line = blocks@[k].body@[j]@;
            line.len() == 0 || line[0] == ' ' || line[0] == '\t'
        }),
{
    let t = texts(lines@);
    let heads = headers(t);
    let places = law_blocks_follow_their_headers(t, heads);
    let views = block_views(blocks@);
    assert(views[k] == blocks@[k]@);
    let i = places[k];
    let end = law_body_is_indented(t, heads, i);
    assert(texts(blocks@[k].body@)[j] == blocks@[k].body@[j]@);
    assert(block_at(t, heads, i).body[j] == blocks@[k].body@[j]@);
}

/// What [`extract_non_block_text`] never leaves out: a line that is not blank, is no header and
/// starts with something else than a blank or a tab.
pub proof fn law_extracted_text_has_the_unindented(
    lines: &[String],
    blocks: &[Block],
    r: Vec<String>,
    i: int,
)
    requires
        call_ensures(extract_non_block_text, (lines, blocks), r),
        0 <= i < lines@.len(),
        header(lines@[i]@) is None,
        lines@[i]@.len() > 0,
        lines@[i]@[0] != ' ',
        lines@[i]@[0] != '\t',
        trim(lines@[i]@).len() > 0,
    ensures
        exists|k: int| 0 <= k < r@.len() && (#[trigger] r@[k])@ == lines@[i]@,
{
    let t = texts(lines@);
    assert(t[i] == lines@[i]@);
    law_unindented_text_is_outside(t, headers(t), i);
    let all = texts(r@);
    let k = all.index_of(t[i]);
    assert(all[k] == r@[k]@);
}

} // verus!
