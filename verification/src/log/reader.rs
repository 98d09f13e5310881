//! Reading a log: one message per line, in JSON.
use crate::fields::{by_name, items_by_name, strings_in};
use crate::json::{parsed, Json, JsonModel};
use crate::log::codec::{
    law_message_round_trip, lemma_message_path, log_view, message_model, message_said,
};
use crate::log::form::{
    block_fields, block_names, document_on, lemma_all_kept, message_names, read_document, Form,
};
use crate::log::record::{log_views, LogMessage, LogView};
use crate::outline::{law_what_is_repeated, paths, repeats, tidy, StepModel};
use crate::parser::blocks::{block_views, Block, BlockView};
use crate::protocol::need_texts;
use crate::text::{
    chomp, is_space, lemma_span, lemma_span_bound, lines_of, span, str_lines, str_trim, texts, trim,
    trim_end, trim_start,
};
use vstd::prelude::*;

verus! {

/// Why a log cannot be read: a line holds no message, or the number after a message's number
/// has more than 64 bits.
#[derive(Debug, Clone, PartialEq, Eq)]
pub enum LogError {
    BadLine(String),
    NoNextNumber,
}

/// The message on a line. What a message has no field for is passed over, and a line that gives
/// a field twice has none.
pub open spec fn message_on(line: Seq<char>) -> Option<LogView> {
    match document_on(Form::Message, line) {
        Some(document) => message_said(document),
        None => None,
    }
}

/// A message is on the line that was written of it.
pub proof fn lemma_message_line(line: Seq<char>, message: LogView)
    requires
        parsed(line) == Some(message_model(message)),
        tidy(line, message_model(message)),
    ensures
        message_on(line) == Some(message),
{
    law_message_round_trip(message);
    assert forall|i: int| 0 <= i < paths(line).len() implies Form::Message.strange(
        #[trigger] paths(line)[i],
    ) == 0 by {
        lemma_message_path(message, paths(line)[i]);
    }
    lemma_all_kept(Form::Message, line);
}

/// The messages on the first `n` lines, if each line that is not blank has one.
pub open spec fn entries_to(lines: Seq<Seq<char>>, n: int) -> Option<Seq<LogView>>
    decreases n,
{
    if n <= 0 {
        Some(seq![])
    } else {
        match entries_to(lines, n - 1) {
            None => None,
            Some(before) => if trim(lines[n - 1]).len() == 0 {
                Some(before)
            } else {
                match message_on(lines[n - 1]) {
                    Some(message) => Some(before.push(message)),
                    None => None,
                }
            },
        }
    }
}

/// The messages of a log.
pub open spec fn entries(text: Seq<char>) -> Option<Seq<LogView>> {
    entries_to(lines_of(text), lines_of(text).len() as int)
}

proof fn lemma_entries_stop(lines: Seq<Seq<char>>, i: int, n: int)
    requires
        0 <= i <= n,
        entries_to(lines, i) is None,
    ensures
        entries_to(lines, n) is None,
    decreases n - i,
{
    if i < n {
        lemma_entries_stop(lines, i, n - 1);
    }
}

/// Whether a line that is not blank has no message.
pub open spec fn is_bad(line: Seq<char>) -> bool {
    trim(line).len() > 0 && message_on(line) is None
}

/// Whether `line` is the first of the lines that is not blank and has no message.
pub open spec fn first_bad(lines: Seq<Seq<char>>, line: Seq<char>) -> bool {
    exists|i: int|
        0 <= i < lines.len() && #[trigger] lines[i] == line && is_bad(line) && forall|j: int|
            0 <= j < i ==> !is_bad(#[trigger] lines[j])
}

/// The message on a line.
fn read_line(line: &str) -> (r: Option<LogMessage>)
    ensures
        log_view(r) == message_on(line@),
{
    match read_document(Form::Message, line) {
        Some(json) => LogMessage::from_json(&json),
        None => None,
    }
}

/// Read all log messages from the contents of a JSONL file.
pub fn read_all(contents: &str) -> (r: Result<Vec<LogMessage>, LogError>)
    ensures
        match r {
            Ok(messages) => entries(contents@) == Some(log_views(messages@)),
            Err(LogError::BadLine(line)) => {
                &&& entries(contents@) is None
                &&& first_bad(lines_of(contents@), line@)
            },
            Err(_) => false,
        },
{
    let lines = str_lines(contents);
    let ghost t = lines_of(contents@);
    let mut messages: Vec<LogMessage> = Vec::new();
    let mut i: usize = 0;
    proof {
        assert(log_views(messages@) =~= seq![]);
    }
    while i < lines.len()
        invariant
            i <= lines@.len(),
            t == texts(lines@),
            t == lines_of(contents@),
            entries_to(t, i as int) == Some(log_views(messages@)),
            forall|j: int| 0 <= j < i ==> !is_bad(#[trigger] t[j]),
        decreases lines@.len() - i,
    {
        let line = &lines[i];
        proof {
            assert(t[i as int] == line@);
        }
        if !str_trim(line.as_str()).is_empty() {
            match read_line(line.as_str()) {
                Some(message) => {
                    proof {
                        assert(log_views(messages@.push(message)) =~= log_views(messages@).push(
                            message@,
                        ));
                    }
                    messages.push(message);
                },
                None => {
                    proof {
                        lemma_entries_stop(t, i + 1, t.len() as int);
                    }
                    return Err(LogError::BadLine(line.clone()));
                },
            }
        }
        i = i + 1;
    }
    Ok(messages)
}

// ---------------------------------------------------------------------------------------------
// Reading on

/// The messages with a number of `since` or more.
pub open spec fn from_number(messages: Seq<LogView>, since: u64) -> Seq<LogView> {
    messages.filter(|m: LogView| m.seq >= since)
}

/// The messages with a number of `since` or more.
pub fn messages_since(messages: Vec<LogMessage>, since: u64) -> (r: Vec<LogMessage>)
    ensures
        log_views(r@) == from_number(log_views(messages@), since),
{
    let ghost all = log_views(messages@);
    let ghost keep = |m: LogView| m.seq >= since;
    let mut out: Vec<LogMessage> = Vec::new();
    proof {
        assert(all.take(0) =~= seq![]);
        assert(log_views(out@) =~= all.take(0).filter(keep)) by {
            reveal(Seq::filter);
        }
    }
    for message in it: messages
        invariant
            all == log_views(it.seq()),
            keep == (|m: LogView| m.seq >= since),
            log_views(out@) == all.take(it.index() as int).filter(keep),
    {
        proof {
            let i = it.index() as int;
            assert(all.take(i + 1) =~= all.take(i).push(message@));
            assert(all.take(i).push(message@).drop_last() =~= all.take(i));
            reveal(Seq::filter);
        }
        if message.seq >= since {
            proof {
                assert(log_views(out@.push(message)) =~= log_views(out@).push(message@));
            }
            out.push(message);
        }
    }
    proof {
        assert(all.take(all.len() as int) =~= all);
    }
    out
}

/// Read log messages with seq >= since.
pub fn read_since(contents: &str, since: u64) -> (r: Result<Vec<LogMessage>, LogError>)
    ensures
        match r {
            Ok(messages) => entries(contents@) is Some && log_views(messages@) == from_number(
                entries(contents@)->0,
                since,
            ),
            Err(LogError::BadLine(line)) => {
                &&& entries(contents@) is None
                &&& first_bad(lines_of(contents@), line@)
            },
            Err(_) => false,
        },
{
    match read_all(contents) {
        Ok(messages) => Ok(messages_since(messages, since)),
        Err(e) => Err(e),
    }
}

/// The number after the highest number of the messages, or `cursor` where there is none.
pub open spec fn cursor_after(messages: Seq<LogView>, cursor: int) -> int
    decreases messages.len(),
{
    if messages.len() == 0 {
        cursor
    } else if messages.len() == 1 {
        messages[0].seq + 1
    } else {
        let before = cursor_after(messages.drop_last(), cursor);
        if messages.last().seq + 1 > before {
            messages.last().seq + 1
        } else {
            before
        }
    }
}

/// The number after the highest number of the messages, or `cursor` where there is none. `None`
/// says that it has more than 64 bits.
pub fn next_cursor(messages: &[LogMessage], cursor: u64) -> (r: Option<u64>)
    ensures
        match r {
            Some(next) => cursor_after(log_views(messages@), cursor as int) == next,
            None => cursor_after(log_views(messages@), cursor as int) > u64::MAX,
        },
{
    let ghost all = log_views(messages@);
    let mut next: u64 = cursor;
    let mut i: usize = 0;
    proof {
        assert(all.take(0) =~= seq![]);
    }
    while i < messages.len()
        invariant
            i <= messages@.len(),
            all == log_views(messages@),
            cursor_after(all.take(i as int), cursor as int) == next,
        decreases messages@.len() - i,
    {
        proof {
            assert(all.take(i + 1).drop_last() =~= all.take(i as int));
            assert(all.take(i + 1).last() == messages@[i as int]@);
        }
        let seq: u64 = messages[i].seq;
        if seq == u64::MAX {
            proof {
                lemma_cursor_grows(all, i + 1, all.len() as int, cursor as int);
                assert(all.take(all.len() as int) =~= all);
            }
            return None;
        }
        if i == 0 || seq + 1 > next {
            next = seq + 1;
        }
        i = i + 1;
    }
    proof {
        assert(all.take(all.len() as int) =~= all);
    }
    Some(next)
}

proof fn lemma_cursor_grows(all: Seq<LogView>, i: int, n: int, cursor: int)
    requires
        0 < i <= n <= all.len(),
    ensures
        cursor_after(all.take(i), cursor) <= cursor_after(all.take(n), cursor),
    decreases n - i,
{
    if i < n {
        lemma_cursor_grows(all, i, n - 1, cursor);
        assert(all.take(n).drop_last() =~= all.take(n - 1));
    }
}

/// Read unread messages (seq >= cursor) and return the new cursor.
pub fn read_unread(contents: &str, cursor: u64) -> (r: Result<(Vec<LogMessage>, u64), LogError>)
    ensures
        match r {
            Ok((messages, next)) => {
                &&& entries(contents@) is Some
                &&& log_views(messages@) == from_number(entries(contents@)->0, cursor)
                &&& next == cursor_after(log_views(messages@), cursor as int)
            },
            Err(LogError::BadLine(line)) => {
                &&& entries(contents@) is None
                &&& first_bad(lines_of(contents@), line@)
            },
            Err(LogError::NoNextNumber) => {
                &&& entries(contents@) is Some
                &&& cursor_after(from_number(entries(contents@)->0, cursor), cursor as int)
                    > u64::MAX
            },
        },
{
    match read_since(contents, cursor) {
        Ok(messages) => match next_cursor(messages.as_slice(), cursor) {
            Some(next) => Ok((messages, next)),
            None => Err(LogError::NoNextNumber),
        },
        Err(e) => Err(e),
    }
}

// ---------------------------------------------------------------------------------------------
// Blocks

/// The block that a document says with its fields under their names.
pub open spec fn block_in(m: JsonModel) -> Option<BlockView> {
    match (
        m.need_nat("id"@, u64::MAX),
        m.need_text("block_type"@),
        m.need_text("header"@),
        need_texts(m, "body"@),
        m.need_nat("seq"@, u64::MAX),
    ) {
        (Some(id), Some(block_type), Some(header), Some(body), Some(seq)) => Some(
            BlockView { id, block_type, header, body, seq },
        ),
        _ => None,
    }
}

/// The block that a document says: an object, or an array of the fields in order.
pub open spec fn block_said(document: JsonModel) -> Option<BlockView> {
    block_in(by_name(document, block_names(), 5))
}

/// The block on a line. What a block has no field for is passed over, and a line that gives a
/// field twice has none.
pub open spec fn block_on(line: Seq<char>) -> Option<BlockView> {
    match document_on(Form::Block, line) {
        Some(document) => block_said(document),
        None => None,
    }
}

/// The blocks on the first `n` lines, if each line that is not blank has one.
pub open spec fn blocks_on_to(lines: Seq<Seq<char>>, n: int) -> Option<Seq<BlockView>>
    decreases n,
{
    if n <= 0 {
        Some(seq![])
    } else {
        match blocks_on_to(lines, n - 1) {
            None => None,
            Some(before) => if trim(lines[n - 1]).len() == 0 {
                Some(before)
            } else {
                match block_on(lines[n - 1]) {
                    Some(block) => Some(before.push(block)),
                    None => None,
                }
            },
        }
    }
}

proof fn lemma_blocks_stop(lines: Seq<Seq<char>>, i: int, n: int)
    requires
        0 <= i <= n,
        blocks_on_to(lines, i) is None,
    ensures
        blocks_on_to(lines, n) is None,
    decreases n - i,
{
    if i < n {
        lemma_blocks_stop(lines, i, n - 1);
    }
}

impl Block {
    /// The block that a document says.
    pub fn from_json(json: &Json) -> (r: Option<Block>)
        ensures
            match r {
                Some(block) => block_said(json@) == Some(block@),
                None => block_said(json@) is None,
            },
    {
        match json {
            Json::Array(v) => Block::from_members(&items_by_name(v, &block_fields(), 5)),
            _ => Block::from_members(json),
        }
    }

    /// The block that a document says with its fields under their names.
    fn from_members(json: &Json) -> (r: Option<Block>)
        ensures
            match r {
                Some(block) => block_in(json@) == Some(block@),
                None => block_in(json@) is None,
            },
    {
        let body = match json.need_items("body") {
            Some(v) => strings_in(v),
            None => None,
        };
        match (
            json.need_nat("id", u64::MAX),
            json.need_text("block_type"),
            json.need_text("header"),
            body,
            json.need_nat("seq", u64::MAX),
        ) {
            (Some(id), Some(block_type), Some(header), Some(body), Some(seq)) => Some(
                Block { id, block_type, header, body, seq },
            ),
            _ => None,
        }
    }
}

/// Whether a line holds something that is not a block.
pub open spec fn is_bad_block(line: Seq<char>) -> bool {
    trim(line).len() > 0 && block_on(line) is None
}

/// Whether `line` is the first line that holds something that is not a block.
pub open spec fn first_bad_block(lines: Seq<Seq<char>>, line: Seq<char>) -> bool {
    exists|i: int|
        0 <= i < lines.len() && #[trigger] lines[i] == line && is_bad_block(line) && forall|j: int|
            0 <= j < i ==> !is_bad_block(#[trigger] lines[j])
}

/// Read blocks from the contents of blocks.jsonl.
pub fn read_blocks(contents: &str) -> (r: Result<Vec<Block>, LogError>)
    ensures
        match r {
            Ok(blocks) => blocks_on_to(lines_of(contents@), lines_of(contents@).len() as int)
                == Some(block_views(blocks@)),
            Err(LogError::BadLine(line)) => {
                &&& blocks_on_to(lines_of(contents@), lines_of(contents@).len() as int) is None
                &&& first_bad_block(lines_of(contents@), line@)
            },
            Err(_) => false,
        },
{
    let lines = str_lines(contents);
    let ghost t = lines_of(contents@);
    let mut blocks: Vec<Block> = Vec::new();
    let mut i: usize = 0;
    proof {
        assert(block_views(blocks@) =~= seq![]);
    }
    while i < lines.len()
        invariant
            i <= lines@.len(),
            t == texts(lines@),
            t == lines_of(contents@),
            blocks_on_to(t, i as int) == Some(block_views(blocks@)),
            forall|j: int| 0 <= j < i ==> !is_bad_block(#[trigger] t[j]),
        decreases lines@.len() - i,
    {
        let line = &lines[i];
        proof {
            assert(t[i as int] == line@);
        }
        if !str_trim(line.as_str()).is_empty() {
            let block = match read_document(Form::Block, line.as_str()) {
                Some(json) => Block::from_json(&json),
                None => None,
            };
            match block {
                Some(block) => {
                    proof {
                        assert(block_views(blocks@.push(block)) =~= block_views(blocks@).push(
                            block@,
                        ));
                    }
                    blocks.push(block);
                },
                None => {
                    proof {
                        lemma_blocks_stop(t, i + 1, t.len() as int);
                    }
                    return Err(LogError::BadLine(line.clone()));
                },
            }
        }
        i = i + 1;
    }
    Ok(blocks)
}

// ---------------------------------------------------------------------------------------------
// Laws

/// Whether a text is made of whole lines.
pub open spec fn whole_lines(text: Seq<char>) -> bool {
    text.len() == 0 || text.last() == '\n'
}

proof fn lemma_lines_append(a: Seq<char>, b: Seq<char>)
    requires
        whole_lines(a),
    ensures
        lines_of(a + b) == lines_of(a) + lines_of(b),
    decreases a.len(),
{
    if a.len() == 0 {
        assert(a + b =~= b);
        assert(lines_of(a) + lines_of(b) =~= lines_of(b));
    } else {
        let n = span(a, '\n') as int;
        lemma_span_bound(a, '\n');
        assert(n < a.len()) by {
            if n == a.len() {
                assert(a[a.len() - 1] != '\n');
            }
        }
        assert forall|j: int| 0 <= j < n implies (a + b)[j] != '\n' by {
            assert((a + b)[j] == a[j]);
        }
        lemma_span(a + b, '\n', n);
        assert((a + b).take(n) =~= a.take(n));
        assert((a + b).skip(n + 1) =~= a.skip(n + 1) + b);
        assert(a.skip(n + 1).len() > 0 ==> a.skip(n + 1).last() == a.last());
        lemma_lines_append(a.skip(n + 1), b);
        assert(seq![chomp(a.take(n))] + (lines_of(a.skip(n + 1)) + lines_of(b)) =~= (seq![
            chomp(a.take(n)),
        ] + lines_of(a.skip(n + 1))) + lines_of(b));
    }
}

proof fn lemma_entries_append(a: Seq<Seq<char>>, b: Seq<Seq<char>>, n: int)
    requires
        0 <= n <= b.len(),
        entries_to(a, a.len() as int) is Some,
        entries_to(b, n) is Some,
    ensures
        entries_to(a + b, a.len() + n) == Some(
            entries_to(a, a.len() as int)->0 + entries_to(b, n)->0,
        ),
    decreases n,
{
    if n == 0 {
        lemma_entries_prefix(a, b, a.len() as int);
        assert(entries_to(a, a.len() as int)->0 + seq![] =~= entries_to(a, a.len() as int)->0);
    } else {
        lemma_entries_append(a, b, n - 1);
        assert((a + b)[a.len() + n - 1] == b[n - 1]);
        let x = entries_to(a, a.len() as int)->0;
        let y = entries_to(b, n - 1)->0;
        if trim(b[n - 1]).len() > 0 {
            let m = message_on(b[n - 1])->0;
            assert((x + y).push(m) =~= x + y.push(m));
        }
    }
}

proof fn lemma_entries_prefix(a: Seq<Seq<char>>, b: Seq<Seq<char>>, n: int)
    requires
        0 <= n <= a.len(),
    ensures
        entries_to(a + b, n) == entries_to(a, n),
    decreases n,
{
    if n > 0 {
        lemma_entries_prefix(a, b, n - 1);
        assert((a + b)[n - 1] == a[n - 1]);
    }
}

/// What was appended to a log in whole lines is read after what was there: nothing is lost,
/// repeated or put out of order.
pub proof fn law_log_grows_at_the_end(log: Seq<char>, more: Seq<char>)
    requires
        whole_lines(log),
        entries(log) is Some,
        entries(more) is Some,
    ensures
        entries(log + more) == Some(entries(log)->0 + entries(more)->0),
{
    lemma_lines_append(log, more);
    lemma_entries_append(lines_of(log), lines_of(more), lines_of(more).len() as int);
}

/// A text that starts and ends in something else than white space is not blank.
proof fn lemma_not_blank(text: Seq<char>)
    requires
        text.len() > 0,
        !is_space(text[0]),
        !is_space(text.last()),
    ensures
        trim(text) == text,
{
    assert(trim_start(text) == text);
    assert(trim_end(text) == text);
}

/// A line with a message on it is a log with that message.
pub proof fn lemma_one_entry(line: Seq<char>, message: LogView)
    requires
        crate::json::one_line(line),
        message_on(line) == Some(message),
    ensures
        entries(line.push('\n')) == Some(seq![message]),
{
    let text = line.push('\n');
    assert forall|j: int| 0 <= j < line.len() implies text[j] != '\n' by {
        assert(line[j] >= ' ');
    }
    lemma_span(text, '\n', line.len() as int);
    assert(text.take(line.len() as int) =~= line);
    assert(text.skip(line.len() as int + 1) =~= seq![]);
    assert(chomp(line) == line) by {
        assert(!is_space(line.last()));
    }
    let rest = Seq::<char>::empty();
    assert(lines_of(rest) == Seq::<Seq<char>>::empty());
    assert(lines_of(text) == seq![chomp(line)] + lines_of(rest));
    assert(lines_of(text) =~= seq![line]);
    lemma_not_blank(line);
    assert(entries_to(seq![line], 0) == Some(Seq::<LogView>::empty()));
    assert(entries_to(seq![line], 1) == Some(Seq::<LogView>::empty().push(message)));
    assert(Seq::<LogView>::empty().push(message) =~= seq![message]);
}

pub proof fn lemma_from_number_append(a: Seq<LogView>, b: Seq<LogView>, since: u64)
    ensures
        from_number(a + b, since) == from_number(a, since) + from_number(b, since),
{
    let keep = |m: LogView| m.seq >= since;
    Seq::filter_distributes_over_add(a, b, keep);
}

proof fn lemma_below_cursor(messages: Seq<LogView>, cursor: int, i: int)
    requires
        0 <= i < messages.len(),
    ensures
        messages[i].seq < cursor_after(messages, cursor),
    decreases messages.len(),
{
    if messages.len() > 1 {
        if i < messages.len() - 1 {
            lemma_below_cursor(messages.drop_last(), cursor, i);
        }
    }
}

pub proof fn lemma_nothing_from(messages: Seq<LogView>, since: u64)
    requires
        forall|i: int| 0 <= i < messages.len() ==> (#[trigger] messages[i]).seq < since,
    ensures
        from_number(messages, since) == Seq::<LogView>::empty(),
    decreases messages.len(),
{
    reveal(Seq::filter);
    if messages.len() > 0 {
        let rest = messages.drop_last();
        assert forall|i: int| 0 <= i < rest.len() implies (#[trigger] rest[i]).seq < since by {
            assert(rest[i] == messages[i]);
        }
        lemma_nothing_from(rest, since);
        assert(messages[messages.len() - 1].seq < since);
    }
}

pub proof fn lemma_all_from(messages: Seq<LogView>, since: u64)
    requires
        forall|i: int| 0 <= i < messages.len() ==> (#[trigger] messages[i]).seq >= since,
    ensures
        from_number(messages, since) == messages,
    decreases messages.len(),
{
    reveal(Seq::filter);
    if messages.len() > 0 {
        let rest = messages.drop_last();
        assert forall|i: int| 0 <= i < rest.len() implies (#[trigger] rest[i]).seq >= since by {
            assert(rest[i] == messages[i]);
        }
        lemma_all_from(rest, since);
        assert(messages[messages.len() - 1].seq >= since);
        assert(rest.push(messages.last()) =~= messages);
    } else {
        assert(from_number(messages, since) =~= messages);
    }
}

/// Reading on from the cursor that a read gave gives only what was logged since: no message of
/// the first read comes again, and every later message with a number from the cursor on comes.
pub proof fn law_unread_messages_come_once(log: Seq<LogView>, more: Seq<LogView>, cursor: u64)
    requires
        cursor_after(from_number(log, cursor), cursor as int) <= u64::MAX,
    ensures
        ({
            let next = cursor_after(from_number(log, cursor), cursor as int) as u64;
            from_number(log + more, next) == from_number(more, next)
        }),
{
    let keep = |m: LogView| m.seq >= cursor;
    let first = from_number(log, cursor);
    assert(first == log.filter(keep));
    let next = cursor_after(first, cursor as int) as u64;
    assert forall|i: int| 0 <= i < log.len() implies (#[trigger] log[i]).seq < next by {
        if log[i].seq >= cursor {
            log.lemma_filter_contains(keep, i);
            assert(first.contains(log[i]));
            let j = choose|j: int| 0 <= j < first.len() && first[j] == log[i];
            lemma_below_cursor(first, cursor as int, j);
        } else {
            lemma_cursor_not_back(first, cursor);
            assert forall|k: int| 0 <= k < first.len() implies (#[trigger] first[k]).seq
                >= cursor by {
                log.lemma_filter_pred(keep, k);
            }
        }
    }
    lemma_nothing_from(log, next);
    lemma_from_number_append(log, more, next);
    assert(Seq::<LogView>::empty() + from_number(more, next) =~= from_number(more, next));
}

proof fn lemma_cursor_not_back(messages: Seq<LogView>, cursor: u64)
    ensures
        (forall|k: int| 0 <= k < messages.len() ==> (#[trigger] messages[k]).seq >= cursor)
            ==> cursor_after(messages, cursor as int) >= cursor,
    decreases messages.len(),
{
    if messages.len() > 0 {
        if forall|k: int| 0 <= k < messages.len() ==> (#[trigger] messages[k]).seq >= cursor {
            assert(messages[messages.len() - 1].seq >= cursor);
            lemma_below_cursor(messages, cursor as int, messages.len() - 1);
        }
    }
}

/// What is read from a number on: the messages with that number or a higher one, all of them and
/// in order.
pub proof fn law_what_is_read_from_a_number(messages: Seq<LogView>, since: u64)
    ensures
        forall|i: int|
            0 <= i < messages.len() ==> (from_number(messages, since).contains(
                #[trigger] messages[i],
            ) <==> messages[i].seq >= since),
        forall|k: int|
            0 <= k < from_number(messages, since).len() ==> (#[trigger] from_number(
                messages,
                since,
            )[k]).seq >= since && messages.contains(from_number(messages, since)[k]),
        from_number(messages, 0) == messages,
{
    let keep = |m: LogView| m.seq >= since;
    let all = from_number(messages, since);
    assert(all == messages.filter(keep));
    assert forall|k: int| 0 <= k < all.len() implies (#[trigger] all[k]).seq >= since
        && messages.contains(all[k]) by {
        assert(all.contains(all[k]));
        messages.lemma_filter_contains_rev(keep, all[k]);
        messages.lemma_filter_pred(keep, k);
    }
    assert forall|i: int| 0 <= i < messages.len() implies (all.contains(#[trigger] messages[i])
        <==> messages[i].seq >= since) by {
        if messages[i].seq >= since {
            messages.lemma_filter_contains(keep, i);
        }
        if all.contains(messages[i]) {
            let k = all.index_of(messages[i]);
            assert(all[k].seq >= since);
        }
    }
    lemma_all_from(messages, 0);
}

/// A log is read line by line. A line with a message gives that message, a blank one gives none,
/// and any other spoils the log.
pub proof fn law_a_log_is_read_by_lines(log: Seq<char>, line: Seq<char>)
    requires
        whole_lines(log),
        entries(log) is Some,
        line.len() > 0,
        !line.contains('\n'),
        line.last() != '\r',
    ensures
        trim(line).len() == 0 ==> entries(log + line.push('\n')) == entries(log),
        trim(line).len() > 0 && message_on(line) is Some ==> entries(log + line.push('\n')) == Some(
            entries(log)->0.push(message_on(line)->0),
        ),
        trim(line).len() > 0 && message_on(line) is None ==> entries(log + line.push('\n'))
            is None,
{
    lemma_lines_append(log, line.push('\n'));
    crate::text::law_lines_one_by_one(line, seq![]);
    assert(line + seq!['\n'] + Seq::<char>::empty() =~= line.push('\n'));
    assert(seq![line] + lines_of(seq![]) =~= seq![line]);
    let a = lines_of(log);
    let n = a.len() as int;
    assert(lines_of(log + line.push('\n')) == a + seq![line]);
    lemma_entries_prefix(a, seq![line], n);
    assert((a + seq![line])[n] == line);
    assert((a + seq![line]).len() == n + 1);
}

/// Where reading goes on: behind every message that was read, and right behind one of them; where
/// none was read, where it was.
pub proof fn law_where_reading_goes_on(messages: Seq<LogView>, cursor: int)
    ensures
        messages.len() == 0 ==> cursor_after(messages, cursor) == cursor,
        forall|i: int|
            0 <= i < messages.len() ==> (#[trigger] messages[i]).seq < cursor_after(
                messages,
                cursor,
            ),
        messages.len() > 0 ==> exists|i: int|
            0 <= i < messages.len() && (#[trigger] messages[i]).seq + 1 == cursor_after(
                messages,
                cursor,
            ),
    decreases messages.len(),
{
    assert forall|i: int| 0 <= i < messages.len() implies (#[trigger] messages[i]).seq
        < cursor_after(messages, cursor) by {
        lemma_below_cursor(messages, cursor, i);
    }
    if messages.len() == 1 {
        assert(messages[0].seq + 1 == cursor_after(messages, cursor));
    } else if messages.len() > 1 {
        let rest = messages.drop_last();
        law_where_reading_goes_on(rest, cursor);
        let i = choose|i: int|
            0 <= i < rest.len() && (#[trigger] rest[i]).seq + 1 == cursor_after(rest, cursor);
        assert(messages[i] == rest[i]);
        assert(messages[messages.len() - 1] == messages.last());
    }
}

/// Under which names a block is kept.
pub proof fn law_how_a_block_is_kept(m: JsonModel, b: BlockView)
    requires
        m is Object,
        m.get("id"@) == Some(JsonModel::Nat(b.id)),
        m.get("block_type"@) == Some(JsonModel::Str(b.block_type)),
        m.get("header"@) == Some(JsonModel::Str(b.header)),
        m.get("body"@) == Some(crate::json::text_array(b.body)),
        m.get("seq"@) == Some(JsonModel::Nat(b.seq)),
    ensures
        block_said(m) == Some(b),
{
    crate::fields::lemma_texts_of_array(b.body);
}

/// Which line is told where a log cannot be read: the first that is neither blank nor a message.
pub proof fn law_the_first_bad_line_is_told(
    contents: &str,
    r: Result<Vec<LogMessage>, LogError>,
) -> (at: int)
    requires
        call_ensures(read_all, (contents,), r),
        r is Err,
    ensures
        ({
            let lines = lines_of(contents@);
            &&& r->Err_0 is BadLine
            &&& 0 <= at < lines.len()
            &&& lines[at] == r->Err_0->BadLine_0@
            &&& trim(lines[at]).len() > 0 && message_on(lines[at]) is None
            &&& forall|i: int|
                0 <= i < at ==> trim(#[trigger] lines[i]).len() == 0 || message_on(lines[i])
                    is Some
        }),
{
    let lines = lines_of(contents@);
    let line = r->Err_0->BadLine_0@;
    assert(first_bad(lines, line));
    let at = choose|i: int|
        0 <= i < lines.len() && #[trigger] lines[i] == line && is_bad(line) && forall|j: int|
            0 <= j < i ==> !is_bad(#[trigger] lines[j]);
    assert forall|i: int| 0 <= i < at implies trim(#[trigger] lines[i]).len() == 0 || message_on(
        lines[i],
    ) is Some by {
        assert(!is_bad(lines[i]));
    }
    at
}

/// A line that gives one of these fields twice has no message.
pub proof fn law_a_field_is_given_once(line: Seq<char>, name: Seq<char>, i: int, j: int)
    requires
        0 <= i < j < paths(line).len(),
        paths(line)[i] == seq![StepModel::Name(name)],
        paths(line)[j] == seq![StepModel::Name(name)],
    ensures
        name == "seq"@ || name == "ts"@ || name == "type"@ || name == "text"@ || name
            == "state_from"@ || name == "state_to"@ || name == "prompt"@ || name == "block_id"@
            || name == "block_type"@ || name == "block_lines"@ || name == "body_offset"@ || name
            == "body_len"@ ==> message_on(line) is None,
        name == "id"@ || name == "block_type"@ || name == "header"@ || name == "body"@ || name
            == "seq"@ ==> block_on(line) is None,
{
    let path = seq![StepModel::Name(name)];
    law_what_is_repeated(paths(line), path);
    let k = repeats(line).index_of(path);
    assert(repeats(line)[k] == path);
    let m = message_names();
    assert(m[0] == "seq"@ && m[1] == "ts"@ && m[2] == "type"@ && m[3] == "text"@ && m[4]
        == "state_from"@ && m[5] == "state_to"@ && m[6] == "prompt"@ && m[7] == "block_id"@ && m[8]
        == "block_type"@ && m[9] == "block_lines"@ && m[10] == "body_offset"@ && m[11]
        == "body_len"@);
    let b = block_names();
    assert(b[0] == "id"@ && b[1] == "block_type"@ && b[2] == "header"@ && b[3] == "body"@ && b[4]
        == "seq"@);
    if m.contains(name) {
        assert(Form::Message.has_field(path));
    }
    if b.contains(name) {
        assert(Form::Block.has_field(path));
    }
}

} // verus!
