//! The terminal screen: what is on it, what of that is conversation, and what has changed.
use crate::terminal::Terminal;
use crate::text::{
    chars_of, contains, is_space, lemma_texts_push, same, starts_with, str_contains, str_starts_with,
    str_trim, str_trim_end, texts, trim, trim_end,
};
use vstd::prelude::*;

verus! {

/// Take a snapshot of the terminal screen as a Vec of lines.
pub fn take_snapshot(parser: &Terminal) -> (lines: Vec<String>)
    ensures
        texts(lines@) == parser.shown(),
{
    parser.lines()
}

// ---------------------------------------------------------------------------------------------
// Tidying

/// The lines without the white space at their ends.
pub open spec fn trimmed_ends(lines: Seq<Seq<char>>) -> Seq<Seq<char>> {
    Seq::new(lines.len(), |i: int| trim_end(lines[i]))
}

/// How many empty lines stand at the end.
pub open spec fn blank_tail(lines: Seq<Seq<char>>) -> nat
    decreases lines.len(),
{
    if lines.len() == 0 || lines.last().len() > 0 {
        0
    } else {
        1 + blank_tail(lines.drop_last())
    }
}

/// The lines without the third and later ones of each run of empty lines.
pub open spec fn collapsed(lines: Seq<Seq<char>>) -> Seq<Seq<char>>
    decreases lines.len(),
{
    if lines.len() == 0 {
        seq![]
    } else if lines.last().len() > 0 || blank_tail(lines) <= 2 {
        collapsed(lines.drop_last()).push(lines.last())
    } else {
        collapsed(lines.drop_last())
    }
}

/// The lines without the empty ones at the end.
pub open spec fn without_blank_tail(lines: Seq<Seq<char>>) -> Seq<Seq<char>>
    decreases lines.len(),
{
    if lines.len() > 0 && lines.last().len() == 0 {
        without_blank_tail(lines.drop_last())
    } else {
        lines
    }
}

/// The tidy form of a screen.
pub open spec fn filtered(lines: Seq<Seq<char>>) -> Seq<Seq<char>> {
    without_blank_tail(collapsed(trimmed_ends(lines)))
}

/// Tidies screen lines: trims the end of each, keeps at most two empty lines in a row, and
/// drops the empty lines at the end.
pub fn filter_lines(lines: &[String]) -> (r: Vec<String>)
    ensures
        texts(r@) == filtered(texts(lines@)),
{
    let ghost t = trimmed_ends(texts(lines@));
    let mut result: Vec<String> = Vec::new();
    let mut blanks: usize = 0;
    let mut i: usize = 0;
    proof {
        assert(texts(result@) =~= collapsed(t.take(0)));
    }
    while i < lines.len()
        invariant
            i <= lines@.len(),
            t == trimmed_ends(texts(lines@)),
            blanks == blank_tail(t.take(i as int)),
            blanks <= i,
            texts(result@) == collapsed(t.take(i as int)),
        decreases lines@.len() - i,
    {
        let line = str_trim_end(lines[i].as_str()).to_owned();
        proof {
            assert(t.take(i + 1).drop_last() =~= t.take(i as int));
            assert(t.take(i + 1).last() == line@);
            lemma_texts_push(result@, line);
        }
        if line.as_str().is_empty() {
            blanks = blanks + 1;
            if blanks <= 2 {
                result.push(line);
            }
        } else {
            blanks = 0;
            result.push(line);
        }
        i = i + 1;
    }
    proof {
        assert(t.take(lines@.len() as int) =~= t);
    }
    while result.len() > 0 && result[result.len() - 1].as_str().is_empty()
        invariant
            without_blank_tail(texts(result@)) == filtered(texts(lines@)),
        decreases result.len(),
    {
        proof {
            assert(texts(result@).drop_last() =~= texts(result@.drop_last()));
            assert(texts(result@).last() == result@.last()@);
        }
        let _ = result.pop();
    }
    proof {
        assert(result@.len() > 0 ==> texts(result@).last() == result@.last()@);
    }
    result
}

/// The lines of `next` that are not empty and differ from the line at the same place in `prev`.
pub open spec fn diff(prev: Seq<Seq<char>>, next: Seq<Seq<char>>) -> Seq<Seq<char>>
    decreases next.len(),
{
    if next.len() == 0 {
        seq![]
    } else {
        let i = next.len() - 1;
        let before = diff(prev, next.drop_last());
        if next[i].len() > 0 && (i >= prev.len() || prev[i] != next[i]) {
            before.push(next[i])
        } else {
            before
        }
    }
}

/// The new and changed lines between two snapshots of the screen.
pub fn compute_diff(prev: &[String], next: &[String]) -> (r: Vec<String>)
    ensures
        texts(r@) == diff(texts(prev@), texts(next@)),
{
    let ghost p = texts(prev@);
    let ghost n = texts(next@);
    let mut out: Vec<String> = Vec::new();
    let mut i: usize = 0;
    proof {
        assert(texts(out@) =~= diff(p, n.take(0)));
    }
    while i < next.len()
        invariant
            i <= next@.len(),
            p == texts(prev@),
            n == texts(next@),
            texts(out@) == diff(p, n.take(i as int)),
        decreases next@.len() - i,
    {
        proof {
            assert(n.take(i + 1).drop_last() =~= n.take(i as int));
            assert(n.take(i + 1)[i as int] == next@[i as int]@);
            lemma_texts_push(out@, next@[i as int]);
        }
        if !next[i].as_str().is_empty() && (i >= prev.len() || !same(
            prev[i].as_str(),
            next[i].as_str(),
        )) {
            out.push(next[i].clone());
        }
        i = i + 1;
    }
    proof {
        assert(n.take(next@.len() as int) =~= n);
    }
    out
}

// ---------------------------------------------------------------------------------------------
// Chrome

/// A line of the frame at the top of the screen, a tip, or an empty line.
pub open spec fn is_frame(line: Seq<char>) -> bool {
    let t = trim(line);
    ||| t.len() == 0
    ||| t[0] == '\u{256d}'
    ||| t[0] == '\u{2502}'
    ||| t[0] == '\u{2570}'
    ||| starts_with(t, "Tip:"@)
}

/// The help bar at the bottom of the screen.
pub open spec fn is_help(line: Seq<char>) -> bool {
    contains(trim(line), "? for shortcuts"@) || contains(trim(line), "context left"@)
}

/// A suggested prompt, or an empty line.
pub open spec fn is_suggestion(line: Seq<char>) -> bool {
    let t = trim(line);
    t.len() == 0 || t[0] == '\u{203a}'
}

/// A line of nothing but horizontal rule.
pub open spec fn is_rule(line: Seq<char>) -> bool {
    let t = trim(line);
    t.len() > 0 && forall|i: int| 0 <= i < t.len() ==> t[i] == '\u{2500}'
}

/// A passing status line or a horizontal rule.
pub open spec fn is_noise(line: Seq<char>) -> bool {
    ||| contains(line, "esc to interrupt"@)
    ||| contains(line, "esc again to edit"@)
    ||| is_rule(line)
}

/// How many lines of frame the screen starts with.
pub open spec fn frame_len(lines: Seq<Seq<char>>) -> nat
    decreases lines.len(),
{
    if lines.len() > 0 && is_frame(lines[0]) {
        1 + frame_len(lines.skip(1))
    } else {
        0
    }
}

/// Where the last help bar among the lines `start..n` stands, or `len` if there is none.
pub open spec fn help_at(lines: Seq<Seq<char>>, start: int, n: int) -> int
    decreases n - start,
{
    if n <= start {
        lines.len() as int
    } else if is_help(lines[n - 1]) {
        n - 1
    } else {
        help_at(lines, start, n - 1)
    }
}

/// Where the lines `start..n` end without the suggestions at their end.
pub open spec fn content_end(lines: Seq<Seq<char>>, start: int, n: int) -> int
    decreases n - start,
{
    if n > start && is_suggestion(lines[n - 1]) {
        content_end(lines, start, n - 1)
    } else {
        n
    }
}

/// The lines that are no noise.
pub open spec fn quiet(lines: Seq<Seq<char>>) -> Seq<Seq<char>>
    decreases lines.len(),
{
    if lines.len() == 0 {
        seq![]
    } else if is_noise(lines.last()) {
        quiet(lines.drop_last())
    } else {
        quiet(lines.drop_last()).push(lines.last())
    }
}

/// The conversation on a screen: what is left between the frame at the top and the help bar at
/// the bottom, without suggestions and noise.
pub open spec fn conversation(lines: Seq<Seq<char>>) -> Seq<Seq<char>> {
    let start = frame_len(lines) as int;
    let end = content_end(lines, start, help_at(lines, start, lines.len() as int));
    if start >= end {
        seq![]
    } else {
        quiet(lines.subrange(start, end))
    }
}

fn starts_with_char(s: &str, c: char) -> (b: bool)
    ensures
        b == (s@.len() > 0 && s@[0] == c),
{
    let v = chars_of(s);
    v.len() > 0 && v[0] == c
}

fn frame_line(line: &str) -> (b: bool)
    ensures
        b == is_frame(line@),
{
    let t = str_trim(line);
    t.is_empty() || starts_with_char(t, '\u{256d}') || starts_with_char(t, '\u{2502}')
        || starts_with_char(t, '\u{2570}') || str_starts_with(t, "Tip:")
}

fn help_line(line: &str) -> (b: bool)
    ensures
        b == is_help(line@),
{
    let t = str_trim(line);
    str_contains(t, "? for shortcuts") || str_contains(t, "context left")
}

fn suggestion_line(line: &str) -> (b: bool)
    ensures
        b == is_suggestion(line@),
{
    let t = str_trim(line);
    t.is_empty() || starts_with_char(t, '\u{203a}')
}

fn rule_line(line: &str) -> (b: bool)
    ensures
        b == is_rule(line@),
{
    let t = chars_of(str_trim(line));
    let mut i: usize = 0;
    while i < t.len()
        invariant
            t@ == trim(line@),
            i <= t@.len(),
            forall|j: int| 0 <= j < i ==> t@[j] == '\u{2500}',
        decreases t@.len() - i,
    {
        if t[i] != '\u{2500}' {
            return false;
        }
        i = i + 1;
    }
    t.len() > 0
}

fn noise_line(line: &str) -> (b: bool)
    ensures
        b == is_noise(line@),
{
    str_contains(line, "esc to interrupt") || str_contains(line, "esc again to edit") || rule_line(
        line,
    )
}

/// Strips the frame, the help bar, suggestions and passing status lines off a screen, so that
/// the conversation is left.
pub fn strip_ui_chrome(lines: &[String]) -> (r: Vec<String>)
    ensures
        texts(r@) == conversation(texts(lines@)),
{
    let ghost t = texts(lines@);
    let mut start: usize = 0;
    proof {
        assert(t.skip(0) =~= t);
    }
    while start < lines.len() && frame_line(lines[start].as_str())
        invariant
            start <= lines@.len(),
            t == texts(lines@),
            frame_len(t) == start + frame_len(t.skip(start as int)),
        decreases lines@.len() - start,
    {
        proof {
            assert(t.skip(start as int)[0] == lines@[start as int]@);
            assert(t.skip(start as int).skip(1) =~= t.skip(start + 1));
        }
        start = start + 1;
    }
    proof {
        assert(start < lines@.len() ==> t.skip(start as int)[0] == lines@[start as int]@);
    }

    let mut n: usize = lines.len();
    while n > start && !help_line(lines[n - 1].as_str())
        invariant
            start <= n <= lines@.len(),
            t == texts(lines@),
            help_at(t, start as int, lines@.len() as int) == help_at(t, start as int, n as int),
        decreases n,
    {
        n = n - 1;
    }
    let mut end: usize = if n > start {
        n - 1
    } else {
        lines.len()
    };
    let ghost bottom = end as int;
    while end > start && suggestion_line(lines[end - 1].as_str())
        invariant
            end <= lines@.len(),
            start <= lines@.len(),
            t == texts(lines@),
            content_end(t, start as int, bottom) == content_end(t, start as int, end as int),
        decreases end,
    {
        end = end - 1;
    }
    if start >= end {
        return Vec::new();
    }
    let ghost kept = t.subrange(start as int, end as int);
    let mut out: Vec<String> = Vec::new();
    let mut i: usize = start;
    proof {
        assert(texts(out@) =~= quiet(kept.take(0)));
    }
    while i < end
        invariant
            start <= i <= end <= lines@.len(),
            t == texts(lines@),
            kept == t.subrange(start as int, end as int),
            texts(out@) == quiet(kept.take(i - start)),
        decreases end - i,
    {
        proof {
            assert(kept.take(i - start + 1).drop_last() =~= kept.take(i - start));
            assert(kept.take(i - start + 1).last() == lines@[i as int]@);
            lemma_texts_push(out@, lines@[i as int]);
        }
        if !noise_line(lines[i].as_str()) {
            out.push(lines[i].clone());
        }
        i = i + 1;
    }
    proof {
        assert(kept.take(end - start) =~= kept);
    }
    out
}

// ---------------------------------------------------------------------------------------------
// Laws

/// The lines that are not empty.
pub open spec fn nonblank(lines: Seq<Seq<char>>) -> Seq<Seq<char>>
    decreases lines.len(),
{
    if lines.len() == 0 {
        seq![]
    } else if lines.last().len() > 0 {
        nonblank(lines.drop_last()).push(lines.last())
    } else {
        nonblank(lines.drop_last())
    }
}

/// No line ends in white space.
pub open spec fn ends_trimmed(lines: Seq<Seq<char>>) -> bool {
    forall|i: int| 0 <= i < lines.len() ==> trim_end(#[trigger] lines[i]) == lines[i]
}

/// No three lines in a row are empty.
pub open spec fn no_blank_triple(lines: Seq<Seq<char>>) -> bool {
    forall|i: int| 0 <= i && i + 2 < lines.len() ==> !#[trigger] blank_triple_at(lines, i)
}

/// The line at `i` and the two after it are empty.
pub open spec fn blank_triple_at(lines: Seq<Seq<char>>, i: int) -> bool {
    lines[i].len() == 0 && lines[i + 1].len() == 0 && lines[i + 2].len() == 0
}

proof fn lemma_trim_end_twice(s: Seq<char>)
    ensures
        trim_end(trim_end(s)) == trim_end(s),
    decreases s.len(),
{
    if s.len() > 0 && crate::text::is_space(s.last()) {
        lemma_trim_end_twice(s.drop_last());
    }
}

/// What collapsing a prefix leaves: only lines of it, with as many empty lines at the end as
/// the prefix has, but at most two, and no three in a row.
proof fn lemma_collapsed(lines: Seq<Seq<char>>)
    ensures
        collapsed(lines).len() <= lines.len(),
        blank_tail(collapsed(lines)) == (if blank_tail(lines) <= 2 {
            blank_tail(lines)
        } else {
            2
        }),
        ends_trimmed(lines) ==> ends_trimmed(collapsed(lines)),
        no_blank_triple(collapsed(lines)),
        nonblank(collapsed(lines)) == nonblank(lines),
    decreases lines.len(),
{
    if lines.len() > 0 {
        let rest = lines.drop_last();
        lemma_collapsed(rest);
        let c = collapsed(rest);
        if ends_trimmed(lines) {
            assert forall|i: int| 0 <= i < rest.len() implies trim_end(#[trigger] rest[i])
                == rest[i] by {
                assert(rest[i] == lines[i]);
            }
            assert(ends_trimmed(rest));
            assert(trim_end(lines[lines.len() - 1]) == lines[lines.len() - 1]);
        }
        if lines.last().len() > 0 || blank_tail(lines) <= 2 {
            let n = c.push(lines.last());
            assert(n.drop_last() =~= c);
            assert(collapsed(lines) == n);
            assert forall|i: int| 0 <= i && i + 2 < n.len() implies !#[trigger] blank_triple_at(
                n,
                i,
            ) by {
                if i + 2 < c.len() {
                    assert(!blank_triple_at(c, i));
                } else if blank_triple_at(n, i) {
                    assert(blank_tail(c) <= 1);
                    assert(c.last() == n[i + 1]);
                    assert(c.drop_last().last() == n[i]);
                    assert(blank_tail(c) == blank_tail(c.drop_last()) + 1);
                    assert(blank_tail(c.drop_last()) >= 1);
                }
            }
        }
    }
}

proof fn lemma_blank_tail_dropped(lines: Seq<Seq<char>>)
    ensures
        without_blank_tail(lines).len() <= lines.len(),
        without_blank_tail(lines) == lines.take(without_blank_tail(lines).len() as int),
        without_blank_tail(lines).len() > 0 ==> without_blank_tail(lines).last().len() > 0,
        nonblank(without_blank_tail(lines)) == nonblank(lines),
    decreases lines.len(),
{
    if lines.len() > 0 && lines.last().len() == 0 {
        let rest = lines.drop_last();
        lemma_blank_tail_dropped(rest);
        let n = without_blank_tail(rest).len() as int;
        assert(rest.take(n) =~= lines.take(n));
    } else {
        assert(lines.take(lines.len() as int) =~= lines);
    }
}

/// A tidy screen has no white space at the end of a line, no three empty lines in a row, and
/// no empty line at the end.
pub proof fn law_filtered_is_tidy(lines: Seq<Seq<char>>)
    ensures
        ends_trimmed(filtered(lines)),
        no_blank_triple(filtered(lines)),
        filtered(lines).len() > 0 ==> filtered(lines).last().len() > 0,
        filtered(lines).len() <= lines.len(),
{
    let t = trimmed_ends(lines);
    assert forall|i: int| 0 <= i < t.len() implies trim_end(#[trigger] t[i]) == t[i] by {
        lemma_trim_end_twice(lines[i]);
    }
    lemma_collapsed(t);
    let c = collapsed(t);
    lemma_blank_tail_dropped(c);
    let f = filtered(lines);
    assert forall|i: int| 0 <= i < f.len() implies trim_end(#[trigger] f[i]) == f[i] by {
        assert(f[i] == c[i]);
    }
    assert forall|i: int| 0 <= i && i + 2 < f.len() implies !#[trigger] blank_triple_at(f, i) by {
        assert(!blank_triple_at(c, i));
    }
}

/// Tidying takes nothing away but empty lines and the white space at the ends of lines.
pub proof fn law_filtered_keeps_text(lines: Seq<Seq<char>>)
    ensures
        nonblank(filtered(lines)) == nonblank(trimmed_ends(lines)),
{
    lemma_collapsed(trimmed_ends(lines));
    lemma_blank_tail_dropped(collapsed(trimmed_ends(lines)));
}

proof fn lemma_collapsed_fixed(lines: Seq<Seq<char>>)
    requires
        no_blank_triple(lines),
    ensures
        collapsed(lines) == lines,
        blank_tail(lines) <= 2,
    decreases lines.len(),
{
    if lines.len() > 0 {
        let rest = lines.drop_last();
        assert forall|i: int| 0 <= i && i + 2 < rest.len() implies !#[trigger] blank_triple_at(
            rest,
            i,
        ) by {
            assert(!blank_triple_at(lines, i));
        }
        lemma_collapsed_fixed(rest);
        if lines.last().len() == 0 && blank_tail(rest) == 2 {
            assert(rest.last().len() == 0);
            assert(blank_tail(rest.drop_last()) == 1);
            assert(rest.drop_last().last().len() == 0);
            assert(!blank_triple_at(lines, lines.len() - 3));
        }
        assert(rest.push(lines.last()) =~= lines);
    }
}

/// Tidying a tidy screen changes nothing.
pub proof fn law_filtered_twice(lines: Seq<Seq<char>>)
    ensures
        filtered(filtered(lines)) == filtered(lines),
{
    law_filtered_is_tidy(lines);
    let f = filtered(lines);
    assert(trimmed_ends(f) =~= f);
    lemma_collapsed_fixed(f);
}

/// A screen does not differ from itself.
pub proof fn law_no_diff_to_itself(lines: Seq<Seq<char>>)
    ensures
        diff(lines, lines) == Seq::<Seq<char>>::empty(),
{
    lemma_diff_prefix(lines, lines.len() as int);
    assert(lines.take(lines.len() as int) =~= lines);
}

proof fn lemma_diff_prefix(lines: Seq<Seq<char>>, n: int)
    requires
        0 <= n <= lines.len(),
    ensures
        diff(lines, lines.take(n)) == Seq::<Seq<char>>::empty(),
    decreases n,
{
    if n > 0 {
        assert(lines.take(n).drop_last() =~= lines.take(n - 1));
        lemma_diff_prefix(lines, n - 1);
    }
}

/// Against an empty screen every line that is not empty is new.
pub proof fn law_diff_to_nothing(next: Seq<Seq<char>>)
    ensures
        diff(seq![], next) == nonblank(next),
    decreases next.len(),
{
    if next.len() > 0 {
        law_diff_to_nothing(next.drop_last());
    }
}

/// A difference is made of lines of the new screen, none of them empty.
pub proof fn law_diff_lines(prev: Seq<Seq<char>>, next: Seq<Seq<char>>)
    ensures
        diff(prev, next).len() <= next.len(),
        forall|i: int|
            0 <= i < diff(prev, next).len() ==> (#[trigger] diff(prev, next)[i]).len() > 0
                && next.contains(diff(prev, next)[i]),
    decreases next.len(),
{
    if next.len() > 0 {
        let rest = next.drop_last();
        law_diff_lines(prev, rest);
        let d = diff(prev, next);
        assert forall|i: int| 0 <= i < d.len() implies (#[trigger] d[i]).len() > 0
            && next.contains(d[i]) by {
            if i < diff(prev, rest).len() {
                assert(d[i] == diff(prev, rest)[i]);
                assert(rest.contains(d[i]));
                let j = choose|j: int| 0 <= j < rest.len() && rest[j] == d[i];
                assert(next[j] == d[i]);
            } else {
                assert(next[next.len() - 1] == d[i]);
            }
        }
    }
}

proof fn lemma_quiet(lines: Seq<Seq<char>>)
    ensures
        quiet(lines).len() <= lines.len(),
        forall|i: int|
            0 <= i < quiet(lines).len() ==> !is_noise(#[trigger] quiet(lines)[i])
                && lines.contains(quiet(lines)[i]),
    decreases lines.len(),
{
    if lines.len() > 0 {
        let rest = lines.drop_last();
        lemma_quiet(rest);
        let q = quiet(lines);
        assert forall|i: int| 0 <= i < q.len() implies !is_noise(#[trigger] q[i])
            && lines.contains(q[i]) by {
            if i < quiet(rest).len() {
                assert(q[i] == quiet(rest)[i]);
                let j = choose|j: int| 0 <= j < rest.len() && rest[j] == q[i];
                assert(lines[j] == q[i]);
            } else {
                assert(lines[lines.len() - 1] == q[i]);
            }
        }
    }
}

/// Conversation is made of lines of the screen, and none of them is a passing status line or a
/// horizontal rule.
pub proof fn law_conversation_is_quiet(lines: Seq<Seq<char>>)
    ensures
        conversation(lines).len() <= lines.len(),
        forall|i: int|
            0 <= i < conversation(lines).len() ==> !is_noise(#[trigger] conversation(lines)[i])
                && lines.contains(conversation(lines)[i]),
{
    let start = frame_len(lines) as int;
    let end = content_end(lines, start, help_at(lines, start, lines.len() as int));
    lemma_ends(lines, start, lines.len() as int);
    if start < end {
        let kept = lines.subrange(start, end);
        lemma_quiet(kept);
        let c = conversation(lines);
        assert forall|i: int| 0 <= i < c.len() implies !is_noise(#[trigger] c[i])
            && lines.contains(c[i]) by {
            let j = choose|j: int| 0 <= j < kept.len() && kept[j] == c[i];
            assert(lines[start + j] == c[i]);
        }
    }
}

proof fn lemma_ends(lines: Seq<Seq<char>>, start: int, n: int)
    requires
        n <= lines.len(),
    ensures
        help_at(lines, start, n) <= lines.len(),
        content_end(lines, start, help_at(lines, start, n)) <= lines.len(),
    decreases n - start,
{
    if n > start {
        lemma_ends(lines, start, n - 1);
    }
    lemma_content_end(lines, start, help_at(lines, start, n));
}

proof fn lemma_content_end(lines: Seq<Seq<char>>, start: int, n: int)
    ensures
        content_end(lines, start, n) <= n,
    decreases n - start,
{
    if n > start {
        lemma_content_end(lines, start, n - 1);
    }
}

/// Tidying leaves alone what is tidy: lines without white space at their ends, with at most two
/// blank ones in a row and none at the end, stay as they are.
pub proof fn law_what_is_tidy_stays(lines: Seq<Seq<char>>)
    requires
        forall|i: int|
            0 <= i < lines.len() && (#[trigger] lines[i]).len() > 0 ==> !is_space(lines[i].last()),
        forall|i: int|
            0 <= i && i + 2 < lines.len() ==> !((#[trigger] lines[i]).len() == 0 && lines[i
                + 1].len() == 0 && lines[i + 2].len() == 0),
        lines.len() > 0 ==> lines.last().len() > 0,
    ensures
        filtered(lines) == lines,
{
    assert(trimmed_ends(lines) =~= lines) by {
        assert forall|i: int| 0 <= i < lines.len() implies trim_end(lines[i]) == lines[i] by {
            if lines[i].len() > 0 {
                assert(!is_space(lines[i].last()));
            }
        }
    }
    assert(no_blank_triple(lines)) by {
        assert forall|i: int| 0 <= i && i + 2 < lines.len() implies !#[trigger] blank_triple_at(
            lines,
            i,
        ) by {
            let line = lines[i];
        }
    }
    lemma_collapsed_fixed(lines);
}

/// Of the lines of a screen no text is lost when it is tidied, and none is moved.
pub proof fn law_tidying_keeps_text(lines: Seq<Seq<char>>, i: int)
    requires
        0 <= i < lines.len(),
        trim_end(lines[i]).len() > 0,
    ensures
        filtered(lines).contains(trim_end(lines[i])),
{
    law_filtered_keeps_text(lines);
    let t = trimmed_ends(lines);
    assert(t[i] == trim_end(lines[i]));
    lemma_nonblank_holds(t, i);
    lemma_nonblank_is_there(filtered(lines), trim_end(lines[i]));
}

proof fn lemma_nonblank_holds(lines: Seq<Seq<char>>, i: int)
    requires
        0 <= i < lines.len(),
        lines[i].len() > 0,
    ensures
        nonblank(lines).contains(lines[i]),
    decreases lines.len(),
{
    let all = nonblank(lines);
    if i == lines.len() - 1 {
        assert(all[all.len() - 1] == lines[i]);
    } else {
        let rest = lines.drop_last();
        assert(rest[i] == lines[i]);
        lemma_nonblank_holds(rest, i);
        let k = nonblank(rest).index_of(lines[i]);
        assert(all[k] == lines[i]);
    }
}

proof fn lemma_nonblank_is_there(lines: Seq<Seq<char>>, line: Seq<char>)
    requires
        nonblank(lines).contains(line),
    ensures
        lines.contains(line),
    decreases lines.len(),
{
    if lines.len() > 0 {
        let rest = lines.drop_last();
        let k = nonblank(lines).index_of(line);
        if lines.last().len() > 0 && k == nonblank(lines).len() - 1 {
            assert(lines[lines.len() - 1] == line);
        } else {
            assert(nonblank(rest)[k] == line);
            lemma_nonblank_is_there(rest, line);
            let j = rest.index_of(line);
            assert(lines[j] == line);
        }
    }
}

/// What is new on a screen: the lines that are not empty and that stood otherwise, or not at all,
/// in the same place before, all of them and in their order. The result says where they stand.
pub proof fn law_what_is_new(prev: Seq<Seq<char>>, next: Seq<Seq<char>>) -> (places: Seq<int>)
    ensures
        places.len() == diff(prev, next).len(),
        forall|j: int, k: int|
            0 <= j < k < places.len() ==> #[trigger] places[j] < #[trigger] places[k],
        forall|k: int|
            0 <= k < places.len() ==> 0 <= #[trigger] places[k] < next.len() && diff(prev, next)[k]
                == next[places[k]],
        forall|i: int|
            0 <= i < next.len() ==> (#[trigger] places.contains(i) <==> next[i].len() > 0 && (i
                >= prev.len() || prev[i] != next[i])),
    decreases next.len(),
{
    if next.len() == 0 {
        seq![]
    } else {
        let i = next.len() - 1;
        let rest = next.drop_last();
        let before = law_what_is_new(prev, rest);
        assert forall|k: int| 0 <= k < before.len() implies 0 <= #[trigger] before[k] < i
            && next[before[k]] == rest[before[k]] by {}
        let places = if next[i].len() > 0 && (i >= prev.len() || prev[i] != next[i]) {
            before.push(i)
        } else {
            before
        };
        assert forall|n: int| 0 <= n < next.len() implies (#[trigger] places.contains(n)
            <==> next[n].len() > 0 && (n >= prev.len() || prev[n] != next[n])) by {
            if n < i {
                assert(rest[n] == next[n]);
                if before.contains(n) {
                    let k = before.index_of(n);
                    assert(places[k] == n);
                }
                if places.contains(n) {
                    let k = places.index_of(n);
                    assert(k < before.len());
                    assert(before[k] == n);
                }
            } else {
                if places.contains(n) {
                    let k = places.index_of(n);
                    if k < before.len() {
                        assert(before[k] < i);
                    }
                }
                if places.len() > before.len() {
                    assert(places[before.len() as int] == i);
                }
            }
        }
        places
    }
}

/// What of a screen is conversation. It begins at the first line that is not blank, does not draw
/// the box at the top and gives no tip. It ends before the last line that tells the shortcuts or
/// how much context is left, and before the blank lines and suggestions above that. In between
/// only lines by which work could be interrupted or a message edited, and lines that are a rule,
/// are left out. Everything else in between is kept, in order.
pub proof fn law_what_is_conversation(lines: Seq<Seq<char>>) -> (r: (int, int, Seq<int>))
    ensures
        ({
            let (start, end, places) = r;
            &&& begins_at(lines, start)
            &&& ends_before_help(lines, start, end)
            &&& told_between(lines, start, end, places, conversation(lines))
        }),
{
    let start = frame_len(lines) as int;
    lemma_top(lines);
    let help = help_at(lines, start, lines.len() as int);
    lemma_help(lines, start, lines.len() as int);
    let end = content_end(lines, start, help);
    lemma_bottom(lines, start, help);
    lemma_begins(lines, start);
    lemma_ends_before(lines, start, end, help);
    let part = lines.subrange(start, end);
    let inner = lemma_quiet_places(part);
    let places = lemma_told_between(lines, start, end, inner);
    if start >= end {
        assert(quiet(part) =~= seq![]);
    }
    (start, end, places)
}

/// The conversation begins at line `start`.
pub open spec fn begins_at(lines: Seq<Seq<char>>, start: int) -> bool {
    &&& 0 <= start <= lines.len()
    &&& forall|i: int| 0 <= i < start ==> at_the_top(#[trigger] lines[i])
    &&& start < lines.len() ==> !at_the_top(lines[start])
}

/// The conversation that begins at `start` ends before line `end`.
pub open spec fn ends_before_help(lines: Seq<Seq<char>>, start: int, end: int) -> bool {
    &&& start <= end <= lines.len()
    &&& end > start ==> !suggests(lines[end - 1])
    &&& exists|help: int| #[trigger] help_below(lines, start, end, help)
}

/// Line `help` is the last from `start` on that gives help, or there is none, and from `end` to
/// there are only suggestions.
pub open spec fn help_below(lines: Seq<Seq<char>>, start: int, end: int, help: int) -> bool {
    &&& end <= help <= lines.len()
    &&& help < lines.len() ==> helps(lines[help])
    &&& help < lines.len() ==> forall|i: int|
        help < i < lines.len() ==> !helps(#[trigger] lines[i])
    &&& help == lines.len() ==> forall|i: int|
        start <= i < lines.len() ==> !helps(#[trigger] lines[i])
    &&& forall|i: int| end <= i < help ==> suggests(#[trigger] lines[i])
}

/// The lines `told` are those between `start` and `end` that are conversation, in order, and
/// `places` says where they stand.
pub open spec fn told_between(
    lines: Seq<Seq<char>>,
    start: int,
    end: int,
    places: Seq<int>,
    told: Seq<Seq<char>>,
) -> bool {
    &&& places.len() == told.len()
    &&& forall|j: int, k: int|
        0 <= j < k < places.len() ==> #[trigger] places[j] < #[trigger] places[k]
    &&& forall|k: int|
        0 <= k < places.len() ==> start <= #[trigger] places[k] < end && told[k]
            == lines[places[k]]
    &&& forall|i: int|
        start <= i < end ==> (#[trigger] places.contains(i) <==> !disturbs(lines[i]))
}

proof fn lemma_begins(lines: Seq<Seq<char>>, start: int)
    requires
        0 <= start <= lines.len(),
        forall|i: int| 0 <= i < start ==> is_frame(#[trigger] lines[i]),
        start < lines.len() ==> !is_frame(lines[start]),
    ensures
        begins_at(lines, start),
{
    assert forall|i: int| 0 <= i < start implies at_the_top(#[trigger] lines[i]) by {
        lemma_same_marks(lines[i]);
    }
    if start < lines.len() {
        lemma_same_marks(lines[start]);
    }
}

proof fn lemma_ends_before(lines: Seq<Seq<char>>, start: int, end: int, help: int)
    requires
        0 <= start <= end <= help <= lines.len(),
        end > start ==> !is_suggestion(lines[end - 1]),
        forall|i: int| end <= i < help ==> is_suggestion(#[trigger] lines[i]),
        help < lines.len() ==> is_help(lines[help]),
        forall|i: int|
            (if help == lines.len() {
                start <= i
            } else {
                help < i
            }) && i < lines.len() ==> !is_help(#[trigger] lines[i]),
    ensures
        ends_before_help(lines, start, end),
{
    if end > start {
        lemma_same_marks(lines[end - 1]);
    }
    assert forall|i: int| end <= i < help implies suggests(#[trigger] lines[i]) by {
        lemma_same_marks(lines[i]);
    }
    if help < lines.len() {
        lemma_same_marks(lines[help]);
        assert forall|i: int| help < i < lines.len() implies !helps(#[trigger] lines[i]) by {
            lemma_same_marks(lines[i]);
        }
    } else {
        assert forall|i: int| start <= i < lines.len() implies !helps(#[trigger] lines[i]) by {
            lemma_same_marks(lines[i]);
        }
    }
    assert(help_below(lines, start, end, help));
}

proof fn lemma_told_between(
    lines: Seq<Seq<char>>,
    start: int,
    end: int,
    inner: Seq<int>,
) -> (places: Seq<int>)
    requires
        0 <= start <= end <= lines.len(),
        inner.len() == quiet(lines.subrange(start, end)).len(),
        forall|j: int, k: int|
            0 <= j < k < inner.len() ==> #[trigger] inner[j] < #[trigger] inner[k],
        forall|k: int|
            0 <= k < inner.len() ==> 0 <= #[trigger] inner[k] < end - start && quiet(
                lines.subrange(start, end),
            )[k] == lines.subrange(start, end)[inner[k]],
        forall|i: int|
            0 <= i < end - start ==> (#[trigger] inner.contains(i) <==> !is_noise(
                lines.subrange(start, end)[i],
            )),
    ensures
        told_between(lines, start, end, places, quiet(lines.subrange(start, end))),
{
    let part = lines.subrange(start, end);
    let places = Seq::new(inner.len(), |k: int| start + inner[k]);
    assert forall|j: int, k: int| 0 <= j < k < places.len() implies #[trigger] places[j]
        < #[trigger] places[k] by {
        assert(inner[j] < inner[k]);
    }
    assert forall|k: int| 0 <= k < places.len() implies start <= #[trigger] places[k] < end
        && quiet(part)[k] == lines[places[k]] by {
        let n = inner[k];
        assert(part[n] == lines[start + n]);
    }
    assert forall|i: int| start <= i < end implies (#[trigger] places.contains(i) <==> !disturbs(
        lines[i],
    )) by {
        lemma_same_marks(lines[i]);
        assert(part[i - start] == lines[i]);
        if inner.contains(i - start) {
            let k = inner.index_of(i - start);
            assert(places[k] == i);
        }
        if places.contains(i) {
            let k = places.index_of(i);
            assert(inner[k] == i - start);
        }
    }
    places
}

/// A line above the conversation: blank, part of the box at the top, or a tip.
pub open spec fn at_the_top(line: Seq<char>) -> bool {
    let t = trim(line);
    ||| t.len() == 0
    ||| t[0] == '╭' || t[0] == '│' || t[0] == '╰'
    ||| t.len() >= 4 && t[0] == 'T' && t[1] == 'i' && t[2] == 'p' && t[3] == ':'
}

/// A line that tells the shortcuts or how much context is left.
pub open spec fn helps(line: Seq<char>) -> bool {
    contains(trim(line), "? for shortcuts"@) || contains(trim(line), "context left"@)
}

/// A blank line or a suggestion.
pub open spec fn suggests(line: Seq<char>) -> bool {
    trim(line).len() == 0 || trim(line)[0] == '›'
}

/// A line that is no conversation wherever it stands.
pub open spec fn disturbs(line: Seq<char>) -> bool {
    ||| contains(line, "esc to interrupt"@)
    ||| contains(line, "esc again to edit"@)
    ||| trim(line).len() > 0 && forall|i: int| 0 <= i < trim(line).len() ==> trim(line)[i] == '─'
}

proof fn lemma_same_marks(line: Seq<char>)
    ensures
        at_the_top(line) == is_frame(line),
        helps(line) == is_help(line),
        suggests(line) == is_suggestion(line),
        disturbs(line) == is_noise(line),
{
    reveal_strlit("Tip:");
    let t = trim(line);
    let tip = "Tip:"@;
    assert(tip.len() == 4 && tip[0] == 'T' && tip[1] == 'i' && tip[2] == 'p' && tip[3] == ':');
    if t.len() >= 4 {
        let head = t.subrange(0, 4);
        assert(head[0] == t[0] && head[1] == t[1] && head[2] == t[2] && head[3] == t[3]);
        if t[0] == 'T' && t[1] == 'i' && t[2] == 'p' && t[3] == ':' {
            assert(head =~= tip);
        }
    }
}

proof fn lemma_top(lines: Seq<Seq<char>>)
    ensures
        frame_len(lines) <= lines.len(),
        forall|i: int| 0 <= i < frame_len(lines) ==> is_frame(#[trigger] lines[i]),
        frame_len(lines) < lines.len() ==> !is_frame(lines[frame_len(lines) as int]),
    decreases lines.len(),
{
    if lines.len() > 0 && is_frame(lines[0]) {
        let rest = lines.skip(1);
        lemma_top(rest);
        assert forall|i: int| 0 <= i < frame_len(lines) implies is_frame(#[trigger] lines[i]) by {
            if i > 0 {
                assert(rest[i - 1] == lines[i]);
            }
        }
        if frame_len(lines) < lines.len() {
            assert(rest[frame_len(rest) as int] == lines[frame_len(lines) as int]);
        }
    }
}

proof fn lemma_help(lines: Seq<Seq<char>>, start: int, n: int)
    requires
        0 <= start <= lines.len(),
        n <= lines.len(),
        forall|i: int| n <= i < lines.len() && start <= i ==> !is_help(#[trigger] lines[i]),
    ensures
        ({
            let help = help_at(lines, start, n);
            &&& start <= help <= lines.len()
            &&& help < lines.len() ==> is_help(lines[help])
            &&& forall|i: int|
                (if help == lines.len() {
                    start <= i
                } else {
                    help < i
                }) && i < lines.len() ==> !is_help(#[trigger] lines[i])
        }),
    decreases n - start,
{
    if n > start && !is_help(lines[n - 1]) {
        lemma_help(lines, start, n - 1);
    }
}

proof fn lemma_bottom(lines: Seq<Seq<char>>, start: int, n: int)
    requires
        0 <= start <= n <= lines.len(),
    ensures
        start <= content_end(lines, start, n) <= n,
        content_end(lines, start, n) > start ==> !is_suggestion(
            lines[content_end(lines, start, n) - 1],
        ),
        forall|i: int|
            content_end(lines, start, n) <= i < n ==> is_suggestion(#[trigger] lines[i]),
    decreases n - start,
{
    if n > start && is_suggestion(lines[n - 1]) {
        lemma_bottom(lines, start, n - 1);
    }
}

proof fn lemma_quiet_places(lines: Seq<Seq<char>>) -> (places: Seq<int>)
    ensures
        places.len() == quiet(lines).len(),
        forall|j: int, k: int|
            0 <= j < k < places.len() ==> #[trigger] places[j] < #[trigger] places[k],
        forall|k: int|
            0 <= k < places.len() ==> 0 <= #[trigger] places[k] < lines.len() && quiet(lines)[k]
                == lines[places[k]],
        forall|i: int|
            0 <= i < lines.len() ==> (#[trigger] places.contains(i) <==> !is_noise(lines[i])),
    decreases lines.len(),
{
    if lines.len() == 0 {
        seq![]
    } else {
        let n = lines.len() - 1;
        let rest = lines.drop_last();
        let before = lemma_quiet_places(rest);
        assert forall|k: int| 0 <= k < before.len() implies 0 <= #[trigger] before[k] < n
            && lines[before[k]] == rest[before[k]] by {}
        let places = if is_noise(lines.last()) {
            before
        } else {
            before.push(n)
        };
        assert forall|i: int| 0 <= i < lines.len() implies (#[trigger] places.contains(i)
            <==> !is_noise(lines[i])) by {
            if i < n {
                assert(rest[i] == lines[i]);
                assert(before.contains(i) <==> !is_noise(rest[i]));
                if before.contains(i) {
                    let k = before.index_of(i);
                    assert(places[k] == i);
                }
                if places.contains(i) {
                    let k = places.index_of(i);
                    assert(k < before.len());
                    assert(before[k] == i);
                }
            } else {
                if places.contains(i) {
                    let k = places.index_of(i);
                    if k < before.len() {
                        assert(before[k] < n);
                    }
                }
                if places.len() > before.len() {
                    assert(places[before.len() as int] == n);
                }
            }
        }
        places
    }
}

} // verus!
