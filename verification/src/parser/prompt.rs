//! Questions that an agent asks: `Question 1/3`, the text of the question, and its options.
use crate::numbers::{natural, parse_natural};
use crate::pattern::{
    all_captures, all_texts, captures_of, find_all, group, group_text, match_texts, Found, Groups,
};
use crate::text::{
    contains, first_at, join, lemma_texts_push, starts_with, str_find, str_join, str_starts_with,
    str_trim, str_trim_start, texts, trim, trim_start,
};
use vstd::prelude::*;

verus! {

/// The header of a question.
pub const QUESTION_HEADER: &'static str = "Question\\s+(\\d+)/(\\d+)";

/// An option: its number, a dot, and its text. A marker stands before the selected one.
pub const OPTION: &'static str = "^\\s*›?\\s*(\\d+)\\.\\s+(.+)$";

/// A question with its options.
#[derive(Debug, Clone)]
pub struct PromptInfo {
    pub question_num: u8,
    pub question_total: u8,
    pub question_text: String,
    pub options: Vec<PromptOption>,
    pub selected: u8,
}

/// One of the answers that a question offers.
#[derive(Debug, Clone)]
pub struct PromptOption {
    pub number: u8,
    pub label: String,
    pub description: String,
    pub is_selected: bool,
}

/// What an option says.
pub struct OptionView {
    pub number: u8,
    pub label: Seq<char>,
    pub description: Seq<char>,
    pub is_selected: bool,
}

/// What a question says.
pub struct PromptView {
    pub question_num: u8,
    pub question_total: u8,
    pub question_text: Seq<char>,
    pub options: Seq<OptionView>,
    pub selected: u8,
}

impl View for PromptOption {
    type V = OptionView;

    open spec fn view(&self) -> OptionView {
        OptionView {
            number: self.number,
            label: self.label@,
            description: self.description@,
            is_selected: self.is_selected,
        }
    }
}

/// What the options of a sequence say.
pub open spec fn option_views(options: Seq<PromptOption>) -> Seq<OptionView> {
    Seq::new(options.len(), |i: int| options[i]@)
}

impl View for PromptInfo {
    type V = PromptView;

    open spec fn view(&self) -> PromptView {
        PromptView {
            question_num: self.question_num,
            question_total: self.question_total,
            question_text: self.question_text@,
            options: option_views(self.options@),
            selected: self.selected,
        }
    }
}

/// What a question says, where there is one.
pub open spec fn prompt_view(info: Option<PromptInfo>) -> Option<PromptView> {
    match info {
        Some(info) => Some(info@),
        None => None,
    }
}

// ---------------------------------------------------------------------------------------------
// The question's number

/// The number that group `n` of a match holds.
pub open spec fn number_in(found: Groups, n: int) -> Option<nat> {
    match group(found, n) {
        Some(text) => natural(text, 255),
        None => None,
    }
}

/// The question's number and the number of questions, from the first line from `i` on in which
/// the header pattern finds something. A number over 255 is none.
pub open spec fn question_in(found: Seq<Groups>, i: int) -> Option<(u8, u8)>
    decreases found.len() - i,
{
    if i >= found.len() {
        None
    } else if found[i] is None {
        question_in(found, i + 1)
    } else {
        match (number_in(found[i], 1), number_in(found[i], 2)) {
            (Some(num), Some(total)) => Some((num as u8, total as u8)),
            _ => None,
        }
    }
}

/// The number that group `n` of a match holds.
fn number_of(found: &Found, n: usize) -> (r: Option<u8>)
    ensures
        match r {
            Some(x) => number_in(match_texts(*found), n as int) == Some(x as nat),
            None => number_in(match_texts(*found), n as int) is None,
        },
{
    match group_text(found, n) {
        Some(text) => match parse_natural(text.as_str(), 255) {
            Some(x) => Some(x as u8),
            None => None,
        },
        None => None,
    }
}

/// The question's number and the number of questions, from what the header pattern finds in
/// each line.
pub fn question_from(found: &[Found]) -> (r: Option<(u8, u8)>)
    ensures
        r == question_in(all_texts(found@), 0),
{
    let mut i: usize = 0;
    while i < found.len()
        invariant
            i <= found@.len(),
            question_in(all_texts(found@), 0) == question_in(all_texts(found@), i as int),
        decreases found@.len() - i,
    {
        proof {
            assert(all_texts(found@)[i as int] == match_texts(found@[i as int]));
        }
        if found[i].is_some() {
            let num = number_of(&found[i], 1);
            let total = number_of(&found[i], 2);
            return match (num, total) {
                (Some(num), Some(total)) => Some((num, total)),
                _ => None,
            };
        }
        i = i + 1;
    }
    None
}

/// Parse the question header "Question N/M" from screen lines.
pub fn parse_question_header(lines: &[String]) -> (r: Option<(u8, u8)>)
    ensures
        r == question_in(all_captures(QUESTION_HEADER@, texts(lines@)), 0),
{
    let found = find_all(QUESTION_HEADER, lines);
    question_from(found.as_slice())
}

// ---------------------------------------------------------------------------------------------
// The options

/// The part of an option's text before the first run of three blanks, and the part after it.
pub open spec fn label_and_description(rest: Seq<char>) -> (Seq<char>, Seq<char>) {
    if contains(rest, "   "@) {
        let pos = choose|i: int| first_at(rest, "   "@, i);
        (trim(rest.take(pos)), trim(rest.skip(pos)))
    } else {
        (rest, seq![])
    }
}

/// The option that a line holds, if the option pattern finds `found` in it. A line whose number
/// is over 255 holds none.
pub open spec fn option_in(line: Seq<char>, found: Groups) -> Option<OptionView> {
    match (number_in(found, 1), group(found, 2)) {
        (Some(number), Some(rest)) => {
            let (label, description) = label_and_description(rest);
            Some(
                OptionView {
                    number: number as u8,
                    label,
                    description,
                    is_selected: starts_with(trim_start(line), "›"@),
                },
            )
        },
        _ => None,
    }
}

/// The options in the first `n` lines.
pub open spec fn options_to(lines: Seq<Seq<char>>, found: Seq<Groups>, n: int) -> Seq<OptionView>
    decreases n,
{
    if n <= 0 {
        seq![]
    } else {
        match option_in(lines[n - 1], found[n - 1]) {
            Some(option) => options_to(lines, found, n - 1).push(option),
            None => options_to(lines, found, n - 1),
        }
    }
}

/// The lines without the white space they start with.
pub open spec fn trimmed_starts(lines: Seq<Seq<char>>) -> Seq<Seq<char>> {
    Seq::new(lines.len(), |i: int| trim_start(lines[i]))
}

/// The lines without the white space at their ends.
pub open spec fn trimmed(lines: Seq<Seq<char>>) -> Seq<Seq<char>> {
    Seq::new(lines.len(), |i: int| trim(lines[i]))
}

/// The options in the lines.
pub open spec fn options_of(lines: Seq<Seq<char>>) -> Seq<OptionView> {
    options_to(lines, all_captures(OPTION@, trimmed_starts(lines)), lines.len() as int)
}

/// The first position of `needle` is unique.
proof fn lemma_first_at(hay: Seq<char>, needle: Seq<char>, i: int)
    requires
        first_at(hay, needle, i),
    ensures
        contains(hay, needle),
        (choose|j: int| first_at(hay, needle, j)) == i,
{
    assert(crate::text::occurs_at(hay, needle, i));
    let j = choose|j: int| first_at(hay, needle, j);
    assert(first_at(hay, needle, j));
}

/// Splits an option's text into label and description.
fn split_label(rest: &String) -> (r: (String, String))
    ensures
        (r.0@, r.1@) == label_and_description(rest@),
{
    match str_find(rest.as_str(), "   ") {
        Some(pos) => {
            let s = rest.as_str();
            let n = crate::text::chars_of(s).len();
            proof {
                lemma_first_at(rest@, "   "@, pos as int);
                assert(rest@.take(pos as int) =~= rest@.subrange(0, pos as int));
                assert(rest@.skip(pos as int) =~= rest@.subrange(pos as int, n as int));
            }
            let label = str_trim(s.substring_char(0, pos)).to_owned();
            let description = str_trim(s.substring_char(pos, n)).to_owned();
            (label, description)
        },
        None => (rest.clone(), String::new()),
    }
}

/// The option that a line holds, from what the option pattern finds in it.
fn option_of(line: &str, found: &Found) -> (r: Option<PromptOption>)
    ensures
        match r {
            Some(option) => option_in(line@, match_texts(*found)) == Some(option@),
            None => option_in(line@, match_texts(*found)) is None,
        },
{
    match (number_of(found, 1), group_text(found, 2)) {
        (Some(number), Some(rest)) => {
            let (label, description) = split_label(rest);
            let is_selected = str_starts_with(str_trim_start(line), "›");
            Some(PromptOption { number, label, description, is_selected })
        },
        _ => None,
    }
}

/// The options in the lines, from what the option pattern finds in each.
pub fn options_from(lines: &[String], found: &[Found]) -> (options: Vec<PromptOption>)
    requires
        found@.len() == lines@.len(),
    ensures
        option_views(options@) == options_to(
            texts(lines@),
            all_texts(found@),
            lines@.len() as int,
        ),
{
    let ghost t = texts(lines@);
    let ghost f = all_texts(found@);
    let mut options: Vec<PromptOption> = Vec::new();
    let mut i: usize = 0;
    proof {
        assert(option_views(options@) =~= options_to(t, f, 0));
    }
    while i < lines.len()
        invariant
            i <= lines@.len() == found@.len(),
            t == texts(lines@),
            f == all_texts(found@),
            option_views(options@) == options_to(t, f, i as int),
        decreases lines@.len() - i,
    {
        if let Some(option) = option_of(lines[i].as_str(), &found[i]) {
            proof {
                assert(option_views(options@.push(option)) =~= option_views(options@).push(
                    option@,
                ));
            }
            options.push(option);
        }
        i = i + 1;
    }
    options
}

/// Cuts the white space off the start of each line.
fn trim_starts(lines: &[String]) -> (r: Vec<String>)
    ensures
        texts(r@) == trimmed_starts(texts(lines@)),
{
    let ghost t = trimmed_starts(texts(lines@));
    let mut out: Vec<String> = Vec::new();
    let mut i: usize = 0;
    while i < lines.len()
        invariant
            i <= lines@.len(),
            t == trimmed_starts(texts(lines@)),
            texts(out@) == t.take(i as int),
        decreases lines@.len() - i,
    {
        let line = str_trim_start(lines[i].as_str()).to_owned();
        proof {
            lemma_texts_push(out@, line);
            assert(t.take(i + 1) =~= t.take(i as int).push(line@));
        }
        out.push(line);
        i = i + 1;
    }
    proof {
        assert(t.take(lines@.len() as int) =~= t);
    }
    out
}

/// Cuts the white space off both ends of each line.
fn trim_all(lines: &[String]) -> (r: Vec<String>)
    ensures
        texts(r@) == trimmed(texts(lines@)),
{
    let ghost t = trimmed(texts(lines@));
    let mut out: Vec<String> = Vec::new();
    let mut i: usize = 0;
    while i < lines.len()
        invariant
            i <= lines@.len(),
            t == trimmed(texts(lines@)),
            texts(out@) == t.take(i as int),
        decreases lines@.len() - i,
    {
        let line = str_trim(lines[i].as_str()).to_owned();
        proof {
            lemma_texts_push(out@, line);
            assert(t.take(i + 1) =~= t.take(i as int).push(line@));
        }
        out.push(line);
        i = i + 1;
    }
    proof {
        assert(t.take(lines@.len() as int) =~= t);
    }
    out
}

/// Parse prompt options from screen lines.
/// Detects the `›` marker for the selected option.
pub fn parse_options(lines: &[String]) -> (options: Vec<PromptOption>)
    ensures
        option_views(options@) == options_of(texts(lines@)),
{
    let starts = trim_starts(lines);
    let found = find_all(OPTION, starts.as_slice());
    proof {
        assert(all_texts(found@).len() == texts(starts@).len());
        assert(texts(starts@).len() == lines@.len());
    }
    options_from(lines, found.as_slice())
}

// ---------------------------------------------------------------------------------------------
// The question as a whole

/// The number of the first selected option from `i` on, or 1.
pub open spec fn selected_in(options: Seq<OptionView>, i: int) -> u8
    decreases options.len() - i,
{
    if i >= options.len() {
        1
    } else if options[i].is_selected {
        options[i].number
    } else {
        selected_in(options, i + 1)
    }
}

/// The first line from `i` on that has a question's header, or the number of lines.
pub open spec fn first_header(headers: Seq<bool>, i: int) -> int
    decreases headers.len() - i,
{
    if i >= headers.len() || headers[i] {
        i
    } else {
        first_header(headers, i + 1)
    }
}

/// The lines of a question's text from line `i` on, of which `begun` says whether some have
/// come before. Headers are passed over. The text ends at an option, at a selection marker, or
/// at the first blank line after some text.
pub open spec fn text_lines(
    lines: Seq<Seq<char>>,
    headers: Seq<bool>,
    options: Seq<bool>,
    i: int,
    begun: bool,
) -> Seq<Seq<char>>
    decreases lines.len() - i,
{
    if i >= lines.len() {
        seq![]
    } else if headers[i] {
        text_lines(lines, headers, options, i + 1, begun)
    } else if trim(lines[i]).len() == 0 {
        if begun {
            seq![]
        } else {
            text_lines(lines, headers, options, i + 1, begun)
        }
    } else if options[i] || starts_with(trim(lines[i]), "›"@) {
        seq![]
    } else {
        seq![trim(lines[i])] + text_lines(lines, headers, options, i + 1, true)
    }
}

/// The text of a question: its lines, joined by blanks.
pub open spec fn question_text_in(
    lines: Seq<Seq<char>>,
    headers: Seq<bool>,
    options: Seq<bool>,
) -> Seq<char> {
    join(text_lines(lines, headers, options, first_header(headers, 0), false), " "@)
}

/// In which lines a search has found something.
pub open spec fn hits(found: Seq<Groups>) -> Seq<bool> {
    Seq::new(found.len(), |i: int| found[i] is Some)
}

/// The question in the lines, from what the header pattern finds in each, what the option
/// pattern finds in each from its first character on, and in which trimmed lines it finds
/// something.
pub open spec fn prompt_in(
    lines: Seq<Seq<char>>,
    headers: Seq<Groups>,
    options: Seq<Groups>,
    marks: Seq<bool>,
) -> Option<PromptView> {
    match question_in(headers, 0) {
        Some((num, total)) => {
            let choices = options_to(lines, options, lines.len() as int);
            Some(
                PromptView {
                    question_num: num,
                    question_total: total,
                    question_text: question_text_in(lines, hits(headers), marks),
                    options: choices,
                    selected: selected_in(choices, 0),
                },
            )
        },
        None => None,
    }
}

/// The question in the lines.
pub open spec fn prompt(lines: Seq<Seq<char>>) -> Option<PromptView> {
    prompt_in(
        lines,
        all_captures(QUESTION_HEADER@, lines),
        all_captures(OPTION@, trimmed_starts(lines)),
        hits(all_captures(OPTION@, trimmed(lines))),
    )
}

/// The number of the first selected option, or 1.
fn selected_of(options: &Vec<PromptOption>) -> (r: u8)
    ensures
        r == selected_in(option_views(options@), 0),
{
    let mut i: usize = 0;
    while i < options.len()
        invariant
            i <= options@.len(),
            selected_in(option_views(options@), 0) == selected_in(
                option_views(options@),
                i as int,
            ),
        decreases options@.len() - i,
    {
        proof {
            assert(option_views(options@)[i as int] == options@[i as int]@);
        }
        if options[i].is_selected {
            return options[i].number;
        }
        i = i + 1;
    }
    1
}

/// In which lines a search has found something.
fn hits_of(found: &[Found]) -> (r: Vec<bool>)
    ensures
        r@ == hits(all_texts(found@)),
{
    let ghost h = hits(all_texts(found@));
    let mut out: Vec<bool> = Vec::new();
    let mut i: usize = 0;
    while i < found.len()
        invariant
            i <= found@.len(),
            h == hits(all_texts(found@)),
            out@ == h.take(i as int),
        decreases found@.len() - i,
    {
        out.push(found[i].is_some());
        proof {
            assert(h.take(i + 1) =~= h.take(i as int).push(h[i as int]));
        }
        i = i + 1;
    }
    proof {
        assert(h.take(found@.len() as int) =~= h);
    }
    out
}

/// The text of the question in the lines, by which lines have a header and which an option.
pub fn question_text_from(lines: &[String], headers: &[bool], options: &[bool]) -> (r: String)
    requires
        headers@.len() == lines@.len(),
        options@.len() == lines@.len(),
    ensures
        r@ == question_text_in(texts(lines@), headers@, options@),
{
    let ghost t = texts(lines@);
    let mut i: usize = 0;
    while i < headers.len() && !headers[i]
        invariant
            i <= headers@.len(),
            first_header(headers@, 0) == first_header(headers@, i as int),
        decreases headers@.len() - i,
    {
        i = i + 1;
    }
    let ghost all = text_lines(t, headers@, options@, i as int, false);
    let mut parts: Vec<String> = Vec::new();
    proof {
        assert(texts(parts@) + all =~= all);
    }
    while i < lines.len()
        invariant
            i <= lines@.len() == headers@.len(),
            options@.len() == lines@.len(),
            t == texts(lines@),
            texts(parts@) + text_lines(t, headers@, options@, i as int, parts@.len() > 0) == all,
        ensures
            texts(parts@) == all,
        decreases lines@.len() - i,
    {
        proof {
            assert(t[i as int] == lines@[i as int]@);
            assert(texts(parts@) + seq![] =~= texts(parts@));
        }
        if !headers[i] {
            let line = str_trim(lines[i].as_str());
            if line.is_empty() {
                if parts.len() > 0 {
                    break;
                }
            } else {
                if options[i] || str_starts_with(line, "›") {
                    break;
                }
                let part = line.to_owned();
                proof {
                    let rest = text_lines(t, headers@, options@, i + 1, true);
                    lemma_texts_push(parts@, part);
                    assert(texts(parts@).push(part@) + rest =~= texts(parts@) + (seq![part@]
                        + rest));
                }
                parts.push(part);
            }
        }
        i = i + 1;
        proof {
            assert(texts(parts@) + seq![] =~= texts(parts@));
        }
    }
    str_join(parts.as_slice(), " ")
}

/// The question in the lines, from what the patterns find in them.
pub fn prompt_from(lines: &[String], headers: &[Found], options: &[Found], marks: &[bool]) -> (r:
    Option<PromptInfo>)
    requires
        headers@.len() == lines@.len(),
        options@.len() == lines@.len(),
        marks@.len() == lines@.len(),
    ensures
        prompt_view(r) == prompt_in(
            texts(lines@),
            all_texts(headers@),
            all_texts(options@),
            marks@,
        ),
{
    match question_from(headers) {
        Some((question_num, question_total)) => {
            let choices = options_from(lines, options);
            let selected = selected_of(&choices);
            let hit = hits_of(headers);
            let question_text = question_text_from(lines, hit.as_slice(), marks);
            Some(
                PromptInfo {
                    question_num,
                    question_total,
                    question_text,
                    options: choices,
                    selected,
                },
            )
        },
        None => None,
    }
}

/// Parse the full prompt from screen lines.
pub fn parse_prompt(lines: &[String]) -> (r: Option<PromptInfo>)
    ensures
        prompt_view(r) == prompt(texts(lines@)),
{
    let headers = find_all(QUESTION_HEADER, lines);
    let starts = trim_starts(lines);
    let options = find_all(OPTION, starts.as_slice());
    let both = trim_all(lines);
    let found = find_all(OPTION, both.as_slice());
    let marks = hits_of(found.as_slice());
    proof {
        let n = lines@.len();
        assert(texts(starts@).len() == n && texts(both@).len() == n);
        assert(all_texts(headers@).len() == n);
        assert(all_texts(options@).len() == n);
        assert(all_texts(found@).len() == n);
    }
    prompt_from(lines, headers.as_slice(), options.as_slice(), marks.as_slice())
}

// ---------------------------------------------------------------------------------------------
// Laws

/// Which option of a question is selected: the first that is marked, by its own number. Where
/// none is marked it is the first by its number.
pub proof fn law_the_first_marked_is_selected(
    lines: Seq<Seq<char>>,
    headers: Seq<Groups>,
    found: Seq<Groups>,
    marks: Seq<bool>,
)
    requires
        prompt_in(lines, headers, found, marks) is Some,
    ensures
        ({
            let info = prompt_in(lines, headers, found, marks)->0;
            let options = info.options;
            &&& (exists|i: int| 0 <= i < options.len() && (#[trigger] options[i]).is_selected)
                ==> exists|i: int|
                0 <= i < options.len() && (#[trigger] options[i]).is_selected
                    && options[i].number == info.selected && forall|j: int|
                    0 <= j < i ==> !(#[trigger] options[j]).is_selected
            &&& (forall|i: int| 0 <= i < options.len() ==> !(#[trigger] options[i]).is_selected)
                ==> info.selected == 1
        }),
{
    let options = prompt_in(lines, headers, found, marks)->0.options;
    lemma_selected(options, 0);
}

proof fn lemma_selected(options: Seq<OptionView>, from: int)
    requires
        0 <= from <= options.len(),
    ensures
        (exists|i: int| from <= i < options.len() && (#[trigger] options[i]).is_selected)
            ==> exists|i: int|
            from <= i < options.len() && (#[trigger] options[i]).is_selected && options[i].number
                == selected_in(options, from) && forall|j: int|
                from <= j < i ==> !(#[trigger] options[j]).is_selected,
        (forall|i: int| from <= i < options.len() ==> !(#[trigger] options[i]).is_selected)
            ==> selected_in(options, from) == 1,
    decreases options.len() - from,
{
    if from < options.len() && !options[from].is_selected {
        lemma_selected(options, from + 1);
        if exists|i: int| from <= i < options.len() && (#[trigger] options[i]).is_selected {
            let i = choose|i: int|
                from + 1 <= i < options.len() && (#[trigger] options[i]).is_selected
                    && options[i].number == selected_in(options, from + 1) && forall|j: int|
                    from + 1 <= j < i ==> !(#[trigger] options[j]).is_selected;
            assert(options[i].is_selected && options[i].number == selected_in(options, from));
        }
    }
}

/// Where the options of a question come from: each from a line in which the option pattern finds
/// a number and a text, in the order of the lines, and every such line gives one. The number is
/// the one found, the option is marked just where the line starts with the marker, and its label
/// and description are what stands before and after the first three blanks of the text, without
/// white space at their ends. A text without three blanks in a row is all label.
pub proof fn law_options_are_read_off_lines(
    lines: Seq<Seq<char>>,
    headers: Seq<Groups>,
    found: Seq<Groups>,
    marks: Seq<bool>,
) -> (places: Seq<int>)
    requires
        prompt_in(lines, headers, found, marks) is Some,
        found.len() == lines.len(),
    ensures
        ({
            let options = prompt_in(lines, headers, found, marks)->0.options;
            &&& places.len() == options.len()
            &&& forall|j: int, k: int|
                0 <= j < k < places.len() ==> #[trigger] places[j] < #[trigger] places[k]
            &&& forall|k: int|
                0 <= k < places.len() ==> 0 <= #[trigger] places[k] < lines.len()
                    && came_from(options[k], lines[places[k]], found[places[k]])
            &&& forall|i: int|
                0 <= i < lines.len() && !places.contains(i) ==> match (
                    group(#[trigger] found[i], 1),
                    group(found[i], 2),
                ) {
                    (Some(number), Some(_)) => natural(number, 255) is None,
                    _ => true,
                }
        }),
{
    lemma_option_places(lines, found, lines.len() as int)
}

/// Whether an option says what a line and the number and text found in it say.
pub open spec fn came_from(option: OptionView, line: Seq<char>, found: Groups) -> bool {
    &&& group(found, 1) is Some && group(found, 2) is Some
    &&& natural(group(found, 1)->0, 255) == Some(option.number as nat)
    &&& option.is_selected <==> trim_start(line).len() > 0 && trim_start(line)[0] == '›'
    &&& {
        let text = group(found, 2)->0;
        ||| !contains(text, "   "@) && option.label == text && option.description.len() == 0
        ||| exists|i: int|
            first_at(text, "   "@, i) && option.label == trim(#[trigger] text.take(i))
                && option.description == trim(text.skip(i))
    }
}

proof fn lemma_option_places(lines: Seq<Seq<char>>, found: Seq<Groups>, n: int) -> (places: Seq<
    int,
>)
    requires
        0 <= n <= lines.len(),
        found.len() == lines.len(),
    ensures
        ({
            let options = options_to(lines, found, n);
            &&& places.len() == options.len()
            &&& forall|j: int, k: int|
                0 <= j < k < places.len() ==> #[trigger] places[j] < #[trigger] places[k]
            &&& forall|k: int|
                0 <= k < places.len() ==> 0 <= #[trigger] places[k] < n && came_from(
                    options[k],
                    lines[places[k]],
                    found[places[k]],
                )
            &&& forall|i: int|
                0 <= i < n && !places.contains(i) ==> match (
                    group(#[trigger] found[i], 1),
                    group(found[i], 2),
                ) {
                    (Some(number), Some(_)) => natural(number, 255) is None,
                    _ => true,
                }
        }),
    decreases n,
{
    if n <= 0 {
        seq![]
    } else {
        let before = lemma_option_places(lines, found, n - 1);
        match option_in(lines[n - 1], found[n - 1]) {
            Some(option) => {
                let text = group(found[n - 1], 2)->0;
                if contains(text, "   "@) {
                    lemma_has_first(text, "   "@);
                    let i = choose|i: int| first_at(text, "   "@, i);
                    assert(option.label == trim(text.take(i)));
                }
                lemma_marker(lines[n - 1]);
                assert(came_from(option, lines[n - 1], found[n - 1]));
                let places = before.push(n - 1);
                assert forall|i: int| 0 <= i < n && !places.contains(i) implies match (
                    group(#[trigger] found[i], 1),
                    group(found[i], 2),
                ) {
                    (Some(number), Some(_)) => natural(number, 255) is None,
                    _ => true,
                } by {
                    if i == n - 1 {
                        assert(places[before.len() as int] == i);
                    } else if before.contains(i) {
                        let k = before.index_of(i);
                        assert(places[k] == i);
                    }
                }
                places
            },
            None => before,
        }
    }
}

/// Where a text holds another there is a first place.
pub proof fn lemma_has_first(hay: Seq<char>, needle: Seq<char>)
    requires
        contains(hay, needle),
    ensures
        exists|i: int| first_at(hay, needle, i),
{
    let i = choose|i: int| crate::text::occurs_at(hay, needle, i);
    lemma_first_below(hay, needle, i);
}

proof fn lemma_first_below(hay: Seq<char>, needle: Seq<char>, i: int)
    requires
        crate::text::occurs_at(hay, needle, i),
    ensures
        exists|j: int| first_at(hay, needle, j),
    decreases i,
{
    if !first_at(hay, needle, i) {
        let j = choose|j: int| 0 <= j < i && crate::text::occurs_at(hay, needle, j);
        lemma_first_below(hay, needle, j);
    }
}

proof fn lemma_marker(line: Seq<char>)
    ensures
        starts_with(trim_start(line), "›"@) <==> trim_start(line).len() > 0 && trim_start(line)[0]
            == '›',
{
    reveal_strlit("›");
    let t = trim_start(line);
    if t.len() > 0 {
        assert(t.subrange(0, 1) =~= seq![t[0]]);
    }
    if t.len() > 0 && t[0] == '›' {
        assert(t.subrange(0, 1) =~= "›"@);
    }
    if starts_with(t, "›"@) {
        assert(t.subrange(0, 1)[0] == "›"@[0]);
    }
}

/// The numbers of a question are those found in the first line that has a header, and there is a
/// question just where both are there and at most 255.
pub proof fn law_the_first_header_numbers_the_question(found: Seq<Groups>, at: int)
    requires
        0 <= at < found.len(),
        found[at] is Some,
        forall|i: int| 0 <= i < at ==> #[trigger] found[i] is None,
    ensures
        match question_in(found, 0) {
            Some((number, total)) => {
                &&& group(found[at], 1) is Some && group(found[at], 2) is Some
                &&& natural(group(found[at], 1)->0, 255) == Some(number as nat)
                &&& natural(group(found[at], 2)->0, 255) == Some(total as nat)
            },
            None => {
                ||| group(found[at], 1) is None
                ||| group(found[at], 2) is None
                ||| natural(group(found[at], 1)->0, 255) is None
                ||| natural(group(found[at], 2)->0, 255) is None
            },
        },
{
    lemma_question_at(found, 0, at);
    if group(found[at], 1) is Some {
        lemma_natural_bound(group(found[at], 1)->0, 255);
    }
    if group(found[at], 2) is Some {
        lemma_natural_bound(group(found[at], 2)->0, 255);
    }
}

/// Lines without a header have no question.
pub proof fn law_no_header_no_question(
    lines: Seq<Seq<char>>,
    headers: Seq<Groups>,
    found: Seq<Groups>,
    marks: Seq<bool>,
)
    requires
        forall|i: int| 0 <= i < headers.len() ==> #[trigger] headers[i] is None,
    ensures
        prompt_in(lines, headers, found, marks) is None,
{
    lemma_no_question(headers, 0);
}

proof fn lemma_no_question(found: Seq<Groups>, i: int)
    requires
        0 <= i <= found.len(),
        forall|j: int| 0 <= j < found.len() ==> #[trigger] found[j] is None,
    ensures
        question_in(found, i) is None,
    decreases found.len() - i,
{
    if i < found.len() {
        lemma_no_question(found, i + 1);
    }
}

proof fn lemma_question_at(found: Seq<Groups>, i: int, at: int)
    requires
        0 <= i <= at < found.len(),
        forall|j: int| 0 <= j < at ==> #[trigger] found[j] is None,
    ensures
        question_in(found, i) == question_in(found, at),
    decreases at - i,
{
    if i < at {
        lemma_question_at(found, i + 1, at);
    }
}

proof fn lemma_natural_bound(text: Seq<char>, max: nat)
    ensures
        natural(text, max) is Some ==> natural(text, max)->0 <= max,
{
}

/// Where the text of a question comes from: from lines below the first header, each without the
/// white space at its ends, in their order. None of them is a header, an option or starts with
/// the marker. Between the header and the first of them are only headers and blank lines, between
/// two of them only headers, and after the last of them the text ends at a blank line, an option,
/// the marker or the end. Where there are none, an option or the marker comes before any text.
pub proof fn law_question_text_is_read_off_lines(
    lines: Seq<Seq<char>>,
    headers: Seq<bool>,
    options: Seq<bool>,
    at: int,
) -> (places: Seq<int>)
    requires
        headers.len() == lines.len(),
        options.len() == lines.len(),
        0 <= at < lines.len(),
        headers[at],
        forall|i: int| 0 <= i < at ==> !#[trigger] headers[i],
    ensures
        question_text_in(lines, headers, options) == join(
            Seq::new(places.len(), |k: int| trim(lines[places[k]])),
            " "@,
        ),
        forall|k: int|
            0 <= k < places.len() ==> at < #[trigger] places[k] && is_text(
                lines,
                headers,
                options,
                places[k],
            ),
        forall|k: int|
            0 <= k && k + 1 < places.len() ==> #[trigger] places[k] < places[k + 1]
                && only_headers(headers, places[k] + 1, places[k + 1]),
        places.len() > 0 ==> ends(lines, headers, options, places.last() + 1),
        places.len() > 0 ==> only_blank(lines, headers, at + 1, places[0]),
        places.len() == 0 ==> lacks_text(lines, headers, options, at + 1),
{
    lemma_header_at(headers, 0, at);
    let places = lemma_text_places(lines, headers, options, at + 1, false);
    let parts = text_lines(lines, headers, options, at + 1, false);
    assert(parts =~= Seq::new(places.len(), |k: int| trim(lines[places[k]])));
    places
}

/// A line that can stand in the text of a question: not blank, no header and no choice.
pub open spec fn is_text(
    lines: Seq<Seq<char>>,
    headers: Seq<bool>,
    options: Seq<bool>,
    i: int,
) -> bool {
    &&& 0 <= i < lines.len()
    &&& !headers[i]
    &&& !options[i]
    &&& trim(lines[i]).len() > 0
    &&& trim(lines[i])[0] != '›'
}

/// A line that offers a choice: an option, or one that starts with the marker.
pub open spec fn is_choice(
    lines: Seq<Seq<char>>,
    headers: Seq<bool>,
    options: Seq<bool>,
    i: int,
) -> bool {
    &&& 0 <= i < lines.len()
    &&& !headers[i]
    &&& trim(lines[i]).len() > 0
    &&& options[i] || trim(lines[i])[0] == '›'
}

/// The lines from `from` to `to` are headers.
pub open spec fn only_headers(headers: Seq<bool>, from: int, to: int) -> bool {
    forall|i: int| from <= i < to ==> #[trigger] headers[i]
}

/// The lines from `from` to `to` are headers or blank.
pub open spec fn only_blank(
    lines: Seq<Seq<char>>,
    headers: Seq<bool>,
    from: int,
    to: int,
) -> bool {
    forall|i: int| from <= i < to ==> headers[i] || trim(#[trigger] lines[i]).len() == 0
}

/// The text ends at line `end`, before which there are only headers from `from` on.
pub open spec fn ends_at(
    lines: Seq<Seq<char>>,
    headers: Seq<bool>,
    options: Seq<bool>,
    from: int,
    end: int,
) -> bool {
    &&& from <= end <= lines.len()
    &&& only_headers(headers, from, end)
    &&& end == lines.len() || (!headers[end] && trim(lines[end]).len() == 0) || is_choice(
        lines,
        headers,
        options,
        end,
    )
}

/// From `from` on there are only headers and blank lines, up to a choice or the end.
pub open spec fn lacks_text(
    lines: Seq<Seq<char>>,
    headers: Seq<bool>,
    options: Seq<bool>,
    from: int,
) -> bool {
    exists|end: int|
        from <= end <= lines.len() && #[trigger] only_blank(lines, headers, from, end) && (end
            == lines.len() || is_choice(lines, headers, options, end))
}

/// The text ends at some line, before which there are only headers from `from` on.
pub open spec fn ends(
    lines: Seq<Seq<char>>,
    headers: Seq<bool>,
    options: Seq<bool>,
    from: int,
) -> bool {
    exists|end: int| ends_at(lines, headers, options, from, end)
}

proof fn lemma_header_at(headers: Seq<bool>, i: int, at: int)
    requires
        0 <= i <= at < headers.len(),
        headers[at],
        forall|j: int| 0 <= j < at ==> !#[trigger] headers[j],
    ensures
        first_header(headers, i) == at,
    decreases at - i,
{
    if i < at {
        lemma_header_at(headers, i + 1, at);
    }
}

proof fn lemma_text_marker(text: Seq<char>)
    requires
        text.len() > 0,
    ensures
        starts_with(text, "›"@) <==> text[0] == '›',
{
    reveal_strlit("›");
    assert(text.subrange(0, 1) =~= seq![text[0]]);
    if text[0] == '›' {
        assert(text.subrange(0, 1) =~= "›"@);
    }
    if starts_with(text, "›"@) {
        assert(text.subrange(0, 1)[0] == "›"@[0]);
    }
}

proof fn lemma_text_places(
    lines: Seq<Seq<char>>,
    headers: Seq<bool>,
    options: Seq<bool>,
    from: int,
    begun: bool,
) -> (places: Seq<int>)
    requires
        headers.len() == lines.len(),
        options.len() == lines.len(),
        0 <= from <= lines.len(),
    ensures
        text_lines(lines, headers, options, from, begun).len() == places.len(),
        forall|k: int|
            0 <= k < places.len() ==> text_lines(lines, headers, options, from, begun)[k] == trim(
                lines[#[trigger] places[k]],
            ),
        forall|k: int|
            0 <= k < places.len() ==> from <= #[trigger] places[k] && is_text(
                lines,
                headers,
                options,
                places[k],
            ),
        forall|k: int|
            0 <= k && k + 1 < places.len() ==> #[trigger] places[k] < places[k + 1]
                && only_headers(headers, places[k] + 1, places[k + 1]),
        places.len() > 0 ==> ends(lines, headers, options, places.last() + 1),
        places.len() > 0 && !begun ==> only_blank(lines, headers, from, places[0]),
        places.len() > 0 && begun ==> only_headers(headers, from, places[0]),
        places.len() == 0 && begun ==> ends(lines, headers, options, from),
        places.len() == 0 && !begun ==> lacks_text(lines, headers, options, from),
    decreases lines.len() - from,
{
    if from >= lines.len() {
        assert(ends_at(lines, headers, options, from, from));
        assert(only_blank(lines, headers, from, from));
        seq![]
    } else if headers[from] || (trim(lines[from]).len() == 0 && !begun) {
        let places = lemma_text_places(lines, headers, options, from + 1, begun);
        if places.len() == 0 {
            if begun {
                let next = from + 1;
                let end = choose|end: int| ends_at(lines, headers, options, next, end);
                assert(ends_at(lines, headers, options, from, end));
            } else {
                let next = from + 1;
                let end = choose|end: int|
                    next <= end <= lines.len() && #[trigger] only_blank(lines, headers, next, end)
                        && (end == lines.len() || is_choice(lines, headers, options, end));
                assert(only_blank(lines, headers, from, end));
            }
        }
        places
    } else if trim(lines[from]).len() == 0 {
        assert(ends_at(lines, headers, options, from, from));
        seq![]
    } else {
        lemma_text_marker(trim(lines[from]));
        if options[from] || starts_with(trim(lines[from]), "›"@) {
            assert(ends_at(lines, headers, options, from, from));
            assert(only_blank(lines, headers, from, from));
            seq![]
        } else {
            let rest = lemma_text_places(lines, headers, options, from + 1, true);
            let places = seq![from] + rest;
            let after = text_lines(lines, headers, options, from + 1, true);
            assert(text_lines(lines, headers, options, from, begun) == seq![trim(lines[from])]
                + after);
            assert forall|k: int| 0 <= k < places.len() implies text_lines(
                lines,
                headers,
                options,
                from,
                begun,
            )[k] == trim(lines[#[trigger] places[k]]) && from <= places[k] && is_text(
                lines,
                headers,
                options,
                places[k],
            ) by {
                if k > 0 {
                    assert(places[k] == rest[k - 1]);
                    assert((seq![trim(lines[from])] + after)[k] == after[k - 1]);
                }
            }
            assert forall|k: int| 0 <= k && k + 1 < places.len() implies #[trigger] places[k]
                < places[k + 1] && only_headers(headers, places[k] + 1, places[k + 1]) by {
                assert(places[k + 1] == rest[k]);
                if k > 0 {
                    assert(places[k] == rest[k - 1]);
                    assert(rest[k - 1] < rest[k - 1 + 1]);
                }
            }
            if rest.len() > 0 {
                assert(places.last() == rest.last());
            } else {
                assert(places.last() == from);
            }
            places
        }
    }
}

/// What is looked for in the lines: a header anywhere in a line, and an option from the first
/// character on that is no white space.
pub proof fn law_what_a_question_looks_like(lines: Seq<Seq<char>>)
    ensures
        prompt(lines) == prompt_in(
            lines,
            Seq::new(
                lines.len(),
                |i: int| captures_of("Question\\s+(\\d+)/(\\d+)"@, lines[i]),
            ),
            Seq::new(
                lines.len(),
                |i: int| captures_of("^\\s*›?\\s*(\\d+)\\.\\s+(.+)$"@, trim_start(lines[i])),
            ),
            Seq::new(
                lines.len(),
                |i: int| captures_of("^\\s*›?\\s*(\\d+)\\.\\s+(.+)$"@, trim(lines[i])) is Some,
            ),
        ),
{
    let headers = Seq::new(
        lines.len(),
        |i: int| captures_of("Question\\s+(\\d+)/(\\d+)"@, lines[i]),
    );
    let found = Seq::new(
        lines.len(),
        |i: int| captures_of("^\\s*›?\\s*(\\d+)\\.\\s+(.+)$"@, trim_start(lines[i])),
    );
    let marks = Seq::new(
        lines.len(),
        |i: int| captures_of("^\\s*›?\\s*(\\d+)\\.\\s+(.+)$"@, trim(lines[i])) is Some,
    );
    assert(all_captures(QUESTION_HEADER@, lines) =~= headers);
    assert(all_captures(OPTION@, trimmed_starts(lines)) =~= found);
    assert(hits(all_captures(OPTION@, trimmed(lines))) =~= marks);
}

/// Which option [`parse_prompt`] takes for selected: the first that is marked, by its own number,
/// or 1 where none is.
pub proof fn law_parse_prompt_takes_the_marked(lines: &[String], r: Option<PromptInfo>)
    requires
        call_ensures(parse_prompt, (lines,), r),
        r is Some,
    ensures
        ({
            let options = r->0.options@;
            &&& (exists|i: int| 0 <= i < options.len() && (#[trigger] options[i]).is_selected)
                ==> exists|i: int|
                0 <= i < options.len() && (#[trigger] options[i]).is_selected && options[i].number
                    == r->0.selected && forall|j: int|
                    0 <= j < i ==> !(#[trigger] options[j]).is_selected
            &&& (forall|i: int| 0 <= i < options.len() ==> !(#[trigger] options[i]).is_selected)
                ==> r->0.selected == 1
        }),
{
    let options = r->0.options@;
    let views = option_views(options);
    let t = texts(lines@);
    law_the_first_marked_is_selected(
        t,
        all_captures(QUESTION_HEADER@, t),
        all_captures(OPTION@, trimmed_starts(t)),
        hits(all_captures(OPTION@, trimmed(t))),
    );
    let info = prompt(t)->0;
    assert(info == r->0@);
    assert(info.options == views);
    assert(info.selected == r->0.selected);
    assert(forall|i: int| 0 <= i < options.len() ==> #[trigger] views[i] == options[i]@);
    if exists|i: int| 0 <= i < options.len() && (#[trigger] options[i]).is_selected {
        let k = choose|i: int| 0 <= i < options.len() && (#[trigger] options[i]).is_selected;
        assert(views[k].is_selected);
        let i = choose|i: int|
            0 <= i < views.len() && (#[trigger] views[i]).is_selected && views[i].number
                == r->0.selected && forall|j: int|
                0 <= j < i ==> !(#[trigger] views[j]).is_selected;
        assert(options[i].is_selected && options[i].number == r->0.selected);
        assert forall|j: int| 0 <= j < i implies !(#[trigger] options[j]).is_selected by {
            assert(!views[j].is_selected);
        }
    }
}

} // verus!
