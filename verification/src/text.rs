//! Text as sequences of characters: trimming, searching, splitting and joining.
use vstd::prelude::*;

verus! {

/// `String::push` appends one character.
pub assume_specification[ String::push ](s: &mut String, c: char)
    ensures
        final(s)@ == old(s)@.push(c),
;

/// The texts of string slices.
pub open spec fn strs(names: Seq<&str>) -> Seq<Seq<char>> {
    Seq::new(names.len(), |i: int| names[i]@)
}

/// The texts of a sequence of strings.
pub open spec fn texts(s: Seq<String>) -> Seq<Seq<char>> {
    Seq::new(s.len(), |i: int| s[i]@)
}

/// A character with the Unicode `White_Space` property.
pub open spec fn is_space(c: char) -> bool {
    ||| '\u{9}' <= c <= '\u{d}'
    ||| c == ' '
    ||| c == '\u{85}'
    ||| c == '\u{a0}'
    ||| c == '\u{1680}'
    ||| '\u{2000}' <= c <= '\u{200a}'
    ||| c == '\u{2028}'
    ||| c == '\u{2029}'
    ||| c == '\u{202f}'
    ||| c == '\u{205f}'
    ||| c == '\u{3000}'
}

/// Whether `c` is white space.
pub fn space(c: char) -> (b: bool)
    ensures
        b == is_space(c),
{
    ('\u{9}' <= c && c <= '\u{d}') || c == ' ' || c == '\u{85}' || c == '\u{a0}' || c == '\u{1680}'
        || ('\u{2000}' <= c && c <= '\u{200a}') || c == '\u{2028}' || c == '\u{2029}' || c
        == '\u{202f}' || c == '\u{205f}' || c == '\u{3000}'
}

/// The characters of `s`.
pub fn chars_of(s: &str) -> (v: Vec<char>)
    ensures
        v@ == s@,
{
    let mut v: Vec<char> = Vec::new();
    for c in it: s.chars()
        invariant
            v@ == it.seq().take(it.index() as int),
            it.seq() == s@,
    {
        v.push(c);
    }
    proof {
        assert(v@ =~= s@);
    }
    v
}

/// The string made of `v[from..to]`.
pub fn string_of(v: &[char], from: usize, to: usize) -> (s: String)
    requires
        from <= to <= v@.len(),
    ensures
        s@ == v@.subrange(from as int, to as int),
{
    let mut s = String::new();
    let mut i: usize = from;
    while i < to
        invariant
            from <= i <= to <= v@.len(),
            s@ == v@.subrange(from as int, i as int),
        decreases to - i,
    {
        s.push(v[i]);
        proof {
            assert(v@.subrange(from as int, i as int).push(v@[i as int]) =~= v@.subrange(
                from as int,
                i + 1,
            ));
        }
        i = i + 1;
    }
    s
}

/// Whether two strings hold the same text.
pub fn same(a: &str, b: &str) -> (r: bool)
    ensures
        r == (a@ == b@),
{
    let x = chars_of(a);
    let y = chars_of(b);
    if x.len() != y.len() {
        return false;
    }
    let mut i: usize = 0;
    while i < x.len()
        invariant
            x@ == a@,
            y@ == b@,
            x@.len() == y@.len(),
            i <= x@.len(),
            forall|j: int| 0 <= j < i ==> x@[j] == y@[j],
        decreases x@.len() - i,
    {
        if x[i] != y[i] {
            return false;
        }
        i = i + 1;
    }
    proof {
        assert(x@ =~= y@);
    }
    true
}

/// Whether two sequences of strings hold the same texts.
pub fn same_lines(a: &[String], b: &[String]) -> (r: bool)
    ensures
        r == (texts(a@) == texts(b@)),
{
    if a.len() != b.len() {
        proof {
            assert(texts(a@).len() != texts(b@).len());
        }
        return false;
    }
    let mut i: usize = 0;
    while i < a.len()
        invariant
            a@.len() == b@.len(),
            i <= a@.len(),
            forall|j: int| 0 <= j < i ==> a@[j]@ == b@[j]@,
        decreases a@.len() - i,
    {
        if !same(a[i].as_str(), b[i].as_str()) {
            proof {
                assert(texts(a@)[i as int] != texts(b@)[i as int]);
            }
            return false;
        }
        i = i + 1;
    }
    proof {
        assert(texts(a@) =~= texts(b@));
    }
    true
}

// ---------------------------------------------------------------------------------------------
// Trimming

/// `s` without its leading white space.
pub open spec fn trim_start(s: Seq<char>) -> Seq<char>
    decreases s.len(),
{
    if s.len() > 0 && is_space(s[0]) {
        trim_start(s.skip(1))
    } else {
        s
    }
}

/// `s` without its trailing white space.
pub open spec fn trim_end(s: Seq<char>) -> Seq<char>
    decreases s.len(),
{
    if s.len() > 0 && is_space(s.last()) {
        trim_end(s.drop_last())
    } else {
        s
    }
}

/// `s` without the white space around it.
pub open spec fn trim(s: Seq<char>) -> Seq<char> {
    trim_end(trim_start(s))
}

/// `s` without the `c`s that it starts with.
pub open spec fn strip_leading(s: Seq<char>, c: char) -> Seq<char>
    decreases s.len(),
{
    if s.len() > 0 && s[0] == c {
        strip_leading(s.skip(1), c)
    } else {
        s
    }
}

/// Cuts the leading white space off `s`.
pub fn str_trim_start(s: &str) -> (r: &str)
    ensures
        r@ == trim_start(s@),
{
    let v = chars_of(s);
    let mut i: usize = 0;
    proof {
        assert(s@.skip(0) =~= s@);
    }
    while i < v.len() && space(v[i])
        invariant
            i <= v.len(),
            v@ == s@,
            trim_start(s@) == trim_start(s@.skip(i as int)),
        decreases v.len() - i,
    {
        proof {
            assert(s@.skip(i as int).skip(1) =~= s@.skip(i + 1));
        }
        i = i + 1;
    }
    proof {
        assert(s@.skip(i as int) =~= s@.subrange(i as int, s@.len() as int));
    }
    s.substring_char(i, v.len())
}

/// Cuts the trailing white space off `s`.
pub fn str_trim_end(s: &str) -> (r: &str)
    ensures
        r@ == trim_end(s@),
{
    let v = chars_of(s);
    let mut n: usize = v.len();
    proof {
        assert(s@.take(n as int) =~= s@);
    }
    while n > 0 && space(v[n - 1])
        invariant
            n <= v.len(),
            v@ == s@,
            trim_end(s@) == trim_end(s@.take(n as int)),
        decreases n,
    {
        proof {
            assert(s@.take(n as int).drop_last() =~= s@.take(n - 1));
        }
        n = n - 1;
    }
    proof {
        assert(s@.take(n as int) =~= s@.subrange(0, n as int));
        assert(n > 0 ==> s@.take(n as int).last() == s@[n - 1]);
    }
    s.substring_char(0, n)
}

/// Cuts the white space off both ends of `s`.
pub fn str_trim(s: &str) -> (r: &str)
    ensures
        r@ == trim(s@),
{
    str_trim_end(str_trim_start(s))
}

/// Cuts the `c`s off the front of `s`.
pub fn str_strip_leading(s: &str, c: char) -> (r: &str)
    ensures
        r@ == strip_leading(s@, c),
{
    let v = chars_of(s);
    let mut i: usize = 0;
    proof {
        assert(s@.skip(0) =~= s@);
    }
    while i < v.len() && v[i] == c
        invariant
            i <= v.len(),
            v@ == s@,
            strip_leading(s@, c) == strip_leading(s@.skip(i as int), c),
        decreases v.len() - i,
    {
        proof {
            assert(s@.skip(i as int).skip(1) =~= s@.skip(i + 1));
        }
        i = i + 1;
    }
    proof {
        assert(s@.skip(i as int) =~= s@.subrange(i as int, s@.len() as int));
    }
    s.substring_char(i, v.len())
}

// ---------------------------------------------------------------------------------------------
// Searching

/// Whether `needle` stands in `hay` at position `i`.
pub open spec fn occurs_at(hay: Seq<char>, needle: Seq<char>, i: int) -> bool {
    &&& 0 <= i
    &&& i + needle.len() <= hay.len()
    &&& hay.subrange(i, i + needle.len()) == needle
}

/// Whether `needle` stands somewhere in `hay`.
pub open spec fn contains(hay: Seq<char>, needle: Seq<char>) -> bool {
    exists|i: int| occurs_at(hay, needle, i)
}

/// Whether `hay` starts with `needle`.
pub open spec fn starts_with(hay: Seq<char>, needle: Seq<char>) -> bool {
    occurs_at(hay, needle, 0)
}

/// Whether `i` is the first position of `needle` in `hay`.
pub open spec fn first_at(hay: Seq<char>, needle: Seq<char>, i: int) -> bool {
    &&& occurs_at(hay, needle, i)
    &&& forall|j: int| 0 <= j < i ==> !occurs_at(hay, needle, j)
}

/// Whether some line holds `needle`.
pub open spec fn any_contains(lines: Seq<Seq<char>>, needle: Seq<char>) -> bool {
    exists|i: int| 0 <= i < lines.len() && contains(#[trigger] lines[i], needle)
}

/// Whether `n` stands in `h` at position `i`.
fn chars_at(h: &Vec<char>, n: &Vec<char>, i: usize) -> (b: bool)
    requires
        i + n@.len() <= h@.len(),
    ensures
        b == occurs_at(h@, n@, i as int),
{
    let mut k: usize = 0;
    while k < n.len()
        invariant
            k <= n.len(),
            i + n.len() <= h.len(),
            forall|j: int| 0 <= j < k ==> h@[i + j] == n@[j],
        decreases n@.len() - k,
    {
        if h[i + k] != n[k] {
            proof {
                assert(h@.subrange(i as int, i + n@.len())[k as int] == h@[i + k]);
            }
            return false;
        }
        k = k + 1;
    }
    proof {
        assert(h@.subrange(i as int, i + n@.len()) =~= n@);
    }
    true
}

/// The first position of `needle` in `hay`, counted in characters.
pub fn str_find(hay: &str, needle: &str) -> (r: Option<usize>)
    ensures
        r matches Some(i) ==> first_at(hay@, needle@, i as int),
        r is None ==> !contains(hay@, needle@),
{
    let h = chars_of(hay);
    let n = chars_of(needle);
    let mut i: usize = 0;
    while i <= h.len() && n.len() <= h.len() - i
        invariant
            h@ == hay@,
            n@ == needle@,
            i <= h@.len() + 1,
            forall|j: int| 0 <= j < i ==> !occurs_at(h@, n@, j),
        decreases h@.len() + 1 - i,
    {
        if chars_at(&h, &n, i) {
            return Some(i);
        }
        if i == h.len() {
            return None;
        }
        i = i + 1;
    }
    None
}

/// Whether `needle` stands in `hay`.
pub fn str_contains(hay: &str, needle: &str) -> (b: bool)
    ensures
        b == contains(hay@, needle@),
{
    match str_find(hay, needle) {
        Some(i) => {
            proof {
                assert(occurs_at(hay@, needle@, i as int));
            }
            true
        },
        None => false,
    }
}

/// Whether `hay` starts with `needle`.
pub fn str_starts_with(hay: &str, needle: &str) -> (b: bool)
    ensures
        b == starts_with(hay@, needle@),
{
    let h = chars_of(hay);
    let n = chars_of(needle);
    if n.len() > h.len() {
        return false;
    }
    chars_at(&h, &n, 0)
}

/// What follows `prefix` in `s`, if `s` starts with it.
pub fn str_strip_prefix<'a>(s: &'a str, prefix: &str) -> (r: Option<&'a str>)
    ensures
        r is Some == starts_with(s@, prefix@),
        r matches Some(rest) ==> rest@ == s@.skip(prefix@.len() as int),
{
    if str_starts_with(s, prefix) {
        let n = chars_of(prefix).len();
        let m = chars_of(s).len();
        proof {
            assert(s@.skip(n as int) =~= s@.subrange(n as int, m as int));
        }
        Some(s.substring_char(n, m))
    } else {
        None
    }
}

/// Whether some line holds `needle`.
pub fn lines_contain(lines: &[String], needle: &str) -> (b: bool)
    ensures
        b == any_contains(texts(lines@), needle@),
{
    let mut i: usize = 0;
    while i < lines.len()
        invariant
            i <= lines@.len(),
            forall|j: int| 0 <= j < i ==> !contains(#[trigger] texts(lines@)[j], needle@),
        decreases lines@.len() - i,
    {
        if str_contains(lines[i].as_str(), needle) {
            proof {
                assert(contains(texts(lines@)[i as int], needle@));
            }
            return true;
        }
        i = i + 1;
    }
    false
}

// ---------------------------------------------------------------------------------------------
// Splitting and joining

/// How many characters of `s` stand before its first `c`.
pub open spec fn span(s: Seq<char>, c: char) -> nat
    decreases s.len(),
{
    if s.len() == 0 || s[0] == c {
        0
    } else {
        1 + span(s.skip(1), c)
    }
}

/// The pieces of `s` between its `c`s.
pub open spec fn split(s: Seq<char>, c: char) -> Seq<Seq<char>>
    decreases s.len(),
{
    let n = span(s, c) as int;
    if n >= s.len() {
        seq![s]
    } else {
        seq![s.take(n)] + split(s.skip(n + 1), c)
    }
}

/// A line without the carriage return that it may end in.
pub open spec fn chomp(s: Seq<char>) -> Seq<char> {
    if s.len() > 0 && s.last() == '\r' {
        s.drop_last()
    } else {
        s
    }
}

/// The lines of `s`. A line ends in a line feed, with or without a carriage return before it;
/// the last line need not.
pub open spec fn lines_of(s: Seq<char>) -> Seq<Seq<char>>
    decreases s.len(),
{
    let n = span(s, '\n') as int;
    if s.len() == 0 {
        seq![]
    } else if n >= s.len() {
        seq![s]
    } else {
        seq![chomp(s.take(n))] + lines_of(s.skip(n + 1))
    }
}

/// The texts in `parts`, in order, with `sep` between them.
pub open spec fn join(parts: Seq<Seq<char>>, sep: Seq<char>) -> Seq<char>
    decreases parts.len(),
{
    if parts.len() == 0 {
        seq![]
    } else if parts.len() == 1 {
        parts[0]
    } else {
        join(parts.drop_last(), sep) + sep + parts.last()
    }
}

/// The first `c` of `s` is at `k`, or `s` has none and `k` is its length.
pub proof fn lemma_span(s: Seq<char>, c: char, k: int)
    requires
        0 <= k <= s.len(),
        forall|j: int| 0 <= j < k ==> s[j] != c,
        k < s.len() ==> s[k] == c,
    ensures
        span(s, c) == k,
    decreases s.len(),
{
    if s.len() > 0 && s[0] != c {
        assert forall|j: int| 0 <= j < k - 1 implies s.skip(1)[j] != c by {
            assert(s.skip(1)[j] == s[j + 1]);
        }
        lemma_span(s.skip(1), c, k - 1);
    }
}

pub proof fn lemma_span_bound(s: Seq<char>, c: char)
    ensures
        span(s, c) <= s.len(),
        span(s, c) < s.len() ==> s[span(s, c) as int] == c,
        forall|j: int| 0 <= j < span(s, c) ==> s[j] != c,
    decreases s.len(),
{
    if s.len() > 0 && s[0] != c {
        lemma_span_bound(s.skip(1), c);
        assert forall|j: int| 0 <= j < span(s, c) implies s[j] != c by {
            if j > 0 {
                assert(s.skip(1)[j - 1] == s[j]);
            }
        }
    }
}

/// The texts of a sequence with one more string.
pub proof fn lemma_texts_push(s: Seq<String>, x: String)
    ensures
        texts(s.push(x)) == texts(s).push(x@),
{
    assert(texts(s.push(x)) =~= texts(s).push(x@));
}

/// Splits `s` at each `c`.
pub fn str_split(s: &str, c: char) -> (r: Vec<String>)
    ensures
        texts(r@) == split(s@, c),
{
    let v = chars_of(s);
    let mut out: Vec<String> = Vec::new();
    let mut start: usize = 0;
    let mut i: usize = 0;
    proof {
        assert(s@.skip(0) =~= s@);
        assert(texts(out@) + split(s@, c) =~= split(s@, c));
    }
    while i < v.len()
        invariant
            v@ == s@,
            start <= i <= v.len(),
            forall|j: int| start <= j < i ==> v@[j] != c,
            texts(out@) + split(s@.skip(start as int), c) == split(s@, c),
        decreases v.len() - i,
    {
        if v[i] == c {
            let piece = string_of(v.as_slice(), start, i);
            proof {
                let rest = s@.skip(start as int);
                assert forall|j: int| 0 <= j < i - start implies rest[j] != c by {
                    assert(rest[j] == v@[start + j]);
                }
                lemma_span(rest, c, i - start);
                assert(rest.take(i - start) =~= piece@);
                assert(rest.skip(i - start + 1) =~= s@.skip(i + 1));
                lemma_texts_push(out@, piece);
                assert(texts(out@).push(piece@) + split(s@.skip(i + 1), c) =~= texts(out@) + (seq![
                    piece@,
                ] + split(s@.skip(i + 1), c)));
            }
            out.push(piece);
            start = i + 1;
        }
        i = i + 1;
    }
    let piece = string_of(v.as_slice(), start, v.len());
    proof {
        let rest = s@.skip(start as int);
        assert forall|j: int| 0 <= j < rest.len() implies rest[j] != c by {
            assert(rest[j] == v@[start + j]);
        }
        lemma_span(rest, c, rest.len() as int);
        assert(rest =~= piece@);
        lemma_texts_push(out@, piece);
        assert(texts(out@).push(piece@) =~= texts(out@) + seq![piece@]);
    }
    out.push(piece);
    out
}

/// Splits `s` into its lines.
pub fn str_lines(s: &str) -> (r: Vec<String>)
    ensures
        texts(r@) == lines_of(s@),
{
    let v = chars_of(s);
    let mut out: Vec<String> = Vec::new();
    let mut start: usize = 0;
    let mut i: usize = 0;
    proof {
        assert(s@.skip(0) =~= s@);
        assert(texts(out@) + lines_of(s@) =~= lines_of(s@));
    }
    while i < v.len()
        invariant
            v@ == s@,
            start <= i <= v.len(),
            forall|j: int| start <= j < i ==> v@[j] != '\n',
            texts(out@) + lines_of(s@.skip(start as int)) == lines_of(s@),
        decreases v.len() - i,
    {
        if v[i] == '\n' {
            let end: usize = if i > start && v[i - 1] == '\r' {
                i - 1
            } else {
                i
            };
            let piece = string_of(v.as_slice(), start, end);
            proof {
                let rest = s@.skip(start as int);
                assert forall|j: int| 0 <= j < i - start implies rest[j] != '\n' by {
                    assert(rest[j] == v@[start + j]);
                }
                lemma_span(rest, '\n', i - start);
                let line = rest.take(i - start);
                assert(i > start ==> line.last() == v@[i - 1]);
                assert(chomp(line) =~= piece@);
                assert(rest.skip(i - start + 1) =~= s@.skip(i + 1));
                lemma_texts_push(out@, piece);
                assert(texts(out@).push(piece@) + lines_of(s@.skip(i + 1)) =~= texts(out@) + (seq![
                    piece@,
                ] + lines_of(s@.skip(i + 1))));
            }
            out.push(piece);
            start = i + 1;
        }
        i = i + 1;
    }
    if start < v.len() {
        let piece = string_of(v.as_slice(), start, v.len());
        proof {
            let rest = s@.skip(start as int);
            assert forall|j: int| 0 <= j < rest.len() implies rest[j] != '\n' by {
                assert(rest[j] == v@[start + j]);
            }
            lemma_span(rest, '\n', rest.len() as int);
            assert(rest =~= piece@);
            lemma_texts_push(out@, piece);
            assert(texts(out@).push(piece@) =~= texts(out@) + seq![piece@]);
        }
        out.push(piece);
    } else {
        proof {
            assert(texts(out@) + seq![] =~= texts(out@));
        }
    }
    out
}

/// Joins `parts` with `sep` between them.
pub fn str_join(parts: &[String], sep: &str) -> (r: String)
    ensures
        r@ == join(texts(parts@), sep@),
{
    let mut out = String::new();
    let mut i: usize = 0;
    proof {
        assert(out@ =~= join(texts(parts@).take(0), sep@));
    }
    while i < parts.len()
        invariant
            i <= parts@.len(),
            out@ == join(texts(parts@).take(i as int), sep@),
        decreases parts@.len() - i,
    {
        if i > 0 {
            out.append(sep);
        }
        out.append(parts[i].as_str());
        proof {
            let t = texts(parts@);
            assert(t.take(i + 1).drop_last() =~= t.take(i as int));
            assert(t.take(i + 1).last() == parts@[i as int]@);
            if i == 0 {
                assert(join(t.take(0), sep@) =~= seq![]);
                assert(out@ =~= parts@[0]@);
            }
        }
        i = i + 1;
    }
    proof {
        assert(texts(parts@).take(parts@.len() as int) =~= texts(parts@));
    }
    out
}

// ---------------------------------------------------------------------------------------------
// Letter case

/// The small letter for a capital `A` to `Z`, and `k` for the Kelvin sign, the one other
/// character whose lower-case form is an ASCII letter; any other character is kept.
pub open spec fn small(c: char) -> char {
    if 'A' <= c <= 'Z' {
        (c as u32 + 32) as char
    } else if c == '\u{212a}' {
        'k'
    } else {
        c
    }
}

/// `s` in small ASCII letters.
pub open spec fn folded(s: Seq<char>) -> Seq<char> {
    Seq::new(s.len(), |i: int| small(s[i]))
}

/// Whether a character is an ASCII character.
pub open spec fn is_ascii_char(c: char) -> bool {
    c <= '\u{7f}'
}

/// What holds of a text and its form in lower case. ASCII letters and the Kelvin sign have small
/// ASCII letters for it. Any other character that is not ASCII has a form that is not all ASCII.
pub open spec fn lowered(text: Seq<char>, lower: Seq<char>) -> bool {
    if forall|i: int|
        0 <= i < text.len() ==> is_ascii_char(#[trigger] text[i]) || text[i] == '\u{212a}' {
        lower == folded(text)
    } else {
        exists|i: int|
            0 <= i < lower.len() && !is_ascii_char(#[trigger] lower[i]) && lower[i] != '\u{212a}'
    }
}

/// Whether a text is made of ASCII characters without capitals.
pub open spec fn is_small(s: Seq<char>) -> bool {
    forall|i: int|
        0 <= i < s.len() ==> is_ascii_char(#[trigger] s[i]) && !('A' <= s[i] <= 'Z')
}

/// A text without capitals is its own form in small letters.
pub proof fn lemma_small_is_folded(s: Seq<char>)
    requires
        is_small(s),
    ensures
        folded(s) == s,
{
    assert(folded(s) =~= s);
}

/// A text in small letters keeps them.
pub proof fn lemma_folded_twice(s: Seq<char>)
    ensures
        folded(folded(s)) == folded(s),
{
    assert(folded(folded(s)) =~= folded(s));
}

/// A text in lower case reads as the name `name` just when the text does.
pub proof fn lemma_lowered_name(text: Seq<char>, lower: Seq<char>, name: Seq<char>)
    requires
        lowered(text, lower),
        is_small(name),
    ensures
        (folded(text) == name) == (folded(lower) == name),
{
    if forall|i: int|
        0 <= i < text.len() ==> is_ascii_char(#[trigger] text[i]) || text[i] == '\u{212a}' {
        lemma_folded_twice(text);
    } else {
        let i = choose|i: int|
            0 <= i < text.len() && !(is_ascii_char(#[trigger] text[i]) || text[i] == '\u{212a}');
        assert(folded(text)[i] == text[i]);
        let j = choose|j: int|
            0 <= j < lower.len() && !is_ascii_char(#[trigger] lower[j]) && lower[j] != '\u{212a}';
        assert(folded(lower)[j] == lower[j]);
    }
}

fn small_char(c: char) -> (r: char)
    ensures
        r == small(c),
{
    if 'A' <= c && c <= 'Z' {
        ((c as u8) + 32) as char
    } else if c == '\u{212a}' {
        'k'
    } else {
        c
    }
}

/// Puts `s` in small ASCII letters.
pub fn str_folded(s: &str) -> (r: String)
    ensures
        r@ == folded(s@),
{
    let v = chars_of(s);
    let mut out = String::new();
    let mut i: usize = 0;
    while i < v.len()
        invariant
            v@ == s@,
            i <= v.len(),
            out@ == folded(s@).take(i as int),
        decreases v.len() - i,
    {
        out.push(small_char(v[i]));
        proof {
            assert(folded(s@).take(i as int).push(small(s@[i as int])) =~= folded(s@).take(i + 1));
        }
        i = i + 1;
    }
    proof {
        assert(folded(s@).take(s@.len() as int) =~= folded(s@));
    }
    out
}

// ---------------------------------------------------------------------------------------------
// Laws

/// One text holds another just where it is made of something, that text, and something.
pub proof fn law_contains_is_a_part(hay: Seq<char>, needle: Seq<char>)
    ensures
        contains(hay, needle) <==> exists|a: Seq<char>, b: Seq<char>|
            hay == #[trigger] (a + needle + b),
        starts_with(hay, needle) <==> exists|b: Seq<char>| hay == #[trigger] (needle + b),
{
    if contains(hay, needle) {
        let i = choose|i: int| occurs_at(hay, needle, i);
        let (a, b) = (hay.take(i), hay.skip(i + needle.len()));
        assert(hay =~= hay.take(i) + hay.subrange(i, i + needle.len()) + b);
        assert(hay == a + needle + b);
    }
    if exists|a: Seq<char>, b: Seq<char>| hay == #[trigger] (a + needle + b) {
        let (a, b) = choose|a: Seq<char>, b: Seq<char>| hay == #[trigger] (a + needle + b);
        assert(hay.subrange(a.len() as int, (a.len() + needle.len()) as int) =~= needle);
        assert(occurs_at(hay, needle, a.len() as int));
    }
    if starts_with(hay, needle) {
        assert(hay =~= hay.subrange(0, needle.len() as int) + hay.skip(needle.len() as int));
    }
    if exists|b: Seq<char>| hay == #[trigger] (needle + b) {
        assert(hay.subrange(0, needle.len() as int) =~= needle);
    }
}

/// Lines hold a text just where one of them does.
pub proof fn law_lines_hold_what_one_holds(lines: Seq<Seq<char>>, needle: Seq<char>)
    ensures
        any_contains(lines, needle) <==> exists|i: int|
            0 <= i < lines.len() && contains(#[trigger] lines[i], needle),
{
}

/// Trimming takes white space off the ends and nothing else: what is taken off is white space,
/// and what is left neither starts nor ends with any.
pub proof fn law_trim_takes_white_space(s: Seq<char>) -> (ends: (Seq<char>, Seq<char>))
    ensures
        s == ends.0 + trim(s) + ends.1,
        forall|i: int| 0 <= i < ends.0.len() ==> is_space(#[trigger] ends.0[i]),
        forall|i: int| 0 <= i < ends.1.len() ==> is_space(#[trigger] ends.1[i]),
        trim(s).len() > 0 ==> !is_space(trim(s)[0]) && !is_space(trim(s).last()),
        trim(s) == trim_end(trim_start(s)),
{
    let a = law_trim_start_takes_white_space(s);
    let t = trim_start(s);
    let b = law_trim_end_takes_white_space(t);
    assert(s =~= a + trim_end(t) + b);
    if trim(s).len() > 0 {
        assert(t[0] == trim(s)[0]);
    }
    (a, b)
}

/// What is taken off the start is white space, and no white space is left there.
pub proof fn law_trim_start_takes_white_space(s: Seq<char>) -> (start: Seq<char>)
    ensures
        s == start + trim_start(s),
        forall|i: int| 0 <= i < start.len() ==> is_space(#[trigger] start[i]),
        trim_start(s).len() > 0 ==> !is_space(trim_start(s)[0]),
    decreases s.len(),
{
    if s.len() > 0 && is_space(s[0]) {
        let rest = law_trim_start_takes_white_space(s.skip(1));
        let start = seq![s[0]] + rest;
        assert(s =~= seq![s[0]] + s.skip(1));
        assert(s =~= start + trim_start(s));
        start
    } else {
        assert(s =~= Seq::<char>::empty() + s);
        seq![]
    }
}

/// What is taken off the end is white space, and no white space is left there.
pub proof fn law_trim_end_takes_white_space(s: Seq<char>) -> (end: Seq<char>)
    ensures
        s == trim_end(s) + end,
        forall|i: int| 0 <= i < end.len() ==> is_space(#[trigger] end[i]),
        trim_end(s).len() > 0 ==> !is_space(trim_end(s).last()),
    decreases s.len(),
{
    if s.len() > 0 && is_space(s.last()) {
        let rest = law_trim_end_takes_white_space(s.drop_last());
        let end = rest.push(s.last());
        assert(s =~= s.drop_last().push(s.last()));
        assert(s =~= trim_end(s) + end);
        end
    } else {
        assert(s =~= s + Seq::<char>::empty());
        seq![]
    }
}

/// A text is split at each `c`: what stands before the first is the first piece, and what comes
/// after it is split in turn. A text without a `c` is one piece.
pub proof fn law_split_at_each(a: Seq<char>, rest: Seq<char>, c: char)
    requires
        !a.contains(c),
    ensures
        split(a, c) == seq![a],
        split(a + seq![c] + rest, c) == seq![a] + split(rest, c),
{
    lemma_span(a, c, a.len() as int);
    let s = a + seq![c] + rest;
    assert forall|j: int| 0 <= j < a.len() implies s[j] != c by {
        assert(s[j] == a[j]);
        assert(a.contains(a[j]));
    }
    lemma_span(s, c, a.len() as int);
    assert(s.take(a.len() as int) =~= a);
    assert(s.skip((a.len() + 1) as int) =~= rest);
}

/// Pieces that were joined by a character that none of them has are split there again.
pub proof fn law_split_undoes_join(parts: Seq<Seq<char>>, c: char)
    requires
        parts.len() > 0,
        forall|i: int| 0 <= i < parts.len() ==> !(#[trigger] parts[i]).contains(c),
    ensures
        split(join(parts, seq![c]), c) == parts,
    decreases parts.len(),
{
    if parts.len() == 1 {
        law_split_at_each(parts[0], seq![], c);
        assert(parts =~= seq![parts[0]]);
    } else {
        let front = parts.drop_last();
        assert forall|i: int| 0 <= i < front.len() implies !(#[trigger] front[i]).contains(c) by {
            assert(front[i] == parts[i]);
        }
        law_split_undoes_join(front, c);
        assert(!parts[parts.len() - 1].contains(c));
        lemma_split_last(join(front, seq![c]), parts.last(), c);
        assert(parts =~= front.push(parts.last()));
    }
}

/// What follows the last `c` is the last piece.
pub proof fn lemma_split_last(a: Seq<char>, b: Seq<char>, c: char)
    requires
        !b.contains(c),
    ensures
        split(a + seq![c] + b, c) == split(a, c).push(b),
    decreases a.len(),
{
    lemma_span_bound(a, c);
    let n = span(a, c) as int;
    let first = a.take(n);
    assert(!first.contains(c));
    if n >= a.len() {
        assert(first =~= a);
        law_split_at_each(a, b, c);
        law_split_at_each(b, seq![], c);
        assert(seq![a] + seq![b] =~= seq![a].push(b));
    } else {
        let rest = a.skip(n + 1);
        lemma_split_last(rest, b, c);
        assert(a =~= first + seq![c] + rest);
        assert(a + seq![c] + b =~= first + seq![c] + (rest + seq![c] + b));
        law_split_at_each(first, rest, c);
        law_split_at_each(first, rest + seq![c] + b, c);
        assert(seq![first] + split(rest, c).push(b) =~= (seq![first] + split(rest, c)).push(b));
    }
}

/// What is split can be joined again.
pub proof fn law_join_undoes_split(s: Seq<char>, c: char)
    ensures
        split(s, c).len() > 0,
        join(split(s, c), seq![c]) == s,
        forall|i: int| 0 <= i < split(s, c).len() ==> !(#[trigger] split(s, c)[i]).contains(c),
    decreases s.len(),
{
    lemma_span_bound(s, c);
    let n = span(s, c) as int;
    if n < s.len() {
        let rest = s.skip(n + 1);
        law_join_undoes_split(rest, c);
        law_join_from_the_front(s.take(n), split(rest, c), seq![c]);
        assert(s =~= s.take(n) + seq![c] + rest);
    }
}

/// Joined texts start with the first of them, and the others follow, each behind a separator.
pub proof fn law_join_from_the_front(first: Seq<char>, rest: Seq<Seq<char>>, sep: Seq<char>)
    ensures
        join(seq![], sep) == Seq::<char>::empty(),
        join(seq![first], sep) == first,
        rest.len() > 0 ==> join(seq![first] + rest, sep) == first + sep + join(rest, sep),
    decreases rest.len(),
{
    if rest.len() > 0 {
        let all = seq![first] + rest;
        let front = rest.drop_last();
        assert(all.drop_last() =~= seq![first] + front);
        if front.len() == 0 {
            assert(all.drop_last() =~= seq![first]);
        } else {
            law_join_from_the_front(first, front, sep);
            assert(first + sep + join(front, sep) + sep + rest.last() =~= first + sep + (join(
                front,
                sep,
            ) + sep + rest.last()));
        }
    }
}

/// A line ends at a line feed, before which a carriage return is dropped, and the lines after it
/// are told apart in the same way. The last line needs no end, and an empty text has no lines.
pub proof fn law_lines_one_by_one(line: Seq<char>, rest: Seq<char>)
    requires
        !line.contains('\n'),
    ensures
        lines_of(seq![]) == Seq::<Seq<char>>::empty(),
        line.len() > 0 ==> lines_of(line) == seq![line],
        line.len() == 0 || line.last() != '\r' ==> lines_of(line + seq!['\n'] + rest) == seq![line]
            + lines_of(rest),
        lines_of(line + seq!['\r', '\n'] + rest) == seq![line] + lines_of(rest),
{
    lemma_span(line, '\n', line.len() as int);
    let n = line.len() as int;
    let s = line + seq!['\n'] + rest;
    assert forall|j: int| 0 <= j < n implies s[j] != '\n' by {
        assert(line.contains(line[j]));
    }
    lemma_span(s, '\n', n);
    assert(s.take(n) =~= line);
    assert(s.skip(n + 1) =~= rest);
    let r = line + seq!['\r', '\n'] + rest;
    assert forall|j: int| 0 <= j < n + 1 implies r[j] != '\n' by {
        if j < n {
            assert(line.contains(line[j]));
        }
    }
    lemma_span(r, '\n', n + 1);
    assert(r.take(n + 1) =~= line.push('\r'));
    assert(chomp(line.push('\r')) =~= line);
    assert(r.skip(n + 2) =~= rest);
}

/// In small letters a capital becomes its small letter, and a text keeps its length and the
/// characters that are no capitals.
pub proof fn law_small_letters(s: Seq<char>)
    ensures
        folded(s).len() == s.len(),
        forall|i: int|
            0 <= i < s.len() ==> if 'A' <= #[trigger] s[i] <= 'Z' {
                folded(s)[i] as u32 - 'a' as u32 == s[i] as u32 - 'A' as u32
            } else {
                folded(s)[i] == if s[i] == '\u{212a}' {
                    'k'
                } else {
                    s[i]
                }
            },
{
}

} // verus!
