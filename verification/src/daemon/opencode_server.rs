//! The persistent `opencode serve` process that the daemon owns.
use crate::numbers::{integer, law_integer_round_trip, parse_integer, signed_decimal};
use crate::session::opencode::push_arg;
use crate::text::{
    chars_of, contains, first_at, is_space, space, starts_with, str_find, str_trim, texts, trim,
};
use vstd::prelude::*;
use vstd::utf8::encode_utf8;

verus! {

/// How long the server may take to say where it listens, in milliseconds.
pub const STARTUP_TIMEOUT: u64 = 10_000;

/// With what an address on which the server listens starts.
pub const LISTENING_MARKER: &'static str = "http://127.0.0.1:";

/// What follows the name of the program to start the server: it listens on the loopback
/// interface only, on a port that the system picks.
pub fn serve_args() -> (r: Vec<String>)
    ensures
        texts(r@) == seq!["serve"@, "--port"@, "0"@, "--hostname"@, "127.0.0.1"@],
{
    let mut args: Vec<String> = Vec::new();
    push_arg(&mut args, "serve");
    push_arg(&mut args, "--port");
    push_arg(&mut args, "0");
    push_arg(&mut args, "--hostname");
    push_arg(&mut args, "127.0.0.1");
    proof {
        assert(texts(args@) =~= seq!["serve"@, "--port"@, "0"@, "--hostname"@, "127.0.0.1"@]);
    }
    args
}

/// How many characters stand before the first white space.
pub open spec fn word_len(s: Seq<char>) -> nat
    decreases s.len(),
{
    if s.len() == 0 || is_space(s[0]) {
        0
    } else {
        1 + word_len(s.skip(1))
    }
}

/// Whether `url` is the address that a line names: what stands from the first marker on to the
/// next white space.
pub open spec fn names_url(line: Seq<char>, url: Seq<char>) -> bool {
    exists|i: int|
        #![trigger first_at(trim(line), LISTENING_MARKER@, i)]
        first_at(trim(line), LISTENING_MARKER@, i) && url == trim(line).skip(i).take(
            word_len(trim(line).skip(i)) as int,
        )
}

proof fn lemma_word(s: Seq<char>, k: int)
    requires
        0 <= k <= s.len(),
        forall|j: int| 0 <= j < k ==> !is_space(#[trigger] s[j]),
        k < s.len() ==> is_space(s[k]),
    ensures
        word_len(s) == k,
    decreases s.len(),
{
    if s.len() > 0 && k > 0 {
        assert(!is_space(s[0]));
        assert forall|j: int| 0 <= j < k - 1 implies !is_space(#[trigger] s.skip(1)[j]) by {
            assert(s.skip(1)[j] == s[j + 1]);
        }
        lemma_word(s.skip(1), k - 1);
    }
}

/// The address that a line of the server's output names, if it names one. The line is e.g.
/// "opencode server listening on http://127.0.0.1:54321".
pub fn listening_url(line: &str) -> (r: Option<String>)
    ensures
        match r {
            Some(url) => names_url(line@, url@),
            None => !contains(trim(line@), LISTENING_MARKER@),
        },
{
    let trimmed = str_trim(line);
    match str_find(trimmed, LISTENING_MARKER) {
        Some(start) => {
            let v = chars_of(trimmed);
            let mut end: usize = start;
            while end < v.len() && !space(v[end])
                invariant
                    start <= end <= v.len(),
                    forall|j: int| start <= j < end ==> !is_space(#[trigger] v@[j]),
                decreases v.len() - end,
            {
                end = end + 1;
            }
            let url = trimmed.substring_char(start, end).to_owned();
            proof {
                let rest = trimmed@.skip(start as int);
                assert forall|j: int| 0 <= j < end - start implies !is_space(
                    #[trigger] rest[j],
                ) by {
                    assert(rest[j] == v@[start + j]);
                }
                assert(end < v@.len() ==> rest[end - start] == v@[end as int]);
                lemma_word(rest, end - start);
                assert(rest.take(end - start) =~= url@);
            }
            Some(url)
        },
        None => None,
    }
}

/// The process that a pid file names, if it names one.
pub fn stale_pid(contents: &str) -> (r: Option<i32>)
    ensures
        match r {
            Some(pid) => integer(trim(contents@)) == Some(pid as int),
            None => integer(trim(contents@)) is None,
        },
{
    parse_integer(str_trim(contents))
}

/// Whether `needle` stands in `bytes` at position `i`.
pub open spec fn bytes_at(bytes: Seq<u8>, needle: Seq<u8>, i: int) -> bool {
    &&& 0 <= i
    &&& i + needle.len() <= bytes.len()
    &&& bytes.subrange(i, i + needle.len()) == needle
}

/// Whether `needle` stands somewhere in `bytes`.
pub open spec fn has_bytes(bytes: Seq<u8>, needle: Seq<u8>) -> bool {
    exists|i: int| bytes_at(bytes, needle, i)
}

/// Whether `needle` stands somewhere in `bytes`.
pub fn bytes_contain(bytes: &[u8], needle: &[u8]) -> (b: bool)
    ensures
        b == has_bytes(bytes@, needle@),
{
    let mut i: usize = 0;
    while i <= bytes.len() && needle.len() <= bytes.len() - i
        invariant
            i <= bytes@.len() + 1,
            forall|j: int| 0 <= j < i ==> !bytes_at(bytes@, needle@, j),
        decreases bytes@.len() + 1 - i,
    {
        let mut k: usize = 0;
        while k < needle.len() && bytes[i + k] == needle[k]
            invariant
                k <= needle.len(),
                i + needle.len() <= bytes.len(),
                forall|j: int| 0 <= j < k ==> bytes@[i + j] == needle@[j],
            decreases needle@.len() - k,
        {
            k = k + 1;
        }
        if k == needle.len() {
            proof {
                assert(bytes@.subrange(i as int, i + needle@.len()) =~= needle@);
                assert(bytes_at(bytes@, needle@, i as int));
            }
            return true;
        }
        proof {
            assert(bytes@.subrange(i as int, i + needle@.len())[k as int] == bytes@[i + k]);
        }
        if i == bytes.len() {
            return false;
        }
        i = i + 1;
    }
    false
}

/// Whether the command line of a process names opencode. A number that was given to another
/// process since is told apart by that.
pub fn names_opencode(cmdline: &[u8]) -> (b: bool)
    ensures
        b == has_bytes(cmdline@, encode_utf8("opencode"@)),
{
    bytes_contain(cmdline, "opencode".as_bytes())
}

// ---------------------------------------------------------------------------------------------
// Laws

/// The address that a server listens on is the word that begins with the local address in the
/// line in which it says so, and there is one just where the line has that.
pub proof fn law_the_address_is_a_word(line: &str, r: Option<String>)
    requires
        call_ensures(listening_url, (line,), r),
    ensures
        r is Some <==> contains(trim(line@), "http://127.0.0.1:"@),
        r matches Some(url) ==> {
            &&& starts_with(url@, "http://127.0.0.1:"@)
            &&& contains(line@, url@)
            &&& forall|i: int| 0 <= i < url@.len() ==> !is_space(#[trigger] url@[i])
        },
{
    let t = trim(line@);
    let marker = "http://127.0.0.1:"@;
    reveal_strlit("http://127.0.0.1:");
    if r is Some {
        let url = r->0@;
        let i = choose|i: int|
            #![trigger first_at(t, LISTENING_MARKER@, i)]
            first_at(t, LISTENING_MARKER@, i) && url == t.skip(i).take(
                word_len(t.skip(i)) as int,
            );
        let rest = t.skip(i);
        let n = word_len(rest) as int;
        lemma_word_len(rest);
        assert(rest.take(marker.len() as int) =~= t.subrange(i, i + marker.len()));
        assert(marker.len() == 17);
        assert forall|k: int| 0 <= k < 17 implies !is_space(#[trigger] rest[k]) by {
            assert(rest[k] == rest.take(17)[k]);
            assert(rest[k] == marker[k]);
        }
        lemma_word_reaches(rest, 17);
        assert(url.subrange(0, 17) =~= rest.take(17));
        let ends = crate::text::law_trim_takes_white_space(line@);
        let a = ends.0.len() as int;
        assert(line@.subrange(a + i, a + i + n) =~= url);
        assert(crate::text::occurs_at(line@, url, a + i));
        assert(crate::text::occurs_at(t, marker, i));
    }
}

proof fn lemma_word_len(s: Seq<char>)
    ensures
        word_len(s) <= s.len(),
        forall|k: int| 0 <= k < word_len(s) ==> !is_space(#[trigger] s[k]),
    decreases s.len(),
{
    if s.len() > 0 && !is_space(s[0]) {
        lemma_word_len(s.skip(1));
        assert forall|k: int| 0 <= k < word_len(s) implies !is_space(#[trigger] s[k]) by {
            if k > 0 {
                assert(s.skip(1)[k - 1] == s[k]);
            }
        }
    }
}

proof fn lemma_word_reaches(s: Seq<char>, n: int)
    requires
        0 <= n <= s.len(),
        forall|k: int| 0 <= k < n ==> !is_space(#[trigger] s[k]),
    ensures
        word_len(s) >= n,
    decreases n,
{
    if n > 0 {
        let rest = s.skip(1);
        assert forall|k: int| 0 <= k < n - 1 implies !is_space(#[trigger] rest[k]) by {
            assert(rest[k] == s[k + 1]);
        }
        assert(!is_space(s[0]));
        lemma_word_reaches(rest, n - 1);
    }
}

/// A process left over from before is found by the number in its file, and taken for one of
/// opencode just where its command line has that word in it.
pub proof fn law_a_left_over_process(
    contents: &str,
    pid: Option<i32>,
    n: i32,
    cmdline: &[u8],
    ours: bool,
)
    requires
        call_ensures(stale_pid, (contents,), pid),
        call_ensures(names_opencode, (cmdline,), ours),
        trim(contents@) == signed_decimal(n as int),
    ensures
        pid == Some(n),
        ours <==> exists|a: Seq<u8>, b: Seq<u8>|
            cmdline@ == #[trigger] (a + encode_utf8("opencode"@) + b),
{
    law_integer_round_trip(n as int);
    let needle = encode_utf8("opencode"@);
    if ours {
        let i = choose|i: int| bytes_at(cmdline@, needle, i);
        let (a, b) = (cmdline@.take(i), cmdline@.skip(i + needle.len()));
        assert(cmdline@ =~= a + cmdline@.subrange(i, i + needle.len()) + b);
        assert(cmdline@ == a + needle + b);
    }
    if exists|a: Seq<u8>, b: Seq<u8>| cmdline@ == #[trigger] (a + needle + b) {
        let (a, b) = choose|a: Seq<u8>, b: Seq<u8>| cmdline@ == #[trigger] (a + needle + b);
        let i = a.len() as int;
        assert(cmdline@.subrange(i, i + needle.len()) =~= needle);
        assert(bytes_at(cmdline@, needle, i));
    }
}

/// A server is started on a port of its own choice, for this machine alone.
pub proof fn law_a_server_is_local(r: Vec<String>)
    requires
        call_ensures(serve_args, (), r),
    ensures
        r@.len() == 5,
        r@[0]@ == "serve"@,
        r@[1]@ == "--port"@ && r@[2]@ == "0"@,
        r@[3]@ == "--hostname"@ && r@[4]@ == "127.0.0.1"@,
{
    let t = texts(r@);
    assert(t.len() == 5);
    assert(t[0] == r@[0]@ && t[1] == r@[1]@ && t[2] == r@[2]@ && t[3] == r@[3]@ && t[4]
        == r@[4]@);
}

} // verus!
