//! The daemon: which session is meant, and how it answers.
pub mod act;
pub mod handler;
pub mod kill;
pub mod opencode_server;
pub mod spawn;

use crate::paths::{joined, path_join};
use crate::text::{join, lemma_texts_push, starts_with, str_join, str_starts_with, texts};
use vstd::prelude::*;

verus! {

/// The daemon's directories, and the names of the sessions that it runs.
pub struct Daemon {
    pub base_dir: String,
    pub sessions_dir: String,
    pub sessions: Vec<String>,
}

/// The first `n` names that start with `prefix`.
pub open spec fn matches_to(ids: Seq<Seq<char>>, prefix: Seq<char>, n: int) -> Seq<Seq<char>>
    decreases n,
{
    if n <= 0 {
        seq![]
    } else if starts_with(ids[n - 1], prefix) {
        matches_to(ids, prefix, n - 1).push(ids[n - 1])
    } else {
        matches_to(ids, prefix, n - 1)
    }
}

/// The names that start with `prefix`.
pub open spec fn matches_of(ids: Seq<Seq<char>>, prefix: Seq<char>) -> Seq<Seq<char>> {
    matches_to(ids, prefix, ids.len() as int)
}

/// What is said where `prefix` does not stand for just one of the names.
pub open spec fn resolve_error(ids: Seq<Seq<char>>, prefix: Seq<char>) -> Seq<char> {
    let found = matches_of(ids, prefix);
    if found.len() == 0 {
        "No session matching '"@ + prefix + "'"@
    } else {
        "Ambiguous session prefix '"@ + prefix + "': matches "@ + join(found, ", "@)
    }
}

/// Whether `i` is the only name that starts with `prefix`.
pub open spec fn only_match(ids: Seq<Seq<char>>, prefix: Seq<char>, i: int) -> bool {
    &&& 0 <= i < ids.len()
    &&& starts_with(ids[i], prefix)
    &&& forall|j: int| 0 <= j < ids.len() && starts_with(#[trigger] ids[j], prefix) ==> j == i
}

proof fn lemma_no_match(ids: Seq<Seq<char>>, prefix: Seq<char>, n: int)
    requires
        0 <= n <= ids.len(),
        matches_to(ids, prefix, n).len() == 0,
    ensures
        forall|j: int| 0 <= j < n ==> !starts_with(#[trigger] ids[j], prefix),
    decreases n,
{
    if n > 0 {
        lemma_no_match(ids, prefix, n - 1);
    }
}

/// The place of the last match, which is the only one where there is one.
proof fn lemma_one_match(ids: Seq<Seq<char>>, prefix: Seq<char>, n: int, i: int)
    requires
        0 <= i < n <= ids.len(),
        starts_with(ids[i], prefix),
        matches_to(ids, prefix, n).len() == 1,
    ensures
        forall|j: int| 0 <= j < n && starts_with(#[trigger] ids[j], prefix) ==> j == i,
    decreases n,
{
    if starts_with(ids[n - 1], prefix) {
        lemma_no_match(ids, prefix, n - 1);
    } else {
        lemma_one_match(ids, prefix, n - 1, i);
    }
}

proof fn lemma_match_count(ids: Seq<Seq<char>>, prefix: Seq<char>, n: int)
    requires
        0 <= n <= ids.len(),
    ensures
        forall|i: int| only_match(ids, prefix, i) ==> matches_to(ids, prefix, n).len() == if i < n {
            1nat
        } else {
            0nat
        },
    decreases n,
{
    if n > 0 {
        lemma_match_count(ids, prefix, n - 1);
    }
}

impl Daemon {
    /// A daemon that runs no session yet.
    pub fn new(base_dir: &str) -> (r: Daemon)
        ensures
            r.base_dir@ == base_dir@,
            r.sessions_dir@ == joined(base_dir@, "sessions"@),
            r.sessions@.len() == 0,
    {
        Daemon {
            base_dir: base_dir.to_owned(),
            sessions_dir: path_join(base_dir, "sessions"),
            sessions: Vec::new(),
        }
    }

    /// Where the number of the opencode server's process is kept.
    pub fn opencode_pid_path(base_dir: &str) -> (r: String)
        ensures
            r@ == joined(base_dir@, "opencode-server.pid"@),
    {
        path_join(base_dir, "opencode-server.pid")
    }

    /// Resolve a session ID prefix to a full session: its place among the names.
    /// Returns error if ambiguous or not found.
    pub fn resolve_session(&self, prefix: &str) -> (r: Result<usize, String>)
        ensures
            match r {
                Ok(i) => only_match(texts(self.sessions@), prefix@, i as int),
                Err(e) => {
                    &&& forall|i: int| !only_match(texts(self.sessions@), prefix@, i)
                    &&& e@ == resolve_error(texts(self.sessions@), prefix@)
                },
            },
    {
        let ghost ids = texts(self.sessions@);
        let mut found: Vec<String> = Vec::new();
        let mut place: usize = 0;
        let mut i: usize = 0;
        proof {
            assert(texts(found@) =~= seq![]);
        }
        while i < self.sessions.len()
            invariant
                i <= self.sessions@.len(),
                ids == texts(self.sessions@),
                texts(found@) == matches_to(ids, prefix@, i as int),
                found@.len() > 0 ==> place < i && starts_with(ids[place as int], prefix@),
            decreases self.sessions@.len() - i,
        {
            proof {
                assert(ids[i as int] == self.sessions@[i as int]@);
            }
            if str_starts_with(self.sessions[i].as_str(), prefix) {
                let id = self.sessions[i].clone();
                proof {
                    lemma_texts_push(found@, id);
                }
                found.push(id);
                place = i;
            }
            i = i + 1;
        }
        proof {
            assert(texts(found@).len() == found@.len());
            lemma_match_count(ids, prefix@, ids.len() as int);
        }
        if found.len() == 0 {
            let mut e = "No session matching '".to_owned();
            e.append(prefix);
            e.append("'");
            return Err(e);
        }
        if found.len() == 1 {
            proof {
                lemma_one_match(ids, prefix@, ids.len() as int, place as int);
            }
            return Ok(place);
        }
        let mut e = "Ambiguous session prefix '".to_owned();
        e.append(prefix);
        e.append("': matches ");
        e.append(str_join(found.as_slice(), ", ").as_str());
        Err(e)
    }
}

// ---------------------------------------------------------------------------------------------
// Laws

/// A full name stands for its session, where all names have the same length and no two are the
/// same.
pub proof fn law_full_name_resolves(ids: Seq<Seq<char>>, i: int)
    requires
        0 <= i < ids.len(),
        forall|j: int, k: int|
            0 <= j < ids.len() && 0 <= k < ids.len() ==> (#[trigger] ids[j]).len() == (
            #[trigger] ids[k]).len(),
        forall|j: int, k: int|
            0 <= j < ids.len() && 0 <= k < ids.len() && j != k ==> #[trigger] ids[j]
                != #[trigger] ids[k],
    ensures
        only_match(ids, ids[i], i),
{
    assert(ids[i].subrange(0, ids[i].len() as int) =~= ids[i]);
    assert forall|j: int| 0 <= j < ids.len() && starts_with(#[trigger] ids[j], ids[i]) implies j
        == i by {
        assert(ids[j].len() == ids[i].len());
        assert(ids[j].subrange(0, ids[j].len() as int) =~= ids[j]);
    }
}

/// Which session a prefix names: the one that starts with it, if there is just one. Where there
/// is none, or more, it names none, and what is said tells the two apart.
pub proof fn law_a_prefix_names_one_session(daemon: &Daemon, prefix: &str, r: Result<usize, String>)
    requires
        call_ensures(Daemon::resolve_session, (daemon, prefix), r),
    ensures
        ({
            let ids = texts(daemon.sessions@);
            let none = forall|i: int|
                0 <= i < ids.len() ==> !starts_with(#[trigger] ids[i], prefix@);
            &&& r matches Ok(i) ==> i < ids.len() && starts_with(ids[i as int], prefix@)
                && forall|j: int|
                0 <= j < ids.len() && j != i ==> !starts_with(#[trigger] ids[j], prefix@)
            &&& none ==> r is Err && r->Err_0@ == "No session matching '"@ + prefix@ + "'"@
            &&& (exists|i: int, j: int|
                0 <= i < j < ids.len() && starts_with(#[trigger] ids[i], prefix@) && starts_with(
                    #[trigger] ids[j],
                    prefix@,
                )) ==> r is Err && r->Err_0@ == "Ambiguous session prefix '"@ + prefix@
                + "': matches "@ + join(
                ids.filter(|id: Seq<char>| starts_with(id, prefix@)),
                ", "@,
            )
        }),
{
    let ids = texts(daemon.sessions@);
    lemma_matches_are_filtered(ids, prefix@, ids.len() as int);
    assert(ids.take(ids.len() as int) =~= ids);
    if forall|i: int| 0 <= i < ids.len() ==> !starts_with(#[trigger] ids[i], prefix@) {
        lemma_none_match(ids, prefix@, ids.len() as int);
    }
    if exists|i: int, j: int|
        0 <= i < j < ids.len() && starts_with(#[trigger] ids[i], prefix@) && starts_with(
            #[trigger] ids[j],
            prefix@,
        ) {
        let (i, j) = choose|i: int, j: int|
            0 <= i < j < ids.len() && starts_with(#[trigger] ids[i], prefix@) && starts_with(
                #[trigger] ids[j],
                prefix@,
            );
        if matches_of(ids, prefix@).len() == 0 {
            lemma_no_match(ids, prefix@, ids.len() as int);
        }
    }
}

proof fn lemma_none_match(ids: Seq<Seq<char>>, prefix: Seq<char>, n: int)
    requires
        0 <= n <= ids.len(),
        forall|i: int| 0 <= i < ids.len() ==> !starts_with(#[trigger] ids[i], prefix),
    ensures
        matches_to(ids, prefix, n).len() == 0,
    decreases n,
{
    if n > 0 {
        lemma_none_match(ids, prefix, n - 1);
    }
}

proof fn lemma_matches_are_filtered(ids: Seq<Seq<char>>, prefix: Seq<char>, n: int)
    requires
        0 <= n <= ids.len(),
    ensures
        matches_to(ids, prefix, n) == ids.take(n).filter(|id: Seq<char>| starts_with(id, prefix)),
    decreases n,
{
    reveal(Seq::filter);
    if n > 0 {
        lemma_matches_are_filtered(ids, prefix, n - 1);
        assert(ids.take(n).drop_last() =~= ids.take(n - 1));
        assert(ids.take(n).last() == ids[n - 1]);
    } else {
        assert(ids.take(0) =~= seq![]);
    }
}

/// A daemon begins without sessions, and keeps them in a directory of its own.
pub proof fn law_a_daemon_begins_empty(base_dir: &str, r: Daemon, path: String)
    requires
        call_ensures(Daemon::new, (base_dir,), r),
        call_ensures(Daemon::opencode_pid_path, (base_dir,), path),
    ensures
        r.sessions@.len() == 0,
        r.base_dir@ == base_dir@,
        r.sessions_dir@ == joined(base_dir@, "sessions"@),
        path@ == joined(base_dir@, "opencode-server.pid"@),
{
}

} // verus!
