//! Where the daemon's files are.
use crate::json::opt_str;
use crate::paths::{joined, path_join};
use vstd::prelude::*;

verus! {

/// The directory for codex-ctl state: the one that the environment names, or `.codex-ctl` in
/// the home directory, for which `/tmp` stands where there is none.
pub open spec fn base_dir_for(dir: Option<Seq<char>>, home: Option<Seq<char>>) -> Seq<char> {
    match dir {
        Some(dir) => dir,
        None => match home {
            Some(home) => joined(home, ".codex-ctl"@),
            None => joined("/tmp"@, ".codex-ctl"@),
        },
    }
}

/// Get the base directory for codex-ctl state, from the values of `CODEX_CTL_DIR` and `HOME`.
pub fn base_dir(dir: Option<&str>, home: Option<&str>) -> (r: String)
    ensures
        r@ == base_dir_for(opt_str(dir), opt_str(home)),
{
    match dir {
        Some(dir) => dir.to_owned(),
        None => match home {
            Some(home) => path_join(home, ".codex-ctl"),
            None => path_join("/tmp", ".codex-ctl"),
        },
    }
}

/// Get the socket path.
pub fn socket_path(base_dir: &str) -> (r: String)
    ensures
        r@ == joined(base_dir@, "daemon.sock"@),
{
    path_join(base_dir, "daemon.sock")
}

/// Get the PID file path.
pub fn pid_path(base_dir: &str) -> (r: String)
    ensures
        r@ == joined(base_dir@, "daemon.pid"@),
{
    path_join(base_dir, "daemon.pid")
}

// ---------------------------------------------------------------------------------------------
// Laws

/// Where the state is kept: where the environment says, or else in the home directory, or else in
/// `/tmp`. The socket and the number of the daemon's process are files in there.
pub proof fn law_where_the_state_is(
    dir: Option<&str>,
    home: Option<&str>,
    base: String,
    at: &str,
    socket: String,
    pid: String,
)
    requires
        call_ensures(base_dir, (dir, home), base),
        call_ensures(socket_path, (at,), socket),
        call_ensures(pid_path, (at,), pid),
    ensures
        dir is Some ==> base@ == dir->0@,
        dir is None && home is Some ==> base@ == joined(home->0@, ".codex-ctl"@),
        dir is None && home is None ==> base@ == "/tmp/.codex-ctl"@,
        socket@ == joined(at@, "daemon.sock"@),
        pid@ == joined(at@, "daemon.pid"@),
{
    reveal_strlit("/tmp");
    reveal_strlit(".codex-ctl");
    reveal_strlit("/tmp/.codex-ctl");
    assert("/tmp"@.push('/') + ".codex-ctl"@ =~= "/tmp/.codex-ctl"@);
}

} // verus!
