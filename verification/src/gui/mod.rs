//! The window that shows a session.
pub mod attach;

use crate::json::opt_str;
use crate::session::opencode::push_arg;
use crate::text::texts;
use vstd::prelude::*;

verus! {

/// The terminal emulators that are looked for, in this order.
pub open spec fn terminals() -> Seq<Seq<char>> {
    seq!["foot"@, "alacritty"@, "kitty"@, "xterm"@, "x-terminal-emulator"@]
}

/// The flag after which a terminal emulator takes the command to run.
pub open spec fn exec_flag(place: int) -> Seq<char> {
    if place == 2 {
        "--"@
    } else {
        "-e"@
    }
}

/// The first terminal emulator from `i` on that is installed.
pub open spec fn first_installed(installed: Seq<bool>, i: int) -> Option<int>
    decreases installed.len() - i,
{
    if i >= installed.len() {
        None
    } else if installed[i] {
        Some(i)
    } else {
        first_installed(installed, i + 1)
    }
}

/// The terminal emulator to use and its flag: the one that the first variable names, or the one
/// that the second names, or the first that is installed.
pub open spec fn terminal_for(
    own: Option<Seq<char>>,
    common: Option<Seq<char>>,
    installed: Seq<bool>,
) -> Option<(Seq<char>, Seq<char>)> {
    match (own, common) {
        (Some(term), _) => Some((term, "-e"@)),
        (None, Some(term)) => Some((term, "-e"@)),
        (None, None) => match first_installed(installed, 0) {
            Some(i) => Some((terminals()[i], exec_flag(i))),
            None => None,
        },
    }
}

/// The terminal emulators that are looked for, in this order.
pub fn terminal_candidates() -> (r: Vec<String>)
    ensures
        texts(r@) == terminals(),
{
    let mut v: Vec<String> = Vec::new();
    push_arg(&mut v, "foot");
    push_arg(&mut v, "alacritty");
    push_arg(&mut v, "kitty");
    push_arg(&mut v, "xterm");
    push_arg(&mut v, "x-terminal-emulator");
    proof {
        assert(texts(v@) =~= terminals());
    }
    v
}

/// Find a suitable terminal emulator.
/// Priority: $CODEX_CTL_TERMINAL → $TERMINAL → search PATH, where `installed` says of each
/// candidate whether it was found.
pub fn find_terminal(own: Option<&str>, common: Option<&str>, installed: &[bool]) -> (r: Option<
    (String, String),
>)
    requires
        installed@.len() == terminals().len(),
    ensures
        match r {
            Some((term, flag)) => terminal_for(opt_str(own), opt_str(common), installed@) == Some(
                (term@, flag@),
            ),
            None => terminal_for(opt_str(own), opt_str(common), installed@) is None,
        },
{
    if let Some(term) = own {
        return Some((term.to_owned(), "-e".to_owned()));
    }
    if let Some(term) = common {
        return Some((term.to_owned(), "-e".to_owned()));
    }
    let names = terminal_candidates();
    proof {
        assert(texts(names@).len() == names@.len());
    }
    let mut i: usize = 0;
    while i < installed.len()
        invariant
            own is None,
            common is None,
            i <= installed@.len() == names@.len(),
            texts(names@) == terminals(),
            first_installed(installed@, 0) == first_installed(installed@, i as int),
        decreases installed@.len() - i,
    {
        if installed[i] {
            let flag = if i == 2 {
                "--"
            } else {
                "-e"
            };
            proof {
                assert(texts(names@)[i as int] == names@[i as int]@);
            }
            return Some((names[i].clone(), flag.to_owned()));
        }
        i = i + 1;
    }
    None
}

/// What follows the name of the terminal emulator: its flag, and the command that attaches to
/// the session.
pub fn window_args(flag: &str, binary: &str, session_id: &str) -> (r: Vec<String>)
    ensures
        texts(r@) == seq![flag@, binary@, "_gui-attach"@, session_id@],
{
    let mut v: Vec<String> = Vec::new();
    push_arg(&mut v, flag);
    push_arg(&mut v, binary);
    push_arg(&mut v, "_gui-attach");
    push_arg(&mut v, session_id);
    proof {
        assert(texts(v@) =~= seq![flag@, binary@, "_gui-attach"@, session_id@]);
    }
    v
}

// ---------------------------------------------------------------------------------------------
// Laws

/// Which terminal a window opens in: the one that is named for this program, or else the one that
/// is named for all, or else the first that is installed of those that are known. A named one gets
/// its command behind `-e`, and of the known ones only kitty gets it behind `--`.
pub proof fn law_which_terminal_is_used(
    own: Option<Seq<char>>,
    common: Option<Seq<char>>,
    installed: Seq<bool>,
    at: int,
)
    requires
        installed.len() == 5,
        0 <= at <= 5,
        forall|i: int| 0 <= i < at ==> !#[trigger] installed[i],
        at < 5 ==> installed[at],
    ensures
        ({
            let found = terminal_for(own, common, installed);
            &&& own is Some ==> found == Some((own->0, "-e"@))
            &&& own is None && common is Some ==> found == Some((common->0, "-e"@))
            &&& own is None && common is None ==> {
                &&& at == 0 ==> found == Some(("foot"@, "-e"@))
                &&& at == 1 ==> found == Some(("alacritty"@, "-e"@))
                &&& at == 2 ==> found == Some(("kitty"@, "--"@))
                &&& at == 3 ==> found == Some(("xterm"@, "-e"@))
                &&& at == 4 ==> found == Some(("x-terminal-emulator"@, "-e"@))
                &&& at == 5 ==> found is None
            }
        }),
{
    lemma_first_installed(installed, 0, at);
}

proof fn lemma_first_installed(installed: Seq<bool>, i: int, at: int)
    requires
        0 <= i <= at <= installed.len(),
        forall|j: int| 0 <= j < at ==> !#[trigger] installed[j],
        at < installed.len() ==> installed[at],
    ensures
        first_installed(installed, i) == if at < installed.len() {
            Some(at)
        } else {
            None
        },
    decreases at - i,
{
    if i < at {
        lemma_first_installed(installed, i + 1, at);
    }
}

/// A window runs this program, to show the session.
pub proof fn law_a_window_shows_its_session(flag: &str, binary: &str, id: &str, r: Vec<String>)
    requires
        call_ensures(window_args, (flag, binary, id), r),
    ensures
        r@.len() == 4,
        r@[0]@ == flag@,
        r@[1]@ == binary@,
        r@[2]@ == "_gui-attach"@,
        r@[3]@ == id@,
{
    let t = texts(r@);
    assert(t.len() == 4);
    assert(t[0] == r@[0]@ && t[1] == r@[1]@ && t[2] == r@[2]@ && t[3] == r@[3]@);
}

} // verus!
