//! The command lines of the agents that run on a PTY.
use crate::json::opt_str;
use crate::session::opencode::push_arg;
use crate::text::texts;
use vstd::prelude::*;

verus! {

/// The command line of codex: `codex [resume <id>] --dangerously-bypass-approvals-and-sandbox
/// --no-alt-screen -C <cwd> [prompt]`.
pub open spec fn codex_line(
    path: Seq<char>,
    prompt: Option<Seq<char>>,
    cwd: Seq<char>,
    resume: Option<Seq<char>>,
) -> Seq<Seq<char>> {
    let start = match resume {
        Some(id) => seq![path, "resume"@, id],
        None => seq![path],
    };
    let flags = seq![
        "--dangerously-bypass-approvals-and-sandbox"@,
        "--no-alt-screen"@,
        "-C"@,
        cwd,
    ];
    match prompt {
        Some(p) => (start + flags).push(p),
        None => start + flags,
    }
}

/// The command line of codex, in which the program comes first.
///
/// When `resume_id` is `Some(id)`, that is
/// `codex resume <id> --dangerously-bypass-approvals-and-sandbox --no-alt-screen -C <cwd> [prompt]`.
/// When `resume_id` is `None`, it is
/// `codex --dangerously-bypass-approvals-and-sandbox --no-alt-screen -C <cwd> <prompt>`.
pub fn codex_args(path: &str, prompt: Option<&str>, cwd: &str, resume_id: Option<&str>) -> (r: Vec<
    String,
>)
    ensures
        texts(r@) == codex_line(path@, opt_str(prompt), cwd@, opt_str(resume_id)),
{
    let mut args: Vec<String> = Vec::new();
    push_arg(&mut args, path);
    proof {
        assert(texts(args@) =~= seq![path@]);
    }
    if let Some(id) = resume_id {
        push_arg(&mut args, "resume");
        push_arg(&mut args, id);
        proof {
            assert(texts(args@) =~= seq![path@, "resume"@, id@]);
        }
    }
    let ghost start = texts(args@);
    push_arg(&mut args, "--dangerously-bypass-approvals-and-sandbox");
    push_arg(&mut args, "--no-alt-screen");
    push_arg(&mut args, "-C");
    push_arg(&mut args, cwd);
    proof {
        assert(texts(args@) =~= start + seq![
            "--dangerously-bypass-approvals-and-sandbox"@,
            "--no-alt-screen"@,
            "-C"@,
            cwd@,
        ]);
    }
    if let Some(p) = prompt {
        push_arg(&mut args, p);
    }
    args
}

/// The command line of kimi: `kimi [-S <session>]`. It takes no prompt; that is typed once the
/// program is ready.
pub open spec fn kimi_line(path: Seq<char>, resume: Option<Seq<char>>) -> Seq<Seq<char>> {
    match resume {
        Some(id) => seq![path, "-S"@, id],
        None => seq![path],
    }
}

/// The command line of kimi, in which the program comes first.
pub fn kimi_args(path: &str, resume_id: Option<&str>) -> (r: Vec<String>)
    ensures
        texts(r@) == kimi_line(path@, opt_str(resume_id)),
{
    let mut args: Vec<String> = Vec::new();
    push_arg(&mut args, path);
    proof {
        assert(texts(args@) =~= seq![path@]);
    }
    if let Some(id) = resume_id {
        push_arg(&mut args, "-S");
        push_arg(&mut args, id);
        proof {
            assert(texts(args@) =~= seq![path@, "-S"@, id@]);
        }
    }
    args
}

// ---------------------------------------------------------------------------------------------
// Laws

/// How codex is started: by its path, without approvals and in the screen's own lines, in the
/// directory. A session that is resumed is named right behind the path, and the prompt, where
/// there is one, comes last.
pub proof fn law_how_codex_is_started(
    path: Seq<char>,
    prompt: Option<Seq<char>>,
    cwd: Seq<char>,
    resume: Option<Seq<char>>,
)
    ensures
        ({
            let line = codex_line(path, prompt, cwd, resume);
            let skip: int = if resume is Some {
                3
            } else {
                1
            };
            &&& line.len() == skip + 4 + (if prompt is Some { 1int } else { 0 })
            &&& line[0] == path
            &&& resume matches Some(id) ==> line[1] == "resume"@ && line[2] == id
            &&& line[skip] == "--dangerously-bypass-approvals-and-sandbox"@
            &&& line[skip + 1] == "--no-alt-screen"@
            &&& line[skip + 2] == "-C"@ && line[skip + 3] == cwd
            &&& prompt matches Some(text) ==> line.last() == text
        }),
{
}

/// How kimi is started: by its path alone, or with the name of the session that is resumed. A
/// prompt is typed later.
pub proof fn law_how_kimi_is_started(path: Seq<char>, id: Seq<char>)
    ensures
        kimi_line(path, None) == seq![path],
        kimi_line(path, Some(id)) == seq![path, "-S"@, id],
{
}

} // verus!
