//! Repository-level queries, as git invocations and the reading of their
//! answers.

use vstd::prelude::*;

use crate::cmd::{opt_view, Cmd};
use crate::git::types::GitError;
use crate::text::{spec_starts_with, starts_with, str_to_chars};

verus! {

/// The check whether the caller stands in a git repository; its exit status
/// is the answer.
pub fn is_git_repo() -> (c: Cmd)
    ensures
        c.command@ == "git"@,
        c.workdir is None,
        c.args.deep_view() == seq!["rev-parse"@, "--git-dir"@],
{
    let c = Cmd::new("git").arg("rev-parse").arg("--git-dir");
    proof {
        assert(c.args.deep_view() =~= seq!["rev-parse"@, "--git-dir"@]);
    }
    c
}

/// The check whether the repository has any commits (HEAD resolves); its
/// exit status is the answer.
pub fn has_commits() -> (c: Cmd)
    ensures
        c.command@ == "git"@,
        c.workdir is None,
        c.args.deep_view() == seq!["rev-parse"@, "--verify"@, "--quiet"@, "HEAD"@],
{
    let c = Cmd::new("git").arg("rev-parse").arg("--verify").arg("--quiet").arg("HEAD");
    proof {
        assert(c.args.deep_view() =~= seq!["rev-parse"@, "--verify"@, "--quiet"@, "HEAD"@]);
    }
    c
}

/// The query for the root directory of the repository; its captured output
/// is the root path.
pub fn get_repo_root() -> (c: Cmd)
    ensures
        c.command@ == "git"@,
        c.workdir is None,
        c.args.deep_view() == seq!["rev-parse"@, "--show-toplevel"@],
{
    let c = Cmd::new("git").arg("rev-parse").arg("--show-toplevel");
    proof {
        assert(c.args.deep_view() =~= seq!["rev-parse"@, "--show-toplevel"@]);
    }
    c
}

/// The query for the root of the repository containing `dir`.
pub fn get_repo_root_for(dir: &str) -> (c: Cmd)
    ensures
        c.command@ == "git"@,
        c.workdir is None,
        c.args.deep_view() == seq!["-C"@, dir@, "rev-parse"@, "--show-toplevel"@],
{
    let c = Cmd::new("git").arg("-C").arg(dir).arg("rev-parse").arg("--show-toplevel");
    proof {
        assert(c.args.deep_view() =~= seq!["-C"@, dir@, "rev-parse"@, "--show-toplevel"@]);
    }
    c
}

/// The check whether git ignores `file_path`, run inside `repo_path`; a
/// successful exit means ignored.
pub fn is_path_ignored(repo_path: &str, file_path: &str) -> (c: Cmd)
    ensures
        c.command@ == "git"@,
        opt_view(c.workdir) == Some(repo_path@),
        c.args.deep_view() == seq!["check-ignore"@, "-q"@, file_path@],
{
    let c = Cmd::new("git").workdir(repo_path).arg("check-ignore").arg("-q").arg(file_path);
    proof {
        assert(c.args.deep_view() =~= seq!["check-ignore"@, "-q"@, file_path@]);
    }
    c
}

/// The query for the common git directory, shared across worktrees.
pub fn get_git_common_dir_cmd() -> (c: Cmd)
    ensures
        c.command@ == "git"@,
        c.workdir is None,
        c.args.deep_view() == seq!["rev-parse"@, "--git-common-dir"@],
{
    let c = Cmd::new("git").arg("rev-parse").arg("--git-common-dir");
    proof {
        assert(c.args.deep_view() =~= seq!["rev-parse"@, "--git-common-dir"@]);
    }
    c
}

/// The common git directory read from the query's captured output: empty
/// output is an error, a relative path is resolved against the current
/// directory.
pub fn get_git_common_dir(raw: &str, current_dir: &str) -> (r: Result<String, GitError>)
    ensures
        raw@.len() == 0 ==> r is Err,
        raw@.len() > 0 && spec_starts_with(raw@, "/"@) ==> (r matches Ok(p) && p@ == raw@),
        raw@.len() > 0 && !spec_starts_with(raw@, "/"@) ==> (r matches Ok(p) && p@ == current_dir@
            + "/"@ + raw@),
{
    let rv = str_to_chars(raw);
    if rv.len() == 0 {
        return Err(GitError::CommandFailed);
    }
    if starts_with(&rv, "/") {
        Ok(raw.to_owned())
    } else {
        let mut s = String::new();
        s.append(current_dir);
        s.append("/");
        s.append(raw);
        proof {
            assert(s@ =~= current_dir@ + "/"@ + raw@);
        }
        Ok(s)
    }
}

} // verus!
