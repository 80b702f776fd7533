//! Merge-workflow operations: each returns the git invocation to run in the
//! worktree it concerns.

use vstd::prelude::*;

use crate::cmd::{opt_view, Cmd};

verus! {

/// Merge `branch_name` into the branch checked out in the worktree.
pub fn merge_in_worktree(worktree_path: &str, branch_name: &str) -> (c: Cmd)
    ensures
        c.command@ == "git"@,
        opt_view(c.workdir) == Some(worktree_path@),
        c.args.deep_view() == seq!["merge"@, branch_name@],
{
    let c = Cmd::new("git").workdir(worktree_path).arg("merge").arg(branch_name);
    proof {
        assert(c.args.deep_view() =~= seq!["merge"@, branch_name@]);
    }
    c
}

/// Rebase the branch checked out in the worktree onto `base_branch`.
pub fn rebase_branch_onto_base(worktree_path: &str, base_branch: &str) -> (c: Cmd)
    ensures
        c.command@ == "git"@,
        opt_view(c.workdir) == Some(worktree_path@),
        c.args.deep_view() == seq!["rebase"@, base_branch@],
{
    let c = Cmd::new("git").workdir(worktree_path).arg("rebase").arg(base_branch);
    proof {
        assert(c.args.deep_view() =~= seq!["rebase"@, base_branch@]);
    }
    c
}

/// Squash-merge `branch_name` into the branch checked out in the worktree;
/// the staged result is left uncommitted.
pub fn merge_squash_in_worktree(worktree_path: &str, branch_name: &str) -> (c: Cmd)
    ensures
        c.command@ == "git"@,
        opt_view(c.workdir) == Some(worktree_path@),
        c.args.deep_view() == seq!["merge"@, "--squash"@, branch_name@],
{
    let c = Cmd::new("git").workdir(worktree_path).arg("merge").arg("--squash").arg(branch_name);
    proof {
        assert(c.args.deep_view() =~= seq!["merge"@, "--squash"@, branch_name@]);
    }
    c
}

/// Switch the worktree to `branch_name`.
pub fn switch_branch_in_worktree(worktree_path: &str, branch_name: &str) -> (c: Cmd)
    ensures
        c.command@ == "git"@,
        opt_view(c.workdir) == Some(worktree_path@),
        c.args.deep_view() == seq!["switch"@, branch_name@],
{
    let c = Cmd::new("git").workdir(worktree_path).arg("switch").arg(branch_name);
    proof {
        assert(c.args.deep_view() =~= seq!["switch"@, branch_name@]);
    }
    c
}

/// Stash uncommitted changes under `message`, optionally taking untracked
/// files along. The interactive patch variant stays with the binary, which
/// owns the terminal.
pub fn stash_push(message: &str, include_untracked: bool) -> (c: Cmd)
    ensures
        c.command@ == "git"@,
        c.workdir is None,
        include_untracked ==> c.args.deep_view() == seq![
            "stash"@,
            "push"@,
            "-m"@,
            message@,
            "--include-untracked"@,
        ],
        !include_untracked ==> c.args.deep_view() == seq!["stash"@, "push"@, "-m"@, message@],
{
    let c = Cmd::new("git").arg("stash").arg("push").arg("-m").arg(message);
    if include_untracked {
        let c2 = c.arg("--include-untracked");
        proof {
            assert(c2.args.deep_view() =~= seq![
                "stash"@,
                "push"@,
                "-m"@,
                message@,
                "--include-untracked"@,
            ]);
        }
        c2
    } else {
        proof {
            assert(c.args.deep_view() =~= seq!["stash"@, "push"@, "-m"@, message@]);
        }
        c
    }
}

/// Pop the latest stash in the worktree.
pub fn stash_pop(worktree_path: &str) -> (c: Cmd)
    ensures
        c.command@ == "git"@,
        opt_view(c.workdir) == Some(worktree_path@),
        c.args.deep_view() == seq!["stash"@, "pop"@],
{
    let c = Cmd::new("git").workdir(worktree_path).arg("stash").arg("pop");
    proof {
        assert(c.args.deep_view() =~= seq!["stash"@, "pop"@]);
    }
    c
}

/// Reset the worktree to HEAD, discarding local changes.
pub fn reset_hard(worktree_path: &str) -> (c: Cmd)
    ensures
        c.command@ == "git"@,
        opt_view(c.workdir) == Some(worktree_path@),
        c.args.deep_view() == seq!["reset"@, "--hard"@, "HEAD"@],
{
    let c = Cmd::new("git").workdir(worktree_path).arg("reset").arg("--hard").arg("HEAD");
    proof {
        assert(c.args.deep_view() =~= seq!["reset"@, "--hard"@, "HEAD"@]);
    }
    c
}

/// Abort a merge in progress in the worktree.
pub fn abort_merge_in_worktree(worktree_path: &str) -> (c: Cmd)
    ensures
        c.command@ == "git"@,
        opt_view(c.workdir) == Some(worktree_path@),
        c.args.deep_view() == seq!["merge"@, "--abort"@],
{
    let c = Cmd::new("git").workdir(worktree_path).arg("merge").arg("--abort");
    proof {
        assert(c.args.deep_view() =~= seq!["merge"@, "--abort"@]);
    }
    c
}

} // verus!
