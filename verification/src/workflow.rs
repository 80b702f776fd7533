//! The workflow engine's decisions: opening a window for a worktree, the
//! worktree directory layout, and the merge sequence.

use vstd::prelude::*;

use crate::cmd::{opt_view, Cmd};
use crate::git::merge::{merge_in_worktree, merge_squash_in_worktree, rebase_branch_onto_base,
    switch_branch_in_worktree};

verus! {

/// Why opening a worktree's window is refused.
#[derive(Debug, Clone, Copy, PartialEq, Eq, Structural)]
pub enum OpenError {
    /// The caller does not stand in a git repository.
    NotAGitRepo,
    /// No multiplexer server is running.
    MultiplexerNotRunning,
    /// A window of that name exists already.
    WindowExists,
    /// The branch has no worktree yet.
    WorktreeMissing,
}

/// Open a window for an existing worktree: the pre-flight checks in order,
/// then the worktree path the window is created in.
pub fn open(
    branch_name: &str,
    is_git_repo: bool,
    mux_running: bool,
    window_already_exists: bool,
    worktree_path: Option<&str>,
) -> (r: Result<String, OpenError>)
    ensures
        !is_git_repo ==> (r matches Err(e) && e == OpenError::NotAGitRepo),
        is_git_repo && !mux_running ==> (r matches Err(e) && e == OpenError::MultiplexerNotRunning),
        is_git_repo && mux_running && window_already_exists ==> (r matches Err(e) && e
            == OpenError::WindowExists),
        is_git_repo && mux_running && !window_already_exists ==> match worktree_path {
            Some(p) => r matches Ok(path) && path@ == p@,
            None => r matches Err(e) && e == OpenError::WorktreeMissing,
        },
{
    if !is_git_repo {
        return Err(OpenError::NotAGitRepo);
    }
    if !mux_running {
        return Err(OpenError::MultiplexerNotRunning);
    }
    if window_already_exists {
        return Err(OpenError::WindowExists);
    }
    match worktree_path {
        Some(p) => Ok(p.to_owned()),
        None => Err(OpenError::WorktreeMissing),
    }
}

/// The directory holding a repository's worktrees: a sibling of the
/// repository root named after it with the `__worktrees` suffix.
pub fn worktree_container(repo_root: &str) -> (r: String)
    ensures
        r@ == repo_root@ + "__worktrees"@,
{
    let mut s = String::new();
    s.append(repo_root);
    s.append("__worktrees");
    s
}

/// The directory of one worktree, under the repository's container.
pub fn worktree_path(repo_root: &str, handle: &str) -> (r: String)
    ensures
        r@ == repo_root@ + "__worktrees"@ + "/"@ + handle@,
{
    let mut s = worktree_container(repo_root);
    s.append("/");
    s.append(handle);
    proof {
        assert(s@ =~= repo_root@ + "__worktrees"@ + "/"@ + handle@);
    }
    s
}

/// Create a worktree for a new local branch forked from `base`.
pub fn worktree_add_new_branch_cmd(path: &str, branch: &str, base: &str) -> (c: Cmd)
    ensures
        c.command@ == "git"@,
        c.workdir is None,
        c.args.deep_view() == seq![
            "worktree"@,
            "add"@,
            "-b"@,
            branch@,
            path@,
            base@,
        ],
{
    let c = Cmd::new("git").arg("worktree").arg("add").arg("-b").arg(branch).arg(path).arg(base);
    proof {
        assert(c.args.deep_view() =~= seq![
            "worktree"@,
            "add"@,
            "-b"@,
            branch@,
            path@,
            base@,
        ]);
    }
    c
}

/// Create a worktree for a branch that already exists locally.
pub fn worktree_add_existing_cmd(path: &str, branch: &str) -> (c: Cmd)
    ensures
        c.command@ == "git"@,
        c.workdir is None,
        c.args.deep_view() == seq!["worktree"@, "add"@, path@, branch@],
{
    let c = Cmd::new("git").arg("worktree").arg("add").arg(path).arg(branch);
    proof {
        assert(c.args.deep_view() =~= seq!["worktree"@, "add"@, path@, branch@]);
    }
    c
}

/// Create a worktree for a new local branch tracking a remote ref.
pub fn worktree_add_tracking_cmd(path: &str, branch: &str, remote_ref: &str) -> (c: Cmd)
    ensures
        c.command@ == "git"@,
        c.workdir is None,
        c.args.deep_view() == seq![
            "worktree"@,
            "add"@,
            "--track"@,
            "-b"@,
            branch@,
            path@,
            remote_ref@,
        ],
{
    let c = Cmd::new("git").arg("worktree").arg("add").arg("--track").arg("-b").arg(branch).arg(
        path,
    ).arg(remote_ref);
    proof {
        assert(c.args.deep_view() =~= seq![
            "worktree"@,
            "add"@,
            "--track"@,
            "-b"@,
            branch@,
            path@,
            remote_ref@,
        ]);
    }
    c
}

/// Remove a worktree directory through git.
pub fn worktree_remove_cmd(git_common_dir: &str, worktree: &str) -> (c: Cmd)
    ensures
        c.command@ == "git"@,
        opt_view(c.workdir) == Some(git_common_dir@),
        c.args.deep_view() == seq!["worktree"@, "remove"@, worktree@],
{
    let c = Cmd::new("git").workdir(git_common_dir).arg("worktree").arg("remove").arg(worktree);
    proof {
        assert(c.args.deep_view() =~= seq!["worktree"@, "remove"@, worktree@]);
    }
    c
}

/// Why a merge cannot be planned.
#[derive(Debug, Clone, Copy, PartialEq, Eq, Structural)]
pub enum MergeError {
    /// The remote tracking branch was to be deleted, but the branch carries
    /// no tracking configuration naming a remote.
    RemoteTrackingMissing,
}

/// The flags of the merge command.
#[derive(Debug, Clone, Copy, PartialEq, Eq, Structural)]
pub struct MergeFlags {
    /// Proceed past uncommitted tracked changes without committing them.
    pub ignore_uncommitted: bool,
    /// Also delete the remote tracking branch afterwards.
    pub delete_remote: bool,
    /// Rebase the feature branch onto the default branch first, so the merge
    /// fast-forwards.
    pub rebase: bool,
    /// Merge with `--squash`, leaving the staged result uncommitted.
    pub squash: bool,
}

/// The merge sequence, planned: whether to commit first, the switch of the
/// main worktree, the optional rebase, the merge itself, and what to report.
#[derive(Debug)]
pub struct MergePlan {
    /// Commit the feature worktree's staged changes with the user's editor
    /// before anything else.
    pub commit_first: bool,
    /// Switch the main worktree to the default branch.
    pub switch_main: Cmd,
    /// Rebase the feature worktree onto the default branch, when asked.
    pub rebase_feature: Option<Cmd>,
    /// The merge, plain or squash, run in the main worktree.
    pub merge: Cmd,
    /// Delete the remote tracking branch afterwards, when asked.
    pub delete_remote_branch: Option<Cmd>,
    /// The branch that is merged.
    pub branch_merged: String,
    /// The default branch merged into.
    pub main_branch: String,
    /// Whether staged changes were committed first.
    pub had_staged_changes: bool,
}

/// Plan a merge: uncommitted tracked changes are committed first unless
/// ignored; the main worktree switches to the default branch; with the
/// rebase flag the feature worktree is rebased first so the merge
/// fast-forwards; the merge runs in the main worktree, with `--squash` and
/// no auto-commit when squashing; with the delete-remote flag the branch's
/// remote tracking branch is deleted afterwards — which fails here, before
/// anything runs, when the branch carries no tracking configuration.
/// Removing the worktree and deleting the local branch follow once the
/// merge succeeded.
pub fn plan_merge(
    branch: &str,
    main_branch: &str,
    main_worktree: &str,
    feature_worktree: &str,
    has_tracked_changes: bool,
    upstream_remote: Option<&str>,
    flags: &MergeFlags,
) -> (r: Result<MergePlan, MergeError>)
    ensures
        r is Err <==> flags.delete_remote && upstream_remote is None,
        r matches Err(e) ==> e == MergeError::RemoteTrackingMissing,
        r matches Ok(p) ==> {
            &&& p.commit_first == (has_tracked_changes && !flags.ignore_uncommitted)
            &&& p.had_staged_changes == p.commit_first
            &&& p.switch_main.command@ == "git"@
            &&& opt_view(p.switch_main.workdir) == Some(main_worktree@)
            &&& p.switch_main.args.deep_view() == seq!["switch"@, main_branch@]
            &&& (flags.rebase ==> (p.rebase_feature matches Some(c) && (c.command@ == "git"@
                && opt_view(c.workdir) == Some(feature_worktree@) && c.args.deep_view() == seq![
                "rebase"@,
                main_branch@,
            ])))
            &&& (!flags.rebase ==> p.rebase_feature is None)
            &&& p.merge.command@ == "git"@
            &&& opt_view(p.merge.workdir) == Some(main_worktree@)
            &&& (flags.squash ==> p.merge.args.deep_view() == seq![
                "merge"@,
                "--squash"@,
                branch@,
            ])
            &&& (!flags.squash ==> p.merge.args.deep_view() == seq!["merge"@, branch@])
            &&& (flags.delete_remote ==> (p.delete_remote_branch matches Some(c) && (c.command@
                == "git"@ && c.workdir is None && (upstream_remote matches Some(remote)
                && c.args.deep_view() == seq!["push"@, remote@, "--delete"@, branch@]))))
            &&& (!flags.delete_remote ==> p.delete_remote_branch is None)
            &&& p.branch_merged@ == branch@
            &&& p.main_branch@ == main_branch@
        },
{
    let delete_remote_branch = if flags.delete_remote {
        match upstream_remote {
            Some(remote) => {
                let c = Cmd::new("git").arg("push").arg(remote).arg("--delete").arg(branch);
                proof {
                    assert(c.args.deep_view() =~= seq!["push"@, remote@, "--delete"@, branch@]);
                }
                Some(c)
            },
            None => {
                return Err(MergeError::RemoteTrackingMissing);
            },
        }
    } else {
        None
    };
    let commit_first = has_tracked_changes && !flags.ignore_uncommitted;
    let switch_main = switch_branch_in_worktree(main_worktree, main_branch);
    let rebase_feature = if flags.rebase {
        Some(rebase_branch_onto_base(feature_worktree, main_branch))
    } else {
        None
    };
    let merge = if flags.squash {
        merge_squash_in_worktree(main_worktree, branch)
    } else {
        merge_in_worktree(main_worktree, branch)
    };
    Ok(
        MergePlan {
            commit_first,
            switch_main,
            rebase_feature,
            merge,
            delete_remote_branch,
            branch_merged: branch.to_owned(),
            main_branch: main_branch.to_owned(),
            had_staged_changes: commit_first,
        },
    )
}

} // verus!
