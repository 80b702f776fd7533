//! Plain data the git adapter returns.

use vstd::prelude::*;

verus! {

/// A remote branch specification of the form `<remote>/<branch>`.
#[derive(Debug)]
pub struct RemoteBranchSpec {
    /// The remote's name.
    pub remote: String,
    /// The branch on that remote.
    pub branch: String,
}

/// A fork branch specification of the form `<owner>:<branch>`.
#[derive(Debug)]
pub struct ForkBranchSpec {
    /// The fork's owner.
    pub owner: String,
    /// The branch on the fork.
    pub branch: String,
}

/// The error for a worktree that does not exist; holds the name looked for.
#[derive(Debug)]
pub struct WorktreeNotFound(pub String);

impl WorktreeNotFound {
    /// The user-facing message.
    pub fn message(&self) -> (r: String)
        ensures
            r@ == "Worktree not found: "@ + self.0@,
    {
        let mut s = String::new();
        s.append("Worktree not found: ");
        s.append(self.0.as_str());
        s
    }
}

/// The ways a git adapter operation fails without output worth keeping.
#[derive(Debug, Clone, Copy, PartialEq, Eq, Structural)]
pub enum GitError {
    /// A `<remote>/<branch>` specification had an empty remote or branch.
    InvalidRemoteBranchSpec,
    /// The repository has no commits yet; an initial commit (or an explicit
    /// main branch in the configuration) is needed.
    NoCommits,
    /// No default branch could be determined.
    NoDefaultBranch,
    /// A branch carries no recorded base.
    NoBranchBase,
    /// A git query that had to succeed failed.
    CommandFailed,
    /// The origin URL could not be parsed.
    UrlParse,
    /// The repository owner could not be read from the origin URL.
    NoOwner,
}

/// Git status information for a worktree.
#[derive(Debug)]
pub struct GitStatus {
    /// Commits ahead of upstream.
    pub ahead: usize,
    /// Commits behind upstream.
    pub behind: usize,
    /// Whether merging with the base would conflict.
    pub has_conflict: bool,
    /// Whether there are uncommitted changes, staged or unstaged.
    pub is_dirty: bool,
    /// Lines added in committed changes only (base to HEAD).
    pub lines_added: usize,
    /// Lines removed in committed changes only (base to HEAD).
    pub lines_removed: usize,
    /// Lines added in uncommitted changes (working tree and untracked files).
    pub uncommitted_added: usize,
    /// Lines removed in uncommitted changes (working tree).
    pub uncommitted_removed: usize,
    /// When this status was computed, as a Unix timestamp.
    pub cached_at: Option<u64>,
    /// The base branch used for comparison.
    pub base_branch: String,
    /// The branch of the worktree; absent for a detached HEAD.
    pub branch: Option<String>,
    /// Whether the branch has an upstream tracking branch.
    pub has_upstream: bool,
}

/// Line counts split between committed and uncommitted work.
#[derive(Debug, Clone, Copy, PartialEq, Eq, Structural)]
pub struct DiffStats {
    /// Lines added in committed changes only (base to HEAD).
    pub committed_added: usize,
    /// Lines removed in committed changes only (base to HEAD).
    pub committed_removed: usize,
    /// Lines added in uncommitted changes (working tree and untracked files).
    pub uncommitted_added: usize,
    /// Lines removed in uncommitted changes (working tree).
    pub uncommitted_removed: usize,
}

} // verus!
