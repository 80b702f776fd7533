//! Branch queries and operations: parsing branch specifications, resolving
//! the default branch from probe results, and the git invocations for
//! branch-level commands.

use vstd::prelude::*;

use crate::cmd::{opt_view, Cmd};
use crate::git::types::{ForkBranchSpec, GitError, RemoteBranchSpec};
use crate::text::{
    chars_to_string, contains_sub, eq_str, ends_with, spec_contains_sub, spec_ends_with,
    spec_find, spec_lines, spec_split_once_char, spec_starts_with, spec_trim, split_lines,
    split_once, starts_with, str_to_chars, sub_chars, trim,
};

verus! {

/// Attach the optional working directory to a command.
fn with_workdir(c: Cmd, workdir: Option<&str>) -> (r: Cmd)
    ensures
        r.command@ == c.command@,
        r.args.deep_view() == c.args.deep_view(),
        opt_view(r.workdir) == match workdir {
            Some(p) => Some(p@),
            None => opt_view(c.workdir),
        },
{
    match workdir {
        Some(p) => c.workdir(p),
        None => c,
    }
}

/// The query for the remote HEAD, whose captured output names the remote's
/// default branch as a ref.
pub fn default_branch_cmd(workdir: Option<&str>) -> (c: Cmd)
    ensures
        c.command@ == "git"@,
        c.args.deep_view() == seq!["symbolic-ref"@, "refs/remotes/origin/HEAD"@],
        opt_view(c.workdir) == match workdir {
            Some(p) => Some(p@),
            None => None::<Seq<char>>,
        },
{
    let c = Cmd::new("git").arg("symbolic-ref").arg("refs/remotes/origin/HEAD");
    proof {
        assert(c.args.deep_view() =~= seq!["symbolic-ref"@, "refs/remotes/origin/HEAD"@]);
    }
    with_workdir(c, workdir)
}

/// What the default branch is, given the probe results: the remote HEAD ref
/// when it parses, then a local `main`, then a local `master`; a repository
/// without commits asks for an initial commit, anything else asks for
/// explicit configuration.
pub open spec fn spec_default_branch(
    remote_head: Option<Seq<char>>,
    main_exists: bool,
    master_exists: bool,
    has_commits: bool,
) -> Result<Seq<char>, GitError> {
    if remote_head matches Some(r) && spec_starts_with(r, "refs/remotes/origin/"@) {
        Ok(remote_head.unwrap().skip("refs/remotes/origin/"@.len() as int))
    } else if main_exists {
        Ok("main"@)
    } else if master_exists {
        Ok("master"@)
    } else if !has_commits {
        Err(GitError::NoCommits)
    } else {
        Err(GitError::NoDefaultBranch)
    }
}

/// The default branch, resolved from what the probes answered: the remote
/// HEAD output when the query succeeded, whether `main` and `master` exist
/// locally, and whether the repository has commits at all.
pub fn get_default_branch_in(
    remote_head: Option<&str>,
    main_exists: bool,
    master_exists: bool,
    has_commits: bool,
) -> (r: Result<String, GitError>)
    ensures
        ({
            let s = spec_default_branch(
                match remote_head {
                    Some(h) => Some(h@),
                    None => None,
                },
                main_exists,
                master_exists,
                has_commits,
            );
            match r {
                Ok(b) => s matches Ok(sb) && b@ == sb,
                Err(e) => s matches Err(se) && e == se,
            }
        }),
{
    if let Some(head) = remote_head {
        let hv = str_to_chars(head);
        if starts_with(&hv, "refs/remotes/origin/") {
            let plen = "refs/remotes/origin/".unicode_len();
            let rest = sub_chars(&hv, plen, hv.len());
            proof {
                assert(rest@ =~= hv@.skip("refs/remotes/origin/"@.len() as int));
            }
            return Ok(chars_to_string(&rest));
        }
    }
    if main_exists {
        return Ok("main".to_owned());
    }
    if master_exists {
        return Ok("master".to_owned());
    }
    if !has_commits {
        return Err(GitError::NoCommits);
    }
    Err(GitError::NoDefaultBranch)
}

/// The default branch for the repository the caller stands in; the same
/// resolution as `get_default_branch_in`.
pub fn get_default_branch(
    remote_head: Option<&str>,
    main_exists: bool,
    master_exists: bool,
    has_commits: bool,
) -> (r: Result<String, GitError>)
    ensures
        ({
            let s = spec_default_branch(
                match remote_head {
                    Some(h) => Some(h@),
                    None => None,
                },
                main_exists,
                master_exists,
                has_commits,
            );
            match r {
                Ok(b) => s matches Ok(sb) && b@ == sb,
                Err(e) => s matches Err(se) && e == se,
            }
        }),
{
    get_default_branch_in(remote_head, main_exists, master_exists, has_commits)
}

/// The check whether `branch_name` resolves to a ref; its exit status is the
/// answer.
pub fn branch_exists(branch_name: &str) -> (c: Cmd)
    ensures
        c.command@ == "git"@,
        c.workdir is None,
        c.args.deep_view() == seq!["rev-parse"@, "--verify"@, "--quiet"@, branch_name@],
{
    let c = Cmd::new("git").arg("rev-parse").arg("--verify").arg("--quiet").arg(branch_name);
    proof {
        assert(c.args.deep_view() =~= seq!["rev-parse"@, "--verify"@, "--quiet"@, branch_name@]);
    }
    c
}

/// The same check, run in a specific directory.
pub fn branch_exists_in(branch_name: &str, workdir: Option<&str>) -> (c: Cmd)
    ensures
        c.command@ == "git"@,
        c.args.deep_view() == seq!["rev-parse"@, "--verify"@, "--quiet"@, branch_name@],
        opt_view(c.workdir) == match workdir {
            Some(p) => Some(p@),
            None => None::<Seq<char>>,
        },
{
    with_workdir(branch_exists(branch_name), workdir)
}

/// What `parse_remote_branch_spec` returns: the parts before and after the
/// first slash, when both are nonempty.
pub open spec fn spec_parse_remote_branch_spec(s: Seq<char>) -> Result<(Seq<char>, Seq<char>), GitError> {
    let i = spec_find(s, '/');
    if i < 0 {
        Err(GitError::InvalidRemoteBranchSpec)
    } else {
        let remote = s.take(i);
        let branch = s.skip(i + 1);
        if remote.len() == 0 || branch.len() == 0 {
            Err(GitError::InvalidRemoteBranchSpec)
        } else {
            Ok((remote, branch))
        }
    }
}

/// Parse a remote branch specification in the form `<remote>/<branch>`.
pub fn parse_remote_branch_spec(spec: &str) -> (r: Result<RemoteBranchSpec, GitError>)
    ensures
        match r {
            Ok(sp) => spec_parse_remote_branch_spec(spec@) matches Ok(p) && sp.remote@ == p.0
                && sp.branch@ == p.1,
            Err(e) => spec_parse_remote_branch_spec(spec@) matches Err(se) && e == se,
        },
{
    let v = str_to_chars(spec);
    match split_once(&v, '/') {
        None => Err(GitError::InvalidRemoteBranchSpec),
        Some((remote, branch)) => {
            if remote.len() == 0 || branch.len() == 0 {
                Err(GitError::InvalidRemoteBranchSpec)
            } else {
                Ok(
                    RemoteBranchSpec {
                        remote: chars_to_string(&remote),
                        branch: chars_to_string(&branch),
                    },
                )
            }
        },
    }
}

/// What `parse_fork_branch_spec` returns: the parts before and after the
/// first colon, when the input is not a URL and both parts are nonempty.
pub open spec fn spec_parse_fork_branch_spec(s: Seq<char>) -> Option<(Seq<char>, Seq<char>)> {
    if spec_contains_sub(s, "://"@) || spec_starts_with(s, "git@"@) {
        None
    } else {
        let i = spec_find(s, ':');
        if i < 0 {
            None
        } else {
            let owner = s.take(i);
            let branch = s.skip(i + 1);
            if owner.len() == 0 || branch.len() == 0 {
                None
            } else {
                Some((owner, branch))
            }
        }
    }
}

/// Parse a fork branch specification in the form `<owner>:<branch>`; URLs
/// and malformed input give nothing.
pub fn parse_fork_branch_spec(input: &str) -> (r: Option<ForkBranchSpec>)
    ensures
        match r {
            Some(sp) => spec_parse_fork_branch_spec(input@) matches Some(p) && sp.owner@ == p.0
                && sp.branch@ == p.1,
            None => spec_parse_fork_branch_spec(input@) is None,
        },
{
    let v = str_to_chars(input);
    if contains_sub(&v, "://") || starts_with(&v, "git@") {
        return None;
    }
    match split_once(&v, ':') {
        None => None,
        Some((owner, branch)) => {
            if owner.len() == 0 || branch.len() == 0 {
                None
            } else {
                Some(
                    ForkBranchSpec {
                        owner: chars_to_string(&owner),
                        branch: chars_to_string(&branch),
                    },
                )
            }
        },
    }
}

/// The query for the current branch name; its captured output is the name,
/// empty for a detached HEAD.
pub fn get_current_branch() -> (c: Cmd)
    ensures
        c.command@ == "git"@,
        c.workdir is None,
        c.args.deep_view() == seq!["branch"@, "--show-current"@],
{
    let c = Cmd::new("git").arg("branch").arg("--show-current");
    proof {
        assert(c.args.deep_view() =~= seq!["branch"@, "--show-current"@]);
    }
    c
}

/// The query listing local and remote refs by short name, for completion.
pub fn list_checkout_branches_cmd() -> (c: Cmd)
    ensures
        c.command@ == "git"@,
        c.workdir is None,
        c.args.deep_view() == seq![
            "for-each-ref"@,
            "--format=%(refname:short)"@,
            "refs/heads/"@,
            "refs/remotes/"@,
        ],
{
    let c = Cmd::new("git").arg("for-each-ref").arg("--format=%(refname:short)").arg(
        "refs/heads/",
    ).arg("refs/remotes/");
    proof {
        assert(c.args.deep_view() =~= seq![
            "for-each-ref"@,
            "--format=%(refname:short)"@,
            "refs/heads/"@,
            "refs/remotes/"@,
        ]);
    }
    c
}

/// Whether a listed ref is offered for checkout: a nonempty trimmed name
/// that is not `HEAD`, does not end in `/HEAD`, and is not already checked
/// out in a worktree.
pub open spec fn keep_checkout_branch(l: Seq<char>, worktrees: Seq<Seq<char>>) -> bool {
    let t = spec_trim(l);
    t.len() > 0 && t != "HEAD"@ && !spec_ends_with(t, "/HEAD"@) && !worktrees.contains(t)
}

/// The checkout-able branches among the listed lines.
pub open spec fn spec_list_checkout_branches(lines: Seq<Seq<char>>, worktrees: Seq<Seq<char>>) -> Seq<
    Seq<char>,
>
    decreases lines.len(),
{
    if lines.len() == 0 {
        Seq::empty()
    } else {
        let r = spec_list_checkout_branches(lines.drop_last(), worktrees);
        if keep_checkout_branch(lines.last(), worktrees) {
            r.push(spec_trim(lines.last()))
        } else {
            r
        }
    }
}

/// Whether `s` occurs among the strings of `v`.
fn contains_string(v: &Vec<String>, s: &Vec<char>) -> (r: bool)
    ensures
        r == v.deep_view().contains(s@),
{
    let mut i: usize = 0;
    while i < v.len()
        invariant
            i <= v.len(),
            forall|k: int| 0 <= k < i ==> v.deep_view()[k] != s@,
        decreases v.len() - i,
    {
        let sv = chars_to_string(s);
        if v[i] == sv {
            proof {
                assert(v.deep_view()[i as int] =~= v@[i as int]@);
                assert(v.deep_view().contains(s@));
            }
            return true;
        }
        proof {
            assert(v.deep_view()[i as int] =~= v@[i as int]@);
        }
        i = i + 1;
    }
    proof {
        if v.deep_view().contains(s@) {
            let k = choose|k: int| 0 <= k < v.deep_view().len() && v.deep_view()[k] == s@;
            assert(v.deep_view()[k] == s@);
        }
    }
    false
}

/// List the checkout-able branches from the captured ref listing, leaving
/// out names already checked out in one of the given worktrees.
pub fn list_checkout_branches(refs_output: &str, worktree_branches: &Vec<String>) -> (r: Vec<
    String,
>)
    ensures
        r.deep_view() == spec_list_checkout_branches(
            spec_lines(refs_output@),
            worktree_branches.deep_view(),
        ),
{
    let v = str_to_chars(refs_output);
    let lines = split_lines(&v);
    let ghost ld = lines.deep_view();
    let ghost wd = worktree_branches.deep_view();
    let mut out: Vec<String> = Vec::new();
    let mut i: usize = 0;
    proof {
        assert(ld.take(0) =~= Seq::<Seq<char>>::empty());
        assert(out.deep_view() =~~= spec_list_checkout_branches(ld.take(0), wd));
    }
    while i < lines.len()
        invariant
            i <= lines.len(),
            ld == lines.deep_view(),
            wd == worktree_branches.deep_view(),
            out.deep_view() == spec_list_checkout_branches(ld.take(i as int), wd),
        decreases lines.len() - i,
    {
        proof {
            assert(ld.take(i + 1).drop_last() =~= ld.take(i as int));
            assert(ld[i as int] =~= lines@[i as int]@);
            assert(ld.take(i + 1).last() == ld[i as int]);
        }
        let t = trim(&lines[i]);
        let keep = t.len() > 0 && !eq_str(&t, "HEAD") && !ends_with(&t, "/HEAD")
            && !contains_string(worktree_branches, &t);
        let ghost pre = out.deep_view();
        if keep {
            out.push(chars_to_string(&t));
            proof {
                assert(out.deep_view() =~~= pre.push(t@));
            }
        }
        i = i + 1;
    }
    proof {
        assert(ld.take(lines.len() as int) =~= ld);
    }
    out
}

/// Delete a local branch, forced or not, from the common git directory.
pub fn delete_branch_in(branch_name: &str, force: bool, git_common_dir: &str) -> (c: Cmd)
    ensures
        c.command@ == "git"@,
        opt_view(c.workdir) == Some(git_common_dir@),
        c.args.deep_view() == seq![
            "branch"@,
            if force {
                "-D"@
            } else {
                "-d"@
            },
            branch_name@,
        ],
{
    let c = Cmd::new("git").workdir(git_common_dir).arg("branch").arg(
        if force {
            "-D"
        } else {
            "-d"
        },
    ).arg(branch_name);
    proof {
        assert(c.args.deep_view() =~= seq![
            "branch"@,
            if force {
                "-D"@
            } else {
                "-d"@
            },
            branch_name@,
        ]);
    }
    c
}

/// The base used for merge checks: the local branch when it exists, else its
/// `origin/` tracking ref when that exists, else the local name regardless.
pub fn get_merge_base(main_branch: &str, local_exists: bool, remote_exists: bool) -> (r: String)
    ensures
        local_exists ==> r@ == main_branch@,
        !local_exists && remote_exists ==> r@ == "origin/"@ + main_branch@,
        !local_exists && !remote_exists ==> r@ == main_branch@,
{
    if local_exists {
        return main_branch.to_owned();
    }
    if remote_exists {
        let mut s = String::new();
        s.append("origin/");
        s.append(main_branch);
        return s;
    }
    main_branch.to_owned()
}

/// The query listing local branches not merged into `base_branch`.
pub fn get_unmerged_branches_cmd(base_branch: &str) -> (c: Cmd)
    ensures
        c.command@ == "git"@,
        c.workdir is None,
        c.args.deep_view() == seq![
            "for-each-ref"@,
            "--format=%(refname:short)"@,
            "--no-merged="@ + base_branch@,
            "refs/heads/"@,
        ],
{
    let mut no_merged = String::new();
    no_merged.append("--no-merged=");
    no_merged.append(base_branch);
    let c = Cmd::new("git").arg("for-each-ref").arg("--format=%(refname:short)").arg(
        no_merged.as_str(),
    ).arg("refs/heads/");
    proof {
        assert(c.args.deep_view() =~= seq![
            "for-each-ref"@,
            "--format=%(refname:short)"@,
            "--no-merged="@ + base_branch@,
            "refs/heads/"@,
        ]);
    }
    c
}

/// The branches not merged into the base, read from the query's result: the
/// listed lines on success; an empty list when the query failed only because
/// the base does not resolve; the error otherwise.
pub fn get_unmerged_branches(result: Result<&str, &str>) -> (r: Result<Vec<String>, String>)
    ensures
        match result {
            Ok(out) => r matches Ok(v) && v.deep_view() == spec_lines(out@),
            Err(msg) => {
                if spec_contains_sub(msg@, "malformed object name"@) || spec_contains_sub(
                    msg@,
                    "unknown commit"@,
                ) {
                    r matches Ok(v) && v.deep_view() == Seq::<Seq<char>>::empty()
                } else {
                    r matches Err(e) && e@ == msg@
                }
            },
        },
{
    match result {
        Ok(out) => {
            let v = str_to_chars(out);
            let lines = split_lines(&v);
            let mut r: Vec<String> = Vec::new();
            let ghost ld = lines.deep_view();
            let mut i: usize = 0;
            while i < lines.len()
                invariant
                    i <= lines.len(),
                    ld == lines.deep_view(),
                    r.deep_view() == ld.take(i as int),
                decreases lines.len() - i,
            {
                let ghost pre = r.deep_view();
                r.push(chars_to_string(&lines[i]));
                proof {
                    assert(ld[i as int] =~= lines@[i as int]@);
                    assert(r.deep_view() =~~= pre.push(ld[i as int]));
                    assert(r.deep_view() =~~= ld.take(i + 1));
                }
                i = i + 1;
            }
            proof {
                assert(ld.take(lines.len() as int) =~= ld);
            }
            Ok(r)
        },
        Err(msg) => {
            let mv = str_to_chars(msg);
            if contains_sub(&mv, "malformed object name") || contains_sub(&mv, "unknown commit") {
                let empty: Vec<String> = Vec::new();
                proof {
                    assert(empty.deep_view() =~~= Seq::<Seq<char>>::empty());
                }
                Ok(empty)
            } else {
                Err(msg.to_owned())
            }
        },
    }
}

/// The query listing local branches with their upstream tracking state.
pub fn get_gone_branches_cmd() -> (c: Cmd)
    ensures
        c.command@ == "git"@,
        c.workdir is None,
        c.args.deep_view() == seq![
            "for-each-ref"@,
            "--format=%(refname:short)|%(upstream:track)"@,
            "refs/heads"@,
        ],
{
    let c = Cmd::new("git").arg("for-each-ref").arg(
        "--format=%(refname:short)|%(upstream:track)",
    ).arg("refs/heads");
    proof {
        assert(c.args.deep_view() =~= seq![
            "for-each-ref"@,
            "--format=%(refname:short)|%(upstream:track)"@,
            "refs/heads"@,
        ]);
    }
    c
}

/// The branches whose upstream is gone, per listed line: the part before the
/// first `|` whenever the part after it trims to `[gone]`.
pub open spec fn spec_gone_branches(lines: Seq<Seq<char>>) -> Seq<Seq<char>>
    decreases lines.len(),
{
    if lines.len() == 0 {
        Seq::empty()
    } else {
        let r = spec_gone_branches(lines.drop_last());
        match spec_split_once_char(lines.last(), '|') {
            Some(p) => {
                if spec_trim(p.1) == "[gone]"@ {
                    r.push(p.0)
                } else {
                    r
                }
            },
            None => r,
        }
    }
}

/// The branches whose upstream tracking branch has been deleted, read from
/// the query's captured output.
pub fn get_gone_branches(output: &str) -> (r: Vec<String>)
    ensures
        r.deep_view() == spec_gone_branches(spec_lines(output@)),
{
    let v = str_to_chars(output);
    let lines = split_lines(&v);
    let ghost ld = lines.deep_view();
    let mut out: Vec<String> = Vec::new();
    let mut i: usize = 0;
    proof {
        assert(ld.take(0) =~= Seq::<Seq<char>>::empty());
        assert(out.deep_view() =~~= spec_gone_branches(ld.take(0)));
    }
    while i < lines.len()
        invariant
            i <= lines.len(),
            ld == lines.deep_view(),
            out.deep_view() == spec_gone_branches(ld.take(i as int)),
        decreases lines.len() - i,
    {
        proof {
            assert(ld.take(i + 1).drop_last() =~= ld.take(i as int));
            assert(ld[i as int] =~= lines@[i as int]@);
            assert(ld.take(i + 1).last() == ld[i as int]);
        }
        let ghost pre = out.deep_view();
        if let Some((branch, track)) = split_once(&lines[i], '|') {
            let tt = trim(&track);
            if eq_str(&tt, "[gone]") {
                out.push(chars_to_string(&branch));
                proof {
                    assert(out.deep_view() =~~= pre.push(branch@));
                }
            }
        }
        i = i + 1;
    }
    proof {
        assert(ld.take(lines.len() as int) =~= ld);
    }
    out
}

/// The invocation that unsets a branch's upstream, issued only when tracking
/// configuration exists.
pub fn unset_branch_upstream(branch_name: &str, has_upstream: bool) -> (r: Option<Cmd>)
    ensures
        !has_upstream ==> r is None,
        has_upstream ==> (r matches Some(c) && c.command@ == "git"@ && c.workdir is None
            && c.args.deep_view() == seq!["branch"@, "--unset-upstream"@, branch_name@]),
{
    if !has_upstream {
        return None;
    }
    let c = Cmd::new("git").arg("branch").arg("--unset-upstream").arg(branch_name);
    proof {
        assert(c.args.deep_view() =~= seq!["branch"@, "--unset-upstream"@, branch_name@]);
    }
    Some(c)
}

/// The check for a branch's `merge` tracking configuration.
pub fn branch_has_upstream_merge_cmd(branch_name: &str) -> (c: Cmd)
    ensures
        c.command@ == "git"@,
        c.workdir is None,
        c.args.deep_view() == seq![
            "config"@,
            "--get"@,
            "branch."@ + branch_name@ + ".merge"@,
        ],
{
    let mut key = String::new();
    key.append("branch.");
    key.append(branch_name);
    key.append(".merge");
    let c = Cmd::new("git").arg("config").arg("--get").arg(key.as_str());
    proof {
        assert(c.args.deep_view() =~= seq![
            "config"@,
            "--get"@,
            "branch."@ + branch_name@ + ".merge"@,
        ]);
    }
    c
}

/// The check for a branch's `remote` tracking configuration.
pub fn branch_has_upstream_remote_cmd(branch_name: &str) -> (c: Cmd)
    ensures
        c.command@ == "git"@,
        c.workdir is None,
        c.args.deep_view() == seq![
            "config"@,
            "--get"@,
            "branch."@ + branch_name@ + ".remote"@,
        ],
{
    let mut key = String::new();
    key.append("branch.");
    key.append(branch_name);
    key.append(".remote");
    let c = Cmd::new("git").arg("config").arg("--get").arg(key.as_str());
    proof {
        assert(c.args.deep_view() =~= seq![
            "config"@,
            "--get"@,
            "branch."@ + branch_name@ + ".remote"@,
        ]);
    }
    c
}

/// Whether tracking configuration exists, from the two checks: either the
/// `merge` or the `remote` key is set.
pub fn branch_has_upstream(has_merge: bool, has_remote: bool) -> (r: bool)
    ensures
        r == (has_merge || has_remote),
{
    has_merge || has_remote
}

/// Store the base a branch was created from, under the branch's
/// configuration.
pub fn set_branch_base(branch: &str, base: &str) -> (c: Cmd)
    ensures
        c.command@ == "git"@,
        c.workdir is None,
        c.args.deep_view() == seq![
            "config"@,
            "--local"@,
            "branch."@ + branch@ + ".workmux-base"@,
            base@,
        ],
{
    let mut key = String::new();
    key.append("branch.");
    key.append(branch);
    key.append(".workmux-base");
    let c = Cmd::new("git").arg("config").arg("--local").arg(key.as_str()).arg(base);
    proof {
        assert(c.args.deep_view() =~= seq![
            "config"@,
            "--local"@,
            "branch."@ + branch@ + ".workmux-base"@,
            base@,
        ]);
    }
    c
}

/// The query for the base a branch was created from.
pub fn get_branch_base_cmd(branch: &str, workdir: Option<&str>) -> (c: Cmd)
    ensures
        c.command@ == "git"@,
        c.args.deep_view() == seq![
            "config"@,
            "--local"@,
            "branch."@ + branch@ + ".workmux-base"@,
        ],
        opt_view(c.workdir) == match workdir {
            Some(p) => Some(p@),
            None => None::<Seq<char>>,
        },
{
    let mut key = String::new();
    key.append("branch.");
    key.append(branch);
    key.append(".workmux-base");
    let c = Cmd::new("git").arg("config").arg("--local").arg(key.as_str());
    proof {
        assert(c.args.deep_view() =~= seq![
            "config"@,
            "--local"@,
            "branch."@ + branch@ + ".workmux-base"@,
        ]);
    }
    with_workdir(c, workdir)
}

/// The branch's recorded base, read from the query's result: the captured
/// output when the query succeeded and printed something; an error when the
/// query failed or printed nothing.
pub fn get_branch_base_in(output: Option<&str>) -> (r: Result<String, GitError>)
    ensures
        match output {
            None => r matches Err(e) && e == GitError::CommandFailed,
            Some(o) => {
                if o@.len() == 0 {
                    r matches Err(e) && e == GitError::NoBranchBase
                } else {
                    r matches Ok(b) && b@ == o@
                }
            },
        },
{
    match output {
        None => Err(GitError::CommandFailed),
        Some(o) => {
            if o.unicode_len() == 0 {
                Err(GitError::NoBranchBase)
            } else {
                Ok(o.to_owned())
            }
        },
    }
}

/// The branch's recorded base for the current repository; the same reading
/// as `get_branch_base_in`.
pub fn get_branch_base(output: Option<&str>) -> (r: Result<String, GitError>)
    ensures
        match output {
            None => r matches Err(e) && e == GitError::CommandFailed,
            Some(o) => {
                if o@.len() == 0 {
                    r matches Err(e) && e == GitError::NoBranchBase
                } else {
                    r matches Ok(b) && b@ == o@
                }
            },
        },
{
    get_branch_base_in(output)
}

} // verus!
