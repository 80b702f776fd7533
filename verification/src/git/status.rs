//! Per-worktree git status: dirty checks, the porcelain v2 parser, numstat
//! parsing, untracked line counting, and the assembly of a `GitStatus`.

use vstd::prelude::*;

use crate::cmd::{opt_view, Cmd};
use crate::git::types::{DiffStats, GitStatus};
use crate::text::{
    chars_to_string, eq_str, parse_usize, spec_lines, spec_parse_usize, spec_split_ws,
    spec_starts_with, split_lines, split_ws, starts_with, str_to_chars, sub_chars,
};

verus! {

/// The porcelain status query whose captured output feeds the checks below.
pub fn status_porcelain_cmd(worktree_path: &str) -> (c: Cmd)
    ensures
        c.command@ == "git"@,
        opt_view(c.workdir) == Some(worktree_path@),
        c.args.deep_view() == seq!["status"@, "--porcelain"@],
{
    let c = Cmd::new("git").workdir(worktree_path).arg("status").arg("--porcelain");
    proof {
        assert(c.args.deep_view() =~= seq!["status"@, "--porcelain"@]);
    }
    c
}

/// The porcelain v2 status query with branch headers.
pub fn status_porcelain_v2_cmd(worktree_path: &str) -> (c: Cmd)
    ensures
        c.command@ == "git"@,
        opt_view(c.workdir) == Some(worktree_path@),
        c.args.deep_view() == seq!["status"@, "--porcelain=v2"@, "--branch"@],
{
    let c = Cmd::new("git").workdir(worktree_path).arg("status").arg("--porcelain=v2").arg(
        "--branch",
    );
    proof {
        assert(c.args.deep_view() =~= seq!["status"@, "--porcelain=v2"@, "--branch"@]);
    }
    c
}

/// The check for staged changes: `git diff --cached --quiet` exits cleanly
/// only when nothing is staged.
pub fn staged_changes_cmd(worktree_path: &str) -> (c: Cmd)
    ensures
        c.command@ == "git"@,
        opt_view(c.workdir) == Some(worktree_path@),
        c.args.deep_view() == seq!["diff"@, "--cached"@, "--quiet"@],
{
    let c = Cmd::new("git").workdir(worktree_path).arg("diff").arg("--cached").arg("--quiet");
    proof {
        assert(c.args.deep_view() =~= seq!["diff"@, "--cached"@, "--quiet"@]);
    }
    c
}

/// The check for unstaged changes: `git diff --quiet` exits cleanly only
/// when the working tree is clean.
pub fn unstaged_changes_cmd(worktree_path: &str) -> (c: Cmd)
    ensures
        c.command@ == "git"@,
        opt_view(c.workdir) == Some(worktree_path@),
        c.args.deep_view() == seq!["diff"@, "--quiet"@],
{
    let c = Cmd::new("git").workdir(worktree_path).arg("diff").arg("--quiet");
    proof {
        assert(c.args.deep_view() =~= seq!["diff"@, "--quiet"@]);
    }
    c
}

/// Whether the worktree has uncommitted changes, read from the porcelain
/// output: any output at all means changes.
pub fn has_uncommitted_changes(porcelain_output: &str) -> (r: bool)
    ensures
        r == (porcelain_output@.len() > 0),
{
    !(porcelain_output.unicode_len() == 0)
}

/// Whether some porcelain line reports a tracked change: a nonempty line not
/// starting with `??`.
pub open spec fn spec_has_tracked_changes(lines: Seq<Seq<char>>) -> bool {
    exists|k: int|
        0 <= k < lines.len() && !spec_starts_with(#[trigger] lines[k], "??"@) && lines[k].len() > 0
}

/// Whether the worktree has tracked changes (staged or modified), read from
/// the porcelain output; untracked files do not count.
pub fn has_tracked_changes(porcelain_output: &str) -> (r: bool)
    ensures
        r == spec_has_tracked_changes(spec_lines(porcelain_output@)),
{
    let v = str_to_chars(porcelain_output);
    let lines = split_lines(&v);
    let ghost ld = lines.deep_view();
    let mut i: usize = 0;
    while i < lines.len()
        invariant
            i <= lines.len(),
            ld == lines.deep_view(),
            ld == spec_lines(porcelain_output@),
            forall|k: int|
                0 <= k < i ==> spec_starts_with(#[trigger] ld[k], "??"@) || ld[k].len() == 0,
        decreases lines.len() - i,
    {
        proof {
            assert(ld[i as int] =~= lines@[i as int]@);
        }
        if !starts_with(&lines[i], "??") && lines[i].len() > 0 {
            proof {
                assert(!spec_starts_with(ld[i as int], "??"@) && ld[i as int].len() > 0);
            }
            return true;
        }
        i = i + 1;
    }
    false
}

/// Whether some porcelain line reports an untracked file: a line starting
/// with `??`.
pub open spec fn spec_has_untracked_files(lines: Seq<Seq<char>>) -> bool {
    exists|k: int| 0 <= k < lines.len() && spec_starts_with(#[trigger] lines[k], "??"@)
}

/// Whether the worktree has untracked files, read from the porcelain output.
pub fn has_untracked_files(porcelain_output: &str) -> (r: bool)
    ensures
        r == spec_has_untracked_files(spec_lines(porcelain_output@)),
{
    let v = str_to_chars(porcelain_output);
    let lines = split_lines(&v);
    let ghost ld = lines.deep_view();
    let mut i: usize = 0;
    while i < lines.len()
        invariant
            i <= lines.len(),
            ld == lines.deep_view(),
            ld == spec_lines(porcelain_output@),
            forall|k: int| 0 <= k < i ==> !spec_starts_with(#[trigger] ld[k], "??"@),
        decreases lines.len() - i,
    {
        proof {
            assert(ld[i as int] =~= lines@[i as int]@);
        }
        if starts_with(&lines[i], "??") {
            return true;
        }
        i = i + 1;
    }
    false
}

/// Whether the worktree has staged changes: the quiet diff check exits
/// cleanly exactly when there are none.
pub fn has_staged_changes(no_changes: bool) -> (r: bool)
    ensures
        r == !no_changes,
{
    !no_changes
}

/// Whether the worktree has unstaged changes: the quiet diff check exits
/// cleanly exactly when there are none.
pub fn has_unstaged_changes(no_changes: bool) -> (r: bool)
    ensures
        r == !no_changes,
{
    !no_changes
}

// ---------------------------------------------------------------------------
// Porcelain v2 parsing
// ---------------------------------------------------------------------------

/// What the porcelain v2 parser has gathered: branch name, ahead and behind
/// counts, dirtiness, upstream presence, and whether a file entry already
/// ended the scan.
#[verifier::ext_equal]
pub struct PorcelainState {
    pub branch: Option<Seq<char>>,
    pub ahead: int,
    pub behind: int,
    pub is_dirty: bool,
    pub has_upstream: bool,
    pub done: bool,
}

/// A parsed count token: the numeral after the sign, zero when it does not
/// parse.
pub open spec fn count_after_sign(tok: Seq<char>) -> int {
    match spec_parse_usize(tok.skip(1)) {
        Some(n) => n as int,
        None => 0,
    }
}

/// One porcelain line folded into the parser state: `# branch.head` names
/// the branch unless detached, `# branch.ab` carries the ahead/behind counts
/// and implies an upstream, and any nonempty non-header line marks the tree
/// dirty and ends the scan.
pub open spec fn porcelain_step(st: PorcelainState, line: Seq<char>) -> PorcelainState {
    if st.done {
        st
    } else if spec_starts_with(line, "# branch.head "@) {
        let rest = line.skip("# branch.head "@.len() as int);
        if rest != "(detached)"@ {
            PorcelainState { branch: Some(rest), ..st }
        } else {
            st
        }
    } else if spec_starts_with(line, "# branch.ab "@) {
        let rest = line.skip("# branch.ab "@.len() as int);
        let toks = spec_split_ws(rest);
        let with_up = PorcelainState { has_upstream: true, ..st };
        if toks.len() >= 2 {
            let a = if spec_starts_with(toks[0], "+"@) {
                count_after_sign(toks[0])
            } else {
                with_up.ahead
            };
            let b = if spec_starts_with(toks[1], "-"@) {
                count_after_sign(toks[1])
            } else {
                with_up.behind
            };
            PorcelainState { ahead: a, behind: b, ..with_up }
        } else {
            with_up
        }
    } else if !spec_starts_with(line, "#"@) && line.len() > 0 {
        PorcelainState { is_dirty: true, done: true, ..st }
    } else {
        st
    }
}

/// The parser state after all lines.
pub open spec fn porcelain_fold(lines: Seq<Seq<char>>) -> PorcelainState
    decreases lines.len(),
{
    if lines.len() == 0 {
        PorcelainState {
            branch: None,
            ahead: 0,
            behind: 0,
            is_dirty: false,
            has_upstream: false,
            done: false,
        }
    } else {
        porcelain_step(porcelain_fold(lines.drop_last()), lines.last())
    }
}

/// Parse `git status --porcelain=v2 --branch` output: the branch name (absent
/// for a detached HEAD), the ahead and behind counts, whether the tree is
/// dirty, and whether the branch has an upstream.
pub fn parse_porcelain_v2_status(output: &str) -> (r: (Option<String>, usize, usize, bool, bool))
    ensures
        ({
            let st = porcelain_fold(spec_lines(output@));
            &&& match r.0 {
                Some(b) => st.branch matches Some(sb) && b@ == sb,
                None => st.branch is None,
            }
            &&& r.1 as int == st.ahead
            &&& r.2 as int == st.behind
            &&& r.3 == st.is_dirty
            &&& r.4 == st.has_upstream
        }),
{
    let v = str_to_chars(output);
    let lines = split_lines(&v);
    let ghost ld = lines.deep_view();
    let mut branch: Option<String> = None;
    let mut ahead: usize = 0;
    let mut behind: usize = 0;
    let mut is_dirty = false;
    let mut has_upstream = false;
    let mut done = false;
    let mut i: usize = 0;
    proof {
        assert(ld.take(0) =~= Seq::<Seq<char>>::empty());
    }
    while i < lines.len()
        invariant
            i <= lines.len(),
            ld == lines.deep_view(),
            ld == spec_lines(output@),
            ({
                let st = porcelain_fold(ld.take(i as int));
                &&& match branch {
                    Some(b) => st.branch matches Some(sb) && b@ == sb,
                    None => st.branch is None,
                }
                &&& ahead as int == st.ahead
                &&& behind as int == st.behind
                &&& is_dirty == st.is_dirty
                &&& has_upstream == st.has_upstream
                &&& done == st.done
            }),
        decreases lines.len() - i,
    {
        proof {
            assert(ld.take(i + 1).drop_last() =~= ld.take(i as int));
            assert(ld[i as int] =~= lines@[i as int]@);
            assert(ld.take(i + 1).last() == ld[i as int]);
        }
        let line = &lines[i];
        if !done {
            if starts_with(line, "# branch.head ") {
                proof {
                    reveal_strlit("# branch.head ");
                }
                let plen = "# branch.head ".unicode_len();
                let rest = sub_chars(line, plen, line.len());
                proof {
                    assert(rest@ =~= line@.skip("# branch.head "@.len() as int));
                }
                if !eq_str(&rest, "(detached)") {
                    branch = Some(chars_to_string(&rest));
                }
            } else if starts_with(line, "# branch.ab ") {
                proof {
                    reveal_strlit("# branch.ab ");
                }
                let plen = "# branch.ab ".unicode_len();
                let rest = sub_chars(line, plen, line.len());
                proof {
                    assert(rest@ =~= line@.skip("# branch.ab "@.len() as int));
                }
                has_upstream = true;
                let toks = split_ws(&rest);
                if toks.len() >= 2 {
                    proof {
                        assert(toks.deep_view()[0] =~= toks@[0]@);
                        assert(toks.deep_view()[1] =~= toks@[1]@);
                        reveal_strlit("+");
                        reveal_strlit("-");
                    }
                    if starts_with(&toks[0], "+") {
                        let num = sub_chars(&toks[0], 1, toks[0].len());
                        proof {
                            assert(num@ =~= toks@[0]@.skip(1));
                        }
                        ahead = match parse_usize(&num) {
                            Some(n) => n,
                            None => 0,
                        };
                    }
                    if starts_with(&toks[1], "-") {
                        let num = sub_chars(&toks[1], 1, toks[1].len());
                        proof {
                            assert(num@ =~= toks@[1]@.skip(1));
                        }
                        behind = match parse_usize(&num) {
                            Some(n) => n,
                            None => 0,
                        };
                    }
                }
            } else if !starts_with(line, "#") && line.len() > 0 {
                is_dirty = true;
                done = true;
            }
        }
        i = i + 1;
    }
    proof {
        assert(ld.take(lines.len() as int) =~= ld);
    }
    (branch, ahead, behind, is_dirty, has_upstream)
}

// ---------------------------------------------------------------------------
// Numstat parsing and untracked line counting
// ---------------------------------------------------------------------------

/// Addition on `usize` that stops at the maximum instead of overflowing.
pub open spec fn sat_add(a: int, b: int) -> int {
    if a + b > usize::MAX {
        usize::MAX as int
    } else {
        a + b
    }
}

/// The added/removed sums of numstat lines: the first two whitespace tokens
/// of each line, parsed as numbers (binary files print `-`, contributing
/// zero), summed with saturation.
pub open spec fn spec_parse_numstat(lines: Seq<Seq<char>>) -> (int, int)
    decreases lines.len(),
{
    if lines.len() == 0 {
        (0int, 0int)
    } else {
        let p = spec_parse_numstat(lines.drop_last());
        let toks = spec_split_ws(lines.last());
        if toks.len() >= 2 {
            let a = match spec_parse_usize(toks[0]) {
                Some(n) => n as int,
                None => 0int,
            };
            let b = match spec_parse_usize(toks[1]) {
                Some(n) => n as int,
                None => 0int,
            };
            (sat_add(p.0, a), sat_add(p.1, b))
        } else {
            p
        }
    }
}

/// Saturating add on `usize` values.
pub fn sat_add_counts(a: usize, b: usize) -> (r: usize)
    ensures
        r as int == sat_add(a as int, b as int),
{
    if a > usize::MAX - b {
        usize::MAX
    } else {
        a + b
    }
}

/// Sum a numstat listing into added and removed line counts.
pub fn parse_numstat(output: &str) -> (r: (usize, usize))
    ensures
        r.0 as int == spec_parse_numstat(spec_lines(output@)).0,
        r.1 as int == spec_parse_numstat(spec_lines(output@)).1,
{
    let v = str_to_chars(output);
    let lines = split_lines(&v);
    let ghost ld = lines.deep_view();
    let mut added: usize = 0;
    let mut removed: usize = 0;
    let mut i: usize = 0;
    proof {
        assert(ld.take(0) =~= Seq::<Seq<char>>::empty());
    }
    while i < lines.len()
        invariant
            i <= lines.len(),
            ld == lines.deep_view(),
            ld == spec_lines(output@),
            added as int == spec_parse_numstat(ld.take(i as int)).0,
            removed as int == spec_parse_numstat(ld.take(i as int)).1,
        decreases lines.len() - i,
    {
        proof {
            assert(ld.take(i + 1).drop_last() =~= ld.take(i as int));
            assert(ld[i as int] =~= lines@[i as int]@);
            assert(ld.take(i + 1).last() == ld[i as int]);
        }
        let toks = split_ws(&lines[i]);
        if toks.len() >= 2 {
            proof {
                assert(toks.deep_view()[0] =~= toks@[0]@);
                assert(toks.deep_view()[1] =~= toks@[1]@);
            }
            let a = match parse_usize(&toks[0]) {
                Some(n) => n,
                None => 0,
            };
            let b = match parse_usize(&toks[1]) {
                Some(n) => n,
                None => 0,
            };
            added = sat_add_counts(added, a);
            removed = sat_add_counts(removed, b);
        }
        i = i + 1;
    }
    proof {
        assert(ld.take(lines.len() as int) =~= ld);
    }
    (added, removed)
}

/// The number of newline bytes in `data`.
pub open spec fn spec_count_newlines(data: Seq<u8>) -> int
    decreases data.len(),
{
    if data.len() == 0 {
        0
    } else {
        spec_count_newlines(data.drop_last()) + if data.last() == 10 {
            1int
        } else {
            0int
        }
    }
}

/// Whether `data` looks binary: a NUL byte within its first 8192 bytes.
pub open spec fn spec_is_binary(data: Seq<u8>) -> bool {
    exists|k: int| 0 <= k < data.len() && k < 8192 && data[k] == 0
}

/// The line count git attributes to a text file: its newlines, plus one when
/// it does not end in a newline; a binary file counts zero lines.
pub open spec fn spec_count_lines(data: Seq<u8>) -> int {
    if spec_is_binary(data) {
        0
    } else {
        sat_add(
            spec_count_newlines(data),
            if data.len() > 0 && data.last() != 10 {
                1int
            } else {
                0int
            },
        )
    }
}

/// Count the lines of a file's content the way git does: zero for binary
/// content (a NUL in the first 8192 bytes), otherwise newlines plus a final
/// unterminated line.
pub fn count_lines(data: &Vec<u8>) -> (r: usize)
    ensures
        r as int == spec_count_lines(data@),
{
    let mut i: usize = 0;
    while i < data.len() && i < 8192
        invariant
            i <= data.len(),
            forall|k: int| 0 <= k < i ==> data@[k] != 0,
        decreases data.len() - i,
    {
        if data[i] == 0 {
            return 0;
        }
        i = i + 1;
    }
    proof {
        assert(!spec_is_binary(data@));
    }
    let mut count: usize = 0;
    let mut j: usize = 0;
    proof {
        assert(data@.take(0) =~= Seq::<u8>::empty());
    }
    while j < data.len()
        invariant
            j <= data.len(),
            count as int == spec_count_newlines(data@.take(j as int)),
            count <= j,
        decreases data.len() - j,
    {
        proof {
            assert(data@.take(j + 1).drop_last() =~= data@.take(j as int));
            assert(data@.take(j + 1).last() == data@[j as int]);
        }
        if data[j] == 10 {
            count = count + 1;
        }
        j = j + 1;
    }
    proof {
        assert(data@.take(data.len() as int) =~= data@);
    }
    proof {
        lemma_count_newlines_bound(data@);
    }
    if data.len() > 0 && data[data.len() - 1] != 10 {
        count = sat_add_counts(count, 1);
    } else {
        proof {
            assert(spec_count_lines(data@) == spec_count_newlines(data@));
        }
    }
    count
}

/// A newline count never exceeds the length counted over.
proof fn lemma_count_newlines_bound(data: Seq<u8>)
    ensures
        0 <= spec_count_newlines(data) <= data.len(),
    decreases data.len(),
{
    if data.len() > 0 {
        lemma_count_newlines_bound(data.drop_last());
    }
}

/// The sum of the untracked files' line counts, each file counted by
/// `count_lines` (or one line for a symlink), saturating.
pub fn sum_untracked(line_counts: &Vec<usize>) -> (r: usize)
    ensures
        r as int == spec_sum_sat(line_counts@),
{
    let mut total: usize = 0;
    let mut i: usize = 0;
    proof {
        assert(line_counts@.take(0) =~= Seq::<usize>::empty());
    }
    while i < line_counts.len()
        invariant
            i <= line_counts.len(),
            total as int == spec_sum_sat(line_counts@.take(i as int)),
        decreases line_counts.len() - i,
    {
        proof {
            assert(line_counts@.take(i + 1).drop_last() =~= line_counts@.take(i as int));
            assert(line_counts@.take(i + 1).last() == line_counts@[i as int]);
        }
        total = sat_add_counts(total, line_counts[i]);
        i = i + 1;
    }
    proof {
        assert(line_counts@.take(line_counts.len() as int) =~= line_counts@);
    }
    total
}

/// The saturating sum of a sequence of counts.
pub open spec fn spec_sum_sat(counts: Seq<usize>) -> int
    decreases counts.len(),
{
    if counts.len() == 0 {
        0
    } else {
        sat_add(spec_sum_sat(counts.drop_last()), counts.last() as int)
    }
}

// ---------------------------------------------------------------------------
// Status assembly
// ---------------------------------------------------------------------------

/// The query for committed line deltas against the base.
pub fn numstat_committed_cmd(worktree_path: &str, base_ref: &str) -> (c: Cmd)
    ensures
        c.command@ == "git"@,
        opt_view(c.workdir) == Some(worktree_path@),
        c.args.deep_view() == seq![
            "diff"@,
            "--numstat"@,
            base_ref@ + "...HEAD"@,
        ],
{
    let mut range = String::new();
    range.append(base_ref);
    range.append("...HEAD");
    let c = Cmd::new("git").workdir(worktree_path).arg("diff").arg("--numstat").arg(
        range.as_str(),
    );
    proof {
        assert(c.args.deep_view() =~= seq![
            "diff"@,
            "--numstat"@,
            base_ref@ + "...HEAD"@,
        ]);
    }
    c
}

/// The query for uncommitted line deltas against HEAD.
pub fn numstat_uncommitted_cmd(worktree_path: &str) -> (c: Cmd)
    ensures
        c.command@ == "git"@,
        opt_view(c.workdir) == Some(worktree_path@),
        c.args.deep_view() == seq!["diff"@, "--numstat"@, "HEAD"@],
{
    let c = Cmd::new("git").workdir(worktree_path).arg("diff").arg("--numstat").arg("HEAD");
    proof {
        assert(c.args.deep_view() =~= seq!["diff"@, "--numstat"@, "HEAD"@]);
    }
    c
}

/// The listing of untracked files, NUL-separated.
pub fn ls_untracked_cmd(worktree_path: &str) -> (c: Cmd)
    ensures
        c.command@ == "git"@,
        opt_view(c.workdir) == Some(worktree_path@),
        c.args.deep_view() == seq![
            "ls-files"@,
            "--others"@,
            "--exclude-standard"@,
            "-z"@,
        ],
{
    let c = Cmd::new("git").workdir(worktree_path).arg("ls-files").arg("--others").arg(
        "--exclude-standard",
    ).arg("-z");
    proof {
        assert(c.args.deep_view() =~= seq![
            "ls-files"@,
            "--others"@,
            "--exclude-standard"@,
            "-z"@,
        ]);
    }
    c
}

/// The diff of one untracked file against nothing, whose captured outputs,
/// concatenated over the untracked files, form the untracked pseudo-diff.
/// The command exits nonzero when the file differs from nothing, which is
/// expected; its stdout is the diff text.
pub fn untracked_file_diff_cmd(worktree_path: &str, file: &str) -> (c: Cmd)
    ensures
        c.command@ == "git"@,
        opt_view(c.workdir) == Some(worktree_path@),
        c.args.deep_view() == seq![
            "diff"@,
            "--no-index"@,
            "/dev/null"@,
            file@,
        ],
{
    let c = Cmd::new("git").workdir(worktree_path).arg("diff").arg("--no-index").arg(
        "/dev/null",
    ).arg(file);
    proof {
        assert(c.args.deep_view() =~= seq![
            "diff"@,
            "--no-index"@,
            "/dev/null"@,
            file@,
        ]);
    }
    c
}

/// The conflict probe against the base: `git merge-tree --write-tree` exits
/// with status one exactly when the merge would conflict.
pub fn merge_tree_cmd(worktree_path: &str, base_ref: &str) -> (c: Cmd)
    ensures
        c.command@ == "git"@,
        opt_view(c.workdir) == Some(worktree_path@),
        c.args.deep_view() == seq![
            "merge-tree"@,
            "--write-tree"@,
            base_ref@,
            "HEAD"@,
        ],
{
    let c = Cmd::new("git").workdir(worktree_path).arg("merge-tree").arg("--write-tree").arg(
        base_ref,
    ).arg("HEAD");
    proof {
        assert(c.args.deep_view() =~= seq![
            "merge-tree"@,
            "--write-tree"@,
            base_ref@,
            "HEAD"@,
        ]);
    }
    c
}

/// Whether the conflict probe reports a conflict: exactly an exit status of
/// one; any other outcome, including an unknown option on older git, means
/// no conflict detected.
pub fn merge_tree_conflict(exit_code: Option<i32>) -> (r: bool)
    ensures
        r == (exit_code == Some(1i32)),
{
    match exit_code {
        Some(c) => c == 1,
        None => false,
    }
}

/// Assemble the status of a worktree from the observations: the porcelain v2
/// output, the resolved base branch, the conflict probe, the line deltas, and
/// the clock. A detached HEAD keeps only dirtiness; on the base branch
/// itself only the uncommitted deltas are kept.
pub fn get_git_status(
    porcelain_output: Option<&str>,
    base_branch: &str,
    has_conflict: bool,
    stats: DiffStats,
    now: Option<u64>,
) -> (r: GitStatus)
    ensures
        ({
            let st = porcelain_fold(
                spec_lines(
                    match porcelain_output {
                        Some(o) => o@,
                        None => Seq::<char>::empty(),
                    },
                ),
            );
            match porcelain_output {
                None => {
                    &&& r.branch is None
                    &&& r.ahead == 0 && r.behind == 0
                    &&& !r.is_dirty && !r.has_conflict && !r.has_upstream
                    &&& r.lines_added == 0 && r.lines_removed == 0
                    &&& r.uncommitted_added == 0 && r.uncommitted_removed == 0
                    &&& r.base_branch@ == Seq::<char>::empty()
                    &&& r.cached_at == now
                },
                Some(_) => {
                    &&& r.cached_at == now
                    &&& r.ahead as int == st.ahead && r.behind as int == st.behind
                    &&& r.is_dirty == st.is_dirty
                    &&& r.has_upstream == st.has_upstream
                    &&& match st.branch {
                        None => {
                            &&& r.branch is None
                            &&& !r.has_conflict
                            &&& r.lines_added == 0 && r.lines_removed == 0
                            &&& r.uncommitted_added == 0 && r.uncommitted_removed == 0
                            &&& r.base_branch@ == Seq::<char>::empty()
                        },
                        Some(b) => {
                            &&& r.branch matches Some(rb) && rb@ == b
                            &&& r.base_branch@ == base_branch@
                            &&& if b == base_branch@ {
                                &&& !r.has_conflict
                                &&& r.lines_added == 0 && r.lines_removed == 0
                                &&& r.uncommitted_added == stats.uncommitted_added
                                &&& r.uncommitted_removed == stats.uncommitted_removed
                            } else {
                                &&& r.has_conflict == has_conflict
                                &&& r.lines_added == stats.committed_added
                                &&& r.lines_removed == stats.committed_removed
                                &&& r.uncommitted_added == stats.uncommitted_added
                                &&& r.uncommitted_removed == stats.uncommitted_removed
                            }
                        },
                    }
                },
            }
        }),
{
    let output = match porcelain_output {
        Some(o) => o,
        None => {
            proof {
                reveal_strlit("");
                assert(""@ =~= Seq::<char>::empty());
            }
            return GitStatus {
                ahead: 0,
                behind: 0,
                has_conflict: false,
                is_dirty: false,
                lines_added: 0,
                lines_removed: 0,
                uncommitted_added: 0,
                uncommitted_removed: 0,
                cached_at: now,
                base_branch: String::new(),
                branch: None,
                has_upstream: false,
            };
        },
    };
    let (branch, ahead, behind, is_dirty, has_upstream) = parse_porcelain_v2_status(output);
    let branch = match branch {
        Some(b) => b,
        None => {
            return GitStatus {
                ahead,
                behind,
                has_conflict: false,
                is_dirty,
                lines_added: 0,
                lines_removed: 0,
                uncommitted_added: 0,
                uncommitted_removed: 0,
                cached_at: now,
                base_branch: String::new(),
                branch: None,
                has_upstream,
            };
        },
    };
    let bv = str_to_chars(branch.as_str());
    if eq_str(&bv, base_branch) {
        return GitStatus {
            ahead,
            behind,
            has_conflict: false,
            is_dirty,
            lines_added: 0,
            lines_removed: 0,
            uncommitted_added: stats.uncommitted_added,
            uncommitted_removed: stats.uncommitted_removed,
            cached_at: now,
            base_branch: base_branch.to_owned(),
            branch: Some(branch),
            has_upstream,
        };
    }
    GitStatus {
        ahead,
        behind,
        has_conflict,
        is_dirty,
        lines_added: stats.committed_added,
        lines_removed: stats.committed_removed,
        uncommitted_added: stats.uncommitted_added,
        uncommitted_removed: stats.uncommitted_removed,
        cached_at: now,
        base_branch: base_branch.to_owned(),
        branch: Some(branch),
        has_upstream,
    }
}

} // verus!
