//! Worktree enumeration: the parser of `git worktree list --porcelain`
//! output, whose blocks name each worktree's path and checked-out branch.

use vstd::prelude::*;

use crate::cmd::Cmd;
use crate::text::{
    chars_to_string, spec_lines, spec_starts_with, split_lines, starts_with, str_to_chars,
    sub_chars,
};

verus! {

/// The listing of all worktrees, one block per worktree.
pub fn list_worktrees_cmd() -> (c: Cmd)
    ensures
        c.command@ == "git"@,
        c.workdir is None,
        c.args.deep_view() == seq!["worktree"@, "list"@, "--porcelain"@],
{
    let c = Cmd::new("git").arg("worktree").arg("list").arg("--porcelain");
    proof {
        assert(c.args.deep_view() =~= seq!["worktree"@, "list"@, "--porcelain"@]);
    }
    c
}

/// One enumerated worktree: its path and the branch checked out there, empty
/// for a detached HEAD.
pub struct WorktreeEntry {
    /// The worktree's directory.
    pub path: String,
    /// The branch checked out there, without the `refs/heads/` prefix; empty
    /// when detached.
    pub branch: String,
}

/// The mathematical content of a `WorktreeEntry`.
#[verifier::ext_equal]
pub struct WorktreeEntryView {
    pub path: Seq<char>,
    pub branch: Seq<char>,
}

impl View for WorktreeEntry {
    type V = WorktreeEntryView;

    open spec fn view(&self) -> WorktreeEntryView {
        WorktreeEntryView { path: self.path@, branch: self.branch@ }
    }
}

impl DeepView for WorktreeEntry {
    type V = WorktreeEntryView;

    open spec fn deep_view(&self) -> WorktreeEntryView {
        self.view()
    }
}

/// The parser's running state: the block under construction and the entries
/// already closed.
#[verifier::ext_equal]
pub struct WorktreeParse {
    pub cur_path: Option<Seq<char>>,
    pub cur_branch: Seq<char>,
    pub out: Seq<WorktreeEntryView>,
}

/// The closed entries once the block under construction, if any, is flushed.
pub open spec fn flush_worktree(st: WorktreeParse) -> Seq<WorktreeEntryView> {
    match st.cur_path {
        Some(p) => st.out.push(WorktreeEntryView { path: p, branch: st.cur_branch }),
        None => st.out,
    }
}

/// One porcelain line folded in: `worktree ` opens a block with its path,
/// `branch refs/heads/` names the block's branch, and a blank line closes
/// the block.
pub open spec fn worktree_step(st: WorktreeParse, line: Seq<char>) -> WorktreeParse {
    if spec_starts_with(line, "worktree "@) {
        WorktreeParse {
            cur_path: Some(line.skip("worktree "@.len() as int)),
            cur_branch: Seq::empty(),
            out: flush_worktree(st),
        }
    } else if spec_starts_with(line, "branch refs/heads/"@) {
        WorktreeParse {
            cur_path: st.cur_path,
            cur_branch: line.skip("branch refs/heads/"@.len() as int),
            out: st.out,
        }
    } else if line.len() == 0 {
        WorktreeParse { cur_path: None, cur_branch: Seq::empty(), out: flush_worktree(st) }
    } else {
        st
    }
}

/// The parser state after all lines.
pub open spec fn worktree_fold(lines: Seq<Seq<char>>) -> WorktreeParse
    decreases lines.len(),
{
    if lines.len() == 0 {
        WorktreeParse { cur_path: None, cur_branch: Seq::empty(), out: Seq::empty() }
    } else {
        worktree_step(worktree_fold(lines.drop_last()), lines.last())
    }
}

/// The worktrees of the porcelain listing.
pub open spec fn spec_list_worktrees(output: Seq<char>) -> Seq<WorktreeEntryView> {
    flush_worktree(worktree_fold(spec_lines(output)))
}

/// Parse `git worktree list --porcelain` output into worktree entries.
pub fn list_worktrees(output: &str) -> (r: Vec<WorktreeEntry>)
    ensures
        r.deep_view() == spec_list_worktrees(output@),
{
    let v = str_to_chars(output);
    let lines = split_lines(&v);
    let ghost ld = lines.deep_view();
    let mut out: Vec<WorktreeEntry> = Vec::new();
    let mut cur_path: Option<String> = None;
    let mut cur_branch = String::new();
    let mut i: usize = 0;
    proof {
        assert(ld.take(0) =~= Seq::<Seq<char>>::empty());
        assert(out.deep_view() =~~= worktree_fold(ld.take(0)).out);
    }
    while i < lines.len()
        invariant
            i <= lines.len(),
            ld == lines.deep_view(),
            ld == spec_lines(output@),
            ({
                let st = worktree_fold(ld.take(i as int));
                &&& match cur_path {
                    Some(p) => st.cur_path matches Some(sp) && p@ == sp,
                    None => st.cur_path is None,
                }
                &&& cur_branch@ == st.cur_branch
                &&& out.deep_view() == st.out
            }),
        decreases lines.len() - i,
    {
        let ghost st = worktree_fold(ld.take(i as int));
        proof {
            assert(ld.take(i + 1).drop_last() =~= ld.take(i as int));
            assert(ld[i as int] =~= lines@[i as int]@);
            assert(ld.take(i + 1).last() == ld[i as int]);
        }
        let line = &lines[i];
        if starts_with(line, "worktree ") {
            proof {
                reveal_strlit("worktree ");
            }
            let plen = "worktree ".unicode_len();
            let rest = sub_chars(line, plen, line.len());
            proof {
                assert(rest@ =~= line@.skip("worktree "@.len() as int));
            }
            let ghost pre = out.deep_view();
            if let Some(p) = cur_path {
                out.push(WorktreeEntry { path: p, branch: cur_branch });
                proof {
                    assert(out.deep_view() =~~= flush_worktree(st));
                }
            } else {
                proof {
                    assert(out.deep_view() =~~= flush_worktree(st));
                }
            }
            cur_path = Some(chars_to_string(&rest));
            cur_branch = String::new();
        } else if starts_with(line, "branch refs/heads/") {
            proof {
                reveal_strlit("branch refs/heads/");
            }
            let plen = "branch refs/heads/".unicode_len();
            let rest = sub_chars(line, plen, line.len());
            proof {
                assert(rest@ =~= line@.skip("branch refs/heads/"@.len() as int));
            }
            cur_branch = chars_to_string(&rest);
        } else if line.len() == 0 {
            let ghost pre = out.deep_view();
            if let Some(p) = cur_path {
                out.push(WorktreeEntry { path: p, branch: cur_branch });
                proof {
                    assert(out.deep_view() =~~= flush_worktree(st));
                }
            } else {
                proof {
                    assert(out.deep_view() =~~= flush_worktree(st));
                }
            }
            cur_path = None;
            cur_branch = String::new();
        }
        i = i + 1;
    }
    proof {
        assert(ld.take(lines.len() as int) =~= ld);
    }
    let ghost st = worktree_fold(ld);
    if let Some(p) = cur_path {
        out.push(WorktreeEntry { path: p, branch: cur_branch });
        proof {
            assert(out.deep_view() =~~= flush_worktree(st));
        }
    } else {
        proof {
            assert(out.deep_view() =~~= flush_worktree(st));
        }
    }
    out
}

} // verus!
