//! Helpers for agent data extraction and formatting in the dashboard.

use vstd::prelude::*;

use crate::text::{
    chars_to_string, ends_with, spec_ends_with, spec_nat_string, spec_split_char,
    spec_starts_with, split_char, starts_with, str_to_chars, sub_chars, format_u64,
    push_char,
};

verus! {

/// The project name derived from path components: the part before
/// `__worktrees` in the rightmost component carrying that suffix.
pub open spec fn project_of_components(comps: Seq<Seq<char>>) -> Option<Seq<char>>
    decreases comps.len(),
{
    if comps.len() == 0 {
        None
    } else if spec_ends_with(comps.last(), "__worktrees"@) {
        Some(comps.last().take(comps.last().len() - "__worktrees"@.len()))
    } else {
        project_of_components(comps.drop_last())
    }
}

/// The rightmost nonempty component, if any.
pub open spec fn last_nonempty(comps: Seq<Seq<char>>) -> Option<Seq<char>>
    decreases comps.len(),
{
    if comps.len() == 0 {
        None
    } else if comps.last().len() > 0 {
        Some(comps.last())
    } else {
        last_nonempty(comps.drop_last())
    }
}

/// The project name of a worktree path: the prefix of a `__worktrees`
/// component, the terminal directory name as a fallback, or the whole path.
pub open spec fn spec_extract_project_name(path: Seq<char>) -> Seq<char> {
    let comps = spec_split_char(path, '/');
    match project_of_components(comps) {
        Some(p) => p,
        None => match last_nonempty(comps) {
            Some(n) => n,
            None => path,
        },
    }
}

/// Extract the worktree name from a window name.
/// Returns the name with the prefix stripped and `false` for a window the
/// orchestrator created, or `"main"` and `true` for any other window.
pub fn extract_worktree_name(window_name: &str, window_prefix: &str) -> (r: (String, bool))
    ensures
        spec_starts_with(window_name@, window_prefix@) ==> r.0@ == window_name@.skip(
            window_prefix@.len() as int,
        ) && r.1 == false,
        !spec_starts_with(window_name@, window_prefix@) ==> r.0@ == "main"@ && r.1 == true,
{
    let v = str_to_chars(window_name);
    let plen = window_prefix.unicode_len();
    if starts_with(&v, window_prefix) {
        let rest = sub_chars(&v, plen, v.len());
        proof {
            assert(v@.subrange(plen as int, v@.len() as int) =~= v@.skip(plen as int));
        }
        (chars_to_string(&rest), false)
    } else {
        ("main".to_owned(), true)
    }
}

/// Extract the project name from a worktree path: the rightmost path
/// component ending in `__worktrees` names the project before that suffix;
/// otherwise the terminal directory name is used.
pub fn extract_project_name(path: &str) -> (r: String)
    ensures
        r@ == spec_extract_project_name(path@),
{
    let v = str_to_chars(path);
    let comps = split_char(&v, '/');
    let ghost cd = comps.deep_view();
    let mut j: usize = comps.len();
    proof {
        assert(cd.take(comps.len() as int) =~= cd);
    }
    while j > 0
        invariant
            j <= comps.len(),
            cd == comps.deep_view(),
            cd == spec_split_char(path@, '/'),
            project_of_components(cd) == project_of_components(cd.take(j as int)),
        decreases j,
    {
        proof {
            assert(cd.take(j as int).last() =~= comps@[j - 1]@);
            assert(cd.take(j as int).drop_last() =~= cd.take(j - 1));
        }
        let comp = &comps[j - 1];
        if ends_with(comp, "__worktrees") {
            let suffix_len = "__worktrees".unicode_len();
            let keep = sub_chars(comp, 0, comp.len() - suffix_len);
            proof {
                assert(comp@.subrange(0, comp@.len() - suffix_len) =~= comp@.take(
                    comp@.len() - "__worktrees"@.len(),
                ));
                assert(cd.take(j as int).last() == comp@);
                assert(project_of_components(cd.take(j as int)) == Some(keep@));
            }
            return chars_to_string(&keep);
        }
        j = j - 1;
    }
    proof {
        assert(cd.take(0) =~= Seq::<Seq<char>>::empty());
        assert(project_of_components(cd) is None);
    }
    let mut k: usize = comps.len();
    proof {
        assert(cd.take(comps.len() as int) =~= cd);
    }
    while k > 0
        invariant
            k <= comps.len(),
            cd == comps.deep_view(),
            cd == spec_split_char(path@, '/'),
            project_of_components(cd) is None,
            last_nonempty(cd) == last_nonempty(cd.take(k as int)),
        decreases k,
    {
        proof {
            assert(cd.take(k as int).last() =~= comps@[k - 1]@);
            assert(cd.take(k as int).drop_last() =~= cd.take(k - 1));
        }
        let comp = &comps[k - 1];
        if comp.len() > 0 {
            proof {
                assert(cd.take(k as int).last() == comp@);
                assert(last_nonempty(cd.take(k as int)) == Some(comp@));
            }
            return chars_to_string(comp);
        }
        k = k - 1;
    }
    proof {
        assert(cd.take(0) =~= Seq::<Seq<char>>::empty());
        assert(last_nonempty(cd) is None);
    }
    path.to_owned()
}

/// The seconds elapsed from `ts` to `now`, clamped below at zero.
pub open spec fn spec_elapsed(ts: int, now: int) -> int {
    if now >= ts {
        now - ts
    } else {
        0
    }
}

/// Whether an agent is stale: its status is older than the threshold.
pub fn is_stale(status_ts: Option<u64>, stale_threshold_secs: u64, now_secs: u64) -> (r: bool)
    ensures
        r == match status_ts {
            Some(ts) => spec_elapsed(ts as int, now_secs as int) > stale_threshold_secs,
            None => false,
        },
{
    match status_ts {
        Some(ts) => {
            let elapsed = if now_secs >= ts {
                now_secs - ts
            } else {
                0
            };
            elapsed > stale_threshold_secs
        },
        None => false,
    }
}

/// The seconds since the status timestamp, when there is one.
pub fn elapsed_secs(status_ts: Option<u64>, now_secs: u64) -> (r: Option<u64>)
    ensures
        r == match status_ts {
            Some(ts) => Some((spec_elapsed(ts as int, now_secs as int)) as u64),
            None => None::<u64>,
        },
{
    match status_ts {
        Some(ts) => Some(
            if now_secs >= ts {
                now_secs - ts
            } else {
                0
            },
        ),
        None => None,
    }
}

/// A number as two or more decimal digits, zero-padded on the left.
pub open spec fn pad2(n: int) -> Seq<char> {
    if n < 10 {
        seq!['0'] + spec_nat_string(n)
    } else {
        spec_nat_string(n)
    }
}

/// A duration in seconds as `HH:MM:SS`, each part zero-padded to two digits.
pub open spec fn spec_format_duration(secs: int) -> Seq<char> {
    pad2(secs / 3600) + seq![':'] + pad2((secs % 3600) / 60) + seq![':'] + pad2(secs % 60)
}

/// Append `n` as two or more zero-padded decimal digits.
fn append_pad2(s: &mut String, n: u64)
    ensures
        final(s)@ == old(s)@ + pad2(n as int),
{
    if n < 10 {
        push_char(s, '0');
    }
    let digits = format_u64(n);
    s.append(digits.as_str());
    proof {
        if n < 10 {
            assert(final(s)@ =~= old(s)@ + pad2(n as int));
        }
    }
}

/// Format a duration in seconds as `HH:MM:SS`.
pub fn format_duration(secs: u64) -> (r: String)
    ensures
        r@ == spec_format_duration(secs as int),
{
    let hours = secs / 3600;
    let mins = (secs % 3600) / 60;
    let rest = secs % 60;
    let mut s = String::new();
    append_pad2(&mut s, hours);
    push_char(&mut s, ':');
    append_pad2(&mut s, mins);
    push_char(&mut s, ':');
    append_pad2(&mut s, rest);
    proof {
        assert(s@ =~= spec_format_duration(secs as int));
    }
    s
}

} // verus!
