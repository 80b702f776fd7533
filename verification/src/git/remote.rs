//! Remote queries and the fork-remote workflow: listing remotes, reading
//! their URLs, and planning the remote that tracks a fork.

use vstd::prelude::*;

use crate::cmd::{opt_view, Cmd};
use crate::git::types::GitError;
use crate::git::url::{
    parse_git_url, spec_url_parse_safe, url_host, url_parse_ok, url_parse_safe, url_repo,
    url_scheme,
};
use crate::text::{
    chars_to_string, eq_str, spec_find, spec_lines, spec_split_char, spec_trim, split_char,
    split_lines, str_to_chars, trim,
};

verus! {

/// The query listing the configured remotes, one per output line.
pub fn list_remotes_cmd() -> (c: Cmd)
    ensures
        c.command@ == "git"@,
        c.workdir is None,
        c.args.deep_view() == seq!["remote"@],
{
    let c = Cmd::new("git").arg("remote");
    proof {
        assert(c.args.deep_view() =~= seq!["remote"@]);
    }
    c
}

/// The remote names among the listed lines: each line trimmed, empty lines
/// dropped.
pub open spec fn spec_list_remotes(lines: Seq<Seq<char>>) -> Seq<Seq<char>>
    decreases lines.len(),
{
    if lines.len() == 0 {
        Seq::empty()
    } else {
        let r = spec_list_remotes(lines.drop_last());
        if spec_trim(lines.last()).len() > 0 {
            r.push(spec_trim(lines.last()))
        } else {
            r
        }
    }
}

/// The configured remotes, read from the listing's captured output.
pub fn list_remotes(output: &str) -> (r: Vec<String>)
    ensures
        r.deep_view() == spec_list_remotes(spec_lines(output@)),
{
    let v = str_to_chars(output);
    let lines = split_lines(&v);
    let ghost ld = lines.deep_view();
    let mut out: Vec<String> = Vec::new();
    let mut i: usize = 0;
    proof {
        assert(ld.take(0) =~= Seq::<Seq<char>>::empty());
        assert(out.deep_view() =~~= spec_list_remotes(ld.take(0)));
    }
    while i < lines.len()
        invariant
            i <= lines.len(),
            ld == lines.deep_view(),
            out.deep_view() == spec_list_remotes(ld.take(i as int)),
        decreases lines.len() - i,
    {
        proof {
            assert(ld.take(i + 1).drop_last() =~= ld.take(i as int));
            assert(ld[i as int] =~= lines@[i as int]@);
            assert(ld.take(i + 1).last() == ld[i as int]);
        }
        let t = trim(&lines[i]);
        let ghost pre = out.deep_view();
        if t.len() > 0 {
            out.push(chars_to_string(&t));
            proof {
                assert(out.deep_view() =~~= pre.push(t@));
            }
        }
        i = i + 1;
    }
    proof {
        assert(ld.take(lines.len() as int) =~= ld);
    }
    out
}

/// Whether `remote` is among the configured remotes.
pub fn remote_exists(remotes: &Vec<String>, remote: &str) -> (r: bool)
    ensures
        r == remotes.deep_view().contains(remote@),
{
    let rv = str_to_chars(remote);
    let mut i: usize = 0;
    while i < remotes.len()
        invariant
            i <= remotes.len(),
            rv@ == remote@,
            forall|k: int| 0 <= k < i ==> remotes.deep_view()[k] != remote@,
        decreases remotes.len() - i,
    {
        let sv = chars_to_string(&rv);
        if remotes[i] == sv {
            proof {
                assert(remotes.deep_view()[i as int] =~= remotes@[i as int]@);
                assert(remotes.deep_view().contains(remote@));
            }
            return true;
        }
        proof {
            assert(remotes.deep_view()[i as int] =~= remotes@[i as int]@);
        }
        i = i + 1;
    }
    proof {
        if remotes.deep_view().contains(remote@) {
            let k = choose|k: int|
                0 <= k < remotes.deep_view().len() && remotes.deep_view()[k] == remote@;
            assert(remotes.deep_view()[k] == remote@);
        }
    }
    false
}

/// Fetch updates from the given remote.
pub fn fetch_remote(remote: &str) -> (c: Cmd)
    ensures
        c.command@ == "git"@,
        c.workdir is None,
        c.args.deep_view() == seq!["fetch"@, remote@],
{
    let c = Cmd::new("git").arg("fetch").arg(remote);
    proof {
        assert(c.args.deep_view() =~= seq!["fetch"@, remote@]);
    }
    c
}

/// Fetch with pruning, updating remote-tracking refs.
pub fn fetch_prune() -> (c: Cmd)
    ensures
        c.command@ == "git"@,
        c.workdir is None,
        c.args.deep_view() == seq!["fetch"@, "--prune"@],
{
    let c = Cmd::new("git").arg("fetch").arg("--prune");
    proof {
        assert(c.args.deep_view() =~= seq!["fetch"@, "--prune"@]);
    }
    c
}

/// Add a remote under the given name and URL.
pub fn add_remote(name: &str, url: &str) -> (c: Cmd)
    ensures
        c.command@ == "git"@,
        c.workdir is None,
        c.args.deep_view() == seq!["remote"@, "add"@, name@, url@],
{
    let c = Cmd::new("git").arg("remote").arg("add").arg(name).arg(url);
    proof {
        assert(c.args.deep_view() =~= seq!["remote"@, "add"@, name@, url@]);
    }
    c
}

/// Point an existing remote at a new URL.
pub fn set_remote_url(name: &str, url: &str) -> (c: Cmd)
    ensures
        c.command@ == "git"@,
        c.workdir is None,
        c.args.deep_view() == seq!["remote"@, "set-url"@, name@, url@],
{
    let c = Cmd::new("git").arg("remote").arg("set-url").arg(name).arg(url);
    proof {
        assert(c.args.deep_view() =~= seq!["remote"@, "set-url"@, name@, url@]);
    }
    c
}

/// The query for a remote's configured URL. The raw configuration value is
/// read, not the URL after any rewriting rules.
pub fn get_remote_url(remote: &str) -> (c: Cmd)
    ensures
        c.command@ == "git"@,
        c.workdir is None,
        c.args.deep_view() == seq![
            "config"@,
            "--get"@,
            "remote."@ + remote@ + ".url"@,
        ],
{
    let mut key = String::new();
    key.append("remote.");
    key.append(remote);
    key.append(".url");
    let c = Cmd::new("git").arg("config").arg("--get").arg(key.as_str());
    proof {
        assert(c.args.deep_view() =~= seq![
            "config"@,
            "--get"@,
            "remote."@ + remote@ + ".url"@,
        ]);
    }
    c
}

/// What `parse_owner_from_git_url` returns: after `https://` or `http://`,
/// the second slash-separated part; after `git@`, the first slash-separated
/// part after the first colon; nothing otherwise.
pub open spec fn spec_parse_owner(url: Seq<char>) -> Option<Seq<char>> {
    if spec_starts(url, "https://"@) || spec_starts(url, "http://"@) {
        let rest = if spec_starts(url, "https://"@) {
            url.skip("https://"@.len() as int)
        } else {
            url.skip("http://"@.len() as int)
        };
        let parts = spec_split_char(rest, '/');
        if parts.len() > 1 {
            Some(parts[1])
        } else {
            None
        }
    } else if spec_starts(url, "git@"@) {
        let i = spec_find(url, ':');
        if i < 0 {
            None
        } else {
            Some(spec_split_char(url.skip(i + 1), '/')[0])
        }
    } else {
        None
    }
}

/// Shorthand for a prefix test, local to this module's specs.
pub open spec fn spec_starts(s: Seq<char>, p: Seq<char>) -> bool {
    crate::text::spec_starts_with(s, p)
}

/// Parse the repository owner from a git remote URL, in HTTPS or SSH form.
pub fn parse_owner_from_git_url(url: &str) -> (r: Option<String>)
    ensures
        match r {
            Some(o) => spec_parse_owner(url@) matches Some(so) && o@ == so,
            None => spec_parse_owner(url@) is None,
        },
{
    let v = str_to_chars(url);
    let https = crate::text::starts_with(&v, "https://");
    let http = crate::text::starts_with(&v, "http://");
    if https || http {
        let plen = if https {
            "https://".unicode_len()
        } else {
            "http://".unicode_len()
        };
        let rest = crate::text::sub_chars(&v, plen, v.len());
        proof {
            if https {
                assert(rest@ =~= url@.skip("https://"@.len() as int));
            } else {
                assert(rest@ =~= url@.skip("http://"@.len() as int));
            }
        }
        let parts = split_char(&rest, '/');
        if parts.len() > 1 {
            proof {
                assert(parts.deep_view()[1] =~= parts@[1]@);
            }
            Some(chars_to_string(&parts[1]))
        } else {
            None
        }
    } else if crate::text::starts_with(&v, "git@") {
        match crate::text::split_once(&v, ':') {
            None => None,
            Some((_, after)) => {
                let parts = split_char(&after, '/');
                proof {
                    assert(parts.deep_view().len() > 0);
                    assert(parts.deep_view()[0] =~= parts@[0]@);
                }
                Some(chars_to_string(&parts[0]))
            },
        }
    } else {
        None
    }
}

/// The repository owner of the origin remote, read from its URL.
pub fn get_repo_owner(origin_url: &str) -> (r: Result<String, GitError>)
    ensures
        match r {
            Ok(o) => spec_parse_owner(origin_url@) matches Some(so) && o@ == so,
            Err(e) => spec_parse_owner(origin_url@) is None && e == GitError::NoOwner,
        },
{
    match parse_owner_from_git_url(origin_url) {
        Some(o) => Ok(o),
        None => Err(GitError::NoOwner),
    }
}

/// What the plan for a fork remote does once the name is settled.
#[derive(Debug)]
pub enum ForkRemoteAction {
    /// The fork owner owns origin itself: use `origin`, change nothing.
    UseOrigin,
    /// No remote of that name exists: add one with this URL.
    AddRemote(String),
    /// The remote exists with another URL: point it at this URL.
    SetUrl(String),
    /// The remote exists with the right URL already.
    Nothing,
}

/// The plan for the remote tracking a fork.
#[derive(Debug)]
pub struct ForkRemotePlan {
    /// The remote to use, `origin` or `fork-<owner>`.
    pub remote_name: String,
    /// What must happen before the remote can be used.
    pub action: ForkRemoteAction,
}

/// The URL a fork remote is created with: origin's scheme and host (with
/// `ssh` and `github.com` as the fallbacks), the fork owner, and origin's
/// repository name.
pub open spec fn spec_fork_url(
    scheme: Option<Seq<char>>,
    host: Option<Seq<char>>,
    owner: Seq<char>,
    repo: Seq<char>,
) -> Seq<char> {
    let h = match host {
        Some(h) => h,
        None => "github.com"@,
    };
    let s = match scheme {
        Some(s) => s,
        None => "ssh"@,
    };
    if s == "https"@ {
        "https://"@ + h + "/"@ + owner + "/"@ + repo + ".git"@
    } else if s == "http"@ {
        "http://"@ + h + "/"@ + owner + "/"@ + repo + ".git"@
    } else {
        "git@"@ + h + ":"@ + owner + "/"@ + repo + ".git"@
    }
}

/// Plan the remote for a fork owner: when the owner owns origin, origin is
/// used unchanged; otherwise the remote is `fork-<owner>` with a URL built
/// from origin's URL, added when missing and re-pointed when its URL
/// differs. The plan fails exactly when origin's URL must be read but has a
/// shape the URL parser would choke on, or the parse itself fails.
pub fn ensure_fork_remote(
    fork_owner: &str,
    current_owner: Option<&str>,
    origin_url: &str,
    existing_fork_url: Option<&str>,
) -> (r: Result<ForkRemotePlan, GitError>)
    ensures
        ({
            let owner_matches = current_owner matches Some(o) && o@.len() > 0 && o@ == fork_owner@;
            let parse_succeeds = spec_url_parse_safe(origin_url@) && url_parse_ok(origin_url@);
            let fork_url = spec_fork_url(
                url_scheme(origin_url@),
                url_host(origin_url@),
                fork_owner@,
                url_repo(origin_url@),
            );
            match r {
                Ok(p) => {
                    if owner_matches {
                        p.remote_name@ == "origin"@ && p.action is UseOrigin
                    } else {
                        parse_succeeds && p.remote_name@ == "fork-"@ + fork_owner@ && match p.action {
                            ForkRemoteAction::AddRemote(u) => existing_fork_url is None && u@
                                == fork_url,
                            ForkRemoteAction::SetUrl(u) => (existing_fork_url matches Some(cur)
                                && cur@ != fork_url) && u@ == fork_url,
                            ForkRemoteAction::Nothing => existing_fork_url matches Some(cur)
                                && cur@ == fork_url,
                            ForkRemoteAction::UseOrigin => false,
                        }
                    }
                },
                Err(e) => !owner_matches && !parse_succeeds && e == GitError::UrlParse,
            }
        }),
{
    let owner_matches = match current_owner {
        Some(o) => {
            let ov = str_to_chars(o);
            let fv = str_to_chars(fork_owner);
            ov.len() > 0 && eq_str(&fv, o)
        },
        None => false,
    };
    if owner_matches {
        return Ok(ForkRemotePlan { remote_name: "origin".to_owned(), action: ForkRemoteAction::UseOrigin });
    }
    if !url_parse_safe(origin_url) {
        // the parser would panic on this shape; treat it as unparsable
        return Err(GitError::UrlParse);
    }
    let info = match parse_git_url(origin_url) {
        Some(i) => i,
        None => {
            return Err(GitError::UrlParse);
        },
    };
    let mut remote_name = String::new();
    remote_name.append("fork-");
    remote_name.append(fork_owner);
    let host = match info.host {
        Some(h) => h,
        None => "github.com".to_owned(),
    };
    let scheme = match info.scheme {
        Some(s) => s,
        None => "ssh".to_owned(),
    };
    let sv = str_to_chars(scheme.as_str());
    let mut fork_url = String::new();
    if eq_str(&sv, "https") {
        fork_url.append("https://");
        fork_url.append(host.as_str());
        fork_url.append("/");
        fork_url.append(fork_owner);
        fork_url.append("/");
        fork_url.append(info.repo.as_str());
        fork_url.append(".git");
    } else if eq_str(&sv, "http") {
        fork_url.append("http://");
        fork_url.append(host.as_str());
        fork_url.append("/");
        fork_url.append(fork_owner);
        fork_url.append("/");
        fork_url.append(info.repo.as_str());
        fork_url.append(".git");
    } else {
        fork_url.append("git@");
        fork_url.append(host.as_str());
        fork_url.append(":");
        fork_url.append(fork_owner);
        fork_url.append("/");
        fork_url.append(info.repo.as_str());
        fork_url.append(".git");
    }
    proof {
        assert(fork_url@ =~= spec_fork_url(
            url_scheme(origin_url@),
            url_host(origin_url@),
            fork_owner@,
            url_repo(origin_url@),
        ));
    }
    let action = match existing_fork_url {
        Some(cur) => {
            let cv = str_to_chars(cur);
            if !eq_str(&cv, fork_url.as_str()) {
                ForkRemoteAction::SetUrl(fork_url)
            } else {
                ForkRemoteAction::Nothing
            }
        },
        None => ForkRemoteAction::AddRemote(fork_url),
    };
    proof {
        assert(remote_name@ =~= "fork-"@ + fork_owner@);
    }
    Ok(ForkRemotePlan { remote_name, action })
}

} // verus!
