//! What the URL parser reports about the origin remote's URL. The parsing
//! itself is an outside crate's work; its results are functions of the URL
//! string alone, named below.
//!
//! The parser panics on one family of inputs: a URL whose scheme contains
//! `ssh` but whose remainder its authority/path grammar rejects leaves an
//! empty path that the parser then slices past its end. Two grammar rules can
//! reject the remainder: the path is missing, or a userinfo run carrying a
//! colon fails the user:token split (an empty user or an empty token). The
//! wrapper therefore requires a syntactic safe-set that provably avoids both,
//! and the verified caller tests the shape first.

use vstd::prelude::*;

use crate::cmd::opt_view;
use crate::text::{
    find_char_from, find_sub_from, lemma_find_characterize, spec_contains_sub, spec_find,
    spec_find_sub, str_to_chars, sub_chars,
};

verus! {

/// The scheme the URL parser reads from a git URL, when it finds one.
pub uninterp spec fn url_scheme(s: Seq<char>) -> Option<Seq<char>>;

/// The host the URL parser reads from a git URL, when it finds one.
pub uninterp spec fn url_host(s: Seq<char>) -> Option<Seq<char>>;

/// The repository name the URL parser's provider reads from a git URL.
pub uninterp spec fn url_repo(s: Seq<char>) -> Seq<char>;

/// Whether the URL parser succeeds on a git URL — both the parse itself and
/// the provider's owner/repo split, made together in the one wrapper below;
/// both are deterministic, functions of the string alone.
pub uninterp spec fn url_parse_ok(s: Seq<char>) -> bool;

/// A character the URL grammar's authority and path classes accept, in ASCII:
/// alphanumerics, `- . _ ~`, the sub-delimiters, and `: @`. Backslash and
/// slash stay out.
pub open spec fn uri_authority_char(c: char) -> bool {
    ||| (48 <= c as int && c as int <= 57)
    ||| (65 <= c as int && c as int <= 90)
    ||| (97 <= c as int && c as int <= 122)
    ||| c == '-' || c == '.' || c == '_' || c == '~' || c == ':' || c == '@'
    ||| c == '!' || c == '$' || c == '&' || c == '\'' || c == '(' || c == ')'
    ||| c == '*' || c == '+' || c == ',' || c == ';' || c == '='
}

/// Whether a userinfo run (the text before the first `@`) passes the
/// parser's user:token split: either no colon occurs, or the first colon has
/// a nonempty run before it and a non-colon character right after it.
pub open spec fn ssh_userinfo_ok(u: Seq<char>) -> bool {
    let c = spec_find(u, ':');
    c < 0 || (0 < c && c + 1 < u.len() && u[c + 1] != ':')
}

/// The shape after an ssh scheme that the parser's grammar is known to
/// accept: a slash occurs, everything before the first slash is drawn from
/// the authority character class, and a userinfo run before that slash, if
/// any, passes the user:token split. Any userinfo, host and port parse is
/// then confined before that slash and a path parser consumes from it, so
/// the path comes out nonempty and ASCII-fronted.
pub open spec fn ssh_remainder_ok(r: Seq<char>) -> bool {
    let j = spec_find(r, '/');
    &&& 0 <= j < r.len()
    &&& (forall|k: int| 0 <= k < j ==> uri_authority_char(#[trigger] r[k]))
    &&& ({
        let a = spec_find(r.take(j), '@');
        a < 0 || ssh_userinfo_ok(r.take(a))
    })
}

/// The inputs on which the URL parser is known not to panic: either no
/// `://` occurs (no scheme, so no ssh path adjustment on an empty path), or
/// the candidate scheme before the first `://` does not contain `ssh`, or
/// the remainder has the accepted authority-then-path shape.
pub open spec fn spec_url_parse_safe(s: Seq<char>) -> bool {
    let i = spec_find_sub(s, "://"@);
    ||| i < 0
    ||| !spec_contains_sub(s.take(i), "ssh"@)
    ||| (i + 3 <= s.len() && ssh_remainder_ok(s.skip(i + 3)))
}

/// Executable test for an authority-class character.
fn is_uri_authority_char(c: char) -> (r: bool)
    ensures
        r == uri_authority_char(c),
{
    (c >= '0' && c <= '9') || (c >= 'A' && c <= 'Z') || (c >= 'a' && c <= 'z') || c == '-'
        || c == '.' || c == '_' || c == '~' || c == ':' || c == '@' || c == '!' || c == '$'
        || c == '&' || c == '\'' || c == '(' || c == ')' || c == '*' || c == '+' || c == ','
        || c == ';' || c == '='
}

/// Whether the URL parser can safely be asked about `url`.
pub fn url_parse_safe(url: &str) -> (r: bool)
    ensures
        r == spec_url_parse_safe(url@),
{
    let v = str_to_chars(url);
    proof {
        assert(v@.skip(0) =~= v@);
        reveal_strlit("://");
    }
    let i = match find_sub_from(&v, "://", 0) {
        Some(i) => i,
        None => {
            return true;
        },
    };
    let scheme_part = sub_chars(&v, 0, i);
    proof {
        assert(scheme_part@ =~= v@.take(i as int));
    }
    if !crate::text::contains_sub(&scheme_part, "ssh") {
        return true;
    }
    if v.len() - i < 3 {
        return false;
    }
    let rest = sub_chars(&v, i + 3, v.len());
    proof {
        assert(rest@ =~= v@.skip(i + 3));
    }
    let j = match find_char_from(&rest, '/', 0) {
        Some(j) => j,
        None => {
            proof {
                assert(rest@.skip(0) =~= rest@);
            }
            return false;
        },
    };
    proof {
        assert(rest@.skip(0) =~= rest@);
    }
    let mut k: usize = 0;
    while k < j
        invariant
            k <= j < rest@.len(),
            0 <= spec_find_sub(url@, "://"@),
            spec_find_sub(url@, "://"@) + 3 <= url@.len(),
            spec_contains_sub(url@.take(spec_find_sub(url@, "://"@)), "ssh"@),
            rest@ == url@.skip(spec_find_sub(url@, "://"@) + 3),
            spec_find(rest@, '/') == j,
            forall|m: int| 0 <= m < k ==> uri_authority_char(#[trigger] rest@[m]),
        decreases j - k,
    {
        if !is_uri_authority_char(rest[k]) {
            return false;
        }
        k = k + 1;
    }
    // the userinfo run before the first slash, when any, must pass the
    // parser's user:token split
    let ghost pre = rest@.take(j as int);
    let a = match find_char_from(&rest, '@', 0) {
        Some(a) => {
            if a >= j {
                proof {
                    lemma_find_characterize(rest@, '@');
                    lemma_find_characterize(pre, '@');
                    assert forall|m: int| 0 <= m < pre.len() implies pre[m] != '@' by {
                        assert(pre[m] == rest@[m]);
                    }
                }
                return true;
            }
            proof {
                lemma_find_characterize(rest@, '@');
                lemma_find_characterize(pre, '@');
                assert(pre[a as int] == rest@[a as int]);
                assert forall|m: int| 0 <= m < a implies pre[m] != '@' by {
                    assert(pre[m] == rest@[m]);
                }
                if spec_find(pre, '@') < a as int {
                    assert(pre[spec_find(pre, '@')] != '@');
                }
                if spec_find(pre, '@') > a as int || spec_find(pre, '@') == -1 {
                    assert(pre[a as int] != '@');
                }
            }
            a
        },
        None => {
            proof {
                lemma_find_characterize(rest@, '@');
                lemma_find_characterize(pre, '@');
                assert forall|m: int| 0 <= m < pre.len() implies pre[m] != '@' by {
                    assert(pre[m] == rest@[m]);
                }
            }
            return true;
        },
    };
    let ghost u = rest@.take(a as int);
    let c = match find_char_from(&rest, ':', 0) {
        Some(c) => {
            if c >= a {
                proof {
                    lemma_find_characterize(rest@, ':');
                    lemma_find_characterize(u, ':');
                    assert forall|m: int| 0 <= m < u.len() implies u[m] != ':' by {
                        assert(u[m] == rest@[m]);
                    }
                }
                return true;
            }
            proof {
                lemma_find_characterize(rest@, ':');
                lemma_find_characterize(u, ':');
                assert(u[c as int] == rest@[c as int]);
                assert forall|m: int| 0 <= m < c implies u[m] != ':' by {
                    assert(u[m] == rest@[m]);
                }
                if spec_find(u, ':') < c as int {
                    assert(u[spec_find(u, ':')] != ':');
                }
                if spec_find(u, ':') > c as int || spec_find(u, ':') == -1 {
                    assert(u[c as int] != ':');
                }
            }
            c
        },
        None => {
            proof {
                lemma_find_characterize(rest@, ':');
                lemma_find_characterize(u, ':');
                assert forall|m: int| 0 <= m < u.len() implies u[m] != ':' by {
                    assert(u[m] == rest@[m]);
                }
            }
            return true;
        },
    };
    if c > 0 && c + 1 < a && rest[c + 1] != ':' {
        proof {
            assert(u[c + 1] == rest@[c + 1]);
        }
        true
    } else {
        false
    }
}

/// The components of a parsed git URL.
pub struct UrlInfo {
    /// The scheme, such as `https` or `ssh`, when present.
    pub scheme: Option<String>,
    /// The host, when present.
    pub host: Option<String>,
    /// The repository name, without its owner.
    pub repo: String,
}

/// Relies on git_url_parse's `GitUrl::parse`, its `scheme` and `host`
/// accessors, and `GenericProvider::repo`: on success they expose the URL's
/// components, which depend on the URL string alone. The `requires` keeps out
/// the inputs the parser is known to panic on: an ssh scheme whose remainder
/// its grammar rejects, by a missing path or by a colon-malformed userinfo.
#[verifier::external_body]
pub(crate) fn parse_git_url(url: &str) -> (r: Option<UrlInfo>)
    requires
        spec_url_parse_safe(url@),
    ensures
        r is Some <==> url_parse_ok(url@),
        r matches Some(info) ==> {
            &&& opt_view(info.scheme) == url_scheme(url@)
            &&& opt_view(info.host) == url_host(url@)
            &&& info.repo@ == url_repo(url@)
        },
{
    let parsed = git_url_parse::GitUrl::parse(url).ok()?;
    let provider: git_url_parse::types::provider::GenericProvider = parsed.provider_info().ok()?;
    Some(UrlInfo {
        scheme: parsed.scheme().map(|s| s.to_string()),
        host: parsed.host().map(|s| s.to_string()),
        repo: provider.repo().to_string(),
    })
}

} // verus!
