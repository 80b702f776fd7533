//! Nerdfont detection and icon selection: whether configured text carries
//! private-use-area glyphs, and the icon sets used with and without a
//! nerdfont.

use vstd::prelude::*;

use crate::config::Config;
use crate::text::str_to_chars;

verus! {

/// Icons for PR status display.
pub struct PrIcons {
    /// A draft pull request.
    pub draft: &'static str,
    /// An open pull request.
    pub open: &'static str,
    /// A merged pull request.
    pub merged: &'static str,
    /// A closed pull request.
    pub closed: &'static str,
}

/// Icons for git status display.
pub struct GitIcons {
    /// Uncommitted or committed changes.
    pub diff: &'static str,
    /// A conflict against the base.
    pub conflict: &'static str,
}

/// Whether the nerdfont icons are used, from the explicit configuration when
/// present, else from whether the configuration itself carries private-use
/// glyphs.
pub fn init(config_nerdfont: Option<bool>, config_has_pua: bool) -> (r: bool)
    ensures
        r == match config_nerdfont {
            Some(b) => b,
            None => config_has_pua,
        },
{
    match config_nerdfont {
        Some(b) => b,
        None => config_has_pua,
    }
}

/// The PR status icons for the given nerdfont setting.
pub fn pr_icons(enabled: bool) -> (r: PrIcons)
    ensures
        enabled ==> r.draft@ == "\u{f177}"@ && r.open@ == "\u{f407}"@ && r.merged@ == "\u{f419}"@
            && r.closed@ == "\u{f406}"@,
        !enabled ==> r.draft@ == "\u{25cb}"@ && r.open@ == "\u{25cf}"@ && r.merged@ == "\u{25c6}"@
            && r.closed@ == "\u{d7}"@,
{
    if enabled {
        PrIcons { draft: "\u{f177}", open: "\u{f407}", merged: "\u{f419}", closed: "\u{f406}" }
    } else {
        PrIcons { draft: "\u{25cb}", open: "\u{25cf}", merged: "\u{25c6}", closed: "\u{d7}" }
    }
}

/// The git status icons for the given nerdfont setting.
pub fn git_icons(enabled: bool) -> (r: GitIcons)
    ensures
        enabled ==> r.diff@ == "\u{f03eb}"@ && r.conflict@ == "\u{f002a}"@,
        !enabled ==> r.diff@ == "*"@ && r.conflict@ == "!"@,
{
    if enabled {
        GitIcons { diff: "\u{f03eb}", conflict: "\u{f002a}" }
    } else {
        GitIcons { diff: "*", conflict: "!" }
    }
}

/// Whether `c` lies in a private use area: the Basic Multilingual Plane PUA
/// or the supplementary PUA-A.
pub open spec fn is_pua(c: char) -> bool {
    (0xE000 <= c as int && c as int <= 0xF8FF) || (0xF0000 <= c as int && c as int <= 0xFFFFF)
}

/// Whether `s` holds a private-use-area character.
pub open spec fn spec_contains_pua(s: Seq<char>) -> bool {
    exists|k: int| 0 <= k < s.len() && is_pua(#[trigger] s[k])
}

/// Check a string for private-use-area characters, the sign of configured
/// nerdfont glyphs.
pub fn contains_pua(s: &str) -> (r: bool)
    ensures
        r == spec_contains_pua(s@),
{
    let v = str_to_chars(s);
    let mut i: usize = 0;
    while i < v.len()
        invariant
            i <= v.len(),
            v@ == s@,
            forall|k: int| 0 <= k < i ==> !is_pua(#[trigger] s@[k]),
        decreases v.len() - i,
    {
        let c = v[i];
        if (c >= '\u{E000}' && c <= '\u{F8FF}') || (c >= '\u{F0000}' && c <= '\u{FFFFF}') {
            proof {
                assert(is_pua(s@[i as int]));
            }
            return true;
        }
        i = i + 1;
    }
    false
}

/// Whether an optional configured string holds a private-use glyph.
pub open spec fn opt_has_pua(o: Option<String>) -> bool {
    match o {
        Some(s) => spec_contains_pua(s@),
        None => false,
    }
}

/// Check one optional configured string.
fn opt_contains_pua(o: &Option<String>) -> (r: bool)
    ensures
        r == opt_has_pua(*o),
{
    match o {
        Some(s) => contains_pua(s.as_str()),
        None => false,
    }
}

/// Whether the configuration carries private-use glyphs in any of its icon
/// or prefix strings, the sign that the user already relies on a nerdfont.
pub fn config_has_pua(config: &Config) -> (r: bool)
    ensures
        r == (opt_has_pua(config.status_icons.working) || opt_has_pua(config.status_icons.waiting)
            || opt_has_pua(config.status_icons.done) || opt_has_pua(config.window_prefix)
            || opt_has_pua(config.worktree_prefix)),
{
    opt_contains_pua(&config.status_icons.working) || opt_contains_pua(&config.status_icons.waiting)
        || opt_contains_pua(&config.status_icons.done) || opt_contains_pua(&config.window_prefix)
        || opt_contains_pua(&config.worktree_prefix)
}

/// The nerdfont decision from the configuration alone: the explicit choice
/// when made, assumed on when the configuration carries private-use glyphs,
/// and otherwise undecided — the caller then asks the user.
pub fn check_and_prompt(config: &Config) -> (r: Option<bool>)
    ensures
        config.nerdfont matches Some(b) ==> r == Some(b),
        config.nerdfont is None && (opt_has_pua(config.status_icons.working) || opt_has_pua(
            config.status_icons.waiting,
        ) || opt_has_pua(config.status_icons.done) || opt_has_pua(config.window_prefix)
            || opt_has_pua(config.worktree_prefix)) ==> r == Some(true),
        config.nerdfont is None && !(opt_has_pua(config.status_icons.working) || opt_has_pua(
            config.status_icons.waiting,
        ) || opt_has_pua(config.status_icons.done) || opt_has_pua(config.window_prefix)
            || opt_has_pua(config.worktree_prefix)) ==> r is None,
{
    if let Some(enabled) = config.nerdfont {
        return Some(enabled);
    }
    if config_has_pua(config) {
        return Some(true);
    }
    None
}

} // verus!
