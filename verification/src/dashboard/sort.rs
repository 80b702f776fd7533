//! Sort mode logic for the dashboard agent list.

use vstd::prelude::*;

use crate::state::types::GlobalSettings;
use crate::text::{spec_trim, str_to_chars, trim};

verus! {

/// Available sort modes for the agent list.
#[derive(Debug, Clone, Copy, PartialEq, Eq, Structural)]
pub enum SortMode {
    /// Sort by agent status importance (Waiting over Done over Working over
    /// Stale).
    Priority,
    /// Group agents by project name, then by status within each project.
    Project,
    /// Sort by time since the last status change, newest first.
    Recency,
    /// Natural backend order, by pane id.
    Natural,
}

impl Default for SortMode {
    /// The dashboard starts out sorting by priority.
    fn default() -> (r: Self)
        ensures
            r == SortMode::Priority,
    {
        SortMode::Priority
    }
}

/// `c` lowered to its ASCII lowercase.
pub open spec fn ascii_lower(c: char) -> char {
    if 'A' <= c && c <= 'Z' {
        ((c as u8) + 32) as char
    } else {
        c
    }
}

/// `s` lowered characterwise to ASCII lowercase.
pub open spec fn spec_ascii_lowercase(s: Seq<char>) -> Seq<char> {
    s.map_values(|c: char| ascii_lower(c))
}

/// The sort mode a stored label denotes: the label is trimmed and lowered,
/// unknown labels fall back to priority.
pub open spec fn spec_sort_mode_from_str(s: Seq<char>) -> SortMode {
    let t = spec_ascii_lowercase(spec_trim(s));
    if t == "project"@ {
        SortMode::Project
    } else if t == "recency"@ {
        SortMode::Recency
    } else if t == "natural"@ {
        SortMode::Natural
    } else {
        SortMode::Priority
    }
}

/// Lower the characters of `v` to ASCII lowercase.
fn ascii_lowercase_chars(v: &Vec<char>) -> (r: Vec<char>)
    ensures
        r@ == spec_ascii_lowercase(v@),
{
    let mut r: Vec<char> = Vec::new();
    let mut i: usize = 0;
    while i < v.len()
        invariant
            i <= v.len(),
            r@.len() == i,
            forall|k: int| 0 <= k < i ==> r@[k] == ascii_lower(v@[k]),
        decreases v.len() - i,
    {
        let c = v[i];
        if c >= 'A' && c <= 'Z' {
            let lc = (crate::text::char_code(c) as u8 + 32) as char;
            r.push(lc);
        } else {
            r.push(c);
        }
        i = i + 1;
    }
    proof {
        assert(r@ =~= spec_ascii_lowercase(v@));
    }
    r
}

impl SortMode {
    /// Cycle to the next sort mode.
    pub fn next(self) -> (r: Self)
        ensures
            r == match self {
                SortMode::Priority => SortMode::Project,
                SortMode::Project => SortMode::Recency,
                SortMode::Recency => SortMode::Natural,
                SortMode::Natural => SortMode::Priority,
            },
    {
        match self {
            SortMode::Priority => SortMode::Project,
            SortMode::Project => SortMode::Recency,
            SortMode::Recency => SortMode::Natural,
            SortMode::Natural => SortMode::Priority,
        }
    }

    /// The display name of the sort mode.
    pub fn label(&self) -> (r: &'static str)
        ensures
            r@ == match self {
                SortMode::Priority => "Priority"@,
                SortMode::Project => "Project"@,
                SortMode::Recency => "Recency"@,
                SortMode::Natural => "Natural"@,
            },
    {
        match self {
            SortMode::Priority => "Priority",
            SortMode::Project => "Project",
            SortMode::Recency => "Recency",
            SortMode::Natural => "Natural",
        }
    }

    /// The label the sort mode is stored under.
    pub fn as_str(&self) -> (r: &'static str)
        ensures
            r@ == match self {
                SortMode::Priority => "priority"@,
                SortMode::Project => "project"@,
                SortMode::Recency => "recency"@,
                SortMode::Natural => "natural"@,
            },
    {
        match self {
            SortMode::Priority => "priority",
            SortMode::Project => "project",
            SortMode::Recency => "recency",
            SortMode::Natural => "natural",
        }
    }

    /// Parse a stored label; unknown labels fall back to priority.
    pub fn from_str(s: &str) -> (r: Self)
        ensures
            r == spec_sort_mode_from_str(s@),
    {
        let v = str_to_chars(s);
        let t = trim(&v);
        let low = ascii_lowercase_chars(&t);
        if crate::text::eq_str(&low, "project") {
            SortMode::Project
        } else if crate::text::eq_str(&low, "recency") {
            SortMode::Recency
        } else if crate::text::eq_str(&low, "natural") {
            SortMode::Natural
        } else {
            SortMode::Priority
        }
    }

    /// The sort mode the settings hold.
    pub fn load(settings: &GlobalSettings) -> (r: Self)
        ensures
            r == spec_sort_mode_from_str(settings.sort_mode@),
    {
        Self::from_str(settings.sort_mode.as_str())
    }

    /// Record this sort mode in the settings.
    pub fn save(&self, settings: &mut GlobalSettings)
        ensures
            final(settings).sort_mode@ == match self {
                SortMode::Priority => "priority"@,
                SortMode::Project => "project"@,
                SortMode::Recency => "recency"@,
                SortMode::Natural => "natural"@,
            },
            final(settings).hide_stale == old(settings).hide_stale,
            final(settings).preview_size == old(settings).preview_size,
            crate::cmd::opt_view(final(settings).last_pane_id) == crate::cmd::opt_view(
                old(settings).last_pane_id,
            ),
    {
        settings.sort_mode = self.as_str().to_owned();
    }
}

} // verus!
