//! The listing's formatting: the PR column, rendered from plain pull-request
//! facts and the configured icon set.

use vstd::prelude::*;

use crate::nerdfont::PrIcons;
use crate::text::{eq_str, format_u64, push_char, spec_nat_string, str_to_chars};

verus! {

/// What the listing knows of a pull request: its number, its hosting state
/// label, and whether it is a draft.
pub struct PrSummary {
    /// The pull request number.
    pub number: u64,
    /// The state label the host reports, such as `OPEN`, `MERGED`, `CLOSED`.
    pub state: String,
    /// Whether the pull request is a draft.
    pub is_draft: bool,
}

/// The icon and color of a pull request's state: gray for a draft, green for
/// open, purple for merged, red for closed, green-open for anything else.
pub open spec fn spec_pr_icon_color(
    state: Seq<char>,
    is_draft: bool,
    icons: PrIcons,
) -> (Seq<char>, Seq<char>) {
    if state == "OPEN"@ && is_draft {
        (icons.draft@, "\x1b[90m"@)
    } else if state == "OPEN"@ {
        (icons.open@, "\x1b[32m"@)
    } else if state == "MERGED"@ {
        (icons.merged@, "\x1b[35m"@)
    } else if state == "CLOSED"@ {
        (icons.closed@, "\x1b[31m"@)
    } else {
        (icons.open@, "\x1b[32m"@)
    }
}

/// The PR column text: `#<number> <color><icon><reset>`, or a dash when no
/// pull request is known.
pub open spec fn spec_format_pr_status(
    pr: Option<(int, Seq<char>, bool)>,
    icons: PrIcons,
) -> Seq<char> {
    match pr {
        Some(p) => {
            let ic = spec_pr_icon_color(p.1, p.2, icons);
            "#"@ + spec_nat_string(p.0) + " "@ + ic.1 + ic.0 + "\x1b[0m"@
        },
        None => "-"@,
    }
}

/// Render the PR column for the listing.
pub fn format_pr_status(pr: Option<&PrSummary>, icons: &PrIcons) -> (r: String)
    ensures
        r@ == spec_format_pr_status(
            match pr {
                Some(p) => Some((p.number as int, p.state@, p.is_draft)),
                None => None,
            },
            *icons,
        ),
{
    let pr = match pr {
        Some(p) => p,
        None => {
            return "-".to_owned();
        },
    };
    let sv = str_to_chars(pr.state.as_str());
    let (icon, color): (&str, &str) = if eq_str(&sv, "OPEN") && pr.is_draft {
        (icons.draft, "\x1b[90m")
    } else if eq_str(&sv, "OPEN") {
        (icons.open, "\x1b[32m")
    } else if eq_str(&sv, "MERGED") {
        (icons.merged, "\x1b[35m")
    } else if eq_str(&sv, "CLOSED") {
        (icons.closed, "\x1b[31m")
    } else {
        (icons.open, "\x1b[32m")
    };
    let mut s = String::new();
    push_char(&mut s, '#');
    let num = format_u64(pr.number);
    s.append(num.as_str());
    push_char(&mut s, ' ');
    s.append(color);
    s.append(icon);
    s.append("\x1b[0m");
    proof {
        reveal_strlit("#");
        reveal_strlit(" ");
        assert(s@ =~= spec_format_pr_status(
            Some((pr.number as int, pr.state@, pr.is_draft)),
            *icons,
        ));
    }
    s
}

} // verus!
