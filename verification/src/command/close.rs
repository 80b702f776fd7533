//! The close command's decisions: which window to close, and whether the
//! kill must be deferred because it would cut the ground from under the
//! command itself.

use vstd::prelude::*;

use crate::text::{spec_starts_with, starts_with, str_to_chars};

verus! {

/// How the window is to be closed.
pub enum CloseAction {
    /// The command runs inside the window: schedule the kill with a small
    /// delay, so the command returns cleanly first.
    Schedule {
        /// The full window name.
        window: String,
        /// The delay before the kill, in milliseconds.
        delay_ms: u64,
    },
    /// Kill the window at once.
    Kill {
        /// The full window name.
        window: String,
    },
}

/// The window to close and whether the command stands inside it: an explicit
/// handle names `prefix + handle` and is current when the current window
/// matches; without a handle, a current window carrying the prefix is itself
/// the target, and otherwise the directory-derived handle names it.
pub fn resolve_close_target(
    explicit_handle: Option<&str>,
    current_window: Option<&str>,
    prefix: &str,
    dir_handle: &str,
) -> (r: (String, bool))
    ensures
        match explicit_handle {
            Some(h) => r.0@ == prefix@ + h@ && r.1 == (current_window matches Some(c) && c@ == r.0@),
            None => match current_window {
                Some(c) => {
                    if spec_starts_with(c@, prefix@) {
                        r.0@ == c@ && r.1 == true
                    } else {
                        r.0@ == prefix@ + dir_handle@ && r.1 == false
                    }
                },
                None => r.0@ == prefix@ + dir_handle@ && r.1 == false,
            },
        },
{
    match explicit_handle {
        Some(h) => {
            let full = crate::tmux::prefixed(prefix, h);
            let is_current = match current_window {
                Some(c) => {
                    let cv = str_to_chars(c);
                    crate::text::eq_str(&cv, full.as_str())
                },
                None => false,
            };
            (full, is_current)
        },
        None => {
            match current_window {
                Some(c) => {
                    let cv = str_to_chars(c);
                    if starts_with(&cv, prefix) {
                        (c.to_owned(), true)
                    } else {
                        (crate::tmux::prefixed(prefix, dir_handle), false)
                    }
                },
                None => (crate::tmux::prefixed(prefix, dir_handle), false),
            }
        },
    }
}

/// Close a window: from inside it, a deferred kill after a hundred
/// milliseconds; from anywhere else, an immediate kill.
pub fn run(full_window_name: String, is_current_window: bool) -> (r: CloseAction)
    ensures
        is_current_window ==> (r matches CloseAction::Schedule { window, delay_ms } && window@
            == full_window_name@ && delay_ms == 100),
        !is_current_window ==> (r matches CloseAction::Kill { window } && window@
            == full_window_name@),
{
    if is_current_window {
        CloseAction::Schedule { window: full_window_name, delay_ms: 100 }
    } else {
        CloseAction::Kill { window: full_window_name }
    }
}

} // verus!
