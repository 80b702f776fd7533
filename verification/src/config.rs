//! The slice of the configuration the verified logic reads.

use vstd::prelude::*;

verus! {

/// The status icons a configuration may override.
pub struct StatusIcons {
    /// Icon for a working agent, when configured.
    pub working: Option<String>,
    /// Icon for a waiting agent, when configured.
    pub waiting: Option<String>,
    /// Icon for a finished agent, when configured.
    pub done: Option<String>,
}

/// The configuration fields the library's decisions read.
pub struct Config {
    /// The user's explicit nerdfont choice, when made.
    pub nerdfont: Option<bool>,
    /// Configured status icons.
    pub status_icons: StatusIcons,
    /// The prefix of windows the orchestrator creates, when configured.
    pub window_prefix: Option<String>,
    /// The prefix of worktree directories, when configured.
    pub worktree_prefix: Option<String>,
}

} // verus!
