//! The capability interface onto a terminal multiplexer, and the plain data
//! the dashboard reads from it.
//!
//! Only the operations the verified logic consumes are declared here; a
//! concrete driver (for tmux, or another backend honoring the same contract)
//! lives with the binary and implements this trait by running the
//! multiplexer's command-line protocol.

use vstd::prelude::*;

verus! {

/// The status an agent last advertised.
#[derive(Clone, Copy, Debug, PartialEq, Eq, Structural)]
pub enum AgentStatus {
    /// The agent is processing.
    Working,
    /// The agent needs user input.
    Waiting,
    /// The agent finished.
    Done,
}

/// A live agent pane, as the dashboard displays it.
pub struct AgentPane {
    /// The session holding the pane.
    pub session: String,
    /// The window holding the pane.
    pub window_name: String,
    /// The pane id.
    pub pane_id: String,
    /// The agent's working directory.
    pub path: String,
    /// The pane title, when one is set.
    pub pane_title: Option<String>,
    /// The last advertised status, when any.
    pub status: Option<AgentStatus>,
    /// When that status was set.
    pub status_ts: Option<u64>,
}

/// What the multiplexer reports about a live pane.
pub struct LivePaneInfo {
    /// The pane's shell process id.
    pub pid: u32,
    /// The pane's working directory.
    pub working_dir: String,
    /// The pane title, when one is set.
    pub title: Option<String>,
    /// The foreground command name.
    pub current_command: String,
    /// The session holding the pane, when known.
    pub session: Option<String>,
    /// The window holding the pane, when known.
    pub window: Option<String>,
}

/// The multiplexer capability interface. What a driver returns depends on the
/// live multiplexer, so nothing is promised of the results; the verified
/// logic states what it does with every possible answer.
pub trait Multiplexer {
    /// The backend label, such as `tmux`.
    fn name(&self) -> String;

    /// A stable identifier of the running instance, such as a socket path.
    fn instance_id(&self) -> String;

    /// What the multiplexer knows of the pane with this id, or nothing when
    /// the pane is gone; an error when the multiplexer cannot be asked.
    fn get_live_pane_info(&self, pane_id: &str) -> Result<Option<LivePaneInfo>, String>;
}

} // verus!
