//! The set-window-status command's core: what one status update does to the
//! agent store and to the multiplexer's status display.

use vstd::prelude::*;

use crate::multiplexer::{AgentStatus, LivePaneInfo};
use crate::state::types::{AgentState, PaneKey};

verus! {

/// The status subcommands.
#[derive(Debug, Clone, Copy, PartialEq, Eq, Structural)]
pub enum SetWindowStatusCommand {
    /// The agent is processing.
    Working,
    /// The agent needs user input.
    Waiting,
    /// The agent finished.
    Done,
    /// Clear the status.
    Clear,
}

/// The agent status a subcommand sets, when it sets one.
pub open spec fn status_of_command(cmd: SetWindowStatusCommand) -> Option<AgentStatus> {
    match cmd {
        SetWindowStatusCommand::Working => Some(AgentStatus::Working),
        SetWindowStatusCommand::Waiting => Some(AgentStatus::Waiting),
        SetWindowStatusCommand::Done => Some(AgentStatus::Done),
        SetWindowStatusCommand::Clear => None,
    }
}

/// What a status update does: nothing outside a multiplexer; on clear,
/// delete the record and clear the display; on a status, persist the record
/// built from the live pane (when the pane could be read) and show the icon.
pub enum StatusAction {
    /// Delete the stored record for this key and clear the display.
    Clear {
        /// The record to delete.
        key: PaneKey,
    },
    /// Persist `state` when present, and show `icon` on the pane.
    Update {
        /// The record to write, when the live pane could be read.
        state: Option<AgentState>,
        /// The icon to show.
        icon: String,
    },
}

/// Decide one status update. A missing pane id means the command runs
/// outside a multiplexer and does nothing, silently. Clear deletes the
/// record for the pane's key. A status update builds the record from the
/// live pane — its shell pid and foreground command guard later
/// reconciliation — timestamped with `now`, and always updates the display.
pub fn run(
    cmd: SetWindowStatusCommand,
    backend: &str,
    instance: &str,
    pane_id: Option<&str>,
    live: Option<LivePaneInfo>,
    icon: &str,
    now: u64,
) -> (r: Option<StatusAction>)
    ensures
        match pane_id {
            None => r is None,
            Some(pid) => match r {
                Some(StatusAction::Clear { key }) => {
                    &&& cmd is Clear
                    &&& key.backend@ == backend@
                    &&& key.instance@ == instance@
                    &&& key.pane_id@ == pid@
                },
                Some(StatusAction::Update { state, icon: i }) => {
                    &&& !(cmd is Clear)
                    &&& i@ == icon@
                    &&& match (state, live) {
                        (Some(st), Some(l)) => {
                            &&& st.pane_key.backend@ == backend@
                            &&& st.pane_key.instance@ == instance@
                            &&& st.pane_key.pane_id@ == pid@
                            &&& st.workdir@ == l.working_dir@
                            &&& st.status == status_of_command(cmd)
                            &&& st.status_ts == Some(now)
                            &&& crate::cmd::opt_view(st.pane_title) == crate::cmd::opt_view(
                                l.title,
                            )
                            &&& st.pane_pid == l.pid
                            &&& st.command@ == l.current_command@
                            &&& st.updated_ts == now
                        },
                        (None, None) => true,
                        _ => false,
                    }
                },
                None => false,
            },
        },
{
    let pid = match pane_id {
        Some(p) => p,
        None => {
            return None;
        },
    };
    let key = PaneKey {
        backend: backend.to_owned(),
        instance: instance.to_owned(),
        pane_id: pid.to_owned(),
    };
    match cmd {
        SetWindowStatusCommand::Clear => Some(StatusAction::Clear { key }),
        _ => {
            let status = match cmd {
                SetWindowStatusCommand::Working => Some(AgentStatus::Working),
                SetWindowStatusCommand::Waiting => Some(AgentStatus::Waiting),
                _ => Some(AgentStatus::Done),
            };
            let state = match live {
                Some(l) => Some(
                    AgentState {
                        pane_key: key,
                        workdir: l.working_dir,
                        status,
                        status_ts: Some(now),
                        pane_title: l.title,
                        pane_pid: l.pid,
                        command: l.current_command,
                        updated_ts: now,
                    },
                ),
                None => None,
            };
            Some(StatusAction::Update { state, icon: icon.to_owned() })
        },
    }
}

} // verus!
