//! The last-agent toggle: switch to the previously visited agent pane, and
//! record the pane left behind when it too is an agent, so non-agent panes
//! never pollute the toggle history.

use vstd::prelude::*;

use crate::multiplexer::AgentPane;
use crate::text::{chars_to_string, eq_str, str_to_chars};

verus! {

/// What the last-agent command does.
pub enum LastAgentAction {
    /// No previous agent is recorded.
    NoPrevious,
    /// The recorded pane is no longer an agent.
    TargetGone,
    /// The recorded pane is the active one already; switching would lose the
    /// history.
    AlreadyThere,
    /// Switch to `target`; after a successful switch, record `record` (the
    /// pane left behind, kept only when it is an agent itself).
    Switch {
        /// The pane id to switch to.
        target: String,
        /// The pane id to store as the new last agent, when any.
        record: Option<String>,
    },
}

/// Whether `id` is the pane id of one of the agents.
pub open spec fn is_agent_pane(agents: Seq<AgentPane>, id: Seq<char>) -> bool {
    exists|k: int| 0 <= k < agents.len() && #[trigger] agents[k].pane_id@ == id
}

/// Whether `id` names one of the agent panes.
fn find_agent(agents: &Vec<AgentPane>, id: &str) -> (r: bool)
    ensures
        r == is_agent_pane(agents@, id@),
{
    let idv = str_to_chars(id);
    let mut i: usize = 0;
    while i < agents.len()
        invariant
            i <= agents.len(),
            idv@ == id@,
            forall|k: int| 0 <= k < i ==> #[trigger] agents@[k].pane_id@ != id@,
        decreases agents.len() - i,
    {
        if eq_str(&idv, agents[i].pane_id.as_str()) {
            proof {
                assert(agents@[i as int].pane_id@ == id@);
            }
            return true;
        }
        i = i + 1;
    }
    false
}

/// Decide the last-agent toggle: nothing recorded means nothing to do; a
/// recorded pane that is no longer an agent is reported gone; the active
/// pane is never switched to; otherwise switch, recording the pane left
/// behind exactly when it is an agent too.
pub fn run(
    last_pane_id: Option<&str>,
    agents: &Vec<AgentPane>,
    current_pane: Option<&str>,
) -> (r: LastAgentAction)
    ensures
        match last_pane_id {
            None => r is NoPrevious,
            Some(target) => {
                if !is_agent_pane(agents@, target@) {
                    r is TargetGone
                } else if current_pane matches Some(c) && c@ == target@ {
                    r is AlreadyThere
                } else {
                    r matches LastAgentAction::Switch { target: t, record } && t@ == target@
                        && match current_pane {
                        Some(c) => {
                            if is_agent_pane(agents@, c@) {
                                record matches Some(rc) && rc@ == c@
                            } else {
                                record is None
                            }
                        },
                        None => record is None,
                    }
                }
            },
        },
{
    let target = match last_pane_id {
        Some(t) => t,
        None => {
            return LastAgentAction::NoPrevious;
        },
    };
    if !find_agent(agents, target) {
        return LastAgentAction::TargetGone;
    }
    let tv = str_to_chars(target);
    if let Some(c) = current_pane {
        let cv = str_to_chars(c);
        if eq_str(&cv, target) {
            return LastAgentAction::AlreadyThere;
        }
    }
    let record = match current_pane {
        Some(c) => {
            if find_agent(agents, c) {
                Some(c.to_owned())
            } else {
                None
            }
        },
        None => None,
    };
    LastAgentAction::Switch { target: target.to_owned(), record }
}

} // verus!
