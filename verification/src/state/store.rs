//! The state store: the paths of the files it keeps, and reconciliation of
//! stored agent records against the live multiplexer.
//!
//! Reading and writing the files themselves is I/O and happens outside the
//! library; the store computes paths, and decides for every stored record
//! whether it is still live.

use vstd::prelude::*;

use crate::multiplexer::{AgentPane, LivePaneInfo, Multiplexer};
use crate::state::types::{spec_to_filename, AgentState, PaneKey};

verus! {

/// Manages filesystem-based state persistence: a settings file and one JSON
/// file per agent under `agents/`, both below the base path.
pub struct StateStore {
    base_path: String,
}

impl View for StateStore {
    type V = Seq<char>;

    closed spec fn view(&self) -> Seq<char> {
        self.base_path@
    }
}

/// Whether no two stored records share a pane key. The store guarantees this:
/// it keeps exactly one file per key, and the filename determines the key.
pub open spec fn distinct_pane_keys(stored: Seq<AgentState>) -> bool {
    forall|i: int, j: int|
        0 <= i < j < stored.len() ==> !(#[trigger] stored[i].pane_key.backend@
            == #[trigger] stored[j].pane_key.backend@ && stored[i].pane_key.instance@
            == stored[j].pane_key.instance@ && stored[i].pane_key.pane_id@
            == stored[j].pane_key.pane_id@)
}

/// Whether `id` is the pane id of one of the stored records.
pub open spec fn pane_id_from_stored(stored: Seq<AgentState>, id: Seq<char>) -> bool {
    exists|i: int| 0 <= i < stored.len() && id == #[trigger] stored[i].pane_key.pane_id@
}

/// Whether a stored record belongs to the given backend and instance.
pub open spec fn matches_instance(st: AgentState, backend: Seq<char>, instance: Seq<char>) -> bool {
    st.pane_key.backend@ == backend && st.pane_key.instance@ == instance
}

/// Whether a kept pane stems from this stored record: the record matches the
/// instance and the pane carries the record's pane id, working directory,
/// status, timestamp and title.
pub open spec fn kept_from(
    pane: AgentPane,
    st: AgentState,
    backend: Seq<char>,
    instance: Seq<char>,
) -> bool {
    &&& matches_instance(st, backend, instance)
    &&& pane.pane_id@ == st.pane_key.pane_id@
    &&& pane.path@ == st.workdir@
    &&& pane.status == st.status
    &&& pane.status_ts == st.status_ts
    &&& crate::cmd::opt_view(pane.pane_title) == crate::cmd::opt_view(st.pane_title)
}

/// Whether an eviction entry is the key of this stored record, which matches
/// the instance.
pub open spec fn evicted_key(
    key: PaneKey,
    st: AgentState,
    backend: Seq<char>,
    instance: Seq<char>,
) -> bool {
    matches_instance(st, backend, instance) && key@ == st.pane_key@
}

/// Whether a kept pane stems from one of the stored records.
pub open spec fn stems_from_stored(
    pane: AgentPane,
    stored: Seq<AgentState>,
    backend: Seq<char>,
    instance: Seq<char>,
) -> bool {
    exists|i: int| 0 <= i < stored.len() && kept_from(pane, #[trigger] stored[i], backend, instance)
}

/// Whether an eviction entry is the key of one of the stored records.
pub open spec fn key_of_stored(
    key: PaneKey,
    stored: Seq<AgentState>,
    backend: Seq<char>,
    instance: Seq<char>,
) -> bool {
    exists|i: int|
        0 <= i < stored.len() && evicted_key(key, #[trigger] stored[i], backend, instance)
}

/// Whether a stored record landed in one of reconciliation's lists.
pub open spec fn appears(st: AgentState, kept: Seq<AgentPane>, evict: Seq<PaneKey>) -> bool {
    ||| exists|a: int|
        0 <= a < kept.len() && #[trigger] kept[a].pane_id@ == st.pane_key.pane_id@
    ||| exists|b: int| 0 <= b < evict.len() && #[trigger] evict[b]@ == st.pane_key@
}

/// What reconciliation does with one stored record, given what the
/// multiplexer reports about its pane.
#[derive(Debug, Clone, Copy, PartialEq, Eq, Structural)]
pub enum ReconcileAction {
    /// The record is out of date: the pane is gone, its id was recycled by
    /// another process, or the agent's command ended. Delete the record.
    Evict,
    /// The record still describes a live agent. Keep it.
    Keep,
}

/// The decision for one record: evict when the pane is gone, when the live
/// shell pid differs from the stored one, or when the foreground command
/// changed; keep otherwise.
pub open spec fn spec_reconcile_decision(stored: AgentState, live: Option<LivePaneInfo>) -> ReconcileAction {
    match live {
        None => ReconcileAction::Evict,
        Some(l) => {
            if l.pid != stored.pane_pid {
                ReconcileAction::Evict
            } else if l.current_command@ != stored.command@ {
                ReconcileAction::Evict
            } else {
                ReconcileAction::Keep
            }
        },
    }
}

/// Decide one stored record against the multiplexer's report of its pane.
pub fn reconcile_decision(stored: &AgentState, live: &Option<LivePaneInfo>) -> (r: ReconcileAction)
    ensures
        r == spec_reconcile_decision(*stored, *live),
{
    match live {
        None => ReconcileAction::Evict,
        Some(l) => {
            if l.pid != stored.pane_pid {
                ReconcileAction::Evict
            } else if !(l.current_command == stored.command) {
                ReconcileAction::Evict
            } else {
                ReconcileAction::Keep
            }
        },
    }
}

impl StateStore {
    /// A store rooted at the given base directory. The caller creates the
    /// directory and its `agents/` subdirectory.
    pub fn with_path(base_path: String) -> (r: StateStore)
        ensures
            r@ == base_path@,
    {
        StateStore { base_path }
    }

    /// The path of the agents directory.
    pub fn agents_dir(&self) -> (r: String)
        ensures
            r@ == self@ + "/agents"@,
    {
        let mut s = String::new();
        s.append(self.base_path.as_str());
        s.append("/agents");
        s
    }

    /// The path of the settings file.
    pub fn settings_path(&self) -> (r: String)
        ensures
            r@ == self@ + "/settings.json"@,
    {
        let mut s = String::new();
        s.append(self.base_path.as_str());
        s.append("/settings.json");
        s
    }

    /// The path of one agent's state file.
    pub fn agent_path(&self, key: &PaneKey) -> (r: String)
        ensures
            r@ == self@ + "/agents/"@ + spec_to_filename(key@),
    {
        let mut s = String::new();
        s.append(self.base_path.as_str());
        s.append("/agents/");
        let f = key.to_filename();
        s.append(f.as_str());
        s
    }

    /// Reconcile the stored records against the live multiplexer, for the
    /// backend and instance the caller is driving: records of other backends
    /// or instances are left alone; of the matching records, each lands in
    /// exactly one of the two returned lists — kept as a live agent pane
    /// carrying its record's fields, or marked for eviction under its key —
    /// with the choice made by what the multiplexer reports (a pane that is
    /// gone, recycled, or running another command is evicted). No two
    /// returned panes share a pane id, and no record is both kept and
    /// evicted. When no record matches, the multiplexer is never asked and
    /// the call succeeds with empty lists.
    pub fn load_reconciled_agents<M: Multiplexer>(
        &self,
        stored: Vec<AgentState>,
        backend: &str,
        instance: &str,
        mux: &M,
    ) -> (r: Result<(Vec<AgentPane>, Vec<PaneKey>), String>)
        requires
            distinct_pane_keys(stored@),
        ensures
            (forall|i: int|
                0 <= i < stored@.len() ==> !matches_instance(
                    #[trigger] stored@[i],
                    backend@,
                    instance@,
                )) ==> r is Ok,
            r matches Ok(p) ==> {
                &&& forall|a: int|
                    0 <= a < p.0@.len() ==> stems_from_stored(
                        #[trigger] p.0@[a],
                        stored@,
                        backend@,
                        instance@,
                    )
                &&& forall|b: int|
                    0 <= b < p.1@.len() ==> key_of_stored(
                        #[trigger] p.1@[b],
                        stored@,
                        backend@,
                        instance@,
                    )
                &&& forall|i: int|
                    0 <= i < stored@.len() && matches_instance(
                        #[trigger] stored@[i],
                        backend@,
                        instance@,
                    ) ==> appears(stored@[i], p.0@, p.1@)
                &&& forall|a: int, b: int|
                    0 <= a < b < p.0@.len() ==> #[trigger] p.0@[a].pane_id@
                        != #[trigger] p.0@[b].pane_id@
                &&& forall|a: int, b: int|
                    0 <= a < p.0@.len() && 0 <= b < p.1@.len() ==> #[trigger] p.0@[a].pane_id@
                        != #[trigger] p.1@[b].pane_id@
            },
    {
        let backend_s = backend.to_owned();
        let instance_s = instance.to_owned();
        let mut kept: Vec<AgentPane> = Vec::new();
        let mut evict: Vec<PaneKey> = Vec::new();
        let ghost mut kept_src: Seq<int> = Seq::empty();
        let ghost mut evict_src: Seq<int> = Seq::empty();
        let mut i: usize = 0;
        while i < stored.len()
            invariant
                i <= stored.len(),
                distinct_pane_keys(stored@),
                backend_s@ == backend@,
                instance_s@ == instance@,
                kept_src.len() == kept@.len(),
                evict_src.len() == evict@.len(),
                forall|a: int| 0 <= a < kept_src.len() ==> 0 <= #[trigger] kept_src[a] < i,
                forall|b: int| 0 <= b < evict_src.len() ==> 0 <= #[trigger] evict_src[b] < i,
                forall|a: int, b: int|
                    0 <= a < b < kept_src.len() ==> #[trigger] kept_src[a] < #[trigger] kept_src[b],
                forall|a: int, b: int|
                    0 <= a < kept_src.len() && 0 <= b < evict_src.len() ==> #[trigger] kept_src[a]
                        != #[trigger] evict_src[b],
                forall|a: int|
                    0 <= a < kept@.len() ==> kept_from(
                        #[trigger] kept@[a],
                        stored@[kept_src[a]],
                        backend@,
                        instance@,
                    ),
                forall|b: int|
                    0 <= b < evict@.len() ==> evicted_key(
                        #[trigger] evict@[b],
                        stored@[evict_src[b]],
                        backend@,
                        instance@,
                    ),
                forall|k: int|
                    0 <= k < i && matches_instance(#[trigger] stored@[k], backend@, instance@)
                        ==> appears(stored@[k], kept@, evict@),
            decreases stored.len() - i,
        {
            let entry = &stored[i];
            let ghost pre_kept = kept@;
            let ghost pre_evict = evict@;
            if entry.pane_key.backend == backend_s && entry.pane_key.instance == instance_s {
                let live = match mux.get_live_pane_info(entry.pane_key.pane_id.as_str()) {
                    Ok(l) => l,
                    Err(e) => {
                        proof {
                            assert(matches_instance(stored@[i as int], backend@, instance@));
                        }
                        return Err(e);
                    },
                };
                match reconcile_decision(entry, &live) {
                    ReconcileAction::Evict => {
                        evict.push(entry.pane_key.clone());
                        proof {
                            evict_src = evict_src.push(i as int);
                            assert(evicted_key(evict@[evict@.len() - 1], stored@[i as int], backend@, instance@));
                        }
                    },
                    ReconcileAction::Keep => {
                        let (session, window) = match live {
                            Some(l) => {
                                let s = match l.session {
                                    Some(s) => s,
                                    None => String::new(),
                                };
                                let w = match l.window {
                                    Some(w) => w,
                                    None => String::new(),
                                };
                                (s, w)
                            },
                            None => (String::new(), String::new()),
                        };
                        let pane = entry.to_agent_pane(session, window);
                        kept.push(pane);
                        proof {
                            kept_src = kept_src.push(i as int);
                            assert(kept_from(kept@[kept@.len() - 1], stored@[i as int], backend@, instance@));
                        }
                    },
                }
            }
            proof {
                assert forall|k: int|
                    0 <= k < i + 1 && matches_instance(
                        #[trigger] stored@[k],
                        backend@,
                        instance@,
                    ) implies appears(stored@[k], kept@, evict@) by {
                    if k < i {
                        assert(appears(stored@[k], pre_kept, pre_evict));
                        if exists|a: int|
                            0 <= a < pre_kept.len() && #[trigger] pre_kept[a].pane_id@
                                == stored@[k].pane_key.pane_id@ {
                            let a = choose|a: int|
                                0 <= a < pre_kept.len() && #[trigger] pre_kept[a].pane_id@
                                    == stored@[k].pane_key.pane_id@;
                            assert(kept@[a].pane_id@ == stored@[k].pane_key.pane_id@);
                        } else {
                            let b = choose|b: int|
                                0 <= b < pre_evict.len() && #[trigger] pre_evict[b]@
                                    == stored@[k].pane_key@;
                            assert(evict@[b]@ == stored@[k].pane_key@);
                        }
                    } else {
                        assert(kept@[kept@.len() - 1].pane_id@ == stored@[k].pane_key.pane_id@
                            || evict@[evict@.len() - 1]@ == stored@[k].pane_key@);
                    }
                }
            }
            i = i + 1;
        }
        proof {
            assert forall|a: int, b: int| 0 <= a < b < kept@.len() implies #[trigger] kept@[a].pane_id@
                != #[trigger] kept@[b].pane_id@ by {
                assert(kept_src[a] < kept_src[b]);
                assert(kept_from(kept@[a], stored@[kept_src[a]], backend@, instance@));
                assert(kept_from(kept@[b], stored@[kept_src[b]], backend@, instance@));
            }
            assert forall|a: int, b: int|
                0 <= a < kept@.len() && 0 <= b < evict@.len() implies #[trigger] kept@[a].pane_id@
                != #[trigger] evict@[b].pane_id@ by {
                assert(kept_src[a] != evict_src[b]);
                assert(kept_from(kept@[a], stored@[kept_src[a]], backend@, instance@));
                assert(evicted_key(evict@[b], stored@[evict_src[b]], backend@, instance@));
            }
            assert forall|a: int| 0 <= a < kept@.len() implies stems_from_stored(
                #[trigger] kept@[a],
                stored@,
                backend@,
                instance@,
            ) by {
                assert(kept_from(kept@[a], stored@[kept_src[a]], backend@, instance@));
            }
            assert forall|b: int| 0 <= b < evict@.len() implies key_of_stored(
                #[trigger] evict@[b],
                stored@,
                backend@,
                instance@,
            ) by {
                assert(evicted_key(evict@[b], stored@[evict_src[b]], backend@, instance@));
            }
        }
        Ok((kept, evict))
    }
}

} // verus!
