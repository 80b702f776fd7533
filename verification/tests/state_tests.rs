//! Pane keys and their filenames, reconciliation, settings, sort modes, and
//! the nerdfont checks.

use workmux::dashboard::settings::{
    load_hide_stale, load_preview_size, save_hide_stale, save_preview_size,
};
use workmux::dashboard::sort::SortMode;
use workmux::multiplexer::{AgentStatus, LivePaneInfo, Multiplexer};
use workmux::nerdfont::{config_has_pua, contains_pua, git_icons, init, pr_icons};
use workmux::config::{Config, StatusIcons};
use workmux::state::store::{reconcile_decision, ReconcileAction, StateStore};
use workmux::state::types::{AgentState, GlobalSettings, PaneKey};

fn test_pane_key() -> PaneKey {
    PaneKey {
        backend: "tmux".to_string(),
        instance: "default".to_string(),
        pane_id: "%1".to_string(),
    }
}

fn test_agent_state(key: PaneKey) -> AgentState {
    AgentState {
        pane_key: key,
        workdir: "/home/user/project".to_string(),
        status: Some(AgentStatus::Working),
        status_ts: Some(1234567890),
        pane_title: Some("Implementing feature X".to_string()),
        pane_pid: 12345,
        command: "node".to_string(),
        updated_ts: 1234567890,
    }
}

#[test]
fn test_pane_key_to_filename() {
    let key = test_pane_key();
    assert_eq!(key.to_filename(), "tmux__default__%251.json");
}

#[test]
fn test_pane_key_from_filename() {
    let key = PaneKey::from_filename("tmux__default__%251.json").unwrap();
    assert_eq!(key.backend, "tmux");
    assert_eq!(key.instance, "default");
    assert_eq!(key.pane_id, "%1");
}

#[test]
fn test_pane_key_roundtrip() {
    let original = PaneKey {
        backend: "wezterm".to_string(),
        instance: "mux-123".to_string(),
        pane_id: "tab_5".to_string(),
    };
    let filename = original.to_filename();
    let parsed = PaneKey::from_filename(&filename).unwrap();
    assert_eq!(original, parsed);
}

#[test]
fn test_pane_key_from_invalid_filename() {
    assert!(PaneKey::from_filename("invalid.json").is_none());
    assert!(PaneKey::from_filename("only__two.json").is_none());
    assert!(PaneKey::from_filename("no_extension").is_none());
}

#[test]
fn test_pane_key_with_underscores_in_pane_id() {
    let key = PaneKey {
        backend: "tmux".to_string(),
        instance: "default".to_string(),
        pane_id: "pane_with_underscores".to_string(),
    };
    let filename = key.to_filename();
    let parsed = PaneKey::from_filename(&filename).unwrap();
    assert_eq!(parsed.pane_id, "pane_with_underscores");
}

#[test]
fn test_pane_key_with_socket_path() {
    let key = PaneKey {
        backend: "tmux".to_string(),
        instance: "/private/tmp/tmux-501/default".to_string(),
        pane_id: "%79".to_string(),
    };
    let filename = key.to_filename();
    assert!(!filename.contains('/'));
    let parsed = PaneKey::from_filename(&filename).unwrap();
    assert_eq!(parsed.instance, "/private/tmp/tmux-501/default");
    assert_eq!(parsed.pane_id, "%79");
}

#[test]
fn store_paths_are_rooted_at_the_base() {
    let store = StateStore::with_path("/tmp/state".to_string());
    assert_eq!(store.agents_dir(), "/tmp/state/agents");
    assert_eq!(store.settings_path(), "/tmp/state/settings.json");
    assert_eq!(store.agent_path(&test_pane_key()), "/tmp/state/agents/tmux__default__%251.json");
}

fn live(pid: u32, command: &str) -> LivePaneInfo {
    LivePaneInfo {
        pid,
        working_dir: "/home/user/project".to_string(),
        title: None,
        current_command: command.to_string(),
        session: Some("main".to_string()),
        window: Some("w1".to_string()),
    }
}

#[test]
fn reconcile_evicts_recycled_and_exited_panes() {
    let state = test_agent_state(test_pane_key());
    assert_eq!(reconcile_decision(&state, &None), ReconcileAction::Evict);
    assert_eq!(reconcile_decision(&state, &Some(live(999, "node"))), ReconcileAction::Evict);
    assert_eq!(reconcile_decision(&state, &Some(live(12345, "zsh"))), ReconcileAction::Evict);
    assert_eq!(reconcile_decision(&state, &Some(live(12345, "node"))), ReconcileAction::Keep);
}

struct FakeMux {
    live_pid: u32,
}

impl Multiplexer for FakeMux {
    fn name(&self) -> String {
        "tmux".to_string()
    }

    fn instance_id(&self) -> String {
        "default".to_string()
    }

    fn get_live_pane_info(&self, _pane_id: &str) -> Result<Option<LivePaneInfo>, String> {
        Ok(Some(live(self.live_pid, "node")))
    }
}

#[test]
fn reconciliation_drops_pid_recycled_panes_and_keeps_live_ones() {
    let store = StateStore::with_path("/tmp/state".to_string());
    let stored = vec![test_agent_state(test_pane_key())];
    // The stored pid matches: the agent stays.
    let (kept, evict) = store
        .load_reconciled_agents(stored, "tmux", "default", &FakeMux { live_pid: 12345 })
        .unwrap();
    assert_eq!(kept.len(), 1);
    assert_eq!(kept[0].pane_id, "%1");
    assert_eq!(kept[0].session, "main");
    assert!(evict.is_empty());
    // The pane id was recycled by another shell: the record is evicted.
    let stored = vec![test_agent_state(test_pane_key())];
    let (kept, evict) = store
        .load_reconciled_agents(stored, "tmux", "default", &FakeMux { live_pid: 777 })
        .unwrap();
    assert!(kept.is_empty());
    assert_eq!(evict.len(), 1);
    assert_eq!(evict[0], test_pane_key());
}

#[test]
fn reconciliation_never_returns_duplicate_pane_keys() {
    let store = StateStore::with_path("/tmp/state".to_string());
    let mut second = test_pane_key();
    second.pane_id = "%2".to_string();
    let stored = vec![test_agent_state(test_pane_key()), test_agent_state(second)];
    let (kept, _evict) = store
        .load_reconciled_agents(stored, "tmux", "default", &FakeMux { live_pid: 12345 })
        .unwrap();
    assert_eq!(kept.len(), 2);
    assert_ne!(kept[0].pane_id, kept[1].pane_id);
}

#[test]
fn settings_updaters_touch_only_their_field() {
    let mut settings = GlobalSettings::default();
    assert!(!load_hide_stale(&settings));
    save_hide_stale(&mut settings, true);
    assert!(load_hide_stale(&settings));
    assert_eq!(load_preview_size(&settings), None);
    save_preview_size(&mut settings, 30);
    assert_eq!(load_preview_size(&settings), Some(30));
    assert!(settings.hide_stale);
}

#[test]
fn sort_mode_cycles_and_parses() {
    assert_eq!(SortMode::Priority.next(), SortMode::Project);
    assert_eq!(SortMode::Project.next(), SortMode::Recency);
    assert_eq!(SortMode::Recency.next(), SortMode::Natural);
    assert_eq!(SortMode::Natural.next(), SortMode::Priority);
    assert_eq!(SortMode::from_str(" Recency "), SortMode::Recency);
    assert_eq!(SortMode::from_str("NATURAL"), SortMode::Natural);
    assert_eq!(SortMode::from_str("unknown"), SortMode::Priority);
    assert_eq!(SortMode::Priority.label(), "Priority");
}

#[test]
fn sort_mode_persists_through_settings() {
    let mut settings = GlobalSettings::default();
    SortMode::Project.save(&mut settings);
    assert_eq!(settings.sort_mode, "project");
    assert_eq!(SortMode::load(&settings), SortMode::Project);
}

#[test]
fn contains_pua_detects_bmp_pua() {
    assert!(contains_pua("\u{E000}"));
    assert!(contains_pua("\u{F8FF}"));
    assert!(contains_pua("text \u{E725} more"));
}

#[test]
fn contains_pua_detects_supplementary_pua() {
    assert!(contains_pua("\u{F0000}"));
    assert!(contains_pua("\u{FFFFF}"));
    assert!(contains_pua("\u{f03eb}"));
}

#[test]
fn contains_pua_rejects_normal_text() {
    assert!(!contains_pua("hello world"));
    assert!(!contains_pua("✓ ✗ → ↑ ↓"));
    assert!(!contains_pua("●○◆×"));
}

#[test]
fn contains_pua_handles_empty_string() {
    assert!(!contains_pua(""));
}

#[test]
fn nerdfont_setting_and_icons() {
    assert!(init(Some(true), false));
    assert!(!init(Some(false), true));
    assert!(init(None, true));
    assert!(!init(None, false));
    assert_eq!(pr_icons(false).open, "●");
    assert_eq!(git_icons(false).conflict, "!");
    assert_eq!(git_icons(true).diff, "\u{f03eb}");
}

#[test]
fn config_pua_scan_reads_icons_and_prefixes() {
    let plain = Config {
        nerdfont: None,
        status_icons: StatusIcons { working: Some("w".to_string()), waiting: None, done: None },
        window_prefix: Some("wm:".to_string()),
        worktree_prefix: None,
    };
    assert!(!config_has_pua(&plain));
    let fancy = Config {
        nerdfont: None,
        status_icons: StatusIcons { working: Some("\u{e725}".to_string()), waiting: None, done: None },
        window_prefix: None,
        worktree_prefix: None,
    };
    assert!(config_has_pua(&fancy));
}

#[test]
fn reconciliation_leaves_other_instances_alone() {
    let store = StateStore::with_path("/tmp/state".to_string());
    let mut other = test_pane_key();
    other.instance = "elsewhere".to_string();
    let stored = vec![test_agent_state(test_pane_key()), test_agent_state(other)];
    let (kept, evict) = store
        .load_reconciled_agents(stored, "tmux", "default", &FakeMux { live_pid: 777 })
        .unwrap();
    // the matching record is evicted (recycled pid); the other instance's
    // record lands in neither list
    assert!(kept.is_empty());
    assert_eq!(evict.len(), 1);
    assert_eq!(evict[0].instance, "default");
}
