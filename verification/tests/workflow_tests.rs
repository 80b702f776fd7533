//! The command surface's decisions: tmux invocations, the handshake, pane
//! layout, opening and merging, closing, status updates, and the last-agent
//! toggle.

use workmux::command::close::{resolve_close_target, run as close_run, CloseAction};
use workmux::command::last_agent::{run as last_agent_run, LastAgentAction};
use workmux::command::set_window_status::{
    run as set_status_run, SetWindowStatusCommand, StatusAction,
};
use workmux::handshake::{
    channel_name, handshake_wait_step, ChildPoll, HandshakeStep, PaneHandshake, TmuxHandshake,
    HANDSHAKE_TIMEOUT_MS,
};
use workmux::multiplexer::{AgentPane, AgentStatus, LivePaneInfo};
use workmux::tmux::{
    build_startup_command, create_window, kill_window, prefixed, schedule_window_close,
    setup_panes, split_pane_with_command, window_exists, PaneConfig, SplitDirection,
};
use workmux::command::list::{format_pr_status, PrSummary};
use workmux::workflow::{open, plan_merge, worktree_path, MergeError, MergeFlags, OpenError};

#[test]
fn prefixed_concatenates() {
    assert_eq!(prefixed("wm:", "feat"), "wm:feat");
}

#[test]
fn window_commands_use_exact_match_targets() {
    let c = kill_window("wm:", "feat");
    assert_eq!(c.command, "tmux");
    assert_eq!(c.args, vec!["kill-window", "-t", "=wm:feat"]);
    let c = create_window("wm:", "feat", "/repo__worktrees/feat");
    assert_eq!(c.args, vec!["new-window", "-n", "wm:feat", "-c", "/repo__worktrees/feat"]);
}

#[test]
fn window_existence_reads_the_listing() {
    assert!(window_exists("wm:", "feat", Some("other\nwm:feat\nmain")));
    assert!(!window_exists("wm:", "feat", Some("other\nmain")));
    assert!(!window_exists("wm:", "feat", None));
}

#[test]
fn scheduled_close_sleeps_then_kills() {
    let c = schedule_window_close("wm:", "feat", 100);
    assert_eq!(c.command, "tmux");
    assert_eq!(
        c.args,
        vec!["run-shell", "sleep 0.100; tmux kill-window -t =wm:feat >/dev/null 2>&1"]
    );
}

#[test]
fn startup_command_wraps_and_escapes() {
    assert_eq!(build_startup_command("/bin/zsh", None), None);
    let wrapped = build_startup_command("/bin/zsh", Some("echo 'hi'")).unwrap();
    assert_eq!(wrapped, "/bin/zsh -lc 'echo '\\''hi'\\''; exec /bin/zsh -l'");
}

#[test]
fn split_pane_carries_direction_and_command() {
    let c = split_pane_with_command("wm:", "feat", 0, &SplitDirection::Vertical, "/w", Some("top"));
    assert_eq!(c.args, vec!["split-window", "-v", "-t", "=wm:feat.0", "-c", "/w", "top"]);
}

#[test]
fn pane_setup_respects_focus_and_targets() {
    let panes = vec![
        PaneConfig { command: Some("vim".to_string()), split: None, target: None, focus: false },
        PaneConfig {
            command: None,
            split: Some(SplitDirection::Horizontal),
            target: None,
            focus: true,
        },
        PaneConfig {
            command: Some("htop".to_string()),
            split: Some(SplitDirection::Vertical),
            target: Some(0),
            focus: false,
        },
    ];
    let (result, actions) = setup_panes("wm:", "feat", &panes, "/w", "/bin/sh");
    assert_eq!(result.focus_pane_index, 1);
    // the first pane respawns with the wrapped command, then two splits follow
    assert_eq!(actions.len(), 3);
    assert_eq!(actions[0].args[0], "respawn-pane");
    assert_eq!(actions[1].args[0], "split-window");
    assert_eq!(actions[1].args[1], "-h");
    assert_eq!(actions[2].args[3], "=wm:feat.0");
}

#[test]
fn pane_setup_defaults_focus_to_first_pane() {
    let panes = vec![
        PaneConfig { command: None, split: None, target: None, focus: false },
        PaneConfig {
            command: None,
            split: Some(SplitDirection::Horizontal),
            target: None,
            focus: false,
        },
    ];
    let (result, actions) = setup_panes("wm:", "feat", &panes, "/w", "/bin/sh");
    assert_eq!(result.focus_pane_index, 0);
    assert_eq!(actions.len(), 1);
}

#[test]
fn handshake_channel_and_wrapper() {
    let channel = channel_name(42, 987654321);
    assert_eq!(channel, "wm_ready_42_987654321");
    let hs = TmuxHandshake::with_channel(channel);
    assert_eq!(hs.lock_cmd().args, vec!["wait-for", "-L", "wm_ready_42_987654321"]);
    assert_eq!(hs.unlock_cmd().args, vec!["wait-for", "-U", "wm_ready_42_987654321"]);
    let wrapper = hs.wrapper_command("/bin/zsh");
    assert_eq!(
        wrapper,
        "sh -c \"stty -echo 2>/dev/null; tmux wait-for -U wm_ready_42_987654321; stty echo 2>/dev/null; exec '/bin/zsh' -l\""
    );
}

#[test]
fn handshake_times_out_at_the_ceiling() {
    assert_eq!(
        handshake_wait_step(ChildPoll::Running, 0, HANDSHAKE_TIMEOUT_MS),
        HandshakeStep::KeepWaiting
    );
    assert_eq!(
        handshake_wait_step(ChildPoll::Running, HANDSHAKE_TIMEOUT_MS, HANDSHAKE_TIMEOUT_MS),
        HandshakeStep::TimedOut
    );
    assert_eq!(
        handshake_wait_step(ChildPoll::Exited(true), 10, HANDSHAKE_TIMEOUT_MS),
        HandshakeStep::Succeeded
    );
    assert_eq!(
        handshake_wait_step(ChildPoll::Exited(false), 10, HANDSHAKE_TIMEOUT_MS),
        HandshakeStep::Failed
    );
}

#[test]
fn open_runs_its_preflight_checks_in_order() {
    assert_eq!(open("feat", false, true, false, None).unwrap_err(), OpenError::NotAGitRepo);
    assert_eq!(
        open("feat", true, false, false, None).unwrap_err(),
        OpenError::MultiplexerNotRunning
    );
    assert_eq!(open("feat", true, true, true, None).unwrap_err(), OpenError::WindowExists);
    assert_eq!(open("feat", true, true, false, None).unwrap_err(), OpenError::WorktreeMissing);
    assert_eq!(open("feat", true, true, false, Some("/r__worktrees/feat")).unwrap(), "/r__worktrees/feat");
}

#[test]
fn worktrees_live_in_a_sibling_container() {
    assert_eq!(worktree_path("/home/u/proj", "feat"), "/home/u/proj__worktrees/feat");
}

#[test]
fn squash_merge_plan_switches_merges_and_leaves_staging() {
    let flags = MergeFlags {
        ignore_uncommitted: false,
        delete_remote: false,
        rebase: false,
        squash: true,
    };
    let plan = plan_merge("feat", "main", "/repo", "/repo__worktrees/feat", false, None, &flags)
        .unwrap();
    assert!(!plan.commit_first);
    assert!(!plan.had_staged_changes);
    assert_eq!(plan.switch_main.args, vec!["switch", "main"]);
    assert_eq!(plan.switch_main.workdir.as_deref(), Some("/repo"));
    assert!(plan.rebase_feature.is_none());
    assert_eq!(plan.merge.args, vec!["merge", "--squash", "feat"]);
    assert_eq!(plan.merge.workdir.as_deref(), Some("/repo"));
    assert_eq!(plan.branch_merged, "feat");
    assert_eq!(plan.main_branch, "main");
}

#[test]
fn merge_plan_commits_tracked_changes_and_rebases_when_asked() {
    let flags = MergeFlags {
        ignore_uncommitted: false,
        delete_remote: false,
        rebase: true,
        squash: false,
    };
    let plan = plan_merge("feat", "main", "/repo", "/wt", true, None, &flags).unwrap();
    assert!(plan.commit_first);
    assert!(plan.had_staged_changes);
    let rebase = plan.rebase_feature.unwrap();
    assert_eq!(rebase.args, vec!["rebase", "main"]);
    assert_eq!(rebase.workdir.as_deref(), Some("/wt"));
    assert_eq!(plan.merge.args, vec!["merge", "feat"]);
}

#[test]
fn close_defers_only_inside_the_window() {
    let (window, is_current) =
        resolve_close_target(Some("feat"), Some("wm:feat"), "wm:", "dir");
    assert_eq!(window, "wm:feat");
    assert!(is_current);
    match close_run(window, is_current) {
        CloseAction::Schedule { window, delay_ms } => {
            assert_eq!(window, "wm:feat");
            assert_eq!(delay_ms, 100);
        },
        _ => panic!("expected a deferred close"),
    }
    let (window, is_current) = resolve_close_target(None, Some("elsewhere"), "wm:", "dir");
    assert_eq!(window, "wm:dir");
    assert!(!is_current);
    match close_run(window, is_current) {
        CloseAction::Kill { window } => assert_eq!(window, "wm:dir"),
        _ => panic!("expected an immediate kill"),
    }
}

fn agent_pane(id: &str) -> AgentPane {
    AgentPane {
        session: "s".to_string(),
        window_name: "w".to_string(),
        pane_id: id.to_string(),
        path: "/p".to_string(),
        pane_title: None,
        status: Some(AgentStatus::Working),
        status_ts: Some(1),
    }
}

#[test]
fn last_agent_toggles_between_agent_panes() {
    let agents = vec![agent_pane("%1"), agent_pane("%2")];
    assert!(matches!(last_agent_run(None, &agents, Some("%1")), LastAgentAction::NoPrevious));
    assert!(matches!(
        last_agent_run(Some("%9"), &agents, Some("%1")),
        LastAgentAction::TargetGone
    ));
    assert!(matches!(
        last_agent_run(Some("%1"), &agents, Some("%1")),
        LastAgentAction::AlreadyThere
    ));
    match last_agent_run(Some("%2"), &agents, Some("%1")) {
        LastAgentAction::Switch { target, record } => {
            assert_eq!(target, "%2");
            assert_eq!(record.as_deref(), Some("%1"));
        },
        _ => panic!("expected a switch"),
    }
    // a non-agent current pane is not recorded
    match last_agent_run(Some("%2"), &agents, Some("%7")) {
        LastAgentAction::Switch { record, .. } => assert!(record.is_none()),
        _ => panic!("expected a switch"),
    }
}

#[test]
fn status_update_builds_the_record_from_the_live_pane() {
    let live = LivePaneInfo {
        pid: 4242,
        working_dir: "/proj".to_string(),
        title: Some("summary".to_string()),
        current_command: "node".to_string(),
        session: None,
        window: None,
    };
    let action = set_status_run(
        SetWindowStatusCommand::Working,
        "tmux",
        "default",
        Some("%3"),
        Some(live),
        "icon-w",
        1000,
    )
    .unwrap();
    match action {
        StatusAction::Update { state, icon } => {
            assert_eq!(icon, "icon-w");
            let state = state.unwrap();
            assert_eq!(state.pane_key.pane_id, "%3");
            assert_eq!(state.workdir, "/proj");
            assert_eq!(state.status, Some(AgentStatus::Working));
            assert_eq!(state.status_ts, Some(1000));
            assert_eq!(state.pane_pid, 4242);
            assert_eq!(state.command, "node");
            assert_eq!(state.updated_ts, 1000);
        },
        _ => panic!("expected an update"),
    }
    // outside a multiplexer the command is a silent no-op
    assert!(set_status_run(
        SetWindowStatusCommand::Working,
        "tmux",
        "default",
        None,
        None,
        "icon",
        1
    )
    .is_none());
    // clear deletes the record for the pane's key
    match set_status_run(
        SetWindowStatusCommand::Clear,
        "tmux",
        "default",
        Some("%3"),
        None,
        "",
        1,
    )
    .unwrap()
    {
        StatusAction::Clear { key } => assert_eq!(key.pane_id, "%3"),
        _ => panic!("expected a clear"),
    }
}

#[test]
fn merge_plan_deletes_the_remote_branch_only_with_tracking() {
    let flags = MergeFlags {
        ignore_uncommitted: true,
        delete_remote: true,
        rebase: false,
        squash: false,
    };
    let plan = plan_merge("feat", "main", "/repo", "/wt", false, Some("origin"), &flags).unwrap();
    let push = plan.delete_remote_branch.unwrap();
    assert_eq!(push.args, vec!["push", "origin", "--delete", "feat"]);
    assert_eq!(
        plan_merge("feat", "main", "/repo", "/wt", false, None, &flags).unwrap_err(),
        MergeError::RemoteTrackingMissing
    );
}

#[test]
fn pr_column_formats_state_and_number() {
    let icons = workmux::nerdfont::pr_icons(false);
    assert_eq!(format_pr_status(None, &icons), "-");
    let open_pr = PrSummary { number: 17, state: "OPEN".to_string(), is_draft: false };
    assert_eq!(format_pr_status(Some(&open_pr), &icons), "#17 \x1b[32m●\x1b[0m");
    let draft = PrSummary { number: 3, state: "OPEN".to_string(), is_draft: true };
    assert_eq!(format_pr_status(Some(&draft), &icons), "#3 \x1b[90m○\x1b[0m");
    let merged = PrSummary { number: 8, state: "MERGED".to_string(), is_draft: false };
    assert_eq!(format_pr_status(Some(&merged), &icons), "#8 \x1b[35m◆\x1b[0m");
}

#[test]
fn shell_hooks_run_through_sh() {
    let c = workmux::cmd::shell_command("make setup", "/wt");
    assert_eq!(c.command, "sh");
    assert_eq!(c.args, vec!["-c", "make setup"]);
    assert_eq!(c.workdir.as_deref(), Some("/wt"));
}
