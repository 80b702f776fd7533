//! The tmux driver: window and pane operations expressed as tmux
//! invocations, window-name handling, startup-command wrapping, and the pane
//! layout plan.

use vstd::prelude::*;

use crate::cmd::{opt_view, Cmd};
use crate::text::{
    chars_to_string, eq_str, escape_single_quotes, format_u64, spec_escape_squotes, spec_lines,
    spec_nat_string, spec_trim, split_lines, str_to_chars, trim,
};

verus! {

/// A window name with the configured prefix attached.
pub fn prefixed(prefix: &str, window_name: &str) -> (r: String)
    ensures
        r@ == prefix@ + window_name@,
{
    let mut s = String::new();
    s.append(prefix);
    s.append(window_name);
    s
}

/// The query listing all window names, one per line.
pub fn list_windows_cmd() -> (c: Cmd)
    ensures
        c.command@ == "tmux"@,
        c.workdir is None,
        c.args.deep_view() == seq!["list-windows"@, "-F"@, "#{window_name}"@],
{
    let c = Cmd::new("tmux").arg("list-windows").arg("-F").arg("#{window_name}");
    proof {
        assert(c.args.deep_view() =~= seq!["list-windows"@, "-F"@, "#{window_name}"@]);
    }
    c
}

/// All window names, read from the listing's captured output; an unreadable
/// listing (no server, no windows) yields none.
pub fn get_all_window_names(output: Option<&str>) -> (r: Vec<String>)
    ensures
        match output {
            Some(o) => r.deep_view() == spec_lines(o@),
            None => r.deep_view() == Seq::<Seq<char>>::empty(),
        },
{
    match output {
        None => {
            let empty: Vec<String> = Vec::new();
            proof {
                assert(empty.deep_view() =~~= Seq::<Seq<char>>::empty());
            }
            empty
        },
        Some(o) => {
            let v = str_to_chars(o);
            let lines = split_lines(&v);
            let ghost ld = lines.deep_view();
            let mut out: Vec<String> = Vec::new();
            let mut i: usize = 0;
            while i < lines.len()
                invariant
                    i <= lines.len(),
                    ld == lines.deep_view(),
                    out.deep_view() == ld.take(i as int),
                decreases lines.len() - i,
            {
                let ghost pre = out.deep_view();
                out.push(chars_to_string(&lines[i]));
                proof {
                    assert(ld[i as int] =~= lines@[i as int]@);
                    assert(out.deep_view() =~~= pre.push(ld[i as int]));
                    assert(out.deep_view() =~~= ld.take(i + 1));
                }
                i = i + 1;
            }
            proof {
                assert(ld.take(lines.len() as int) =~= ld);
            }
            out
        },
    }
}

/// The check whether a tmux server is running; its exit status is the answer.
pub fn is_running() -> (c: Cmd)
    ensures
        c.command@ == "tmux"@,
        c.workdir is None,
        c.args.deep_view() == seq!["info"@],
{
    let c = Cmd::new("tmux").arg("info");
    proof {
        assert(c.args.deep_view() =~= seq!["info"@]);
    }
    c
}

/// Whether a window named `prefix + window_name` exists, read from the
/// window listing; a failed listing means no such window.
pub fn window_exists(prefix: &str, window_name: &str, windows_output: Option<&str>) -> (r: bool)
    ensures
        match windows_output {
            Some(o) => r == spec_lines(o@).contains(prefix@ + window_name@),
            None => r == false,
        },
{
    let output = match windows_output {
        Some(o) => o,
        None => {
            return false;
        },
    };
    let target = prefixed(prefix, window_name);
    let tv = str_to_chars(target.as_str());
    let v = str_to_chars(output);
    let lines = split_lines(&v);
    let ghost ld = lines.deep_view();
    let mut i: usize = 0;
    while i < lines.len()
        invariant
            i <= lines.len(),
            ld == lines.deep_view(),
            ld == spec_lines(output@),
            (windows_output matches Some(oo) && oo@ == output@),
            tv@ == prefix@ + window_name@,
            forall|k: int| 0 <= k < i ==> ld[k] != tv@,
        decreases lines.len() - i,
    {
        proof {
            assert(ld[i as int] =~= lines@[i as int]@);
        }
        let lv = chars_to_string(&lines[i]);
        if eq_str(&tv, lv.as_str()) {
            proof {
                assert(ld[i as int] == tv@);
                assert(ld.contains(tv@));
            }
            return true;
        }
        i = i + 1;
    }
    proof {
        if ld.contains(tv@) {
            let k = choose|k: int| 0 <= k < ld.len() && ld[k] == tv@;
            assert(ld[k] == tv@);
        }
    }
    false
}

/// The query for the current window's name.
pub fn current_window_name_cmd() -> (c: Cmd)
    ensures
        c.command@ == "tmux"@,
        c.workdir is None,
        c.args.deep_view() == seq!["display-message"@, "-p"@, "#{window_name}"@],
{
    let c = Cmd::new("tmux").arg("display-message").arg("-p").arg("#{window_name}");
    proof {
        assert(c.args.deep_view() =~= seq!["display-message"@, "-p"@, "#{window_name}"@]);
    }
    c
}

/// The current window's name, read from the query's result: the trimmed
/// output on success, nothing when the query failed (as outside tmux).
pub fn current_window_name(output: Option<&str>) -> (r: Option<String>)
    ensures
        match output {
            Some(o) => r matches Some(n) && n@ == spec_trim(o@),
            None => r is None,
        },
{
    match output {
        Some(o) => {
            let v = str_to_chars(o);
            let t = trim(&v);
            Some(chars_to_string(&t))
        },
        None => None,
    }
}

/// Create a new window named `prefix + window_name` in `working_dir`.
pub fn create_window(prefix: &str, window_name: &str, working_dir: &str) -> (c: Cmd)
    ensures
        c.command@ == "tmux"@,
        c.workdir is None,
        c.args.deep_view() == seq![
            "new-window"@,
            "-n"@,
            prefix@ + window_name@,
            "-c"@,
            working_dir@,
        ],
{
    let name = prefixed(prefix, window_name);
    let c = Cmd::new("tmux").arg("new-window").arg("-n").arg(name.as_str()).arg("-c").arg(
        working_dir,
    );
    proof {
        assert(c.args.deep_view() =~= seq![
            "new-window"@,
            "-n"@,
            prefix@ + window_name@,
            "-c"@,
            working_dir@,
        ]);
    }
    c
}

/// The target naming a whole window: `=` and the prefixed name, matched
/// exactly.
pub open spec fn spec_window_target(prefix: Seq<char>, window_name: Seq<char>) -> Seq<char> {
    "="@ + prefix + window_name
}

/// The target naming one pane of a window: the window target, a dot, and the
/// pane index.
pub open spec fn spec_pane_target(prefix: Seq<char>, window_name: Seq<char>, pane_index: int) -> Seq<
    char,
> {
    spec_window_target(prefix, window_name) + "."@ + spec_nat_string(pane_index)
}

/// Build the exact-match window target.
fn window_target(prefix: &str, window_name: &str) -> (r: String)
    ensures
        r@ == spec_window_target(prefix@, window_name@),
{
    let mut s = String::new();
    s.append("=");
    s.append(prefix);
    s.append(window_name);
    proof {
        assert(s@ =~= spec_window_target(prefix@, window_name@));
    }
    s
}

/// Build the exact-match pane target.
fn pane_target(prefix: &str, window_name: &str, pane_index: usize) -> (r: String)
    ensures
        r@ == spec_pane_target(prefix@, window_name@, pane_index as int),
{
    let mut s = window_target(prefix, window_name);
    s.append(".");
    let idx = format_u64(pane_index as u64);
    s.append(idx.as_str());
    proof {
        assert(s@ =~= spec_pane_target(prefix@, window_name@, pane_index as int));
    }
    s
}

/// Select a specific pane.
pub fn select_pane(prefix: &str, window_name: &str, pane_index: usize) -> (c: Cmd)
    ensures
        c.command@ == "tmux"@,
        c.workdir is None,
        c.args.deep_view() == seq![
            "select-pane"@,
            "-t"@,
            spec_pane_target(prefix@, window_name@, pane_index as int),
        ],
{
    let target = pane_target(prefix, window_name, pane_index);
    let c = Cmd::new("tmux").arg("select-pane").arg("-t").arg(target.as_str());
    proof {
        assert(c.args.deep_view() =~= seq![
            "select-pane"@,
            "-t"@,
            spec_pane_target(prefix@, window_name@, pane_index as int),
        ]);
    }
    c
}

/// Select a specific window.
pub fn select_window(prefix: &str, window_name: &str) -> (c: Cmd)
    ensures
        c.command@ == "tmux"@,
        c.workdir is None,
        c.args.deep_view() == seq![
            "select-window"@,
            "-t"@,
            spec_window_target(prefix@, window_name@),
        ],
{
    let target = window_target(prefix, window_name);
    let c = Cmd::new("tmux").arg("select-window").arg("-t").arg(target.as_str());
    proof {
        assert(c.args.deep_view() =~= seq![
            "select-window"@,
            "-t"@,
            spec_window_target(prefix@, window_name@),
        ]);
    }
    c
}

/// Kill a window.
pub fn kill_window(prefix: &str, window_name: &str) -> (c: Cmd)
    ensures
        c.command@ == "tmux"@,
        c.workdir is None,
        c.args.deep_view() == seq![
            "kill-window"@,
            "-t"@,
            spec_window_target(prefix@, window_name@),
        ],
{
    let target = window_target(prefix, window_name);
    let c = Cmd::new("tmux").arg("kill-window").arg("-t").arg(target.as_str());
    proof {
        assert(c.args.deep_view() =~= seq![
            "kill-window"@,
            "-t"@,
            spec_window_target(prefix@, window_name@),
        ]);
    }
    c
}

/// The delay in seconds with three decimals, as the scheduled close prints
/// it: `S.FFF`.
pub open spec fn spec_delay_secs(delay_ms: int) -> Seq<char> {
    spec_nat_string(delay_ms / 1000) + "."@ + pad3(delay_ms % 1000)
}

/// A number as exactly three zero-padded decimal digits (for values below a
/// thousand).
pub open spec fn pad3(n: int) -> Seq<char> {
    if n < 10 {
        "00"@ + spec_nat_string(n)
    } else if n < 100 {
        "0"@ + spec_nat_string(n)
    } else {
        spec_nat_string(n)
    }
}

/// The shell script of a scheduled window close: sleep, then kill quietly.
pub open spec fn spec_close_script(prefix: Seq<char>, window_name: Seq<char>, delay_ms: int) -> Seq<
    char,
> {
    "sleep "@ + spec_delay_secs(delay_ms) + "; tmux kill-window -t "@ + spec_window_target(
        prefix,
        window_name,
    ) + " >/dev/null 2>&1"@
}

/// Schedule a window to be killed after a short delay, through the
/// multiplexer's background shell. Useful when the close is issued from
/// inside the very window that is to go.
pub fn schedule_window_close(prefix: &str, window_name: &str, delay_ms: u64) -> (c: Cmd)
    ensures
        c.command@ == "tmux"@,
        c.workdir is None,
        c.args.deep_view() == seq![
            "run-shell"@,
            spec_close_script(prefix@, window_name@, delay_ms as int),
        ],
{
    let mut script = String::new();
    script.append("sleep ");
    let secs = format_u64(delay_ms / 1000);
    script.append(secs.as_str());
    script.append(".");
    let frac = delay_ms % 1000;
    if frac < 10 {
        script.append("00");
    } else if frac < 100 {
        script.append("0");
    }
    let frac_s = format_u64(frac);
    script.append(frac_s.as_str());
    script.append("; tmux kill-window -t ");
    let target = window_target(prefix, window_name);
    script.append(target.as_str());
    script.append(" >/dev/null 2>&1");
    proof {
        assert(script@ =~= spec_close_script(prefix@, window_name@, delay_ms as int));
    }
    let c = Cmd::new("tmux").arg("run-shell").arg(script.as_str());
    proof {
        assert(c.args.deep_view() =~= seq![
            "run-shell"@,
            spec_close_script(prefix@, window_name@, delay_ms as int),
        ]);
    }
    c
}

/// The startup command a pane runs: the user command inside a login shell,
/// followed by an interactive login shell.
pub open spec fn spec_startup_command(shell: Seq<char>, command: Seq<char>) -> Seq<char> {
    shell + " -lc '"@ + spec_escape_squotes(command) + "; exec "@ + shell + " -l'"@
}

/// Build the shell command for a pane that runs a user command and then
/// leaves an interactive login shell; a pane without a command needs none.
pub fn build_startup_command(shell: &str, command: Option<&str>) -> (r: Option<String>)
    ensures
        match command {
            Some(cmd) => r matches Some(s) && s@ == spec_startup_command(shell@, cmd@),
            None => r is None,
        },
{
    let cmd = match command {
        Some(c) => c,
        None => {
            return None;
        },
    };
    let escaped = escape_single_quotes(cmd);
    let mut s = String::new();
    s.append(shell);
    s.append(" -lc '");
    s.append(escaped.as_str());
    s.append("; exec ");
    s.append(shell);
    s.append(" -l'");
    proof {
        assert(s@ =~= spec_startup_command(shell@, cmd@));
    }
    Some(s)
}

/// The direction a pane split goes.
#[derive(Debug, Clone, Copy, PartialEq, Eq, Structural)]
pub enum SplitDirection {
    /// Side by side.
    Horizontal,
    /// Stacked.
    Vertical,
}

/// One configured pane: an optional startup command, how it splits off (the
/// first pane has no split), which pane it splits (defaulting to the most
/// recently created), and whether it takes focus.
pub struct PaneConfig {
    /// The command the pane starts with, when any.
    pub command: Option<String>,
    /// The split direction; the window's first pane carries none.
    pub split: Option<SplitDirection>,
    /// The index of the pane to split, when not the most recent.
    pub target: Option<usize>,
    /// Whether this pane takes focus.
    pub focus: bool,
}

/// Split a pane of a window, optionally running a command in the new pane.
pub fn split_pane_with_command(
    prefix: &str,
    window_name: &str,
    pane_index: usize,
    direction: &SplitDirection,
    working_dir: &str,
    command: Option<&str>,
) -> (c: Cmd)
    ensures
        c.command@ == "tmux"@,
        c.workdir is None,
        ({
            let base = seq![
                "split-window"@,
                if direction is Horizontal {
                    "-h"@
                } else {
                    "-v"@
                },
                "-t"@,
                spec_pane_target(prefix@, window_name@, pane_index as int),
                "-c"@,
                working_dir@,
            ];
            match command {
                Some(cmd) => c.args.deep_view() == base.push(cmd@),
                None => c.args.deep_view() == base,
            }
        }),
{
    let split_arg = match direction {
        SplitDirection::Horizontal => "-h",
        SplitDirection::Vertical => "-v",
    };
    let target = pane_target(prefix, window_name, pane_index);
    let c = Cmd::new("tmux").arg("split-window").arg(split_arg).arg("-t").arg(target.as_str()).arg(
        "-c",
    ).arg(working_dir);
    proof {
        assert(c.args.deep_view() =~= seq![
            "split-window"@,
            if direction is Horizontal {
                "-h"@
            } else {
                "-v"@
            },
            "-t"@,
            spec_pane_target(prefix@, window_name@, pane_index as int),
            "-c"@,
            working_dir@,
        ]);
    }
    match command {
        Some(cmd_str) => c.arg(cmd_str),
        None => c,
    }
}

/// Respawn a pane with a new command, killing what ran there.
pub fn respawn_pane(
    prefix: &str,
    window_name: &str,
    pane_index: usize,
    working_dir: &str,
    command: &str,
) -> (c: Cmd)
    ensures
        c.command@ == "tmux"@,
        c.workdir is None,
        c.args.deep_view() == seq![
            "respawn-pane"@,
            "-t"@,
            spec_pane_target(prefix@, window_name@, pane_index as int),
            "-c"@,
            working_dir@,
            "-k"@,
            command@,
        ],
{
    let target = pane_target(prefix, window_name, pane_index);
    let c = Cmd::new("tmux").arg("respawn-pane").arg("-t").arg(target.as_str()).arg("-c").arg(
        working_dir,
    ).arg("-k").arg(command);
    proof {
        assert(c.args.deep_view() =~= seq![
            "respawn-pane"@,
            "-t"@,
            spec_pane_target(prefix@, window_name@, pane_index as int),
            "-c"@,
            working_dir@,
            "-k"@,
            command@,
        ]);
    }
    c
}

/// Result of planning the panes of a window.
pub struct PaneSetupResult {
    /// The index of the pane that should receive focus.
    pub focus_pane_index: usize,
}

/// The respawn invocation planned for the window's first pane.
pub open spec fn spec_respawn_action(
    prefix: Seq<char>,
    window_name: Seq<char>,
    working_dir: Seq<char>,
    command: Seq<char>,
) -> crate::cmd::CmdView {
    crate::cmd::CmdView {
        command: "tmux"@,
        args: seq![
            "respawn-pane"@,
            "-t"@,
            spec_pane_target(prefix, window_name, 0),
            "-c"@,
            working_dir,
            "-k"@,
            command,
        ],
        workdir: None,
    }
}

/// One planned split invocation.
pub open spec fn spec_split_action(
    prefix: Seq<char>,
    window_name: Seq<char>,
    target: int,
    horizontal: bool,
    working_dir: Seq<char>,
    command: Option<Seq<char>>,
) -> crate::cmd::CmdView {
    let base = seq![
        "split-window"@,
        if horizontal {
            "-h"@
        } else {
            "-v"@
        },
        "-t"@,
        spec_pane_target(prefix, window_name, target),
        "-c"@,
        working_dir,
    ];
    crate::cmd::CmdView {
        command: "tmux"@,
        args: match command {
            Some(c) => base.push(c),
            None => base,
        },
        workdir: None,
    }
}

/// The plan for a prefix of the pane configuration: the focus index when a
/// pane claimed it, the running pane count, and the invocations in order.
/// The first pane is respawned with its wrapped command exactly when it
/// carries one; each later entry with a split direction adds one split of
/// its target pane (defaulting to the most recently created), the command
/// wrapped when configured.
pub open spec fn spec_pane_plan(
    prefix: Seq<char>,
    window_name: Seq<char>,
    working_dir: Seq<char>,
    shell: Seq<char>,
    panes: Seq<PaneConfig>,
) -> (Option<int>, int, Seq<crate::cmd::CmdView>)
    decreases panes.len(),
{
    if panes.len() == 0 {
        (None::<int>, 1int, Seq::<crate::cmd::CmdView>::empty())
    } else if panes.len() == 1 {
        (
            if panes[0].focus {
                Some(0int)
            } else {
                None::<int>
            },
            1int,
            match crate::cmd::opt_view(panes[0].command) {
                Some(c) => seq![
                    spec_respawn_action(
                        prefix,
                        window_name,
                        working_dir,
                        spec_startup_command(shell, c),
                    ),
                ],
                None => Seq::<crate::cmd::CmdView>::empty(),
            },
        )
    } else {
        let p = spec_pane_plan(prefix, window_name, working_dir, shell, panes.drop_last());
        let last = panes.last();
        if last.split is Some {
            (
                if last.focus {
                    Some(p.1)
                } else {
                    p.0
                },
                p.1 + 1,
                p.2.push(
                    spec_split_action(
                        prefix,
                        window_name,
                        match last.target {
                            Some(t) => t as int,
                            None => p.1 - 1,
                        },
                        last.split == Some(SplitDirection::Horizontal),
                        working_dir,
                        match crate::cmd::opt_view(last.command) {
                            Some(c) => Some(spec_startup_command(shell, c)),
                            None => None,
                        },
                    ),
                ),
            )
        } else {
            p
        }
    }
}

/// Plan the panes of a window: the first configured pane is respawned with
/// its wrapped command when it carries one; every later entry with a split
/// direction becomes one split of its target pane (defaulting to the most
/// recent); at most one pane takes focus, the first by default. The returned
/// invocations are exactly the plan's, in order.
pub fn setup_panes(
    prefix: &str,
    window_name: &str,
    panes: &Vec<PaneConfig>,
    working_dir: &str,
    shell: &str,
) -> (r: (PaneSetupResult, Vec<Cmd>))
    ensures
        ({
            let plan = spec_pane_plan(prefix@, window_name@, working_dir@, shell@, panes@);
            &&& r.0.focus_pane_index as int == match plan.0 {
                Some(f) => f,
                None => 0int,
            }
            &&& r.1.deep_view() == plan.2
        }),
{
    let ghost full_plan = spec_pane_plan(prefix@, window_name@, working_dir@, shell@, panes@);
    if panes.len() == 0 {
        let actions: Vec<Cmd> = Vec::new();
        proof {
            assert(actions.deep_view() =~~= full_plan.2);
        }
        return (PaneSetupResult { focus_pane_index: 0 }, actions);
    }
    let mut actions: Vec<Cmd> = Vec::new();
    let mut focus: Option<usize> = None;
    // The window's existing first pane: respawn it only when it carries a
    // command.
    let first = &panes[0];
    if let Some(cmd_str) = &first.command {
        if let Some(startup) = build_startup_command(shell, Some(cmd_str.as_str())) {
            let ghost pre = actions.deep_view();
            let action = respawn_pane(prefix, window_name, 0, working_dir, startup.as_str());
            proof {
                assert(action@ =~~= spec_respawn_action(
                    prefix@,
                    window_name@,
                    working_dir@,
                    spec_startup_command(shell@, cmd_str@),
                ));
            }
            actions.push(action);
            proof {
                assert(actions.deep_view() =~~= pre.push(action@));
            }
        }
    }
    if first.focus {
        focus = Some(0);
    }
    proof {
        assert(panes@.take(1).len() == 1);
        assert(panes@.take(1)[0] == panes@[0]);
        assert(actions.deep_view() =~~= spec_pane_plan(
            prefix@,
            window_name@,
            working_dir@,
            shell@,
            panes@.take(1),
        ).2);
    }
    let mut actual_pane_count: usize = 1;
    let mut i: usize = 1;
    while i < panes.len()
        invariant
            1 <= i <= panes.len(),
            1 <= actual_pane_count,
            actual_pane_count as int == spec_pane_plan(
                prefix@,
                window_name@,
                working_dir@,
                shell@,
                panes@.take(i as int),
            ).1,
            actual_pane_count <= i,
            match focus {
                Some(f) => spec_pane_plan(
                    prefix@,
                    window_name@,
                    working_dir@,
                    shell@,
                    panes@.take(i as int),
                ).0 == Some(f as int),
                None => spec_pane_plan(
                    prefix@,
                    window_name@,
                    working_dir@,
                    shell@,
                    panes@.take(i as int),
                ).0 is None,
            },
            actions.deep_view() == spec_pane_plan(
                prefix@,
                window_name@,
                working_dir@,
                shell@,
                panes@.take(i as int),
            ).2,
        decreases panes.len() - i,
    {
        proof {
            assert(panes@.take(i + 1).drop_last() =~= panes@.take(i as int));
            assert(panes@.take(i + 1).last() == panes@[i as int]);
        }
        let pane = &panes[i];
        if let Some(direction) = &pane.split {
            let target_pane = match pane.target {
                Some(t) => t,
                None => actual_pane_count - 1,
            };
            let startup = match &pane.command {
                Some(cs) => build_startup_command(shell, Some(cs.as_str())),
                None => None,
            };
            let action = match &startup {
                Some(s) => split_pane_with_command(
                    prefix,
                    window_name,
                    target_pane,
                    direction,
                    working_dir,
                    Some(s.as_str()),
                ),
                None => split_pane_with_command(
                    prefix,
                    window_name,
                    target_pane,
                    direction,
                    working_dir,
                    None,
                ),
            };
            proof {
                let p = spec_pane_plan(
                    prefix@,
                    window_name@,
                    working_dir@,
                    shell@,
                    panes@.take(i as int),
                );
                assert(action@ =~~= spec_split_action(
                    prefix@,
                    window_name@,
                    match panes@[i as int].target {
                        Some(t) => t as int,
                        None => p.1 - 1,
                    },
                    panes@[i as int].split == Some(SplitDirection::Horizontal),
                    working_dir@,
                    match crate::cmd::opt_view(panes@[i as int].command) {
                        Some(c) => Some(spec_startup_command(shell@, c)),
                        None => None,
                    },
                ));
            }
            let ghost pre = actions.deep_view();
            actions.push(action);
            proof {
                assert(actions.deep_view() =~~= pre.push(action@));
            }
            if pane.focus {
                focus = Some(actual_pane_count);
            }
            actual_pane_count = actual_pane_count + 1;
        }
        i = i + 1;
    }
    proof {
        assert(panes@.take(panes.len() as int) =~= panes@);
    }
    let focus_pane_index = match focus {
        Some(f) => f,
        None => 0,
    };
    (PaneSetupResult { focus_pane_index }, actions)
}


} // verus!
