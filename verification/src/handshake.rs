//! The pane handshake: synchronization that blocks until a newly spawned
//! shell is ready to accept input. The tmux mechanism locks a wait channel
//! before spawning, has the shell unlock it, and polls a re-lock with a hard
//! timeout.

use vstd::prelude::*;

use crate::cmd::Cmd;
use crate::text::{escape_single_quotes, format_u64, spec_escape_squotes, spec_nat_string};

verus! {

/// The hard ceiling on waiting for a pane's shell, in milliseconds.
pub const HANDSHAKE_TIMEOUT_MS: u64 = 5000;

/// A handshake mechanism: it wraps the shell so the pane signals readiness.
/// Other backends implement the same contract with their own primitives.
pub trait PaneHandshake {
    /// The command that wraps the shell to signal readiness, formatted for
    /// shell evaluation.
    fn wrapper_command(&self, shell: &str) -> String;
}

/// The tmux wait-for handshake: a unique channel, locked before the pane
/// spawns and unlocked by the shell once it runs.
pub struct TmuxHandshake {
    /// The wait channel's name.
    pub channel: String,
}

/// The channel name for a handshake begun by process `pid` at `nanos`.
pub open spec fn spec_channel_name(pid: int, nanos: int) -> Seq<char> {
    "wm_ready_"@ + spec_nat_string(pid) + "_"@ + spec_nat_string(nanos)
}

/// A unique wait channel name from the process id and a clock reading.
pub fn channel_name(pid: u64, nanos: u64) -> (r: String)
    ensures
        r@ == spec_channel_name(pid as int, nanos as int),
{
    let mut s = String::new();
    s.append("wm_ready_");
    let p = format_u64(pid);
    s.append(p.as_str());
    s.append("_");
    let n = format_u64(nanos);
    s.append(n.as_str());
    proof {
        assert(s@ =~= spec_channel_name(pid as int, nanos as int));
    }
    s
}

/// The wrapper a pane runs: quietly unlock the channel, then become a login
/// shell, all under `sh -c` so a non-POSIX default shell cannot garble it.
pub open spec fn spec_wrapper_command(channel: Seq<char>, shell: Seq<char>) -> Seq<char> {
    "sh -c \"stty -echo 2>/dev/null; tmux wait-for -U "@ + channel
        + "; stty echo 2>/dev/null; exec '"@ + spec_escape_squotes(shell) + "' -l\""@
}

impl TmuxHandshake {
    /// A handshake over the given channel. The caller locks the channel (see
    /// `lock_cmd`) before spawning the pane.
    pub fn with_channel(channel: String) -> (r: TmuxHandshake)
        ensures
            r.channel@ == channel@,
    {
        TmuxHandshake { channel }
    }

    /// Lock the channel, so the shell's unlock cannot be missed.
    pub fn lock_cmd(&self) -> (c: Cmd)
        ensures
            c.command@ == "tmux"@,
            c.workdir is None,
            c.args.deep_view() == seq!["wait-for"@, "-L"@, self.channel@],
    {
        let c = Cmd::new("tmux").arg("wait-for").arg("-L").arg(self.channel.as_str());
        proof {
            assert(c.args.deep_view() =~= seq!["wait-for"@, "-L"@, self.channel@]);
        }
        c
    }

    /// Unlock the channel: the cleanup after success, failure, or timeout.
    pub fn unlock_cmd(&self) -> (c: Cmd)
        ensures
            c.command@ == "tmux"@,
            c.workdir is None,
            c.args.deep_view() == seq!["wait-for"@, "-U"@, self.channel@],
    {
        let c = Cmd::new("tmux").arg("wait-for").arg("-U").arg(self.channel.as_str());
        proof {
            assert(c.args.deep_view() =~= seq!["wait-for"@, "-U"@, self.channel@]);
        }
        c
    }

    /// The blocking re-lock whose completion signals that the shell unlocked
    /// the channel; the caller spawns it and polls.
    pub fn wait_cmd(&self) -> (c: Cmd)
        ensures
            c.command@ == "tmux"@,
            c.workdir is None,
            c.args.deep_view() == seq!["wait-for"@, "-L"@, self.channel@],
    {
        self.lock_cmd()
    }
}

impl PaneHandshake for TmuxHandshake {
    /// Build the shell wrapper that signals readiness: echo off, unlock,
    /// echo on, then exec the (quoted) shell as a login shell.
    fn wrapper_command(&self, shell: &str) -> (r: String)
        ensures
            r@ == spec_wrapper_command(self.channel@, shell@),
    {
        let escaped = escape_single_quotes(shell);
        let mut s = String::new();
        s.append("sh -c \"stty -echo 2>/dev/null; tmux wait-for -U ");
        s.append(self.channel.as_str());
        s.append("; stty echo 2>/dev/null; exec '");
        s.append(escaped.as_str());
        s.append("' -l\"");
        proof {
            assert(s@ =~= spec_wrapper_command(self.channel@, shell@));
        }
        s
    }
}

/// What polling the re-lock observed.
#[derive(Debug, Clone, Copy, PartialEq, Eq, Structural)]
pub enum ChildPoll {
    /// The re-lock process exited; the payload says whether successfully.
    Exited(bool),
    /// The re-lock process still runs.
    Running,
    /// Polling itself failed.
    PollError,
}

/// What one handshake poll decides.
#[derive(Debug, Clone, Copy, PartialEq, Eq, Structural)]
pub enum HandshakeStep {
    /// The shell is ready: unlock the channel and proceed.
    Succeeded,
    /// The wait failed: unlock best-effort and report the failure.
    Failed,
    /// The ceiling passed: kill the child, unlock best-effort, and report a
    /// timeout.
    TimedOut,
    /// Keep polling after a short sleep.
    KeepWaiting,
}

/// Decide one poll of the handshake: a clean exit succeeds, a failed exit or
/// poll error fails, and a child still running times out once `elapsed_ms`
/// reaches the ceiling.
pub fn handshake_wait_step(poll: ChildPoll, elapsed_ms: u64, timeout_ms: u64) -> (r: HandshakeStep)
    ensures
        r == match poll {
            ChildPoll::Exited(true) => HandshakeStep::Succeeded,
            ChildPoll::Exited(false) => HandshakeStep::Failed,
            ChildPoll::PollError => HandshakeStep::Failed,
            ChildPoll::Running => {
                if elapsed_ms >= timeout_ms {
                    HandshakeStep::TimedOut
                } else {
                    HandshakeStep::KeepWaiting
                }
            },
        },
{
    match poll {
        ChildPoll::Exited(true) => HandshakeStep::Succeeded,
        ChildPoll::Exited(false) => HandshakeStep::Failed,
        ChildPoll::PollError => HandshakeStep::Failed,
        ChildPoll::Running => {
            if elapsed_ms >= timeout_ms {
                HandshakeStep::TimedOut
            } else {
                HandshakeStep::KeepWaiting
            }
        },
    }
}

} // verus!
