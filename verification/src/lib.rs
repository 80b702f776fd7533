//! Verified core of a worktree/multiplexer workflow orchestrator.
//!
//! The library computes the invocations handed to external tools (`git`, the
//! terminal multiplexer), parses their output, and keeps the persistent agent
//! state consistent. Everything here is verified; running the external tools
//! and touching the filesystem is left to the thin binary around the library.

pub mod cmd;
pub mod command;
pub mod config;
pub mod dashboard;
pub mod git;
pub mod handshake;
pub mod multiplexer;
pub mod nerdfont;
pub mod state;
pub mod text;
pub mod tmux;
pub mod workflow;

pub use cmd::Cmd;
pub use dashboard::agent::{
    elapsed_secs, extract_project_name, extract_worktree_name, format_duration, is_stale,
};
pub use dashboard::ansi::strip_ansi_escapes;
