//! The git adapter: invocations of git expressed as command values, and
//! verified parsers and decisions over what git printed back.

pub mod branch;
pub mod merge;
pub mod remote;
pub mod repo;
pub mod status;
pub mod types;
pub mod worktree;
pub mod url;
