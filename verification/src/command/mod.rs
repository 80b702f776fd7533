//! The decisions behind the command surface: each command's pure core, fed
//! with what the binary observed and handing back what it must do.

pub mod close;
pub mod list;
pub mod last_agent;
pub mod set_window_status;
