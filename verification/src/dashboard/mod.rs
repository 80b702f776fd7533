//! The dashboard's computations: agent staleness, project extraction,
//! ANSI handling, sort modes, and the diff/hunk engine.

pub mod agent;
pub mod ansi;
pub mod diff;
pub mod settings;
pub mod sort;
