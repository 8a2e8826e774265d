//! Personal machine setup: installing release binaries and generating
//! per-host SSH configuration entries.
pub mod install;
pub mod paths;
pub mod ssh;
