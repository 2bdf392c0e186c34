//! Dashboard data: commits, loading state and the dashboard state machine.
pub mod git;
pub mod state;
pub mod models;
