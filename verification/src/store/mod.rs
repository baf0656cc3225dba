//! Durable threads: logs, projections and what survives a crash.
pub mod migrate;
pub mod projection;
pub mod continuity;
pub mod log;
pub mod log_law;
pub mod sqlite;
pub mod thread_law;
pub mod lease;
pub mod fork;
pub mod fork_law;
pub mod history_law;
pub mod list;
