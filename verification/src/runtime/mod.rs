//! Threads, turns and events, and the decisions that drive them.
pub mod thread;
pub mod turn_law;
pub mod context;
pub mod context_law;
pub mod envelope;
pub mod event;
pub mod event_law;
pub mod incident;
pub mod recovery;
pub mod report_law;
pub mod recovery_law;
pub mod summary;
pub mod tool_call;
pub mod agent;
pub mod citation_law;
pub mod remediation;
pub mod remediation_law;
pub mod execution;
