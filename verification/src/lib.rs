//! A verified core for a local-first operations agent.
pub mod cli;
pub mod config;
pub mod config_law;
pub mod text;
pub mod json;
pub mod json_law;
pub mod json_line;
pub mod json_map;
pub mod json_read;
pub mod names_law;
pub mod error;
pub mod digest;
pub mod time;
pub mod url_text;
pub mod uuid_text;
pub mod runtime;
pub mod tools;
pub mod evidence;
pub mod extensions;
pub mod policy;
pub mod action;
pub mod model;
pub mod seqs;
pub mod server;
pub mod store;
pub mod telemetry;
pub mod order;
pub mod ops;
pub mod front_matter;
pub mod runbook;
