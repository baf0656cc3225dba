//! What the HTTP interface decides and answers.
pub mod active;
pub mod routes;
pub mod server_law;
pub mod sse;
