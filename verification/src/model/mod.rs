//! Models: what is asked of them and what they answer.
pub mod demo;
pub mod fake;
pub mod model_law;
pub mod openai;
pub mod provider;
pub mod sse;
