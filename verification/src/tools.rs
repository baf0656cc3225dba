//! What the runtime knows of every tool.
use vstd::prelude::*;

use crate::evidence::EvidenceMeta;
use crate::json::Json;

verus! {

/// The largest output that a tool may return.
pub const MAX_OUTPUT_BYTES: usize = 65536;

/// How a tool is treated before it runs.
#[derive(Clone, Copy, Debug, PartialEq, Eq, Structural)]
pub enum ToolRisk {
    Safe,
    Ask,
    Forbidden,
}

/// What a tool returns, and where it comes from.
#[derive(Debug)]
pub struct ToolOutput {
    pub content: Json,
    pub evidence: EvidenceMeta,
}

} // verus!
