//! How an extension stands.
use vstd::prelude::*;

use crate::extensions::capability::CapabilitySummary;

verus! {

#[derive(Clone, Copy, Debug, PartialEq, Eq, Structural)]
pub enum ExtensionState {
    Discovered,
    Validated,
    Configured,
    Enabled,
    Healthy,
    Degraded,
    Disabled,
}

impl ExtensionState {
    /// The name under which the state is written.
    pub open spec fn name(self) -> Seq<char> {
        match self {
            ExtensionState::Discovered => "discovered"@,
            ExtensionState::Validated => "validated"@,
            ExtensionState::Configured => "configured"@,
            ExtensionState::Enabled => "enabled"@,
            ExtensionState::Healthy => "healthy"@,
            ExtensionState::Degraded => "degraded"@,
            ExtensionState::Disabled => "disabled"@,
        }
    }

    pub fn as_str(self) -> (r: &'static str)
        ensures
            r@ == self.name(),
    {
        match self {
            ExtensionState::Discovered => "discovered",
            ExtensionState::Validated => "validated",
            ExtensionState::Configured => "configured",
            ExtensionState::Enabled => "enabled",
            ExtensionState::Healthy => "healthy",
            ExtensionState::Degraded => "degraded",
            ExtensionState::Disabled => "disabled",
        }
    }
}

/// A name belongs to one state alone.
pub proof fn law_extension_state_names_distinct(a: ExtensionState, b: ExtensionState)
    requires
        a.name() == b.name(),
    ensures
        a == b,
{
    reveal_strlit("discovered");
    assert("discovered"@.len() == 10);
    assert("discovered"@[0] == 'd');
    assert("discovered"@[1] == 'i');
    reveal_strlit("validated");
    assert("validated"@.len() == 9);
    assert("validated"@[0] == 'v');
    assert("validated"@[1] == 'a');
    reveal_strlit("configured");
    assert("configured"@.len() == 10);
    assert("configured"@[0] == 'c');
    assert("configured"@[1] == 'o');
    reveal_strlit("enabled");
    assert("enabled"@.len() == 7);
    assert("enabled"@[0] == 'e');
    assert("enabled"@[1] == 'n');
    reveal_strlit("healthy");
    assert("healthy"@.len() == 7);
    assert("healthy"@[0] == 'h');
    assert("healthy"@[1] == 'e');
    reveal_strlit("degraded");
    assert("degraded"@.len() == 8);
    assert("degraded"@[0] == 'd');
    assert("degraded"@[1] == 'e');
    reveal_strlit("disabled");
    assert("disabled"@.len() == 8);
    assert("disabled"@[0] == 'd');
    assert("disabled"@[1] == 'i');
}

#[derive(Debug)]
pub struct ExtensionHealth {
    pub state: ExtensionState,
    pub detail: Option<String>,
    pub restart_count: u32,
}

impl ExtensionHealth {
    pub fn disabled(detail: String) -> (r: Self)
        ensures
            r.state is Disabled,
            r.detail == Some(detail),
            r.restart_count == 0,
    {
        ExtensionHealth { state: ExtensionState::Disabled, detail: Some(detail), restart_count: 0 }
    }

    pub fn healthy() -> (r: Self)
        ensures
            r.state is Healthy,
            r.detail is None,
            r.restart_count == 0,
    {
        ExtensionHealth { state: ExtensionState::Healthy, detail: None, restart_count: 0 }
    }

    pub fn degraded(detail: String, restart_count: u32) -> (r: Self)
        ensures
            r.state is Degraded,
            r.detail == Some(detail),
            r.restart_count == restart_count,
    {
        ExtensionHealth { state: ExtensionState::Degraded, detail: Some(detail), restart_count }
    }
}

/// An extension as it appears in a list.
#[derive(Debug)]
pub struct ExtensionSummary {
    pub id: String,
    pub kind: String,
    pub version: String,
    pub hash: String,
    pub enabled: bool,
    pub health: ExtensionHealth,
    pub workspaces: Vec<String>,
    pub capabilities: Vec<CapabilitySummary>,
}

} // verus!
