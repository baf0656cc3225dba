//! The names under which things are written down. What was stored or sent under them
//! once has to be understood later.
use vstd::prelude::*;

use crate::action::ActionStatus;
use crate::error::ConnectorClass;
use crate::evidence::Sensitivity;
use crate::evidence::diagnosis::{ClaimKind, Confidence};
use crate::extensions::capability::{CapabilityEffect, CapabilitySource};
use crate::extensions::lifecycle::ExtensionState;
use crate::ops::CheckStatus;
use crate::runtime::event::{EventView, StreamKind};
use crate::runtime::thread::{ThreadStatus, TurnStatus};
use crate::store::continuity::{ApprovalStatus, CheckpointPhase, ResumePolicy};

verus! {

/// The names of where capabilities come from.
pub proof fn law_names_of_capability_sources(value: CapabilitySource)
    ensures
        value.name() == (match value {
            CapabilitySource::Builtin => "builtin"@,
            CapabilitySource::Mcp => "mcp"@,
            CapabilitySource::Custom => "custom"@,
        }),
{
}

/// The names of effects.
pub proof fn law_names_of_effects(value: CapabilityEffect)
    ensures
        value.name() == (match value {
            CapabilityEffect::Observe => "observe"@,
            CapabilityEffect::ChangeReversible => "change_reversible"@,
            CapabilityEffect::ChangeIrreversible => "change_irreversible"@,
            CapabilityEffect::ExternalSideEffect => "external_side_effect"@,
        }),
{
}

/// The names of the states of extensions.
pub proof fn law_names_of_extension_states(value: ExtensionState)
    ensures
        value.name() == (match value {
            ExtensionState::Discovered => "discovered"@,
            ExtensionState::Validated => "validated"@,
            ExtensionState::Configured => "configured"@,
            ExtensionState::Enabled => "enabled"@,
            ExtensionState::Healthy => "healthy"@,
            ExtensionState::Degraded => "degraded"@,
            ExtensionState::Disabled => "disabled"@,
        }),
{
}

/// The names of the states of threads.
pub proof fn law_names_of_thread_statuses(value: ThreadStatus)
    ensures
        value.name() == (match value {
            ThreadStatus::Idle => "idle"@,
            ThreadStatus::Running => "running"@,
            ThreadStatus::WaitingApproval => "waiting_approval"@,
            ThreadStatus::Interrupted => "interrupted"@,
            ThreadStatus::NeedsReconciliation => "needs_reconciliation"@,
            ThreadStatus::Failed => "failed"@,
        }),
{
}

/// The names of the states of turns.
pub proof fn law_names_of_turn_statuses(value: TurnStatus)
    ensures
        value.name() == (match value {
            TurnStatus::Running => "running"@,
            TurnStatus::WaitingApproval => "waiting_approval"@,
            TurnStatus::Completed => "completed"@,
            TurnStatus::Failed => "failed"@,
            TurnStatus::Cancelled => "cancelled"@,
            TurnStatus::Interrupted => "interrupted"@,
            TurnStatus::NeedsReconciliation => "needs_reconciliation"@,
        }),
{
}

/// The names of the kinds of streams.
pub proof fn law_names_of_stream_kinds(value: StreamKind)
    ensures
        value.name() == (match value {
            StreamKind::Domain => "domain"@,
            StreamKind::Delivery => "delivery"@,
        }),
{
}

/// The names of events.
pub proof fn law_names_of_events(value: EventView)
    ensures
        value.name() == (match value {
            EventView::ThreadCreated => "thread_created"@,
            EventView::UserMessage { .. } => "user_message"@,
            EventView::TurnStarted => "turn_started"@,
            EventView::AssistantDelta { .. } => "assistant_delta"@,
            EventView::AssistantCompleted { .. } => "assistant_completed"@,
            EventView::ToolStarted { .. } => "tool_started"@,
            EventView::ToolProposed { .. } => "tool_proposed"@,
            EventView::ToolAuthorized { .. } => "tool_authorized"@,
            EventView::ToolExecutionStarted { .. } => "tool_execution_started"@,
            EventView::ToolCompleted { .. } => "tool_completed"@,
            EventView::ApprovalRequired { .. } => "approval_required"@,
            EventView::ApprovalResolved { .. } => "approval_resolved"@,
            EventView::TurnCompleted => "turn_completed"@,
            EventView::TurnFailed { .. } => "turn_failed"@,
            EventView::TurnCancelled => "turn_cancelled"@,
            EventView::ContextCompacted { .. } => "context_compacted"@,
        }),
{
}

/// The names of what came of checks.
pub proof fn law_names_of_checks(value: CheckStatus)
    ensures
        value.name() == (match value {
            CheckStatus::Passed => "ok"@,
            CheckStatus::Degraded => "degraded"@,
            CheckStatus::Error => "error"@,
        }),
{
}

/// The names of the classes of errors.
pub proof fn law_names_of_error_classes(value: ConnectorClass)
    ensures
        value.name() == (match value {
            ConnectorClass::Auth => "auth"@,
            ConnectorClass::RateLimit => "rate_limit"@,
            ConnectorClass::Timeout => "timeout"@,
            ConnectorClass::Unavailable => "unavailable"@,
            ConnectorClass::InvalidQuery => "invalid_query"@,
            ConnectorClass::MalformedData => "malformed_data"@,
            ConnectorClass::Policy => "policy"@,
        }),
{
}

/// The names of the phases of turns.
pub proof fn law_names_of_phases(value: CheckpointPhase)
    ensures
        value.name() == (match value {
            CheckpointPhase::Queued => "queued"@,
            CheckpointPhase::ModelRunning => "model_running"@,
            CheckpointPhase::WaitingApproval => "waiting_approval"@,
            CheckpointPhase::ToolRunning => "tool_running"@,
            CheckpointPhase::ToolCompleted => "tool_completed"@,
            CheckpointPhase::Interrupted => "interrupted"@,
            CheckpointPhase::NeedsReconciliation => "needs_reconciliation"@,
            CheckpointPhase::Completed => "completed"@,
            CheckpointPhase::Failed => "failed"@,
            CheckpointPhase::Cancelled => "cancelled"@,
        }),
{
}

/// The names of the ways to resume a turn.
pub proof fn law_names_of_policies(value: ResumePolicy)
    ensures
        value.name() == (match value {
            ResumePolicy::ReplayModel => "replay_model"@,
            ResumePolicy::WaitApproval => "wait_approval"@,
            ResumePolicy::RetryObserve => "retry_observe"@,
            ResumePolicy::SkipCompletedTool => "skip_completed_tool"@,
            ResumePolicy::Reconcile => "reconcile"@,
            ResumePolicy::NoResume => "none"@,
        }),
{
}

/// The names of the states of approvals.
pub proof fn law_names_of_approvals(value: ApprovalStatus)
    ensures
        value.name() == (match value {
            ApprovalStatus::Pending => "pending"@,
            ApprovalStatus::Approved => "approved"@,
            ApprovalStatus::Rejected => "rejected"@,
            ApprovalStatus::Expired => "expired"@,
        }),
{
}

/// The names of the states of actions.
pub proof fn law_names_of_actions(value: ActionStatus)
    ensures
        value.name() == (match value {
            ActionStatus::Proposed => "proposed"@,
            ActionStatus::PolicyDenied => "policy_denied"@,
            ActionStatus::DryRun => "dry_run"@,
            ActionStatus::Invalid => "invalid"@,
            ActionStatus::AwaitingApproval => "awaiting_approval"@,
            ActionStatus::Expired => "expired"@,
            ActionStatus::Rejected => "rejected"@,
            ActionStatus::Authorized => "authorized"@,
            ActionStatus::PreconditionCheck => "precondition_check"@,
            ActionStatus::Stale => "stale"@,
            ActionStatus::Executing => "executing"@,
            ActionStatus::Verifying => "verifying"@,
            ActionStatus::Succeeded => "succeeded"@,
            ActionStatus::VerificationFailed => "verification_failed"@,
            ActionStatus::RollbackProposed => "rollback_proposed"@,
            ActionStatus::NeedsReconciliation => "needs_reconciliation"@,
        }),
{
}

/// The names of the kinds of claims.
pub proof fn law_names_of_claims(value: ClaimKind)
    ensures
        value.name() == (match value {
            ClaimKind::Observed => "observed"@,
            ClaimKind::Inferred => "inferred"@,
            ClaimKind::Recommended => "recommended"@,
        }),
{
}

/// The names of how sure claims are.
pub proof fn law_names_of_confidences(value: Confidence)
    ensures
        value.name() == (match value {
            Confidence::Low => "low"@,
            Confidence::Medium => "medium"@,
            Confidence::High => "high"@,
        }),
{
}

/// The names of how sensitive evidence is.
pub proof fn law_names_of_sensitivities(value: Sensitivity)
    ensures
        value.name() == (match value {
            Sensitivity::Public => "public"@,
            Sensitivity::Internal => "internal"@,
            Sensitivity::Confidential => "confidential"@,
            Sensitivity::Secret => "secret"@,
        }),
{
}

} // verus!
