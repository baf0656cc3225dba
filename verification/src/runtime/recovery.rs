//! What is done about a turn that a crash cut short.
use vstd::prelude::*;

use crate::extensions::capability::{CapabilityEffect, RecoveryMode};
use crate::runtime::envelope::{log_view, EnvelopeView, EventEnvelope};
use crate::runtime::event::{EventView, RuntimeEvent};
use crate::runtime::thread::{TurnId, TurnStatus};
use crate::store::continuity::{
    CheckpointPhase, CheckpointRecord, CheckpointView, OperationView, RecoveryReport, ResumePolicy,
};
use crate::text::{same, views};

verus! {

/// A tool may run again when its result is unknown: it only observes, and is not
/// declared to need reconciliation.
pub open spec fn may_retry(effect: CapabilityEffect, recovery: Option<RecoveryMode>) -> bool {
    effect is Observe && recovery != Some(RecoveryMode::NeedsReconciliation)
}

pub fn tool_is_retryable(effect: CapabilityEffect, recovery: Option<RecoveryMode>) -> (r: bool)
    ensures
        r == may_retry(effect, recovery),
{
    if matches!(recovery, Some(RecoveryMode::NeedsReconciliation)) {
        return false;
    }
    matches!(effect, CapabilityEffect::Observe)
}

/// Reads the name of an effect. A name that is not known counts as an external
/// side effect.
pub fn parse_effect(value: &str) -> (r: CapabilityEffect)
    ensures
        r.name() == value@ || (r is ExternalSideEffect && forall|effect: CapabilityEffect|
            #[trigger] effect.name() != value@),
{
    match CapabilityEffect::parse(value) {
        Ok(effect) => effect,
        Err(_) => CapabilityEffect::ExternalSideEffect,
    }
}

/// The recovery mode that an optional name stands for.
pub open spec fn recovery_named(value: Option<Seq<char>>) -> Option<RecoveryMode> {
    match value {
        Some(value) => RecoveryMode::named(value),
        None => None,
    }
}

pub fn parse_recovery(value: Option<&str>) -> (r: Option<RecoveryMode>)
    ensures
        r == recovery_named(crate::json::str_view(value)),
{
    match value {
        Some(value) => match RecoveryMode::parse(value) {
            Ok(mode) => Some(mode),
            Err(_) => None,
        },
        None => None,
    }
}

/// The calls that a log completes, in the order in which it does.
pub open spec fn completed_calls(events: Seq<EnvelopeView>) -> Seq<Seq<char>>
    decreases events.len(),
{
    if events.len() == 0 {
        Seq::empty()
    } else {
        let before = completed_calls(events.drop_last());
        match events.last().event {
            EventView::ToolCompleted { call_id, .. } => before.push(call_id),
            _ => before,
        }
    }
}

pub fn completed_tools(events: &Vec<EventEnvelope>) -> (r: Vec<String>)
    ensures
        views(r@) == completed_calls(log_view(events@)),
{
    let mut calls: Vec<String> = Vec::new();
    let mut i: usize = 0;
    let ghost log = log_view(events@);
    assert(views(calls@) =~= completed_calls(log.take(0)));
    while i < events.len()
        invariant
            i <= events@.len(),
            log == log_view(events@),
            views(calls@) == completed_calls(log.take(i as int)),
        decreases events@.len() - i,
    {
        assert(log.take(i + 1).drop_last() =~= log.take(i as int));
        assert(log.take(i + 1).last() == events@[i as int]@);
        let ghost before = calls@;
        if let RuntimeEvent::ToolCompleted { call_id, .. } = &events[i].event {
            calls.push(call_id.clone());
            assert(views(calls@) =~= views(before).push(call_id@));
        }
        i += 1;
    }
    assert(log.take(i as int) =~= log);
    calls
}

/// What is done: the status of the turn, how it goes on, the risk, and what
/// the user is told.
pub struct OutcomeView {
    pub status: TurnStatus,
    pub policy: ResumePolicy,
    pub risk: Seq<char>,
    pub action: Seq<char>,
}

pub struct Outcome {
    pub status: TurnStatus,
    pub policy: ResumePolicy,
    pub risk: String,
    pub action: String,
}

impl Outcome {
    pub open spec fn view(&self) -> OutcomeView {
        OutcomeView {
            status: self.status,
            policy: self.policy,
            risk: self.risk@,
            action: self.action@,
        }
    }
}

/// The effect that an operation is recorded with, and how it recovers, allow
/// that it runs again.
pub open spec fn operation_may_retry(operation: OperationView) -> bool {
    operation.effect == CapabilityEffect::Observe.name() && recovery_named(operation.recovery)
        != Some(RecoveryMode::NeedsReconciliation)
}

/// What is done about a tool that was running.
pub open spec fn running_outcome(
    operation: Option<OperationView>,
    completed: Seq<Seq<char>>,
) -> OutcomeView {
    match operation {
        None => OutcomeView {
            status: TurnStatus::Interrupted,
            policy: ResumePolicy::ReplayModel,
            risk: "none"@,
            action: "Resume from the last model step. No pending tool was recorded."@,
        },
        Some(operation) => if completed.contains(operation.call_id) {
            OutcomeView {
                status: TurnStatus::Interrupted,
                policy: ResumePolicy::SkipCompletedTool,
                risk: "none"@,
                action: "Resume from the next model step. The last tool result is already durable."@,
            }
        } else if operation_may_retry(operation) {
            OutcomeView {
                status: TurnStatus::Interrupted,
                policy: ResumePolicy::RetryObserve,
                risk: "retryable_observe"@,
                action: "Resume may retry observe tool `"@ + operation.tool + "` with operation "@
                    + operation.operation_id + "."@,
            }
        } else {
            OutcomeView {
                status: TurnStatus::NeedsReconciliation,
                policy: ResumePolicy::Reconcile,
                risk: "external_state_unknown"@,
                action: "Tool `"@ + operation.tool
                    + "` started a change or side-effecting operation whose result is unknown. Do not retry it automatically."@,
            }
        },
    }
}

/// What is done about a turn, by where it stood.
pub open spec fn outcome(checkpoint: CheckpointView, completed: Seq<Seq<char>>) -> OutcomeView {
    match checkpoint.phase {
        CheckpointPhase::Completed => OutcomeView {
            status: TurnStatus::Completed,
            policy: ResumePolicy::NoResume,
            risk: "none"@,
            action: "Turn already completed."@,
        },
        CheckpointPhase::Failed => OutcomeView {
            status: TurnStatus::Failed,
            policy: ResumePolicy::NoResume,
            risk: "none"@,
            action: "Turn already failed."@,
        },
        CheckpointPhase::Cancelled => OutcomeView {
            status: TurnStatus::Cancelled,
            policy: ResumePolicy::NoResume,
            risk: "none"@,
            action: "Turn was cancelled."@,
        },
        CheckpointPhase::NeedsReconciliation => OutcomeView {
            status: TurnStatus::NeedsReconciliation,
            policy: ResumePolicy::Reconcile,
            risk: "external_state_unknown"@,
            action: "Inspect the last change operation; OpsCodex will not retry it automatically."@,
        },
        CheckpointPhase::WaitingApproval => OutcomeView {
            status: TurnStatus::WaitingApproval,
            policy: ResumePolicy::WaitApproval,
            risk: "approval_required"@,
            action: "Resume to continue waiting for the original approval, or reject it."@,
        },
        CheckpointPhase::ToolRunning => running_outcome(checkpoint.pending_operation, completed),
        CheckpointPhase::ToolCompleted => OutcomeView {
            status: TurnStatus::Interrupted,
            policy: ResumePolicy::SkipCompletedTool,
            risk: "none"@,
            action: "Resume from the next model step. Completed tools will not run again."@,
        },
        _ => OutcomeView {
            status: TurnStatus::Interrupted,
            policy: ResumePolicy::ReplayModel,
            risk: "none"@,
            action: "Resume to resend the model request from the last normalized context."@,
        },
    }
}

fn make_outcome(status: TurnStatus, policy: ResumePolicy, risk: &str, action: &str) -> (r: Outcome)
    ensures
        r@ == (OutcomeView { status, policy, risk: risk@, action: action@ }),
{
    Outcome { status, policy, risk: risk.to_owned(), action: action.to_owned() }
}

fn holds_text(texts: &Vec<String>, text: &str) -> (r: bool)
    ensures
        r == views(texts@).contains(text@),
{
    let mut i: usize = 0;
    while i < texts.len()
        invariant
            i <= texts@.len(),
            forall|k: int| 0 <= k < i ==> (#[trigger] texts@[k])@ != text@,
        decreases texts@.len() - i,
    {
        if same(texts[i].as_str(), text) {
            assert(views(texts@)[i as int] == text@);
            return true;
        }
        i += 1;
    }
    assert forall|k: int| 0 <= k < views(texts@).len() implies views(texts@)[k] != text@ by {
        assert(texts@[k]@ != text@);
    }
    false
}

fn classify_tool_running(checkpoint: &CheckpointRecord, skipped_tools: &Vec<String>) -> (r: Outcome)
    ensures
        r@ == running_outcome(checkpoint@.pending_operation, views(skipped_tools@)),
{
    let operation = match &checkpoint.pending_operation {
        Some(operation) => operation,
        None => {
            return make_outcome(
                TurnStatus::Interrupted,
                ResumePolicy::ReplayModel,
                "none",
                "Resume from the last model step. No pending tool was recorded.",
            );
        },
    };
    if holds_text(skipped_tools, operation.call_id.as_str()) {
        return make_outcome(
            TurnStatus::Interrupted,
            ResumePolicy::SkipCompletedTool,
            "none",
            "Resume from the next model step. The last tool result is already durable.",
        );
    }
    let effect = parse_effect(operation.effect.as_str());
    let recovery = parse_recovery(
        match &operation.recovery {
            Some(text) => Some(text.as_str()),
            None => None,
        },
    );
    proof {
        lemma_observe_is_named(effect, operation.effect@);
    }
    if tool_is_retryable(effect, recovery) {
        let mut action = "Resume may retry observe tool `".to_owned();
        action.append(operation.tool.as_str());
        action.append("` with operation ");
        action.append(operation.operation_id.as_str());
        action.append(".");
        make_outcome(
            TurnStatus::Interrupted,
            ResumePolicy::RetryObserve,
            "retryable_observe",
            action.as_str(),
        )
    } else {
        let mut action = "Tool `".to_owned();
        action.append(operation.tool.as_str());
        action.append(
            "` started a change or side-effecting operation whose result is unknown. Do not retry it automatically.",
        );
        make_outcome(
            TurnStatus::NeedsReconciliation,
            ResumePolicy::Reconcile,
            "external_state_unknown",
            action.as_str(),
        )
    }
}

/// An effect that was read is observation exactly where its name says so.
proof fn lemma_observe_is_named(effect: CapabilityEffect, name: Seq<char>)
    requires
        effect.name() == name || (effect is ExternalSideEffect && forall|other: CapabilityEffect|
            #[trigger] other.name() != name),
    ensures
        effect is Observe <==> name == CapabilityEffect::Observe.name(),
{
    if effect.name() == name && name == CapabilityEffect::Observe.name() {
        crate::extensions::capability::law_effect_names_distinct(
            effect,
            CapabilityEffect::Observe,
        );
    }
}

/// Decides what is done about a turn after a crash.
pub fn classify_checkpoint(checkpoint: &CheckpointRecord, events: &Vec<EventEnvelope>) -> (r:
    RecoveryReport)
    ensures
        r.turn_id == checkpoint.turn_id,
        r.thread_id == checkpoint.thread_id,
        r.phase == checkpoint.phase,
        views(r.skipped_tools@) == completed_calls(log_view(events@)),
        (OutcomeView {
            status: r.status,
            policy: r.resume_policy,
            risk: r.risk@,
            action: r.user_action@,
        }) == outcome(checkpoint@, completed_calls(log_view(events@))),
        r.checkpoint matches Some(kept) && kept@ == checkpoint@,
{
    let skipped_tools = completed_tools(events);
    let outcome = match checkpoint.phase {
        CheckpointPhase::Completed => make_outcome(
            TurnStatus::Completed,
            ResumePolicy::NoResume,
            "none",
            "Turn already completed.",
        ),
        CheckpointPhase::Failed => make_outcome(
            TurnStatus::Failed,
            ResumePolicy::NoResume,
            "none",
            "Turn already failed.",
        ),
        CheckpointPhase::Cancelled => make_outcome(
            TurnStatus::Cancelled,
            ResumePolicy::NoResume,
            "none",
            "Turn was cancelled.",
        ),
        CheckpointPhase::NeedsReconciliation => make_outcome(
            TurnStatus::NeedsReconciliation,
            ResumePolicy::Reconcile,
            "external_state_unknown",
            "Inspect the last change operation; OpsCodex will not retry it automatically.",
        ),
        CheckpointPhase::WaitingApproval => make_outcome(
            TurnStatus::WaitingApproval,
            ResumePolicy::WaitApproval,
            "approval_required",
            "Resume to continue waiting for the original approval, or reject it.",
        ),
        CheckpointPhase::ToolRunning => classify_tool_running(checkpoint, &skipped_tools),
        CheckpointPhase::ToolCompleted => make_outcome(
            TurnStatus::Interrupted,
            ResumePolicy::SkipCompletedTool,
            "none",
            "Resume from the next model step. Completed tools will not run again.",
        ),
        CheckpointPhase::Queued | CheckpointPhase::ModelRunning | CheckpointPhase::Interrupted =>
        make_outcome(
            TurnStatus::Interrupted,
            ResumePolicy::ReplayModel,
            "none",
            "Resume to resend the model request from the last normalized context.",
        ),
    };
    RecoveryReport {
        turn_id: checkpoint.turn_id,
        thread_id: checkpoint.thread_id,
        status: outcome.status,
        phase: checkpoint.phase,
        resume_policy: outcome.policy,
        risk: outcome.risk,
        user_action: outcome.action,
        skipped_tools,
        checkpoint: Some(checkpoint.clone()),
    }
}

/// The identifier of an operation: its turn and its call.
pub fn pending_operation_id(turn_id: TurnId, call_id: &str) -> (r: String)
    ensures
        r@ == turn_id.text() + ":"@ + call_id@,
{
    let mut id = turn_id.to_string();
    id.append(":");
    id.append(call_id);
    id
}

// ---------------------------------------------------------------------------
// Laws
// ---------------------------------------------------------------------------
/// A tool whose result is in the log is never run again.
pub proof fn law_completed_tools_never_rerun(
    checkpoint: CheckpointView,
    operation: OperationView,
    completed: Seq<Seq<char>>,
)
    requires
        checkpoint.pending_operation == Some(operation),
        completed.contains(operation.call_id),
    ensures
        !(outcome(checkpoint, completed).policy is RetryObserve),
{
}

/// Only a tool that observes is run again when its result is unknown.
pub proof fn law_side_effects_never_rerun(checkpoint: CheckpointView, completed: Seq<Seq<char>>)
    requires
        outcome(checkpoint, completed).policy is RetryObserve,
    ensures
        checkpoint.phase is ToolRunning,
        checkpoint.pending_operation matches Some(operation) && operation.effect
            == CapabilityEffect::Observe.name(),
{
}

/// A tool that changes something, and whose result is unknown, needs
/// reconciliation, whatever recovery it is declared with.
pub proof fn law_unknown_changes_need_reconciliation(
    checkpoint: CheckpointView,
    operation: OperationView,
    completed: Seq<Seq<char>>,
)
    requires
        checkpoint.phase is ToolRunning,
        checkpoint.pending_operation == Some(operation),
        operation.effect != CapabilityEffect::Observe.name(),
        !completed.contains(operation.call_id),
    ensures
        outcome(checkpoint, completed).status is NeedsReconciliation,
        outcome(checkpoint, completed).policy is Reconcile,
{
}

/// An operation that is declared to need reconciliation is never run again.
pub proof fn law_reconciled_operations_never_rerun(
    checkpoint: CheckpointView,
    operation: OperationView,
    completed: Seq<Seq<char>>,
)
    requires
        checkpoint.pending_operation == Some(operation),
        recovery_named(operation.recovery) == Some(RecoveryMode::NeedsReconciliation),
    ensures
        !(outcome(checkpoint, completed).policy is RetryObserve),
{
}

/// A turn that has ended is left alone: it is neither replayed nor retried.
pub proof fn law_ended_turns_are_left_alone(checkpoint: CheckpointView, completed: Seq<Seq<char>>)
    requires
        checkpoint.phase.ends_turn(),
    ensures
        outcome(checkpoint, completed).policy is NoResume || outcome(checkpoint, completed).policy
            is Reconcile,
{
}

} // verus!
