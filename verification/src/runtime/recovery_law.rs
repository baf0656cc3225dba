//! What is done about a turn that was cut short, told by its log.
use vstd::prelude::*;

use crate::runtime::envelope::{log_view, EnvelopeView, EventEnvelope};
use crate::runtime::event::{EventView, RuntimeEvent};
use crate::runtime::recovery::{completed_calls, outcome, OutcomeView};
use crate::store::continuity::{CheckpointRecord, RecoveryReport};
use crate::text::views;

verus! {

proof fn lemma_completed_calls(events: Seq<EnvelopeView>, id: Seq<char>)
    ensures
        completed_calls(events).contains(id) <==> exists|j: int|
            0 <= j < events.len() && ((#[trigger] events[j]).event matches
                EventView::ToolCompleted { call_id, .. } && call_id == id),
    decreases events.len(),
{
    if events.len() > 0 {
        let init = events.drop_last();
        let n = init.len() as int;
        let before = completed_calls(init);
        let after = completed_calls(events);
        lemma_completed_calls(init, id);
        if after.contains(id) {
            let k = after.index_of(id);
            if k < before.len() {
                assert(before[k] == id);
                let j = choose|j: int|
                    0 <= j < init.len() && ((#[trigger] init[j]).event matches
                        EventView::ToolCompleted { call_id, .. } && call_id == id);
                assert(events[j] == init[j]);
            } else {
                assert(events[n].event matches EventView::ToolCompleted { call_id, .. } && call_id
                    == id);
            }
        }
        if exists|j: int|
            0 <= j < events.len() && ((#[trigger] events[j]).event matches
                EventView::ToolCompleted { call_id, .. } && call_id == id) {
            let j = choose|j: int|
                0 <= j < events.len() && ((#[trigger] events[j]).event matches
                    EventView::ToolCompleted { call_id, .. } && call_id == id);
            if j < n {
                assert(init[j] == events[j]);
                let k = before.index_of(id);
                assert(after[k] == id);
            } else {
                assert(after[before.len() as int] == id);
            }
        }
    }
}

/// A call counts as completed exactly where the log holds its result. That it was
/// proposed, allowed or started is not enough.
pub proof fn law_calls_complete_by_their_result(
    events: Seq<EventEnvelope>,
    completed: Seq<String>,
    id: Seq<char>,
)
    requires
        views(completed) == completed_calls(log_view(events)),
    ensures
        (exists|k: int| 0 <= k < completed.len() && (#[trigger] completed[k])@ == id) <==> (exists|
            j: int,
        |
            0 <= j < events.len() && ((#[trigger] events[j]).event matches
                RuntimeEvent::ToolCompleted { call_id, .. } && call_id@ == id)),
{
    let log = log_view(events);
    lemma_completed_calls(log, id);
    if exists|k: int| 0 <= k < completed.len() && (#[trigger] completed[k])@ == id {
        let k = choose|k: int| 0 <= k < completed.len() && (#[trigger] completed[k])@ == id;
        assert(views(completed)[k] == id);
        let j = choose|j: int|
            0 <= j < log.len() && ((#[trigger] log[j]).event matches EventView::ToolCompleted {
                call_id,
                ..
            } && call_id == id);
        assert(log[j] == events[j]@);
    }
    if exists|j: int|
        0 <= j < events.len() && ((#[trigger] events[j]).event matches RuntimeEvent::ToolCompleted {
            call_id,
            ..
        } && call_id@ == id) {
        let j = choose|j: int|
            0 <= j < events.len() && ((#[trigger] events[j]).event matches
                RuntimeEvent::ToolCompleted { call_id, .. } && call_id@ == id);
        assert(log[j] == events[j]@);
        let k = views(completed).index_of(id);
        assert(completed[k]@ == id);
    }
}

/// The report is that of the checkpoint and the log.
pub open spec fn is_report(
    report: RecoveryReport,
    checkpoint: CheckpointRecord,
    events: Seq<EventEnvelope>,
) -> bool {
    &&& views(report.skipped_tools@) == completed_calls(log_view(events))
    &&& (OutcomeView {
        status: report.status,
        policy: report.resume_policy,
        risk: report.risk@,
        action: report.user_action@,
    }) == outcome(checkpoint@, completed_calls(log_view(events)))
}

/// A tool that was running when the turn was cut short is passed over where the log
/// holds its result. Where it does not, only a tool that is recorded to observe, and
/// not to need reconciliation, may run again; any other is left to the user,
/// whatever else the log holds of the call.
pub proof fn law_running_tools_are_recovered_by_their_result(
    checkpoint: CheckpointRecord,
    events: Seq<EventEnvelope>,
    report: RecoveryReport,
)
    requires
        is_report(report, checkpoint, events),
        checkpoint.phase is ToolRunning,
        checkpoint.pending_operation is Some,
    ensures
        ({
            let operation = checkpoint.pending_operation->0;
            let finished = exists|j: int|
                0 <= j < events.len() && ((#[trigger] events[j]).event matches
                    RuntimeEvent::ToolCompleted { call_id, .. } && call_id@
                    == operation.call_id@);
            let harmless = operation.effect@ == "observe"@ && !(operation.recovery matches Some(mode)
                && mode@ == "needs_reconciliation"@);
            &&& finished ==> report.status is Interrupted && report.resume_policy
                is SkipCompletedTool && report.risk@ == "none"@
            &&& !finished && harmless ==> report.status is Interrupted && report.resume_policy
                is RetryObserve && report.risk@ == "retryable_observe"@
            &&& !finished && !harmless ==> report.status is NeedsReconciliation
                && report.resume_policy is Reconcile && report.risk@ == "external_state_unknown"@
        }),
{
    let operation = checkpoint.pending_operation->0;
    law_calls_complete_by_their_result(events, report.skipped_tools@, operation.call_id@);
    let completed = views(report.skipped_tools@);
    if completed.contains(operation.call_id@) {
        let k = completed.index_of(operation.call_id@);
        assert(report.skipped_tools@[k]@ == operation.call_id@);
    }
    if exists|k: int|
        0 <= k < report.skipped_tools@.len() && (#[trigger] report.skipped_tools@[k])@
            == operation.call_id@ {
        let k = choose|k: int|
            0 <= k < report.skipped_tools@.len() && (#[trigger] report.skipped_tools@[k])@
                == operation.call_id@;
        assert(completed[k] == operation.call_id@);
    }
    reveal_strlit("none_needed");
    reveal_strlit("none");
    reveal_strlit("idempotent");
    reveal_strlit("needs_reconciliation");
    assert("none_needed"@.len() == 11);
    assert("none"@.len() == 4);
    assert("idempotent"@.len() == 10);
    assert("needs_reconciliation"@.len() == 20);
}

/// A turn that has ended stays as it ended and is not resumed; one that waits for an
/// approval goes on waiting; one whose last tool has returned goes on behind it; one
/// that had no tool under way asks the model again; and one that a change was left
/// open in is left to the user.
pub proof fn law_turns_are_recovered_from_where_they_stood(
    checkpoint: CheckpointRecord,
    events: Seq<EventEnvelope>,
    report: RecoveryReport,
)
    requires
        is_report(report, checkpoint, events),
    ensures
        checkpoint.phase is Completed ==> report.status is Completed,
        checkpoint.phase is Failed ==> report.status is Failed,
        checkpoint.phase is Cancelled ==> report.status is Cancelled,
        report.resume_policy is NoResume <==> checkpoint.phase is Completed || checkpoint.phase
            is Failed || checkpoint.phase is Cancelled,
        report.resume_policy is WaitApproval <==> checkpoint.phase is WaitingApproval,
        report.status is WaitingApproval <==> checkpoint.phase is WaitingApproval,
        checkpoint.phase is NeedsReconciliation ==> report.status is NeedsReconciliation
            && report.resume_policy is Reconcile,
        report.resume_policy is Reconcile ==> report.status is NeedsReconciliation,
        checkpoint.phase is ToolCompleted ==> report.status is Interrupted && report.resume_policy
            is SkipCompletedTool,
        checkpoint.phase is Queued || checkpoint.phase is ModelRunning || checkpoint.phase
            is Interrupted || (checkpoint.phase is ToolRunning && checkpoint.pending_operation
            is None) ==> report.status is Interrupted && report.resume_policy is ReplayModel,
{
}

} // verus!
