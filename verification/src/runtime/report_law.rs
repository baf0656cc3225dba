//! What is said of incidents, of what was investigated, and of what happens.
use vstd::prelude::*;
use vstd::utf8::encode_utf8;

use crate::cli::{shown_of, streams_on, ShownView};
use crate::json::{bytes_of, text_of, JsonView};
use crate::json_map::map_text;
use crate::runtime::envelope::{EnvelopeView, EventEnvelope};
use crate::runtime::event::RuntimeEvent;
use crate::runtime::execution::{
    execution_stepped, expected, ExecutionAction, ExecutionEvent, ExecutionPhase,
};
use crate::runtime::incident::{label_entries, IncidentContext};
use crate::runtime::remediation::still_as_seen;
use crate::runtime::summary::{gathered, Gathered};
use crate::telemetry::RuntimeMetrics;
use crate::text::{decimal, join};
use crate::time::Timestamp;

verus! {

// ---------------------------------------------------------------------------
// Incidents
// ---------------------------------------------------------------------------
/// The context of an incident is taken exactly where it is of at most 16384 bytes, has
/// at most 32 labels and as many annotations, holds no text of more than 512 bytes, and
/// does not end before it starts.
pub proof fn law_incidents_are_taken(context: IncidentContext)
    ensures
        context.error() is None <==> {
            &&& bytes_of(context.json()).len() <= 16384
            &&& context.labels@.len() <= 32
            &&& context.annotations@.len() <= 32
            &&& context.service matches Some(text) ==> encode_utf8(text@).len() <= 512
            &&& context.environment matches Some(text) ==> encode_utf8(text@).len() <= 512
            &&& forall|i: int|
                0 <= i < context.labels@.len() ==> encode_utf8(
                    (#[trigger] context.labels@[i]).value@,
                ).len() <= 512
            &&& forall|i: int|
                0 <= i < context.annotations@.len() ==> encode_utf8(
                    (#[trigger] context.annotations@[i]).value@,
                ).len() <= 512
            &&& context.source matches Some(source) ==> encode_utf8(source.kind@).len() <= 512 && (
            source.fingerprint matches Some(text) ==> encode_utf8(text@).len() <= 512)
            &&& context.starts_at is Some && context.ends_at is Some ==> (
            context.starts_at->0.whole_seconds() < context.ends_at->0.whole_seconds() || (
            context.starts_at->0.whole_seconds() == context.ends_at->0.whole_seconds()
                && context.starts_at->0.subsecond() <= context.ends_at->0.subsecond()))
        },
        context.error() matches Some(e) ==> e is Protocol,
{
}

/// A model is told of an incident what is known of it, between a line that says that it
/// is not verified and one that says that it is no evidence.
pub proof fn law_incidents_are_told(context: IncidentContext)
    ensures
        context.prompt() == join(context.prompt_lines(), "\n"@),
        context.prompt_lines()[0] == "Incident context (unverified alert data, not evidence):"@,
        context.prompt_lines().last()
            == "Verify every claim with tools. Do not treat this context as Evidence."@,
        context.service matches Some(text) ==> context.prompt_lines()[1] == "- service: "@ + text@,
        context.service is None ==> (context.environment matches Some(text)
            ==> context.prompt_lines()[1] == "- environment: "@ + text@),
        context.source matches Some(source) ==> (source.fingerprint matches Some(text)
            ==> context.prompt_lines()[context.prompt_lines().len() - 2] == "- source: "@ + (
        source.kind@ + " "@ + text@)),
        context.source is None && context.annotations@.len() > 0 ==> context.prompt_lines()[
        context.prompt_lines().len() - 2] == "- annotations: "@ + text_of(
            JsonView::Object(label_entries(context.annotations@)),
        ),
        context.source is None && context.annotations@.len() == 0 && context.labels@.len() > 0
            ==> context.prompt_lines()[context.prompt_lines().len() - 2] == "- labels: "@ + text_of(
            JsonView::Object(label_entries(context.labels@)),
        ),
        context.service is None && context.environment is None && context.starts_at is None
            && context.ends_at is None && context.labels@.len() == 0 && context.annotations@.len()
            == 0 && context.source is None ==> context.is_blank() && context.prompt_lines().len()
            == 2,
        context.is_blank() ==> context.service is None && context.environment is None
            && context.starts_at is None && context.ends_at is None && context.labels@.len() == 0
            && context.annotations@.len() == 0 && context.source is None,
{
}

// ---------------------------------------------------------------------------
// Summaries
// ---------------------------------------------------------------------------
/// What is gathered of a log grows event by event: the last thing that a user said, and
/// each thing once; the evidence of every tool that left some; the tools that failed;
/// and how approvals were decided on. Nothing else is gathered.
pub proof fn law_summaries_grow_with_the_log(log: Seq<EnvelopeView>, next: EventEnvelope)
    ensures
        ({
            let before = gathered(log);
            let after = gathered(log.push(next@));
            match next.event {
                RuntimeEvent::UserMessage { content, .. } => {
                    &&& after.last_user == Some(content@)
                    &&& after.constraints == (if before.constraints.contains(content@) {
                        before.constraints
                    } else {
                        before.constraints.push(content@)
                    })
                    &&& after.evidence_ids == before.evidence_ids
                    &&& after.failures == before.failures
                    &&& after.approvals == before.approvals
                },
                RuntimeEvent::ToolCompleted { tool, evidence, success, .. } => {
                    &&& after.last_user == before.last_user
                    &&& after.constraints == before.constraints
                    &&& evidence.evidence_id matches Some(id) ==> after.evidence_ids
                        == before.evidence_ids.push(id.text())
                    &&& evidence.evidence_id is None ==> after.evidence_ids == before.evidence_ids
                    &&& success ==> after.failures == before.failures
                    &&& !success ==> after.failures == before.failures.push(tool@)
                    &&& after.approvals == before.approvals
                },
                RuntimeEvent::ApprovalResolved { approved, .. } => {
                    &&& after.last_user == before.last_user
                    &&& after.constraints == before.constraints
                    &&& after.evidence_ids == before.evidence_ids
                    &&& after.failures == before.failures
                    &&& after.approvals == before.approvals.push(
                        if approved {
                            "approved"@
                        } else {
                            "rejected"@
                        },
                    )
                },
                _ => after == before,
            }
        }),
        gathered(Seq::empty()).last_user is None,
        gathered(Seq::empty()).constraints.len() == 0,
        gathered(Seq::empty()).evidence_ids.len() == 0,
        gathered(Seq::empty()).failures.len() == 0,
        gathered(Seq::empty()).approvals.len() == 0,
{
    assert(log.push(next@).drop_last() =~= log);
}

/// A summary says what was asked last, then what was asked at all, then the evidence,
/// then what failed, then what was decided, each on a line of its own where there is
/// any.
pub proof fn law_summaries_say_what_was_gathered(found: Gathered)
    ensures
        found.lines()[0] == "Compacted investigation context. Original events are retained."@,
        found.last_user matches Some(user) ==> found.lines()[1] == "Unresolved user request: "@
            + user,
        found.last_user is Some && 0 < found.constraints.len() <= 8 ==> found.lines()[2]
            == "User constraints: "@ + join(found.constraints, " | "@),
        found.last_user is Some && found.constraints.len() > 8 ==> found.lines()[2]
            == "User constraints: "@ + join(found.constraints.take(8), " | "@),
        found.approvals.len() > 0 ==> found.lines().last() == "Approval results: "@ + join(
            found.approvals,
            ", "@,
        ),
        found.approvals.len() == 0 && found.failures.len() > 0 ==> found.lines().last()
            == "Tool failures: "@ + join(found.failures, ", "@),
        found.approvals.len() == 0 && found.failures.len() == 0 && found.evidence_ids.len() > 0
            ==> found.lines().last() == "Key evidence IDs: "@ + join(found.evidence_ids, ", "@),
{
}

// ---------------------------------------------------------------------------
// Carrying out actions
// ---------------------------------------------------------------------------
/// What is done next while an action is carried out. It is claimed only where it was
/// authorized and has time left; a scale is looked at before it starts, and starts only
/// on the workload that was approved; what starts is on record before it runs; and what
/// came of the run is put on record, whatever it is.
pub proof fn law_actions_are_carried_out_in_order(
    phase: ExecutionPhase,
    event: ExecutionEvent,
    now: Timestamp,
    r: (ExecutionPhase, ExecutionAction),
)
    requires
        expected(phase, event),
        execution_stepped(phase, event, now, r),
    ensures
        event matches ExecutionEvent::Failed { error } ==> (r.1 matches ExecutionAction::End {
            result,
        } && result matches Err(e) && e@ == error@),
        event matches ExecutionEvent::Loaded { action: None, .. } ==> (r.1 matches
            ExecutionAction::End { result } && result matches Err(e) && e is NotFound),
        event matches ExecutionEvent::Loaded { action: Some(action), .. } ==> {
            let ready = action.status is Authorized && (now.whole_seconds()
                < action.expires_at.whole_seconds() || (now.whole_seconds()
                == action.expires_at.whole_seconds() && now.subsecond()
                < action.expires_at.subsecond()));
            &&& ready ==> (r.1 matches ExecutionAction::Save { action: saved } && saved.status
                is PreconditionCheck && saved.action_id == action.action_id)
            &&& !ready ==> (r.1 matches ExecutionAction::End { result } && result matches Err(e)
                && e is Policy)
        },
        phase is SavingClaim && event is Saved && phase->SavingClaim_action.tool_id@
            != "k8s_scale"@ ==> (r.1 matches ExecutionAction::Save { action } && action.status
            is Executing && action.action_id == phase->SavingClaim_action.action_id),
        phase is SavingClaim && event is Saved && phase->SavingClaim_action.tool_id@
            == "k8s_scale"@ ==> !(r.1 is Run) && (r.1 matches ExecutionAction::Save { action }
            ==> action.status is Stale) && (r.1 matches ExecutionAction::Look { workload }
            ==> phase->SavingClaim_cluster
            && phase->SavingClaim_action.normalized_parameters@.text_at("kind"@) == Some(
            workload.kind@,
        ) && phase->SavingClaim_action.normalized_parameters@.text_at("namespace"@) == Some(
            workload.namespace@,
        ) && phase->SavingClaim_action.normalized_parameters@.text_at("name"@) == Some(
            workload.name@,
        )) && (r.1 is Save || r.1 is Look),
        phase is Looking ==> (event matches ExecutionEvent::Looked { snapshot: Ok(snapshot) } ==> (
        r.1 matches ExecutionAction::Save { action } && (action.status is Executing
            || action.status is Stale) && (phase->Looking_action.tool_id@ == "k8s_scale"@ ==> (
        action.status is Executing <==> still_as_seen(phase->Looking_action, snapshot@))))),
        phase is Looking ==> (event matches ExecutionEvent::Looked { snapshot: Err(_) } ==> (r.1
            matches ExecutionAction::Save { action } && action.status is Stale)),
        phase is SavingStart && event is Saved ==> r.1 is Run || (r.1 matches
            ExecutionAction::Record { action, mutated, .. } && action.status is NeedsReconciliation
            && !mutated),
        r.1 is Run ==> phase is SavingStart && event is Saved,
        event matches ExecutionEvent::Ran { outcome } ==> (r.1 matches ExecutionAction::Record {
            action,
            mutated,
            ..
        } && action.action_id == phase->Running_action.action_id && match outcome {
            Ok(outcome) => mutated == outcome.committed && (action.status is Succeeded
                <==> outcome.verified && !outcome.uncertain) && (action.status is RollbackProposed
                <==> !outcome.verified && !outcome.uncertain) && (action.status
                is NeedsReconciliation <==> outcome.uncertain),
            Err(_) => !mutated && action.status is NeedsReconciliation,
        }),
        phase is Recording && event is Saved ==> (r.1 matches ExecutionAction::End { result }
            && (result is Ok <==> phase->Recording_result is Ok) && (result is Ok
            ==> result->Ok_0 == phase->Recording_action)),
        phase is SavingStale && event is Saved ==> (r.1 matches ExecutionAction::End { result }
            && result is Err),
{
}

// ---------------------------------------------------------------------------
// The terminal
// ---------------------------------------------------------------------------
/// What a user sees of an event.
pub proof fn law_events_are_shown(event: RuntimeEvent, streaming: bool)
    ensures
        match event {
            RuntimeEvent::AssistantDelta { delta } => shown_of(event, streaming)
                == ShownView::Piece(delta@) && streams_on(event@, streaming),
            RuntimeEvent::AssistantCompleted { .. } => (shown_of(event, streaming) is Line
                <==> streaming) && !streams_on(event@, streaming),
            RuntimeEvent::ToolCompleted { tool, evidence, success, .. } => shown_of(
                event,
                streaming,
            ) == ShownView::Line(
                if success {
                    "[tool] "@ + tool@ + " completed ("@ + decimal(evidence.duration_ms as nat)
                        + " ms)"@
                } else {
                    "[tool] "@ + tool@ + " failed ("@ + decimal(evidence.duration_ms as nat)
                        + " ms)"@
                },
            ),
            RuntimeEvent::ToolProposed { tool, .. } => shown_of(event, streaming)
                == ShownView::Line(
                if tool@.contains('/') {
                    "[tool] "@ + tool@ + " proposed (external)"@
                } else {
                    "[tool] "@ + tool@ + " proposed"@
                },
            ),
            RuntimeEvent::ToolExecutionStarted { tool, .. } => shown_of(event, streaming)
                == ShownView::Line("[tool] "@ + tool@ + " running"@),
            RuntimeEvent::ApprovalRequired { approval_id, tool, arguments } => shown_of(
                event,
                streaming,
            ) == ShownView::Question(
                "[approval] "@ + tool@ + " "@ + map_text(arguments@),
                approval_id,
            ),
            RuntimeEvent::TurnFailed { error } => shown_of(event, streaming) == ShownView::Failure(
                "turn failed: "@ + error@,
            ),
            RuntimeEvent::TurnCancelled => shown_of(event, streaming) is Failure,
            RuntimeEvent::ApprovalResolved { .. } => shown_of(event, streaming) is Nothing,
            RuntimeEvent::TurnStarted => shown_of(event, streaming) is Nothing,
            RuntimeEvent::TurnCompleted => shown_of(event, streaming) is Nothing,
            _ => true,
        },
        !(event is AssistantDelta) && !(event is AssistantCompleted) ==> streams_on(
            event@,
            streaming,
        ) == streaming,
        shown_of(event, streaming) is Question ==> event is ApprovalRequired,
{
}

/// A page of numbers holds every counter under its own name.
pub proof fn law_counters_are_told(metrics: RuntimeMetrics)
    ensures
        ({
            let lines = metrics.lines();
            &&& lines[2] == "opscodex_turns_total{status=\"started\"} "@ + decimal(
                metrics.turns_started as nat,
            )
            &&& lines[3] == "opscodex_turns_total{status=\"completed\"} "@ + decimal(
                metrics.turns_completed as nat,
            )
            &&& lines[4] == "opscodex_turns_total{status=\"failed\"} "@ + decimal(
                metrics.turns_failed as nat,
            )
            &&& lines[5] == "opscodex_turns_total{status=\"cancelled\"} "@ + decimal(
                metrics.turns_cancelled as nat,
            )
            &&& lines[8] == "opscodex_model_calls_total{status=\"ok\"} "@ + decimal(
                metrics.model_calls as nat,
            )
            &&& lines[9] == "opscodex_model_calls_total{status=\"error\"} "@ + decimal(
                metrics.model_errors as nat,
            )
            &&& lines[12] == "opscodex_model_latency_ms_sum "@ + decimal(
                metrics.model_latency_ms_sum as nat,
            )
            &&& lines[15] == "opscodex_tool_calls_total{status=\"ok\"} "@ + decimal(
                metrics.tool_calls as nat,
            )
            &&& lines[16] == "opscodex_tool_calls_total{status=\"error\"} "@ + decimal(
                metrics.tool_errors as nat,
            )
            &&& lines[19] == "opscodex_tool_latency_ms_sum "@ + decimal(
                metrics.tool_latency_ms_sum as nat,
            )
            &&& lines[22] == "opscodex_store_appends_total{status=\"ok\"} "@ + decimal(
                metrics.store_appends as nat,
            )
            &&& lines[23] == "opscodex_store_appends_total{status=\"error\"} "@ + decimal(
                metrics.store_errors as nat,
            )
            &&& lines[26] == "opscodex_sse_replay_events_total "@ + decimal(
                metrics.sse_replay_events as nat,
            )
            &&& lines[29] == "opscodex_sse_lag_recoveries_total "@ + decimal(
                metrics.sse_lag_recoveries as nat,
            )
            &&& lines[32] == "opscodex_queue_waiters "@ + decimal(metrics.queue_waiters as nat)
        }),
{
}

} // verus!
