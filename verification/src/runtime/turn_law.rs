//! What a turn and its tool calls do next, told case by case.
use vstd::prelude::*;

use crate::error::{OpsCodexError, OpsResult};
use crate::json::JsonView;
use crate::json_law::law_the_first_entry_is_read;
use crate::json_map::map_bytes;
use crate::model::provider::{output_views, ModelOutput};
use crate::runtime::agent::{closing, result_view, TurnAction, TurnEvent, TurnMachine};
use crate::runtime::event::RuntimeEvent;
use crate::runtime::thread::{EventId, EvidenceId};
use crate::runtime::tool_call::{error_content, ToolAction, ToolEvent, ToolMachine};
use crate::time::Timestamp;

verus! {

/// What a tool call does once its last step was recorded: it looks the tool up after
/// its proposal, awaits the decision that it asked for, runs the tool only after it
/// recorded the start, and is over after its result. A call that is denied or rejected
/// ends with a result that is no success.
pub proof fn law_recorded_calls_go_on(
    before: ToolMachine,
    event_id: EventId,
    now: Timestamp,
    evidence_id: EvidenceId,
    r: (ToolMachine, ToolAction),
)
    requires
        before.stepped((ToolEvent::Emitted { event_id }), now, evidence_id, r),
        before.expects(ToolEvent::Emitted { event_id }),
    ensures
        before.phase is Proposing ==> r.1 is LookUp && r.0.phase is LookingUp,
        before.phase is Requesting ==> (r.1 matches ToolAction::AwaitDecision { approval_id }
            && before.phase->Requesting_approval_id == approval_id
            && r.0.phase->Deciding_approval_id == approval_id && r.0.phase is Deciding),
        before.phase is Resolving ==> (r.1 matches ToolAction::Emit { event } && event matches
            RuntimeEvent::ToolAuthorized { call_id, tool, decision } && call_id@
            == before.call.call_id@ && tool@ == before.call.name@ && decision@ == (
        if before.phase->approved {
            "allow"@
        } else {
            "deny"@
        })),
        before.phase is Resolving && !before.phase->approved ==> r.0.phase is Rejecting,
        before.phase is Denying || before.phase is Rejecting ==> (r.1 matches ToolAction::Emit {
            event,
        } && event matches RuntimeEvent::ToolCompleted { call_id, tool, success, .. } && call_id@
            == before.call.call_id@ && tool@ == before.call.name@ && !success),
        before.phase is Authorizing ==> (r.1 matches ToolAction::Emit { event } && event matches
            RuntimeEvent::ToolExecutionStarted { call_id, tool } && call_id@
            == before.call.call_id@ && tool@ == before.call.name@),
        r.1 is Run <==> before.phase is Starting,
        before.phase is Completing ==> (r.1 matches ToolAction::Finish { event_id: id } && id
            == event_id),
{
}

/// What a tool call does after it has learnt something: a safe tool is allowed, one
/// that is to be asked for is asked for with its own name and arguments, a forbidden
/// one is denied; the decision that was taken is the one that is recorded; an error
/// becomes a result that is no success.
pub proof fn law_calls_answer_what_they_learn(
    before: ToolMachine,
    event: ToolEvent,
    now: Timestamp,
    evidence_id: EvidenceId,
    r: (ToolMachine, ToolAction),
)
    requires
        before.stepped(event, now, evidence_id, r),
        before.expects(event),
    ensures
        event matches ToolEvent::Risk { risk } ==> {
            &&& r.1 is OpenApproval <==> risk is Ask
            &&& !(risk is Ask) ==> (r.1 matches ToolAction::Emit { event: said } && said matches
                RuntimeEvent::ToolAuthorized { call_id, tool, decision } && call_id@
                == before.call.call_id@ && tool@ == before.call.name@ && decision@ == (if risk
                is Safe {
                "allow"@
            } else {
                "deny"@
            }))
            &&& risk is Safe <==> r.0.phase is Authorizing
            &&& risk is Forbidden <==> r.0.phase is Denying
        },
        event matches ToolEvent::Opened { approval_id } ==> (r.1 matches ToolAction::Emit {
            event: said,
        } && said matches RuntimeEvent::ApprovalRequired { approval_id: id, tool, arguments } && id
            == approval_id && tool@ == before.call.name@ && arguments@ == before.call.arguments@),
        event matches ToolEvent::Decided { approved: Some(approved) } ==> (r.1 matches
            ToolAction::Emit { event: said } && said matches RuntimeEvent::ApprovalResolved {
            approval_id,
            approved: kept,
        } && kept == approved && approval_id == before.phase->Deciding_approval_id
            && r.0.phase is Resolving && r.0.phase->approved == approved),
        event matches ToolEvent::Decided { approved: None } ==> (r.1 matches ToolAction::Abort {
            error,
        } && error is Policy),
        event is Unknown || event is Errored ==> (r.1 matches ToolAction::Emit { event: said }
            && said matches RuntimeEvent::ToolCompleted { call_id, tool, success, .. } && call_id@
            == before.call.call_id@ && tool@ == before.call.name@ && !success),
        event matches ToolEvent::Failed { error } ==> (r.1 matches ToolAction::Abort { error: e }
            && e@ == error@),
{
}

/// A tool that returned succeeds: its result is recorded as a success, with the time
/// that it took, once its output was put aside where that is too large for the log.
pub proof fn law_returned_tools_succeed(
    before: ToolMachine,
    event: ToolEvent,
    now: Timestamp,
    evidence_id: EvidenceId,
    r: (ToolMachine, ToolAction),
)
    requires
        before.stepped(event, now, evidence_id, r),
        before.expects(event),
        before.well_formed(),
    ensures
        event matches ToolEvent::Returned { duration_ms, evidence: gathered, .. } ==> {
            &&& r.1 is Store || r.1 is Emit
            &&& r.1 matches ToolAction::Store { bytes } ==> bytes@.len() > before.inline_bytes
                && r.0.phase is Storing && (r.0.held matches Some(held)
                && held.evidence.duration_ms == duration_ms && bytes@ == map_bytes(held.content@)
                && held.evidence.source == gathered.source)
            &&& r.1 matches ToolAction::Emit { event: said } ==> (said matches
                RuntimeEvent::ToolCompleted { call_id, tool, evidence, success, .. } && success
                && call_id@ == before.call.call_id@ && tool@ == before.call.name@
                && evidence.duration_ms == duration_ms && evidence.evidence_id == Some(evidence_id)
                && evidence.artifact_ref is None && evidence.source == gathered.source)
        },
        event matches ToolEvent::Stored { artifact_ref } ==> (r.1 matches ToolAction::Emit {
            event: said,
        } && said matches RuntimeEvent::ToolCompleted { call_id, tool, evidence, success, .. }
            && success && call_id@ == before.call.call_id@ && tool@ == before.call.name@
            && evidence.evidence_id == Some(evidence_id) && evidence.artifact_ref == Some(
            artifact_ref,
        ) && evidence.duration_ms == before.held->0.evidence.duration_ms),
{
}

/// What a model is told of an error: its text, the class under which connectors report
/// it, and whether it is worth another try.
pub proof fn law_errors_are_told(error: OpsCodexError)
    ensures
        error_content(error@).text_at("error"@) == Some(error@.text()),
        error_content(error@).text_at("class"@) == Some(
            match error {
                OpsCodexError::Timeout(_) => "timeout"@,
                OpsCodexError::Policy(_) => "policy"@,
                OpsCodexError::Connector { class, .. } => class.name(),
                _ => "unavailable"@,
            },
        ),
        error_content(error@).get("retryable"@) == Some(
            JsonView::Bool(
                match error {
                    OpsCodexError::Policy(_) => false,
                    OpsCodexError::Connector { class, .. } => class is RateLimit || class is Timeout
                        || class is Unavailable,
                    _ => true,
                },
            ),
        ),
{
    reveal_strlit("class");
    reveal_strlit("error");
    reveal_strlit("retryable");
    assert("class"@.len() == 5 && "error"@.len() == 5 && "retryable"@.len() == 9);
    assert("class"@[0] == 'c' && "error"@[0] == 'e');
    let entries = error_content(error@)->Object_0;
    law_the_first_entry_is_read(entries, "class"@, 0);
    law_the_first_entry_is_read(entries, "error"@, 1);
    law_the_first_entry_is_read(entries, "retryable"@, 2);
}

/// A turn that went well is not closed again; one that was cancelled is closed as
/// cancelled, and one that failed otherwise as failed, with the text of its error.
pub proof fn law_turns_are_closed(result: OpsResult<()>, closed: Option<RuntimeEvent>)
    requires
        match closed {
            Some(event) => closing(result_view(result)) == Some(event@),
            None => closing(result_view(result)) is None,
        },
    ensures
        closed is None <==> result is Ok,
        closed matches Some(event) ==> {
            &&& event is TurnCancelled <==> result->Err_0 is Cancelled
            &&& !(result->Err_0 is Cancelled) ==> (event matches RuntimeEvent::TurnFailed { error }
                && error@ == result->Err_0@.text())
        },
{
}

/// What a turn does once its last step was recorded. It starts after its input, asks
/// the model after its start and after a piece of an answer, reads the log before it
/// records an answer, goes on behind an answer, and is over after its end.
pub proof fn law_recorded_turns_go_on(
    before: TurnMachine,
    event_id: EventId,
    now: Timestamp,
    evidence_id: EvidenceId,
    r: (TurnMachine, TurnAction),
)
    requires
        before.stepped((TurnEvent::Emitted { event_id }), now, evidence_id, r),
        before.expects(TurnEvent::Emitted { event_id }),
        before.well_formed(),
    ensures
        before.phase is RecordingInput ==> (r.1 matches TurnAction::Emit { event, .. } && event
            is TurnStarted && r.0.phase is RecordingStart),
        before.phase is RecordingStart && before.steps_left > 0 ==> r.1 is Think && r.0.steps_left
            == before.steps_left - 1,
        before.phase is RecordingStart && before.steps_left == 0 ==> (r.1 matches TurnAction::End {
            result,
        } && result matches Err(e) && e is MaxStepsExceeded),
        before.phase is Streaming ==> r.1 is Think && r.0.streamed && r.0.steps_left
            == before.steps_left && r.0.cause == Some(event_id),
        before.phase is Replying ==> (r.1 matches TurnAction::ReadLog { answer }
            && before.outputs@[before.next as int] matches ModelOutput::Message { content }
            && answer@ == content@),
        before.phase is Answering && before.next + 1 == before.outputs@.len() && !before.called_tool
            ==> (r.1 matches TurnAction::Emit { event, .. } && event is TurnCompleted && r.0.phase
            is Ending),
        before.phase is Answering && before.next + 1 == before.outputs@.len() && before.called_tool
            && before.steps_left > 0 ==> r.1 is Think,
        before.phase is Answering && before.next + 1 == before.outputs@.len() && before.called_tool
            && before.steps_left == 0 ==> (r.1 matches TurnAction::End { result } && result matches
            Err(e) && e is MaxStepsExceeded),
        before.phase is Ending ==> (r.1 matches TurnAction::End { result } && result is Ok),
        before.phase is Answering && before.next + 1 < before.outputs@.len()
            ==> match before.outputs@[before.next + 1] {
            ModelOutput::Message { content } => if before.streamed {
                r.1 matches TurnAction::ReadLog { answer } && answer@ == content@
            } else {
                r.1 matches TurnAction::Emit { event, .. } && event matches
                    RuntimeEvent::AssistantDelta { delta } && delta@ == content@
            },
            ModelOutput::ToolCall { call_id, name, arguments } => r.0.called_tool && (r.1 matches
                TurnAction::Tool { action } && action matches ToolAction::Emit { event } && event
                matches RuntimeEvent::ToolProposed { call_id: id, tool, arguments: given } && id@
                == call_id@ && tool@ == name@ && given@ == arguments@),
        },
{
    let outputs = output_views(before.outputs@);
    assert(outputs.len() == before.outputs@.len());
    if before.next < outputs.len() {
        assert(outputs[before.next as int] == before.outputs@[before.next as int]@);
    }
    if before.next + 1 < outputs.len() {
        assert(outputs[before.next + 1] == before.outputs@[before.next + 1]@);
    }
}

/// What a turn does after it has learnt something: a piece of an answer is recorded as
/// it came; an answer is recorded in full, with a diagnosis; the first thing that the
/// model put out is dealt with first, and where it put out nothing the turn ends; an
/// error ends the turn.
pub proof fn law_turns_answer_what_they_learn(
    before: TurnMachine,
    event: TurnEvent,
    now: Timestamp,
    evidence_id: EvidenceId,
    r: (TurnMachine, TurnAction),
)
    requires
        before.stepped(event, now, evidence_id, r),
        before.expects(event),
        before.well_formed(),
    ensures
        event matches TurnEvent::Failed { error } ==> (r.1 matches TurnAction::End { result }
            && result matches Err(e) && e@ == error@),
        event matches TurnEvent::Delta { delta } ==> (r.1 matches TurnAction::Emit {
            event: said,
            ..
        } && said matches RuntimeEvent::AssistantDelta { delta: kept } && kept@ == delta@),
        event is LogRead ==> (r.1 matches TurnAction::Emit { event: said, .. } && said matches
            RuntimeEvent::AssistantCompleted { content, diagnosis } && diagnosis is Some && (
        before.outputs@[before.next as int] matches ModelOutput::Message { content: answer }
            && content@ == answer@)),
        event matches TurnEvent::Responded { outputs } ==> if outputs@.len() == 0 {
            r.1 matches TurnAction::Emit { event: said, .. } && said is TurnCompleted
        } else {
            match outputs@[0] {
                ModelOutput::Message { content } => if before.streamed {
                    r.1 matches TurnAction::ReadLog { answer } && answer@ == content@
                } else {
                    r.1 matches TurnAction::Emit { event: said, .. } && said matches
                        RuntimeEvent::AssistantDelta { delta } && delta@ == content@
                },
                ModelOutput::ToolCall { call_id, name, arguments } => r.0.called_tool && (r.1
                    matches TurnAction::Tool { action } && action matches ToolAction::Emit {
                    event: said,
                } && said matches RuntimeEvent::ToolProposed { call_id: id, tool, arguments: given }
                    && id@ == call_id@ && tool@ == name@ && given@ == arguments@),
            }
        },
{
    let held = output_views(before.outputs@);
    assert(held.len() == before.outputs@.len());
    if before.next < held.len() {
        assert(held[before.next as int] == before.outputs@[before.next as int]@);
    }
    if let TurnEvent::Responded { outputs } = event {
        let views = output_views(outputs@);
        assert(views.len() == outputs@.len());
        if outputs@.len() > 0 {
            assert(views[0] == outputs@[0]@);
        }
    }
}

} // verus!
