//! What is written down of events, told field by field.
use vstd::prelude::*;

use crate::action::{review_view, ActionRecord};
use crate::evidence::diagnosis::{Claim, Diagnosis};
use crate::json::{optional_text, string_view, texts_view, JsonView};
use crate::json_law::law_the_first_entry_is_read;
use crate::runtime::envelope::{assembled, fields_of, lemma_read_back, EventEnvelope};
use crate::runtime::event::{EventView, RuntimeEvent, StreamKind};
use crate::text::views;
use crate::time::Timestamp;

verus! {

/// An envelope is written with its version, its number, its workspace, its thread, its
/// turn where it has one, its time, and its event.
pub proof fn law_envelopes_are_written(envelope: EventEnvelope)
    ensures
        ({
            let written = envelope@.json();
            &&& written.u64_at("schema_version"@) == Some(envelope.schema_version as u64)
            &&& written.u64_at("seq"@) == Some(envelope.seq)
            &&& written.text_at("event_id"@) == Some(envelope.event_id.text())
            &&& written.text_at("workspace_id"@) == Some(envelope.workspace_id@)
            &&& written.text_at("thread_id"@) == Some(envelope.thread_id.text())
            &&& written.text_at("timestamp"@) == Some(envelope.timestamp.zulu())
            &&& envelope.turn_id matches Some(id) ==> written.text_at("turn_id"@) == Some(id.text())
            &&& envelope.turn_id is None ==> written.get("turn_id"@) is None
            &&& envelope.item_id matches Some(id) ==> written.text_at("item_id"@) == Some(id.text())
            &&& envelope.causation_id matches Some(id) ==> written.text_at("causation_id"@) == Some(
                id.text(),
            )
        }),
{
    lemma_read_back(envelope@);
}

proof fn lemma_event_keys()
    ensures
        "type"@.len() == 4 && "type"@[0] == 't' && "type"@[1] == 'y',
        "content"@.len() == 7 && "content"@[0] == 'c' && "content"@[1] == 'o',
        "delta"@.len() == 5 && "error"@.len() == 5,
        "call_id"@.len() == 7 && "call_id"@[0] == 'c' && "call_id"@[1] == 'a',
        "tool"@.len() == 4 && "tool"@[1] == 'o',
        "arguments"@.len() == 9,
        "decision"@.len() == 8 && "decision"@[0] == 'd',
        "output"@.len() == 6,
        "success"@.len() == 7 && "success"@[0] == 's',
        "evidence"@.len() == 8 && "evidence"@[0] == 'e',
        "approval_id"@.len() == 11,
        "approved"@.len() == 8 && "approved"@[0] == 'a',
{
    reveal_strlit("type");
    reveal_strlit("content");
    reveal_strlit("delta");
    reveal_strlit("error");
    reveal_strlit("call_id");
    reveal_strlit("tool");
    reveal_strlit("arguments");
    reveal_strlit("decision");
    reveal_strlit("output");
    reveal_strlit("success");
    reveal_strlit("evidence");
    reveal_strlit("approval_id");
    reveal_strlit("approved");
}

/// What is written of things that are said.
pub proof fn law_messages_are_written(event: RuntimeEvent)
    ensures
        match event {
            RuntimeEvent::UserMessage { content, .. } => event@.json().text_at("type"@) == Some(
                "user_message"@,
            ) && event@.json().text_at("content"@) == Some(content@),
            RuntimeEvent::AssistantDelta { delta } => event@.json().text_at("type"@) == Some(
                "assistant_delta"@,
            ) && event@.json().text_at("delta"@) == Some(delta@),
            RuntimeEvent::AssistantCompleted { content, .. } => event@.json().text_at("type"@)
                == Some("assistant_completed"@) && event@.json().text_at("content"@) == Some(
                content@,
            ),
            RuntimeEvent::TurnFailed { error } => event@.json().text_at("type"@) == Some(
                "turn_failed"@,
            ) && event@.json().text_at("error"@) == Some(error@),
            _ => true,
        },
{
    lemma_event_keys();
    let entries = event@.entries();
    law_the_first_entry_is_read(entries, "type"@, 0);
    match event {
        RuntimeEvent::UserMessage { .. } => law_the_first_entry_is_read(entries, "content"@, 1),
        RuntimeEvent::AssistantDelta { .. } => law_the_first_entry_is_read(entries, "delta"@, 1),
        RuntimeEvent::AssistantCompleted { .. } => law_the_first_entry_is_read(
            entries,
            "content"@,
            1,
        ),
        RuntimeEvent::TurnFailed { .. } => law_the_first_entry_is_read(entries, "error"@, 1),
        _ => {},
    }
}

/// What is written of the calls of tools.
pub proof fn law_calls_are_written(event: RuntimeEvent)
    ensures
        match event {
            RuntimeEvent::ToolProposed { call_id, tool, arguments } => event@.json().text_at(
                "type"@,
            ) == Some("tool_proposed"@) && event@.json().text_at("call_id"@) == Some(call_id@)
                && event@.json().text_at("tool"@) == Some(tool@) && event@.json().get("arguments"@)
                == Some(arguments@),
            RuntimeEvent::ToolAuthorized { call_id, tool, decision } => event@.json().text_at(
                "type"@,
            ) == Some("tool_authorized"@) && event@.json().text_at("call_id"@) == Some(call_id@)
                && event@.json().text_at("tool"@) == Some(tool@) && event@.json().text_at(
                "decision"@,
            ) == Some(decision@),
            RuntimeEvent::ToolExecutionStarted { call_id, tool } => event@.json().text_at("type"@)
                == Some("tool_execution_started"@) && event@.json().text_at("call_id"@) == Some(
                call_id@,
            ) && event@.json().text_at("tool"@) == Some(tool@),
            _ => true,
        },
{
    lemma_event_keys();
    let entries = event@.entries();
    law_the_first_entry_is_read(entries, "type"@, 0);
    if event is ToolProposed || event is ToolAuthorized || event is ToolExecutionStarted {
        law_the_first_entry_is_read(entries, "call_id"@, 1);
        law_the_first_entry_is_read(entries, "tool"@, 2);
    }
    if event is ToolProposed {
        law_the_first_entry_is_read(entries, "arguments"@, 3);
    }
    if event is ToolAuthorized {
        law_the_first_entry_is_read(entries, "decision"@, 3);
    }
}

/// What is written of results and of decisions.
pub proof fn law_results_are_written(event: RuntimeEvent)
    ensures
        match event {
            RuntimeEvent::ToolCompleted { call_id, tool, output, evidence, success } => event@.json(

            ).text_at("type"@) == Some("tool_completed"@) && event@.json().text_at("call_id"@)
                == Some(call_id@) && event@.json().text_at("tool"@) == Some(tool@)
                && event@.json().get("output"@) == Some(output@) && event@.json().get("evidence"@)
                == Some(evidence.json()) && event@.json().get("success"@) == Some(
                JsonView::Bool(success),
            ),
            RuntimeEvent::ApprovalRequired { approval_id, tool, arguments } => event@.json().text_at(
                "type"@,
            ) == Some("approval_required"@) && event@.json().text_at("approval_id"@) == Some(
                approval_id.text(),
            ) && event@.json().text_at("tool"@) == Some(tool@) && event@.json().get("arguments"@)
                == Some(arguments@),
            RuntimeEvent::ApprovalResolved { approval_id, approved } => event@.json().text_at(
                "type"@,
            ) == Some("approval_resolved"@) && event@.json().text_at("approval_id"@) == Some(
                approval_id.text(),
            ) && event@.json().get("approved"@) == Some(JsonView::Bool(approved)),
            _ => true,
        },
{
    lemma_event_keys();
    let entries = event@.entries();
    law_the_first_entry_is_read(entries, "type"@, 0);
    if event is ToolCompleted {
        law_the_first_entry_is_read(entries, "call_id"@, 1);
        law_the_first_entry_is_read(entries, "tool"@, 2);
        law_the_first_entry_is_read(entries, "output"@, 3);
        law_the_first_entry_is_read(entries, "evidence"@, 4);
        law_the_first_entry_is_read(entries, "success"@, 5);
    }
    if event is ApprovalRequired {
        law_the_first_entry_is_read(entries, "approval_id"@, 1);
        law_the_first_entry_is_read(entries, "tool"@, 2);
        law_the_first_entry_is_read(entries, "arguments"@, 3);
    }
    if event is ApprovalResolved {
        law_the_first_entry_is_read(entries, "approval_id"@, 1);
        law_the_first_entry_is_read(entries, "approved"@, 2);
    }
}

/// What is written of a claim: what it states, of what kind it is and how sure, and what
/// it cites.
pub proof fn law_claims_are_written(claim: Claim)
    ensures
        ({
            let written = JsonView::Object(claim.entries());
            &&& written.text_at("claim_id"@) == Some(claim.claim_id.text())
            &&& written.text_at("kind"@) == Some(claim.kind.name())
            &&& written.text_at("statement"@) == Some(claim.statement@)
            &&& written.text_at("confidence"@) == Some(claim.confidence.name())
            &&& written.get("evidence_ids"@) matches Some(JsonView::Array(ids)) && ids.len()
                == claim.evidence_ids@.len() && forall|i: int|
                0 <= i < ids.len() ==> #[trigger] ids[i] == JsonView::Text(
                    claim.evidence_ids@[i].text(),
                )
        }),
{
    reveal_strlit("claim_id");
    reveal_strlit("kind");
    reveal_strlit("statement");
    reveal_strlit("evidence_ids");
    reveal_strlit("confidence");
    assert("claim_id"@.len() == 8 && "kind"@.len() == 4 && "statement"@.len() == 9);
    assert("evidence_ids"@.len() == 12 && "confidence"@.len() == 10);
    let entries = claim.entries();
    law_the_first_entry_is_read(entries, "claim_id"@, 0);
    law_the_first_entry_is_read(entries, "kind"@, 1);
    law_the_first_entry_is_read(entries, "statement"@, 2);
    law_the_first_entry_is_read(entries, "evidence_ids"@, 3);
    law_the_first_entry_is_read(entries, "confidence"@, 4);
}

/// What is written of a diagnosis: its summary, every claim in order, its actions and its
/// limitations.
pub proof fn law_diagnoses_are_written(diagnosis: Diagnosis)
    ensures
        ({
            let written = diagnosis.json();
            &&& written.text_at("summary"@) == Some(diagnosis.summary@)
            &&& written.get("claims"@) matches Some(JsonView::Array(claims)) && claims.len()
                == diagnosis.claims@.len() && forall|i: int|
                0 <= i < claims.len() ==> #[trigger] claims[i] == JsonView::Object(
                    diagnosis.claims@[i].entries(),
                )
            &&& written.get("recommended_actions"@) == Some(
                texts_view(views(diagnosis.recommended_actions@)),
            )
            &&& written.get("limitations"@) == Some(texts_view(views(diagnosis.limitations@)))
        }),
{
    reveal_strlit("summary");
    reveal_strlit("claims");
    reveal_strlit("recommended_actions");
    reveal_strlit("limitations");
    assert("summary"@.len() == 7 && "claims"@.len() == 6 && "recommended_actions"@.len() == 19);
    assert("limitations"@.len() == 11);
    let entries = diagnosis.entries();
    law_the_first_entry_is_read(entries, "summary"@, 0);
    law_the_first_entry_is_read(entries, "claims"@, 1);
    law_the_first_entry_is_read(entries, "recommended_actions"@, 2);
    law_the_first_entry_is_read(entries, "limitations"@, 3);
}

/// What an operator is shown of an action before a decision: what it does and to what,
/// what it is held to, how far it reaches, how it would be taken back, and the hash under
/// which it is decided on.
pub proof fn law_actions_are_reviewed(action: ActionRecord)
    ensures
        ({
            let shown = review_view(&action);
            &&& shown.text_at("action_id"@) == Some(action.action_id.text())
            &&& shown.text_at("blast_radius"@) == Some(action.blast_radius@)
            &&& shown.get("dry_run"@) == Some(optional_text(string_view(action.dry_run_result)))
            &&& shown.text_at("effect"@) == Some(action.effect@)
            &&& shown.text_at("expected_effect"@) == Some(action.expected_effect@)
            &&& shown.text_at("expires_at"@) == Some(action.expires_at.zulu())
            &&& shown.text_at("operation_id"@) == Some(action.operation_id@)
            &&& shown.get("parameters"@) == Some(action.normalized_parameters@)
            &&& shown.get("preconditions"@) == Some(texts_view(views(action.preconditions@)))
            &&& shown.text_at("request_hash"@) == Some(action.request_hash@)
            &&& shown.text_at("status"@) == Some(action.status.name())
            &&& shown.text_at("target"@) == Some(action.normalized_target@)
            &&& shown.text_at("tool_id"@) == Some(action.tool_id@)
            &&& shown.text_at("verification"@) == Some(action.verification_spec@)
        }),
{
    reveal_strlit("action_id");
    reveal_strlit("blast_radius");
    reveal_strlit("dry_run");
    reveal_strlit("effect");
    reveal_strlit("expected_effect");
    reveal_strlit("expires_at");
    reveal_strlit("operation_id");
    reveal_strlit("parameters");
    reveal_strlit("preconditions");
    reveal_strlit("request_hash");
    reveal_strlit("rollback");
    reveal_strlit("status");
    reveal_strlit("target");
    reveal_strlit("tool_id");
    reveal_strlit("tool_version");
    reveal_strlit("verification");
    assert("action_id"@.len() == 9 && "blast_radius"@.len() == 12 && "dry_run"@.len() == 7);
    assert("effect"@.len() == 6 && "expected_effect"@.len() == 15 && "expires_at"@.len() == 10);
    assert("operation_id"@.len() == 12 && "parameters"@.len() == 10);
    assert("preconditions"@.len() == 13 && "request_hash"@.len() == 12 && "rollback"@.len() == 8);
    assert("status"@.len() == 6 && "target"@.len() == 6 && "tool_id"@.len() == 7);
    assert("tool_version"@.len() == 12 && "verification"@.len() == 12);
    assert("blast_radius"@[0] == 'b' && "operation_id"@[0] == 'o' && "request_hash"@[0] == 'r');
    assert("tool_version"@[0] == 't' && "verification"@[0] == 'v');
    assert("effect"@[0] == 'e' && "status"@[0] == 's' && "target"@[0] == 't');
    assert("expires_at"@[0] == 'e' && "parameters"@[0] == 'p');
    assert("dry_run"@[0] == 'd' && "tool_id"@[0] == 't');
    let entries = review_view(&action)->Object_0;
    law_the_first_entry_is_read(entries, "action_id"@, 0);
    law_the_first_entry_is_read(entries, "blast_radius"@, 1);
    law_the_first_entry_is_read(entries, "dry_run"@, 2);
    law_the_first_entry_is_read(entries, "effect"@, 3);
    law_the_first_entry_is_read(entries, "expected_effect"@, 4);
    law_the_first_entry_is_read(entries, "expires_at"@, 5);
    law_the_first_entry_is_read(entries, "operation_id"@, 6);
    law_the_first_entry_is_read(entries, "parameters"@, 7);
    law_the_first_entry_is_read(entries, "preconditions"@, 8);
    law_the_first_entry_is_read(entries, "request_hash"@, 9);
    law_the_first_entry_is_read(entries, "status"@, 11);
    law_the_first_entry_is_read(entries, "target"@, 12);
    law_the_first_entry_is_read(entries, "tool_id"@, 13);
    law_the_first_entry_is_read(entries, "verification"@, 15);
}

/// An envelope of an earlier version is read with the number, the event and, where it
/// says so, the workspace that it has; without a workspace it is of the default one, and
/// without a version of its own it is of the first.
pub proof fn law_earlier_envelopes_are_read(
    value: JsonView,
    event: Result<EventView, Seq<char>>,
    written: Result<StreamKind, Seq<char>>,
    now: Timestamp,
)
    ensures
        assembled(value, fields_of(value), event, written, now) matches Ok(envelope) ==> {
            &&& value.u64_at("seq"@) == Some(envelope.seq)
            &&& event == Ok::<EventView, Seq<char>>(envelope.event)
            &&& value.text_at("workspace_id"@) matches Some(name) ==> envelope.workspace_id == name
            &&& value.text_at("workspace_id"@) is None ==> envelope.workspace_id == "default"@
            &&& value.u64_at("schema_version"@) is None ==> envelope.schema_version == 1
            &&& value.get("timestamp"@) is None ==> envelope.timestamp == now
            &&& value.get("turn_id"@) is None ==> envelope.turn_id is None
            &&& value.get("causation_id"@) is None ==> envelope.causation_id is None
            &&& value.get("stream_kind"@) is None ==> (envelope.stream_kind is Delivery
                <==> envelope.event is AssistantDelta)
            &&& value.get("stream_kind"@) is Some ==> written == Ok::<StreamKind, Seq<char>>(
                envelope.stream_kind,
            )
        },
        !(value is Object) || value.u64_at("seq"@) is None || value.get("thread_id"@) is None
            || event is Err ==> assembled(value, fields_of(value), event, written, now) is Err,
{
}

} // verus!
