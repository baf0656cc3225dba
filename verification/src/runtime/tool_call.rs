//! One tool call of a turn, from the proposal to the result: what is recorded,
//! what is asked, and what runs.
use vstd::prelude::*;

use crate::error::{ErrorView, OpsCodexError};
use crate::evidence::redact::{
    entries_redactable, is_json_redactable, json_redacted, pem_in_order, redact_json, redactable,
};
use crate::evidence::{
    can_summarize, finalize_evidence, is_finalized, is_new, model_tool_output, output_entries,
    summarizable, EvidenceIds, EvidenceMeta,
};
use crate::json::{entries_view, push_entry, Json, JsonEntry, JsonView};
use crate::json_map::{map_bytes, map_text};
use crate::policy::{risk_decision, PolicyDecision};
use crate::runtime::event::{EventView, RuntimeEvent};
use crate::runtime::thread::{ApprovalId, EventId, EvidenceId, ThreadId, TurnId, WorkspaceId};
use crate::text::{find_from, lemma_find_from, matches_at};
use crate::time::Timestamp;
use crate::tools::ToolRisk;

verus! {

/// A tool call that a model asks for.
#[derive(Debug)]
pub struct ToolCall {
    pub call_id: String,
    pub name: String,
    pub arguments: Json,
}

/// What a tool call asks for.
pub struct CallView {
    pub call_id: Seq<char>,
    pub name: Seq<char>,
    pub arguments: JsonView,
}

impl ToolCall {
    pub open spec fn view(&self) -> CallView {
        CallView { call_id: self.call_id@, name: self.name@, arguments: self.arguments@ }
    }
}

/// What the call waits for.
#[derive(Clone, Copy, Debug, PartialEq, Eq, Structural)]
pub enum ToolPhase {
    /// The proposal is being recorded.
    Proposing,
    /// The risk of the tool is being looked up.
    LookingUp,
    /// It is being recorded that the policy denies the tool.
    Denying,
    /// A request for an approval is being opened.
    Opening,
    /// The request is being recorded.
    Requesting { approval_id: ApprovalId },
    /// The decision is awaited.
    Deciding { approval_id: ApprovalId },
    /// The decision is being recorded.
    Resolving { approval_id: ApprovalId, approved: bool },
    /// It is being recorded that the user denies the tool.
    Rejecting,
    /// It is being recorded that the tool may run.
    Authorizing,
    /// The start is being recorded.
    Starting,
    /// The tool runs.
    Running,
    /// A large output is being put aside.
    Storing,
    /// The result is being recorded.
    Completing,
    /// Nothing is awaited any more.
    Done,
}

/// What has happened.
#[derive(Debug)]
pub enum ToolEvent {
    /// The event was recorded, under this identifier.
    Emitted { event_id: EventId },
    /// The turn cannot go on: it was cancelled, or the store failed.
    Failed { error: OpsCodexError },
    /// The tool is known.
    Risk { risk: ToolRisk },
    /// The tool is not known.
    Unknown { error: OpsCodexError },
    /// The request for an approval was opened.
    Opened { approval_id: ApprovalId },
    /// The decision was taken, or nobody is left to take it.
    Decided { approved: Option<bool> },
    /// The tool returned.
    Returned { content: Json, evidence: EvidenceMeta, duration_ms: u64 },
    /// The tool failed or took too long.
    Errored { error: OpsCodexError },
    /// The output was put aside.
    Stored { artifact_ref: String },
}

/// What is to be done.
#[derive(Debug)]
pub enum ToolAction {
    Emit { event: RuntimeEvent },
    LookUp,
    OpenApproval,
    AwaitDecision { approval_id: ApprovalId },
    Run,
    Store { bytes: Vec<u8> },
    /// The call is over; its result is the event with this identifier.
    Finish { event_id: EventId },
    /// The turn is over.
    Abort { error: OpsCodexError },
}

/// A result that is held while its output is put aside.
#[derive(Debug)]
pub struct HeldResult {
    pub content: Json,
    pub evidence: EvidenceMeta,
}

/// The state of a tool call.
#[derive(Debug)]
pub struct ToolMachine {
    pub workspace_id: WorkspaceId,
    pub thread_id: ThreadId,
    pub turn_id: TurnId,
    pub call: ToolCall,
    /// The largest output that is kept in the log.
    pub inline_bytes: usize,
    /// The event that caused the next one.
    pub cause: Option<EventId>,
    pub phase: ToolPhase,
    pub held: Option<HeldResult>,
}

// ---------------------------------------------------------------------------
// Results
// ---------------------------------------------------------------------------
/// What a model is told of an error.
pub open spec fn error_entries(error: ErrorView) -> Seq<(Seq<char>, JsonView)> {
    seq![
        ("class"@, JsonView::Text(error.class().name())),
        ("error"@, JsonView::Text(error.text())),
        ("retryable"@, JsonView::Bool(error.class().may_retry())),
    ]
}

pub open spec fn error_content(error: ErrorView) -> JsonView {
    JsonView::Object(error_entries(error))
}

pub fn error_json(error: &OpsCodexError) -> (r: Json)
    ensures
        r@ == error_content(error@),
{
    let class = error.connector_class();
    let mut entries: Vec<JsonEntry> = Vec::new();
    push_entry(&mut entries, "class", Json::text(class.as_str()));
    push_entry(&mut entries, "error", Json::Text(error.to_string()));
    push_entry(&mut entries, "retryable", Json::Bool(class.retryable()));
    assert(entries_view(entries@) =~= error_entries(error@));
    Json::Object(entries)
}

/// The event by which a failed call is recorded. Its content is redacted, and
/// its evidence tells the arguments.
pub open spec fn is_error_result(
    event: EventView,
    call: CallView,
    error: ErrorView,
    now: Timestamp,
) -> bool {
    event matches EventView::ToolCompleted { call_id, tool, output, evidence, success } && {
        &&& call_id == call.call_id
        &&& tool == call.name
        &&& output == json_redacted(error_content(error)).0
        &&& !success
        &&& is_error_evidence(evidence, call, now)
    }
}

pub open spec fn is_error_evidence(evidence: EvidenceMeta, call: CallView, now: Timestamp) -> bool {
    exists|source: String, query: String, fresh: EvidenceMeta|
        {
            &&& source@ == call.name
            &&& query@ == map_text(call.arguments)
            &&& #[trigger] is_new(fresh, source, now)
            &&& evidence == #[trigger] asked(fresh, query)
        }
}

/// The evidence with the question that it answers.
pub open spec fn asked(evidence: EvidenceMeta, query: String) -> EvidenceMeta {
    EvidenceMeta { query: Some(query), query_or_operation: Some(query), ..evidence }
}

/// The content and the evidence of a tool can be recorded.
pub open spec fn acceptable(content: JsonView, evidence: EvidenceMeta) -> bool {
    let once = json_redacted(content).0;
    &&& redactable(content)
    &&& redactable(once)
    &&& evidence.summary@.len() == 0 ==> summarizable(json_redacted(once).0, 280)
}

/// Whether the content and the evidence of a tool can be recorded.
pub fn is_acceptable(content: &Json, evidence: &EvidenceMeta) -> (r: bool)
    ensures
        r == acceptable(content@, *evidence),
{
    if !is_json_redactable(content) {
        return false;
    }
    let (once, _changed) = redact_json(content);
    if !is_json_redactable(&once) {
        return false;
    }
    if !evidence.summary.as_str().is_empty() {
        return true;
    }
    let (twice, _changed) = redact_json(&once);
    can_summarize(&twice, 280)
}

/// The event by which a successful call is recorded. `content` has been
/// redacted; where it was put aside, the model is told where.
pub open spec fn is_success_result(
    event: EventView,
    call: CallView,
    content: JsonView,
    gathered: EvidenceMeta,
    artifact_ref: Option<String>,
    evidence_id: EvidenceId,
) -> bool {
    event matches EventView::ToolCompleted { call_id, tool, output, evidence, success } && {
        &&& call_id == call.call_id
        &&& tool == call.name
        &&& success
        &&& is_finalized(evidence, gathered, content, artifact_ref, evidence_id)
        &&& output == JsonView::Object(output_entries(&evidence, content))
    }
}

// ---------------------------------------------------------------------------
// Steps
// ---------------------------------------------------------------------------
/// The step leads to `phase`, by recording `event`.
pub open spec fn emits(
    r: (ToolMachine, ToolAction),
    cause: Option<EventId>,
    phase: ToolPhase,
    event: EventView,
) -> bool {
    &&& r.0.phase == phase
    &&& r.0.cause == cause
    &&& r.0.held is None
    &&& r.1 matches ToolAction::Emit { event: emitted } && emitted@ == event
}

/// The step leads to the result of a failed call.
pub open spec fn fails_call(
    r: (ToolMachine, ToolAction),
    cause: Option<EventId>,
    call: CallView,
    error: ErrorView,
    now: Timestamp,
) -> bool {
    &&& r.0.phase is Completing
    &&& r.0.cause == cause
    &&& r.0.held is None
    &&& r.1 matches ToolAction::Emit { event } && is_error_result(event@, call, error, now)
}

/// The step ends the turn.
pub open spec fn aborts(r: (ToolMachine, ToolAction), error: ErrorView) -> bool {
    &&& r.0.phase is Done
    &&& r.1 matches ToolAction::Abort { error: e } && e@ == error
}

/// A forbidden tool, and one that the user rejects.
pub open spec fn forbidden() -> ErrorView {
    ErrorView::Policy("tool is forbidden"@)
}

pub open spec fn rejected() -> ErrorView {
    ErrorView::Policy("approval rejected"@)
}

impl ToolMachine {
    /// The event is one that the call waits for, and what it brings can be
    /// recorded.
    pub open spec fn expects(&self, event: ToolEvent) -> bool {
        match event {
            ToolEvent::Failed { .. } => !(self.phase is Done),
            ToolEvent::Emitted { .. } => self.records(),
            ToolEvent::Risk { .. } => self.phase is LookingUp,
            ToolEvent::Unknown { error } => self.phase is LookingUp && redactable(
                error_content(error@),
            ),
            ToolEvent::Opened { .. } => self.phase is Opening,
            ToolEvent::Decided { .. } => self.phase is Deciding,
            ToolEvent::Returned { content, evidence, .. } => self.phase is Running && acceptable(
                content@,
                evidence,
            ),
            ToolEvent::Errored { error } => self.phase is Running && redactable(
                error_content(error@),
            ),
            ToolEvent::Stored { .. } => self.phase is Storing,
        }
    }

    /// An event is being recorded.
    pub open spec fn records(&self) -> bool {
        match self.phase {
            ToolPhase::Proposing => true,
            ToolPhase::Denying => true,
            ToolPhase::Requesting { .. } => true,
            ToolPhase::Resolving { .. } => true,
            ToolPhase::Rejecting => true,
            ToolPhase::Authorizing => true,
            ToolPhase::Starting => true,
            ToolPhase::Completing => true,
            _ => false,
        }
    }

    /// A result is held exactly while its output is put aside.
    pub open spec fn well_formed(&self) -> bool {
        &&& self.phase is Storing <==> self.held is Some
        &&& self.held matches Some(held) ==> redactable(held.content@) && (
        held.evidence.summary@.len() == 0 ==> summarizable(
            json_redacted(held.content@).0,
            280,
        ))
    }

    /// What the event of an authorization says.
    pub open spec fn authorized(&self, decision: Seq<char>) -> EventView {
        EventView::ToolAuthorized { call_id: self.call@.call_id, tool: self.call@.name, decision }
    }

    /// The step by which an event that was recorded leads on.
    pub open spec fn recorded(
        &self,
        id: EventId,
        now: Timestamp,
        r: (ToolMachine, ToolAction),
    ) -> bool {
        let cause = Some(id);
        match self.phase {
            ToolPhase::Proposing => r.0.phase is LookingUp && r.0.cause == cause && r.0.held is None
                && r.1 is LookUp,
            ToolPhase::Denying => fails_call(r, cause, self.call@, forbidden(), now),
            ToolPhase::Requesting { approval_id } => {
                &&& r.0.phase == ToolPhase::Deciding { approval_id }
                &&& r.0.cause == cause
                &&& r.0.held is None
                &&& r.1 matches ToolAction::AwaitDecision { approval_id: id } && id == approval_id
            },
            ToolPhase::Resolving { approved, .. } => if approved {
                emits(r, cause, ToolPhase::Authorizing, self.authorized("allow"@))
            } else {
                emits(r, cause, ToolPhase::Rejecting, self.authorized("deny"@))
            },
            ToolPhase::Rejecting => fails_call(r, cause, self.call@, rejected(), now),
            ToolPhase::Authorizing => emits(
                r,
                cause,
                ToolPhase::Starting,
                EventView::ToolExecutionStarted {
                    call_id: self.call@.call_id,
                    tool: self.call@.name,
                },
            ),
            ToolPhase::Starting => r.0.phase is Running && r.0.cause == cause && r.0.held is None
                && r.1 is Run,
            _ => {
                &&& r.0.phase is Done
                &&& r.1 matches ToolAction::Finish { event_id } && event_id == id
            },
        }
    }

    /// The step by which the risk of the tool leads on.
    pub open spec fn judged(&self, risk: ToolRisk, r: (ToolMachine, ToolAction)) -> bool {
        match risk_decision(risk) {
            PolicyDecision::Deny => emits(
                r,
                self.cause,
                ToolPhase::Denying,
                self.authorized("deny"@),
            ),
            PolicyDecision::Ask => r.0.phase is Opening && r.0.cause == self.cause && r.0.held
                is None && r.1 is OpenApproval,
            PolicyDecision::Allow => emits(
                r,
                self.cause,
                ToolPhase::Authorizing,
                self.authorized("allow"@),
            ),
        }
    }

    /// The step by which a decision leads on.
    pub open spec fn decided(&self, approved: Option<bool>, r: (ToolMachine, ToolAction)) -> bool {
        let approval_id = self.phase->Deciding_approval_id;
        match approved {
            None => aborts(r, ErrorView::Policy("approval channel closed"@)),
            Some(approved) => emits(
                r,
                self.cause,
                ToolPhase::Resolving { approval_id, approved },
                EventView::ApprovalResolved { approval_id, approved },
            ),
        }
    }

    /// The step by which the output of the tool leads on: a large one is put
    /// aside first.
    pub open spec fn returned(
        &self,
        content: JsonView,
        evidence: EvidenceMeta,
        duration_ms: u64,
        evidence_id: EvidenceId,
        r: (ToolMachine, ToolAction),
    ) -> bool {
        let redacted = json_redacted(content).0;
        let timed = EvidenceMeta { duration_ms, ..evidence };
        &&& r.0.cause == self.cause
        &&& if map_bytes(redacted).len() > self.inline_bytes {
            &&& r.0.phase is Storing
            &&& r.0.held matches Some(held) && held.content@ == redacted && held.evidence == timed
            &&& r.1 matches ToolAction::Store { bytes } && bytes@ == map_bytes(redacted)
        } else {
            &&& r.0.phase is Completing
            &&& r.0.held is None
            &&& r.1 matches ToolAction::Emit { event } && is_success_result(
                event@,
                self.call@,
                redacted,
                timed,
                None,
                evidence_id,
            )
        }
    }

    /// The step by which an event leads on.
    pub open spec fn stepped(
        &self,
        event: ToolEvent,
        now: Timestamp,
        evidence_id: EvidenceId,
        r: (ToolMachine, ToolAction),
    ) -> bool {
        match event {
            ToolEvent::Failed { error } => aborts(r, error@),
            ToolEvent::Emitted { event_id } => self.recorded(event_id, now, r),
            ToolEvent::Risk { risk } => self.judged(risk, r),
            ToolEvent::Unknown { error } => fails_call(r, self.cause, self.call@, error@, now),
            ToolEvent::Opened { approval_id } => emits(
                r,
                self.cause,
                ToolPhase::Requesting { approval_id },
                EventView::ApprovalRequired {
                    approval_id,
                    tool: self.call@.name,
                    arguments: self.call@.arguments,
                },
            ),
            ToolEvent::Decided { approved } => self.decided(approved, r),
            ToolEvent::Returned { content, evidence, duration_ms } => self.returned(
                content@,
                evidence,
                duration_ms,
                evidence_id,
                r,
            ),
            ToolEvent::Errored { error } => fails_call(r, self.cause, self.call@, error@, now),
            ToolEvent::Stored { artifact_ref } => {
                &&& r.0.phase is Completing
                &&& r.0.cause == self.cause
                &&& r.0.held is None
                &&& self.held matches Some(held) && r.1 matches ToolAction::Emit { event }
                    && is_success_result(
                    event@,
                    self.call@,
                    held.content@,
                    held.evidence,
                    Some(artifact_ref),
                    evidence_id,
                )
            },
        }
    }

    /// What no step changes.
    pub open spec fn same_call(&self, other: ToolMachine) -> bool {
        self.call@ == other.call@ && self.thread_id == other.thread_id && self.turn_id
            == other.turn_id && self.workspace_id == other.workspace_id && self.inline_bytes
            == other.inline_bytes
    }

    /// Starts a call: the proposal is recorded first.
    pub fn start(
        workspace_id: WorkspaceId,
        thread_id: ThreadId,
        turn_id: TurnId,
        call: ToolCall,
        inline_bytes: usize,
        cause: Option<EventId>,
    ) -> (r: (ToolMachine, ToolAction))
        ensures
            r.0.well_formed(),
            r.0.workspace_id == workspace_id,
            r.0.thread_id == thread_id,
            r.0.turn_id == turn_id,
            r.0.call == call,
            r.0.inline_bytes == inline_bytes,
            emits(
                r,
                cause,
                ToolPhase::Proposing,
                (EventView::ToolProposed {
                    call_id: call@.call_id,
                    tool: call@.name,
                    arguments: call@.arguments,
                }),
            ),
    {
        let event = RuntimeEvent::ToolProposed {
            call_id: call.call_id.clone(),
            tool: call.name.clone(),
            arguments: call.arguments.clone(),
        };
        (
            ToolMachine {
                workspace_id,
                thread_id,
                turn_id,
                call,
                inline_bytes,
                cause,
                phase: ToolPhase::Proposing,
                held: None,
            },
            ToolAction::Emit { event },
        )
    }

    fn at(self, phase: ToolPhase, cause: Option<EventId>) -> (r: ToolMachine)
        requires
            !(phase is Storing),
        ensures
            r.phase == phase,
            r.cause == cause,
            r.held is None,
            self.same_call(r),
            r.call == self.call,
            r.well_formed(),
    {
        ToolMachine { phase, cause, held: None, ..self }
    }

    fn authorization(&self, decision: &str) -> (r: ToolAction)
        ensures
            r matches ToolAction::Emit { event } && event@ == self.authorized(decision@),
    {
        ToolAction::Emit {
            event: RuntimeEvent::ToolAuthorized {
                call_id: self.call.call_id.clone(),
                tool: self.call.name.clone(),
                decision: decision.to_owned(),
            },
        }
    }

    fn error_result(self, cause: Option<EventId>, error: &OpsCodexError, now: Timestamp) -> (r: (
        ToolMachine,
        ToolAction,
    ))
        requires
            redactable(error_content(error@)),
        ensures
            fails_call(r, cause, self.call@, error@, now),
            self.same_call(r.0),
            r.0.well_formed(),
    {
        let content = error_json(error);
        let (output, _changed) = redact_json(&content);
        let source = self.call.name.clone();
        let fresh = EvidenceMeta::new(source, now);
        let query = self.call.arguments.to_map_text();
        let ghost query_text = query;
        let ghost source_text = source;
        let evidence = fresh.with_query(query);
        proof {
            assert(is_new(fresh, source_text, now));
            assert(evidence == asked(fresh, query_text));
            assert(is_error_evidence(evidence, self.call@, now));
        }
        let event = RuntimeEvent::ToolCompleted {
            call_id: self.call.call_id.clone(),
            tool: self.call.name.clone(),
            output,
            evidence,
            success: false,
        };
        (self.at(ToolPhase::Completing, cause), ToolAction::Emit { event })
    }

    fn success_result(
        self,
        content: Json,
        evidence: EvidenceMeta,
        artifact_ref: Option<String>,
        evidence_id: EvidenceId,
    ) -> (r: (ToolMachine, ToolAction))
        requires
            redactable(content@),
            evidence.summary@.len() == 0 ==> summarizable(json_redacted(content@).0, 280),
        ensures
            r.0.phase is Completing,
            r.0.cause == self.cause,
            r.0.held is None,
            r.1 matches ToolAction::Emit { event } && is_success_result(
                event@,
                self.call@,
                content@,
                evidence,
                artifact_ref,
                evidence_id,
            ),
            self.same_call(r.0),
            r.0.well_formed(),
    {
        let ids = EvidenceIds {
            workspace_id: self.workspace_id.clone(),
            thread_id: self.thread_id,
            turn_id: self.turn_id,
            tool_call_id: self.call.call_id.clone(),
        };
        let evidence = finalize_evidence(evidence, &content, artifact_ref, &ids, evidence_id);
        let output = model_tool_output(true, &evidence, &content);
        let event = RuntimeEvent::ToolCompleted {
            call_id: self.call.call_id.clone(),
            tool: self.call.name.clone(),
            output,
            evidence,
            success: true,
        };
        let cause = self.cause;
        (self.at(ToolPhase::Completing, cause), ToolAction::Emit { event })
    }

    fn after_event(self, event_id: EventId, now: Timestamp) -> (r: (ToolMachine, ToolAction))
        requires
            self.well_formed(),
            self.records(),
        ensures
            self.recorded(event_id, now, r),
            self.same_call(r.0),
            r.0.well_formed(),
    {
        let cause = Some(event_id);
        match self.phase {
            ToolPhase::Proposing => (self.at(ToolPhase::LookingUp, cause), ToolAction::LookUp),
            ToolPhase::Denying => {
                proof {
                    lemma_fixed_errors();
                }
                self.error_result(
                    cause,
                    &OpsCodexError::Policy("tool is forbidden".to_owned()),
                    now,
                )
            },
            ToolPhase::Requesting { approval_id } => (
                self.at(ToolPhase::Deciding { approval_id }, cause),
                ToolAction::AwaitDecision { approval_id },
            ),
            ToolPhase::Resolving { approved, .. } => if approved {
                let action = self.authorization("allow");
                (self.at(ToolPhase::Authorizing, cause), action)
            } else {
                let action = self.authorization("deny");
                (self.at(ToolPhase::Rejecting, cause), action)
            },
            ToolPhase::Rejecting => {
                proof {
                    lemma_fixed_errors();
                }
                self.error_result(
                    cause,
                    &OpsCodexError::Policy("approval rejected".to_owned()),
                    now,
                )
            },
            ToolPhase::Authorizing => {
                let event = RuntimeEvent::ToolExecutionStarted {
                    call_id: self.call.call_id.clone(),
                    tool: self.call.name.clone(),
                };
                (self.at(ToolPhase::Starting, cause), ToolAction::Emit { event })
            },
            ToolPhase::Starting => (self.at(ToolPhase::Running, cause), ToolAction::Run),
            _ => (self.at(ToolPhase::Done, cause), ToolAction::Finish { event_id }),
        }
    }

    fn after_risk(self, risk: ToolRisk) -> (r: (ToolMachine, ToolAction))
        ensures
            self.judged(risk, r),
            self.same_call(r.0),
            r.0.well_formed(),
    {
        let cause = self.cause;
        match risk {
            ToolRisk::Forbidden => {
                let action = self.authorization("deny");
                (self.at(ToolPhase::Denying, cause), action)
            },
            ToolRisk::Ask => (self.at(ToolPhase::Opening, cause), ToolAction::OpenApproval),
            ToolRisk::Safe => {
                let action = self.authorization("allow");
                (self.at(ToolPhase::Authorizing, cause), action)
            },
        }
    }

    fn after_return(
        self,
        content: Json,
        evidence: EvidenceMeta,
        duration_ms: u64,
        evidence_id: EvidenceId,
    ) -> (r: (ToolMachine, ToolAction))
        requires
            acceptable(content@, evidence),
        ensures
            self.returned(content@, evidence, duration_ms, evidence_id, r),
            self.same_call(r.0),
            r.0.well_formed(),
    {
        let (redacted, _changed) = redact_json(&content);
        let evidence = EvidenceMeta { duration_ms, ..evidence };
        let bytes = redacted.to_map_bytes();
        if bytes.len() > self.inline_bytes {
            let held = HeldResult { content: redacted, evidence };
            (
                ToolMachine { phase: ToolPhase::Storing, held: Some(held), ..self },
                ToolAction::Store { bytes },
            )
        } else {
            self.success_result(redacted, evidence, None, evidence_id)
        }
    }

    /// Takes the next step of a call. The time and the identifier of evidence
    /// are the caller's.
    pub fn step(self, event: ToolEvent, now: Timestamp, evidence_id: EvidenceId) -> (r: (
        ToolMachine,
        ToolAction,
    ))
        requires
            self.well_formed(),
            self.expects(event),
        ensures
            self.stepped(event, now, evidence_id, r),
            self.same_call(r.0),
            r.0.well_formed(),
    {
        let cause = self.cause;
        match event {
            ToolEvent::Failed { error } => (
                self.at(ToolPhase::Done, cause),
                ToolAction::Abort { error },
            ),
            ToolEvent::Emitted { event_id } => self.after_event(event_id, now),
            ToolEvent::Risk { risk } => self.after_risk(risk),
            ToolEvent::Unknown { error } => self.error_result(cause, &error, now),
            ToolEvent::Opened { approval_id } => {
                let event = RuntimeEvent::ApprovalRequired {
                    approval_id,
                    tool: self.call.name.clone(),
                    arguments: self.call.arguments.clone(),
                };
                (self.at(ToolPhase::Requesting { approval_id }, cause), ToolAction::Emit { event })
            },
            ToolEvent::Decided { approved } => {
                let approval_id = match self.phase {
                    ToolPhase::Deciding { approval_id } => approval_id,
                    _ => ApprovalId { value: 0 },
                };
                match approved {
                    None => (
                        self.at(ToolPhase::Done, cause),
                        ToolAction::Abort {
                            error: OpsCodexError::Policy("approval channel closed".to_owned()),
                        },
                    ),
                    Some(approved) => (
                        self.at(ToolPhase::Resolving { approval_id, approved }, cause),
                        ToolAction::Emit {
                            event: RuntimeEvent::ApprovalResolved { approval_id, approved },
                        },
                    ),
                }
            },
            ToolEvent::Returned { content, evidence, duration_ms } => self.after_return(
                content,
                evidence,
                duration_ms,
                evidence_id,
            ),
            ToolEvent::Errored { error } => self.error_result(cause, &error, now),
            ToolEvent::Stored { artifact_ref } => {
                let mut machine = self;
                match machine.held.take() {
                    Some(held) => machine.success_result(
                        held.content,
                        held.evidence,
                        Some(artifact_ref),
                        evidence_id,
                    ),
                    None => (machine, ToolAction::Run),
                }
            },
        }
    }

    /// Whether the event is one that the call waits for, and what it brings
    /// can be recorded.
    pub fn can_step(&self, event: &ToolEvent) -> (r: bool)
        ensures
            r == self.expects(*event),
    {
        match event {
            ToolEvent::Failed { .. } => !matches!(self.phase, ToolPhase::Done),
            ToolEvent::Emitted { .. } => matches!(
                self.phase,
                ToolPhase::Proposing | ToolPhase::Denying | ToolPhase::Requesting { .. }
                    | ToolPhase::Resolving { .. } | ToolPhase::Rejecting | ToolPhase::Authorizing
                    | ToolPhase::Starting | ToolPhase::Completing
            ),
            ToolEvent::Risk { .. } => matches!(self.phase, ToolPhase::LookingUp),
            ToolEvent::Unknown { error } => matches!(self.phase, ToolPhase::LookingUp)
                && is_json_redactable(&error_json(error)),
            ToolEvent::Opened { .. } => matches!(self.phase, ToolPhase::Opening),
            ToolEvent::Decided { .. } => matches!(self.phase, ToolPhase::Deciding { .. }),
            ToolEvent::Returned { content, evidence, .. } => matches!(
                self.phase,
                ToolPhase::Running
            ) && is_acceptable(content, evidence),
            ToolEvent::Errored { error } => matches!(self.phase, ToolPhase::Running)
                && is_json_redactable(&error_json(error)),
            ToolEvent::Stored { .. } => matches!(self.phase, ToolPhase::Storing),
        }
    }
}

/// A text without a dash can be redacted.
proof fn lemma_dashless(text: Seq<char>)
    requires
        forall|i: int| 0 <= i < text.len() ==> #[trigger] text[i] != '-',
    ensures
        pem_in_order(text),
{
    let begin = "-----BEGIN "@;
    reveal_strlit("-----BEGIN ");
    lemma_find_from(text, begin, 0);
    if let Some(start) = find_from(text, begin, 0) {
        assert(matches_at(text, begin, start));
        assert(text[start] == begin[0]);
    }
}

/// What a model is told of a forbidden and of a rejected tool can be redacted.
proof fn lemma_fixed_errors()
    ensures
        redactable(error_content(forbidden())),
        redactable(error_content(rejected())),
{
    reveal_strlit("policy error: ");
    reveal_strlit("policy");
    reveal_strlit("tool is forbidden");
    reveal_strlit("approval rejected");
    lemma_error_redactable(forbidden());
    lemma_error_redactable(rejected());
}

proof fn lemma_error_redactable(error: ErrorView)
    requires
        forall|i: int| 0 <= i < error.text().len() ==> #[trigger] error.text()[i] != '-',
        forall|i: int|
            0 <= i < error.class().name().len() ==> #[trigger] error.class().name()[i] != '-',
    ensures
        redactable(error_content(error)),
{
    lemma_dashless(error.text());
    lemma_dashless(error.class().name());
    let entries = error_entries(error);
    let two = entries.drop_last();
    let one = two.drop_last();
    assert(one.drop_last() =~= Seq::<(Seq<char>, JsonView)>::empty());
    assert(entries_redactable(one.drop_last()));
    assert(redactable(JsonView::Text(error.class().name())));
    assert(redactable(JsonView::Text(error.text())));
    assert(one.last() == entries[0]);
    assert(entries_redactable(one));
    assert(two.last() == entries[1]);
    assert(entries_redactable(two));
    assert(redactable(JsonView::Bool(error.class().may_retry())));
    assert(entries.last() == entries[2]);
    assert(entries_redactable(entries));
}

// ---------------------------------------------------------------------------
// Laws
// ---------------------------------------------------------------------------
/// A tool runs only after it was recorded that it starts.
pub proof fn law_run_follows_the_start(
    before: ToolMachine,
    event: ToolEvent,
    now: Timestamp,
    evidence_id: EvidenceId,
    r: (ToolMachine, ToolAction),
)
    requires
        before.well_formed(),
        before.expects(event),
        before.stepped(event, now, evidence_id, r),
        r.1 is Run || r.0.phase is Running,
    ensures
        before.phase is Starting,
        event is Emitted,
{
}

/// The start is recorded only after the permission to run.
pub proof fn law_start_follows_the_permission(
    before: ToolMachine,
    event: ToolEvent,
    now: Timestamp,
    evidence_id: EvidenceId,
    r: (ToolMachine, ToolAction),
)
    requires
        before.well_formed(),
        before.expects(event),
        before.stepped(event, now, evidence_id, r),
        r.0.phase is Starting,
    ensures
        before.phase is Authorizing,
        event is Emitted,
{
}

/// Permission to run is recorded only for a tool that the policy allows, or
/// one that the user has approved.
pub proof fn law_permission_needs_policy_or_approval(
    before: ToolMachine,
    event: ToolEvent,
    now: Timestamp,
    evidence_id: EvidenceId,
    r: (ToolMachine, ToolAction),
)
    requires
        before.well_formed(),
        before.expects(event),
        before.stepped(event, now, evidence_id, r),
        r.0.phase is Authorizing,
    ensures
        (event matches ToolEvent::Risk { risk } && risk_decision(risk) is Allow) || (
        before.phase matches ToolPhase::Resolving { approved, .. } && approved && event
            is Emitted),
{
}

/// A request is resolved as approved only where the user has approved it, and
/// it is the one that was asked for.
pub proof fn law_approval_is_the_users(
    before: ToolMachine,
    event: ToolEvent,
    now: Timestamp,
    evidence_id: EvidenceId,
    r: (ToolMachine, ToolAction),
    approval_id: ApprovalId,
    approved: bool,
)
    requires
        before.well_formed(),
        before.expects(event),
        before.stepped(event, now, evidence_id, r),
        r.0.phase == (ToolPhase::Resolving { approval_id, approved }),
    ensures
        before.phase == (ToolPhase::Deciding { approval_id }),
        event matches ToolEvent::Decided { approved: decision } && decision == Some(approved),
{
}

/// A forbidden tool leads to a result that says so, and never runs.
pub proof fn law_forbidden_tools_are_denied(
    before: ToolMachine,
    now: Timestamp,
    evidence_id: EvidenceId,
    r: (ToolMachine, ToolAction),
)
    requires
        before.well_formed(),
        before.phase is LookingUp,
        before.stepped((ToolEvent::Risk { risk: ToolRisk::Forbidden }), now, evidence_id, r),
    ensures
        r.0.phase is Denying,
        forall|event: ToolEvent, later: Timestamp, id: EvidenceId, next: (ToolMachine, ToolAction)|
            r.0.expects(event) && #[trigger] r.0.stepped(event, later, id, next)
                ==> next.0.phase is Completing || next.0.phase is Done,
{
}

/// A call ends only once its result is recorded, or with the turn.
pub proof fn law_call_ends_with_its_result(
    before: ToolMachine,
    event: ToolEvent,
    now: Timestamp,
    evidence_id: EvidenceId,
    r: (ToolMachine, ToolAction),
)
    requires
        before.well_formed(),
        before.expects(event),
        before.stepped(event, now, evidence_id, r),
        r.0.phase is Done,
    ensures
        r.1 is Abort || (before.phase is Completing && event is Emitted && r.1 is Finish),
{
}

/// A call from its start, step by step.
pub open spec fn is_run(
    machines: Seq<ToolMachine>,
    events: Seq<ToolEvent>,
    actions: Seq<ToolAction>,
    times: Seq<Timestamp>,
    ids: Seq<EvidenceId>,
) -> bool {
    &&& machines.len() == events.len() + 1
    &&& actions.len() == events.len()
    &&& times.len() == events.len()
    &&& ids.len() == events.len()
    &&& machines[0].phase is Proposing
    &&& forall|k: int| 0 <= k < events.len() ==> #[trigger] step_at(machines, events, actions, times, ids, k)
}

pub open spec fn step_at(
    machines: Seq<ToolMachine>,
    events: Seq<ToolEvent>,
    actions: Seq<ToolAction>,
    times: Seq<Timestamp>,
    ids: Seq<EvidenceId>,
    k: int,
) -> bool {
    &&& machines[k].well_formed()
    &&& machines[k].expects(events[k])
    &&& machines[k].stepped(events[k], times[k], ids[k], (machines[k + 1], actions[k]))
}

/// Whenever a tool runs, it was recorded two steps before that it may, and it
/// was recorded one step before that it starts.
pub proof fn law_nothing_runs_unauthorized(
    machines: Seq<ToolMachine>,
    events: Seq<ToolEvent>,
    actions: Seq<ToolAction>,
    times: Seq<Timestamp>,
    ids: Seq<EvidenceId>,
    k: int,
)
    requires
        is_run(machines, events, actions, times, ids),
        0 <= k < events.len(),
        actions[k] is Run,
    ensures
        k >= 2,
        actions[k - 1] matches ToolAction::Emit { event } && event@ is ToolExecutionStarted,
        actions[k - 2] matches ToolAction::Emit { event } && event@ == machines[k - 2].authorized(
            "allow"@,
        ),
{
    assert(step_at(machines, events, actions, times, ids, k));
    assert(machines[k].phase is Starting);
    assert(step_at(machines, events, actions, times, ids, k - 1));
    assert(machines[k - 1].phase is Authorizing);
    assert(step_at(machines, events, actions, times, ids, k - 2));
}

} // verus!
