//! A turn: the model is asked, its answers are recorded and its tool calls are
//! carried out, until it asks for no more tools or the steps run out.
use std::collections::HashSet;
use vstd::prelude::*;

use crate::error::{ErrorView, OpsCodexError, OpsResult};
use crate::evidence::diagnosis::{
    apply_citation_limitations, is_limited, is_parsed, parse_diagnosis, Diagnosis, LooseDiagnosis,
};
use crate::evidence::EvidenceMeta;
use crate::model::provider::{
    item_views, output_views, ModelOutput, ModelRequest, OutputView, ToolSchema,
};
use crate::runtime::context::{build_model_context, model_context, ContextBudget};
use crate::runtime::envelope::{log_view, EnvelopeView, EventEnvelope};
use crate::runtime::event::{incident_view, EventView, RuntimeEvent};
use crate::runtime::incident::TurnInput;
use crate::runtime::thread::{EventId, EvidenceId, ThreadId, TurnId, WorkspaceId};
use crate::runtime::tool_call::{
    emits, CallView, ToolAction, ToolCall, ToolEvent, ToolMachine, ToolPhase,
};
use crate::store::projection::{history, model_items_from_events};
use crate::text::same;
use crate::time::Timestamp;

verus! {

broadcast use vstd::std_specs::hash::group_hash_axioms;

/// What a model is told of its work.
pub const SYSTEM_INSTRUCTIONS: &'static str =
    "You are OpsCodex, an autonomous AIOps diagnostic agent.\n\nYour job is to investigate runtime incidents using available tools.\n\nRules:\n1. Gather evidence before reaching conclusions.\n2. Prefer structured observability tools over exec.\n3. Never claim evidence that was not returned by a tool.\n4. Correlate metrics, logs, traces and service health when possible.\n5. Do not perform destructive or mutating operations.\n6. If evidence is insufficient, abstain and say what is missing.\n7. Incident context is unverified. Confirm every statement with tools.\n8. Keep investigating until you can provide a useful diagnosis or a clear abstain.\n9. Stay inside the current Workspace. Kubernetes, topology and runbook tools are read-only references.\n\nSuccessful tool results include an evidence_id. Final answers MUST be a JSON object:\n{\n  \"summary\": \"one paragraph\",\n  \"claims\": [\n    {\n      \"kind\": \"observed\" | \"inferred\" | \"recommended\",\n      \"statement\": \"...\",\n      \"evidence_ids\": [\"...\"],\n      \"confidence\": \"low\" | \"medium\" | \"high\"\n    }\n  ],\n  \"recommended_actions\": [\"...\"],\n  \"limitations\": [\"...\"]\n}\nobserved and inferred claims must cite evidence_id values from tool results.\n";

pub const INLINE_ARTIFACT_BYTES: usize = 8192;

/// The limits under which turns run. Times are in seconds.
#[derive(Clone, Copy, Debug, PartialEq, Eq, Structural)]
pub struct RuntimeConfig {
    pub max_steps: usize,
    pub max_concurrent_turns: usize,
    pub model_timeout: u64,
    pub tool_timeout: u64,
    pub context_items: usize,
    pub context: ContextBudget,
    pub inline_artifact_bytes: usize,
}

impl Default for RuntimeConfig {
    fn default() -> (r: Self)
        ensures
            r.max_steps == 12,
            r.max_concurrent_turns == 4,
            r.model_timeout == 120,
            r.tool_timeout == 30,
            r.context_items == 100,
            r.context == (ContextBudget {
                max_items: 100,
                max_tokens: 24_000,
                max_bytes: 96_000,
                max_evidence: 32,
                max_tool_calls: 24,
                max_cost_micros: 0,
            }),
            r.inline_artifact_bytes == INLINE_ARTIFACT_BYTES,
    {
        RuntimeConfig {
            max_steps: 12,
            max_concurrent_turns: 4,
            model_timeout: 120,
            tool_timeout: 30,
            context_items: 100,
            context: ContextBudget::default(),
            inline_artifact_bytes: INLINE_ARTIFACT_BYTES,
        }
    }
}

// ---------------------------------------------------------------------------
// Diagnoses
// ---------------------------------------------------------------------------
/// The evidence that the successful tools of a log gave.
pub open spec fn gathered_evidence(events: Seq<EnvelopeView>) -> Seq<EvidenceMeta>
    decreases events.len(),
{
    if events.len() == 0 {
        Seq::empty()
    } else {
        let before = gathered_evidence(events.drop_last());
        match events.last().event {
            EventView::ToolCompleted { evidence, success, .. } => if success {
                before.push(evidence)
            } else {
                before
            },
            _ => before,
        }
    }
}

/// Holds a diagnosis to the evidence of the thread.
pub fn finalize_turn_diagnosis(diagnosis: Diagnosis, events: &Vec<EventEnvelope>) -> (r: Diagnosis)
    ensures
        is_limited(r, diagnosis, gathered_evidence(log_view(events@))),
{
    let ghost log = log_view(events@);
    let mut evidence: Vec<EvidenceMeta> = Vec::new();
    let mut i: usize = 0;
    assert(evidence@ =~= gathered_evidence(log.take(0)));
    while i < events.len()
        invariant
            i <= events@.len(),
            log == log_view(events@),
            evidence@ == gathered_evidence(log.take(i as int)),
        decreases events@.len() - i,
    {
        assert(log.take(i + 1).drop_last() =~= log.take(i as int));
        assert(log.take(i + 1).last() == events@[i as int]@);
        if let RuntimeEvent::ToolCompleted { evidence: found, success, .. } = &events[i].event {
            if *success {
                evidence.push(found.clone());
            }
        }
        i += 1;
    }
    assert(log.take(i as int) =~= log);
    apply_citation_limitations(diagnosis, &evidence)
}

/// The event by which an answer is recorded, with the diagnosis that was read
/// from it and held to the evidence.
pub open spec fn is_answer(
    event: EventView,
    answer: Seq<char>,
    parsed: Option<LooseDiagnosis>,
    events: Seq<EnvelopeView>,
) -> bool {
    event matches EventView::AssistantCompleted { content, diagnosis: Some(json) } && {
        &&& content == answer
        &&& exists|read: Diagnosis, kept: Diagnosis|
            {
                &&& #[trigger] is_parsed(read, answer, parsed)
                &&& #[trigger] is_limited(kept, read, gathered_evidence(events))
                &&& json == kept.json()
            }
    }
}

// ---------------------------------------------------------------------------
// The turn
// ---------------------------------------------------------------------------
/// What the turn waits for.
#[derive(Clone, Copy, Debug, PartialEq, Eq, Structural)]
pub enum TurnPhase {
    /// The message of the user is being recorded.
    RecordingInput,
    /// The start of the turn is being recorded.
    RecordingStart,
    /// The model is at work.
    Thinking,
    /// A piece of the answer is being recorded; the model is still at work.
    Streaming,
    /// An answer that came in one piece is being recorded as a piece.
    Replying,
    /// The log is being read, to hold the answer to the evidence.
    Reading,
    /// The answer is being recorded.
    Answering,
    /// A tool call is under way.
    Calling,
    /// The end of the turn is being recorded.
    Ending,
    /// Nothing is awaited any more.
    Done,
}

/// What has happened.
#[derive(Debug)]
pub enum TurnEvent {
    /// The event was recorded, under this identifier.
    Emitted { event_id: EventId },
    /// The turn cannot go on: it was cancelled, the store or the model failed,
    /// or the model took too long.
    Failed { error: OpsCodexError },
    /// A piece of the answer came in.
    Delta { delta: String },
    /// The model is finished.
    Responded { outputs: Vec<ModelOutput> },
    /// The log was read, and so was the object in the answer.
    LogRead { events: Vec<EventEnvelope>, parsed: Option<LooseDiagnosis> },
    /// Something happened in the tool call that is under way.
    Tool { event: ToolEvent },
}

/// What is to be done.
#[derive(Debug)]
pub enum TurnAction {
    Emit { cause: Option<EventId>, event: RuntimeEvent },
    /// Ask the model what `turn_request` puts together, or, while it is at work, wait
    /// for more of its answer.
    Think,
    /// Read the log, and the object in this answer.
    ReadLog { answer: String },
    /// Carry on with the tool call.
    Tool { action: ToolAction },
    /// The turn is over.
    End { result: OpsResult<()> },
}

/// The state of a turn.
#[derive(Debug)]
pub struct TurnMachine {
    pub workspace_id: WorkspaceId,
    pub thread_id: ThreadId,
    pub turn_id: TurnId,
    pub inline_bytes: usize,
    /// How often the model may still be asked.
    pub steps_left: usize,
    /// The event that caused the next one.
    pub cause: Option<EventId>,
    pub phase: TurnPhase,
    /// What the model put out, and how much of it has been dealt with.
    pub outputs: Vec<ModelOutput>,
    pub next: usize,
    /// The answer came in pieces, which have been recorded.
    pub streamed: bool,
    /// The model asked for a tool.
    pub called_tool: bool,
    /// The tool call that is under way.
    pub tool: Option<ToolMachine>,
}

/// The turn ends with this error.
pub open spec fn turn_fails(r: (TurnMachine, TurnAction), error: ErrorView) -> bool {
    &&& r.0.phase is Done
    &&& r.1 matches TurnAction::End { result } && result matches Err(e) && e@ == error
}

/// The step leads to `phase`, by recording `event`.
pub open spec fn turn_emits(
    r: (TurnMachine, TurnAction),
    cause: Option<EventId>,
    phase: TurnPhase,
    event: EventView,
) -> bool {
    &&& r.0.phase == phase
    &&& r.0.cause == cause
    &&& r.1 matches TurnAction::Emit { cause: c, event: e } && c == cause && e@ == event
}

impl TurnMachine {
    /// What the model put out.
    pub open spec fn put_out(&self) -> Seq<OutputView> {
        output_views(self.outputs@)
    }

    /// The message that is being dealt with.
    pub open spec fn message(&self) -> Seq<char> {
        match self.put_out()[self.next as int] {
            OutputView::Message(content) => content,
            _ => Seq::empty(),
        }
    }

    /// A tool call is under way exactly in its phase, and the current output is
    /// a message while an answer is dealt with.
    pub open spec fn well_formed(&self) -> bool {
        &&& self.phase is Calling <==> self.tool is Some
        &&& self.tool matches Some(tool) ==> tool.well_formed() && !(tool.phase is Done)
        &&& self.next <= self.put_out().len()
        &&& self.in_output() ==> self.next < self.put_out().len()
        &&& self.phase is Replying || self.phase is Reading || self.phase is Answering
            ==> self.put_out()[self.next as int] is Message
    }

    /// An output is being dealt with.
    pub open spec fn in_output(&self) -> bool {
        self.phase is Replying || self.phase is Reading || self.phase is Answering || self.phase
            is Calling
    }

    /// The event is one that the turn waits for.
    pub open spec fn expects(&self, event: TurnEvent) -> bool {
        match event {
            TurnEvent::Emitted { .. } => self.phase is RecordingInput || self.phase
                is RecordingStart || self.phase is Streaming || self.phase is Replying || self.phase
                is Answering || self.phase is Ending,
            TurnEvent::Failed { .. } => !(self.phase is Done),
            TurnEvent::Delta { .. } => self.phase is Thinking,
            TurnEvent::Responded { .. } => self.phase is Thinking,
            TurnEvent::LogRead { .. } => self.phase is Reading,
            TurnEvent::Tool { event } => self.tool matches Some(tool) && tool.expects(event),
        }
    }

    /// What no step changes.
    pub open spec fn same_turn(&self, other: TurnMachine) -> bool {
        self.workspace_id == other.workspace_id && self.thread_id == other.thread_id && self.turn_id
            == other.turn_id && self.inline_bytes == other.inline_bytes
    }

    /// The outputs and how far they have been dealt with stay.
    pub open spec fn same_outputs(&self, other: TurnMachine) -> bool {
        self.put_out() == other.put_out() && self.next == other.next && self.streamed
            == other.streamed && self.called_tool == other.called_tool && self.steps_left
            == other.steps_left
    }

    /// The model is asked, if it may be.
    pub open spec fn thinks(&self, cause: Option<EventId>, r: (TurnMachine, TurnAction)) -> bool {
        if self.steps_left == 0 {
            turn_fails(r, ErrorView::MaxStepsExceeded)
        } else {
            &&& r.0.phase is Thinking
            &&& r.0.cause == cause
            &&& r.0.steps_left == self.steps_left - 1
            &&& !r.0.streamed
            &&& !r.0.called_tool
            &&& r.1 is Think
        }
    }

    /// The output at `next` is dealt with, or, behind the last one, the model is
    /// asked again where it called a tool, and the turn ends where it did not.
    pub open spec fn goes_on(
        &self,
        next: int,
        cause: Option<EventId>,
        called_tool: bool,
        r: (TurnMachine, TurnAction),
    ) -> bool {
        if next < self.put_out().len() {
            &&& r.0.put_out() == self.put_out()
            &&& r.0.next == next
            &&& r.0.streamed == self.streamed
            &&& r.0.steps_left == self.steps_left
            &&& match self.put_out()[next] {
                OutputView::Message(content) => {
                    &&& r.0.called_tool == called_tool
                    &&& if self.streamed {
                        &&& r.0.phase is Reading
                        &&& r.0.cause == cause
                        &&& r.1 matches TurnAction::ReadLog { answer } && answer@ == content
                    } else {
                        turn_emits(
                            r,
                            cause,
                            TurnPhase::Replying,
                            EventView::AssistantDelta { delta: content },
                        )
                    }
                },
                OutputView::ToolCall(call_id, name, arguments) => {
                    &&& r.0.called_tool
                    &&& r.0.phase is Calling
                    &&& r.0.cause == cause
                    &&& r.0.tool matches Some(tool) && r.1 matches TurnAction::Tool { action } && {
                        &&& tool.call@ == (CallView { call_id, name, arguments })
                        &&& tool.thread_id == self.thread_id
                        &&& tool.turn_id == self.turn_id
                        &&& tool.workspace_id == self.workspace_id
                        &&& tool.inline_bytes == self.inline_bytes
                        &&& emits(
                            (tool, action),
                            cause,
                            ToolPhase::Proposing,
                            EventView::ToolProposed { call_id, tool: name, arguments },
                        )
                    }
                },
            }
        } else if called_tool {
            self.thinks(cause, r)
        } else {
            turn_emits(r, cause, TurnPhase::Ending, EventView::TurnCompleted)
        }
    }

    /// The step by which an event that was recorded leads on.
    pub open spec fn recorded(&self, id: EventId, r: (TurnMachine, TurnAction)) -> bool {
        match self.phase {
            TurnPhase::RecordingInput => turn_emits(
                r,
                None,
                TurnPhase::RecordingStart,
                EventView::TurnStarted,
            ) && self.same_outputs(r.0),
            TurnPhase::RecordingStart => self.thinks(None, r),
            TurnPhase::Streaming => {
                &&& r.0.phase is Thinking
                &&& r.0.cause == Some(id)
                &&& r.0.steps_left == self.steps_left
                &&& r.0.streamed
                &&& r.0.called_tool == self.called_tool
                &&& r.1 is Think
            },
            TurnPhase::Replying => {
                &&& r.0.phase is Reading
                &&& r.0.cause == Some(id)
                &&& self.same_outputs(r.0)
                &&& r.1 matches TurnAction::ReadLog { answer } && OutputView::Message(answer@)
                    == self.put_out()[self.next as int]
            },
            TurnPhase::Answering => self.goes_on(self.next + 1, Some(id), self.called_tool, r),
            _ => {
                &&& r.0.phase is Done
                &&& r.1 matches TurnAction::End { result } && result is Ok
            },
        }
    }

    /// The step by which something in a tool call leads on.
    pub open spec fn tool_stepped(
        &self,
        event: ToolEvent,
        now: Timestamp,
        evidence_id: EvidenceId,
        r: (TurnMachine, TurnAction),
    ) -> bool {
        self.tool matches Some(tool) && exists|next: (ToolMachine, ToolAction)|
            {
                &&& #[trigger] tool.stepped(event, now, evidence_id, next)
                &&& tool.same_call(next.0)
                &&& match next.1 {
                    ToolAction::Finish { event_id } => self.goes_on(
                        self.next + 1,
                        Some(event_id),
                        self.called_tool,
                        r,
                    ),
                    ToolAction::Abort { error } => turn_fails(r, error@),
                    _ => {
                        &&& r.0.phase is Calling
                        &&& r.0.cause == self.cause
                        &&& self.same_outputs(r.0)
                        &&& r.0.tool == Some(next.0)
                        &&& r.1 == (TurnAction::Tool { action: next.1 })
                    },
                }
            }
    }

    /// The step by which an event leads on.
    pub open spec fn stepped(
        &self,
        event: TurnEvent,
        now: Timestamp,
        evidence_id: EvidenceId,
        r: (TurnMachine, TurnAction),
    ) -> bool {
        match event {
            TurnEvent::Failed { error } => turn_fails(r, error@),
            TurnEvent::Emitted { event_id } => self.recorded(event_id, r),
            TurnEvent::Delta { delta } => turn_emits(
                r,
                self.cause,
                TurnPhase::Streaming,
                EventView::AssistantDelta { delta: delta@ },
            ) && r.0.steps_left == self.steps_left && r.0.called_tool == self.called_tool,
            TurnEvent::Responded { outputs } => self.responded(output_views(outputs@), r),
            TurnEvent::LogRead { events, parsed } => {
                &&& r.0.phase is Answering
                &&& r.0.cause == self.cause
                &&& self.same_outputs(r.0)
                &&& r.1 matches TurnAction::Emit { cause, event } && cause == self.cause
                    && is_answer(event@, self.message(), parsed, log_view(events@))
            },
            TurnEvent::Tool { event } => self.tool_stepped(event, now, evidence_id, r),
        }
    }

    /// The step by which a response leads on: its first output is dealt with.
    pub open spec fn responded(&self, outputs: Seq<OutputView>, r: (TurnMachine, TurnAction)) -> bool {
        exists|held: TurnMachine|
            {
                &&& #[trigger] held.put_out() == outputs
                &&& held.streamed == self.streamed
                &&& held.steps_left == self.steps_left
                &&& self.same_turn(held)
                &&& held.goes_on(0, self.cause, false, r)
            }
    }

    /// Starts a turn: the message of the user is recorded first.
    pub fn start(
        workspace_id: WorkspaceId,
        thread_id: ThreadId,
        turn_id: TurnId,
        config: &RuntimeConfig,
        input: TurnInput,
    ) -> (r: (TurnMachine, TurnAction))
        ensures
            r.0.well_formed(),
            r.0.workspace_id == workspace_id,
            r.0.thread_id == thread_id,
            r.0.turn_id == turn_id,
            r.0.inline_bytes == config.inline_artifact_bytes,
            r.0.steps_left == config.max_steps,
            turn_emits(
                r,
                None,
                TurnPhase::RecordingInput,
                (EventView::UserMessage {
                    content: input.content@,
                    incident_context: incident_view(input.incident_context),
                }),
            ),
    {
        (
            TurnMachine {
                workspace_id,
                thread_id,
                turn_id,
                inline_bytes: config.inline_artifact_bytes,
                steps_left: config.max_steps,
                cause: None,
                phase: TurnPhase::RecordingInput,
                outputs: Vec::new(),
                next: 0,
                streamed: false,
                called_tool: false,
                tool: None,
            },
            TurnAction::Emit {
                cause: None,
                event: RuntimeEvent::UserMessage {
                    content: input.content,
                    incident_context: input.incident_context,
                },
            },
        )
    }

    fn ended(self, result: OpsResult<()>) -> (r: (TurnMachine, TurnAction))
        requires
            self.next <= self.put_out().len(),
        ensures
            r.0.phase is Done,
            r.1 == (TurnAction::End { result }),
            r.0.well_formed(),
            self.same_turn(r.0),
    {
        (TurnMachine { phase: TurnPhase::Done, tool: None, ..self }, TurnAction::End { result })
    }

    fn think(self, cause: Option<EventId>) -> (r: (TurnMachine, TurnAction))
        requires
            self.next <= self.put_out().len(),
        ensures
            self.thinks(cause, r),
            r.0.well_formed(),
            self.same_turn(r.0),
    {
        if self.steps_left == 0 {
            return self.ended(Err(OpsCodexError::MaxStepsExceeded));
        }
        (
            TurnMachine {
                steps_left: self.steps_left - 1,
                cause,
                phase: TurnPhase::Thinking,
                outputs: Vec::new(),
                next: 0,
                streamed: false,
                called_tool: false,
                tool: None,
                ..self
            },
            TurnAction::Think,
        )
    }

    fn go_on(self, next: usize, cause: Option<EventId>, called_tool: bool) -> (r: (
        TurnMachine,
        TurnAction,
    ))
        requires
            next <= self.put_out().len(),
        ensures
            self.goes_on(next as int, cause, called_tool, r),
            r.0.well_formed(),
            self.same_turn(r.0),
    {
        if next >= self.outputs.len() {
            let machine = TurnMachine { next, ..self };
            if called_tool {
                return machine.think(cause);
            }
            return (
                TurnMachine { phase: TurnPhase::Ending, cause, tool: None, ..machine },
                TurnAction::Emit { cause, event: RuntimeEvent::TurnCompleted },
            );
        }
        assert(self.put_out()[next as int] == self.outputs@[next as int]@);
        match &self.outputs[next] {
            ModelOutput::Message { content } => {
                let content = content.clone();
                if self.streamed {
                    (
                        TurnMachine {
                            phase: TurnPhase::Reading,
                            next,
                            cause,
                            called_tool,
                            tool: None,
                            ..self
                        },
                        TurnAction::ReadLog { answer: content },
                    )
                } else {
                    (
                        TurnMachine {
                            phase: TurnPhase::Replying,
                            next,
                            cause,
                            called_tool,
                            tool: None,
                            ..self
                        },
                        TurnAction::Emit {
                            cause,
                            event: RuntimeEvent::AssistantDelta { delta: content },
                        },
                    )
                }
            },
            ModelOutput::ToolCall { call_id, name, arguments } => {
                let call = ToolCall {
                    call_id: call_id.clone(),
                    name: name.clone(),
                    arguments: arguments.clone(),
                };
                let (tool, action) = ToolMachine::start(
                    self.workspace_id.clone(),
                    self.thread_id,
                    self.turn_id,
                    call,
                    self.inline_bytes,
                    cause,
                );
                (
                    TurnMachine {
                        phase: TurnPhase::Calling,
                        next,
                        cause,
                        called_tool: true,
                        tool: Some(tool),
                        ..self
                    },
                    TurnAction::Tool { action },
                )
            },
        }
    }

    fn current_message(&self) -> (r: String)
        requires
            self.next < self.put_out().len(),
            self.put_out()[self.next as int] is Message,
        ensures
            self.put_out()[self.next as int] == OutputView::Message(r@),
    {
        assert(self.put_out()[self.next as int] == self.outputs@[self.next as int]@);
        match &self.outputs[self.next] {
            ModelOutput::Message { content } => content.clone(),
            _ => String::new(),
        }
    }

    fn after_event(self, event_id: EventId) -> (r: (TurnMachine, TurnAction))
        requires
            self.well_formed(),
            self.expects(TurnEvent::Emitted { event_id }),
        ensures
            self.recorded(event_id, r),
            r.0.well_formed(),
            self.same_turn(r.0),
    {
        let cause = Some(event_id);
        match self.phase {
            TurnPhase::RecordingInput => (
                TurnMachine { phase: TurnPhase::RecordingStart, cause: None, ..self },
                TurnAction::Emit { cause: None, event: RuntimeEvent::TurnStarted },
            ),
            TurnPhase::RecordingStart => self.think(None),
            TurnPhase::Streaming => (
                TurnMachine { phase: TurnPhase::Thinking, cause, streamed: true, ..self },
                TurnAction::Think,
            ),
            TurnPhase::Replying => {
                let answer = self.current_message();
                (
                    TurnMachine { phase: TurnPhase::Reading, cause, ..self },
                    TurnAction::ReadLog { answer },
                )
            },
            TurnPhase::Answering => {
                let count: usize = self.outputs.len();
                assert(self.next < count);
                let next = self.next + 1;
                let called_tool = self.called_tool;
                self.go_on(next, cause, called_tool)
            },
            _ => self.ended(Ok(())),
        }
    }

    fn after_log(self, events: &Vec<EventEnvelope>, parsed: Option<LooseDiagnosis>) -> (r: (
        TurnMachine,
        TurnAction,
    ))
        requires
            self.well_formed(),
            self.phase is Reading,
        ensures
            r.0.phase is Answering,
            r.0.cause == self.cause,
            self.same_outputs(r.0),
            r.1 matches TurnAction::Emit { cause, event } && cause == self.cause && is_answer(
                event@,
                self.message(),
                parsed,
                log_view(events@),
            ),
            r.0.well_formed(),
            self.same_turn(r.0),
    {
        let content = self.current_message();
        let read = parse_diagnosis(content.as_str(), parsed);
        let ghost answer = content@;
        let ghost read_as = read;
        let kept = finalize_turn_diagnosis(read, events);
        let ghost json = kept.json();
        assert(is_parsed(read_as, answer, parsed));
        assert(is_limited(kept, read_as, gathered_evidence(log_view(events@))));
        let event = RuntimeEvent::AssistantCompleted { content, diagnosis: Some(kept) };
        assert(is_answer(event@, answer, parsed, log_view(events@)));
        let cause = self.cause;
        (
            TurnMachine { phase: TurnPhase::Answering, ..self },
            TurnAction::Emit { cause, event },
        )
    }

    fn after_tool(self, event: ToolEvent, now: Timestamp, evidence_id: EvidenceId) -> (r: (
        TurnMachine,
        TurnAction,
    ))
        requires
            self.well_formed(),
            self.tool matches Some(tool) && tool.expects(event),
        ensures
            self.tool_stepped(event, now, evidence_id, r),
            r.0.well_formed(),
            self.same_turn(r.0),
    {
        let ghost whole = self;
        let mut machine = self;
        let tool = match machine.tool.take() {
            Some(tool) => tool,
            None => return machine.ended(Ok(())),
        };
        let ghost before = tool;
        let (tool, action) = tool.step(event, now, evidence_id);
        assert(before.stepped(event, now, evidence_id, (tool, action)));
        match action {
            ToolAction::Finish { event_id } => {
                let count: usize = machine.outputs.len();
                assert(machine.next < count);
                let next = machine.next + 1;
                let called_tool = machine.called_tool;
                machine.go_on(next, Some(event_id), called_tool)
            },
            ToolAction::Abort { error } => machine.ended(Err(error)),
            action => (
                TurnMachine { tool: Some(tool), ..machine },
                TurnAction::Tool { action },
            ),
        }
    }

    /// Takes the next step of a turn. The time and the identifier of evidence
    /// are the caller's.
    pub fn step(self, event: TurnEvent, now: Timestamp, evidence_id: EvidenceId) -> (r: (
        TurnMachine,
        TurnAction,
    ))
        requires
            self.well_formed(),
            self.expects(event),
        ensures
            self.stepped(event, now, evidence_id, r),
            r.0.well_formed(),
            self.same_turn(r.0),
    {
        match event {
            TurnEvent::Failed { error } => self.ended(Err(error)),
            TurnEvent::Emitted { event_id } => self.after_event(event_id),
            TurnEvent::Delta { delta } => {
                let cause = self.cause;
                (
                    TurnMachine { phase: TurnPhase::Streaming, ..self },
                    TurnAction::Emit { cause, event: RuntimeEvent::AssistantDelta { delta } },
                )
            },
            TurnEvent::Responded { outputs } => {
                let cause = self.cause;
                let held = TurnMachine { outputs, next: 0, ..self };
                assert(held.put_out() == output_views(outputs@));
                held.go_on(0, cause, false)
            },
            TurnEvent::LogRead { events, parsed } => self.after_log(&events, parsed),
            TurnEvent::Tool { event } => self.after_tool(event, now, evidence_id),
        }
    }

    /// Whether the event is one that the turn waits for.
    pub fn can_step(&self, event: &TurnEvent) -> (r: bool)
        ensures
            r == self.expects(*event),
    {
        match event {
            TurnEvent::Emitted { .. } => matches!(
                self.phase,
                TurnPhase::RecordingInput | TurnPhase::RecordingStart | TurnPhase::Streaming
                    | TurnPhase::Replying | TurnPhase::Answering | TurnPhase::Ending
            ),
            TurnEvent::Failed { .. } => !matches!(self.phase, TurnPhase::Done),
            TurnEvent::Delta { .. } => matches!(self.phase, TurnPhase::Thinking),
            TurnEvent::Responded { .. } => matches!(self.phase, TurnPhase::Thinking),
            TurnEvent::LogRead { .. } => matches!(self.phase, TurnPhase::Reading),
            TurnEvent::Tool { event } => match &self.tool {
                Some(tool) => tool.can_step(event),
                None => false,
            },
        }
    }
}

/// The event by which a turn that did not complete is closed.
pub open spec fn closing(result: Result<(), ErrorView>) -> Option<EventView> {
    match result {
        Ok(_) => None,
        Err(ErrorView::Cancelled) => Some(EventView::TurnCancelled),
        Err(error) => Some(EventView::TurnFailed { error: error.text() }),
    }
}

pub open spec fn result_view(result: OpsResult<()>) -> Result<(), ErrorView> {
    match result {
        Ok(_) => Ok(()),
        Err(e) => Err(e@),
    }
}

pub fn closing_event(result: &OpsResult<()>) -> (r: Option<RuntimeEvent>)
    ensures
        match r {
            Some(event) => closing(result_view(*result)) == Some(event@),
            None => closing(result_view(*result)) is None,
        },
{
    match result {
        Ok(_) => None,
        Err(OpsCodexError::Cancelled) => Some(RuntimeEvent::TurnCancelled),
        Err(error) => Some(RuntimeEvent::TurnFailed { error: error.to_string() }),
    }
}

/// What the model is asked: its instructions, what its budget lets it see of the log,
/// and the tools that it may call.
pub fn turn_request(
    events: &Vec<EventEnvelope>,
    budget: &ContextBudget,
    tools: Vec<ToolSchema>,
) -> (r: ModelRequest)
    ensures
        r.instructions@ == SYSTEM_INSTRUCTIONS@,
        item_views(r.input@) == model_context(history(log_view(events@)), *budget),
        r.tools == tools,
{
    ModelRequest {
        instructions: SYSTEM_INSTRUCTIONS.to_owned(),
        input: build_model_context(model_items_from_events(events), budget),
        tools,
    }
}

// ---------------------------------------------------------------------------
// Which tools a turn has, and which threads are busy
// ---------------------------------------------------------------------------
/// Picks the tools of a workspace: those of its own, or, where no workspace has
/// any, those of all.
pub fn tools_for(configured: &Vec<String>, workspace: &WorkspaceId) -> (r: OpsResult<Option<usize>>)
    ensures
        match r {
            Ok(None) => configured@.len() == 0,
            Ok(Some(i)) => configured@.len() > 0 && i < configured@.len() && configured@[i as int]@
                == workspace@ && forall|k: int| 0 <= k < i ==> (#[trigger] configured@[k])@
                != workspace@,
            Err(e) => configured@.len() > 0 && e@ == ErrorView::Policy(
                "workspace `"@ + workspace@ + "` is not configured"@,
            ) && forall|k: int|
                0 <= k < configured@.len() ==> (#[trigger] configured@[k])@ != workspace@,
        },
{
    if configured.len() == 0 {
        return Ok(None);
    }
    let mut i: usize = 0;
    while i < configured.len()
        invariant
            i <= configured@.len(),
            configured@.len() > 0,
            forall|k: int| 0 <= k < i ==> (#[trigger] configured@[k])@ != workspace@,
        decreases configured@.len() - i,
    {
        if same(configured[i].as_str(), workspace.as_str()) {
            return Ok(Some(i));
        }
        i += 1;
    }
    let mut message = "workspace `".to_owned();
    message.append(workspace.as_str());
    message.append("` is not configured");
    Err(OpsCodexError::Policy(message))
}

/// The threads in which a turn is under way.
#[derive(Debug)]
pub struct ActiveThreads {
    threads: HashSet<u128>,
}

impl ActiveThreads {
    pub closed spec fn view(&self) -> Set<ThreadId> {
        Set::new(|id: ThreadId| self.threads@.contains(id.value))
    }

    pub fn new() -> (r: Self)
        ensures
            r@ == Set::<ThreadId>::empty(),
    {
        let r = ActiveThreads { threads: HashSet::new() };
        assert(r@ =~= Set::<ThreadId>::empty());
        r
    }

    /// Enters a thread, unless a turn is under way in it.
    pub fn enter(&mut self, thread_id: ThreadId) -> (r: OpsResult<()>)
        ensures
            match r {
                Ok(_) => !old(self)@.contains(thread_id) && final(self)@ == old(self)@.insert(
                    thread_id,
                ),
                Err(e) => e@ == ErrorView::TurnAlreadyRunning && old(self)@.contains(thread_id)
                    && final(self)@ == old(self)@,
            },
    {
        if self.threads.insert(thread_id.value) {
            assert(self@ =~= old(self)@.insert(thread_id));
            Ok(())
        } else {
            assert(self@ =~= old(self)@);
            Err(OpsCodexError::TurnAlreadyRunning)
        }
    }

    /// Leaves a thread.
    pub fn leave(&mut self, thread_id: &ThreadId)
        ensures
            final(self)@ == old(self)@.remove(*thread_id),
    {
        self.threads.remove(&thread_id.value);
        assert(self@ =~= old(self)@.remove(*thread_id));
    }
}

// ---------------------------------------------------------------------------
// Laws
// ---------------------------------------------------------------------------
/// Each time the model is asked anew, one of the steps that are left is taken, and
/// nothing else takes or gives one.
pub proof fn law_steps_run_out(
    before: TurnMachine,
    event: TurnEvent,
    now: Timestamp,
    evidence_id: EvidenceId,
    r: (TurnMachine, TurnAction),
)
    requires
        before.well_formed(),
        before.expects(event),
        before.stepped(event, now, evidence_id, r),
        !(r.0.phase is Done),
        !(r.0.phase is Ending),
    ensures
        r.0.steps_left == before.steps_left - (if r.1 is Think && !(before.phase is Streaming) {
            1int
        } else {
            0int
        }),
{
    if let TurnEvent::Responded { outputs } = event {
        let held = choose|held: TurnMachine|
            {
                &&& #[trigger] held.put_out() == output_views(outputs@)
                &&& held.streamed == before.streamed
                &&& held.steps_left == before.steps_left
                &&& before.same_turn(held)
                &&& held.goes_on(0, before.cause, false, r)
            };
        assert(held.steps_left == before.steps_left);
    }
}

/// A step of a turn.
pub struct TurnStep {
    pub before: TurnMachine,
    pub event: TurnEvent,
    pub now: Timestamp,
    pub evidence_id: EvidenceId,
    pub after: (TurnMachine, TurnAction),
}

/// The step is one that the machine takes.
#[verifier::opaque]
pub open spec fn is_step(step: TurnStep) -> bool {
    &&& step.before.well_formed()
    &&& step.before.expects(step.event)
    &&& step.before.stepped(step.event, step.now, step.evidence_id, step.after)
}

/// The steps follow from one another, from where the turn starts.
pub open spec fn is_turn(steps: Seq<TurnStep>, first: TurnMachine) -> bool {
    &&& forall|k: int| 0 <= k < steps.len() ==> is_step(#[trigger] steps[k])
    &&& forall|k: int| 0 < k < steps.len() ==> (#[trigger] steps[k]).before == steps[k - 1].after.0
    &&& steps.len() > 0 ==> steps[0].before == first
}

/// The step asks the model anew; it does not only wait for more of an answer.
pub open spec fn asks_anew(step: TurnStep) -> bool {
    step.after.1 is Think && !(step.before.phase is Streaming)
}

/// How often the steps ask the model anew.
pub open spec fn times_asked(steps: Seq<TurnStep>) -> nat
    decreases steps.len(),
{
    if steps.len() == 0 {
        0
    } else {
        times_asked(steps.drop_last()) + if asks_anew(steps.last()) {
            1nat
        } else {
            0nat
        }
    }
}

/// What a step leaves of the times that the model may be asked.
proof fn lemma_step_asks(step: TurnStep)
    requires
        is_step(step),
    ensures
        over(step.after.0) ==> !asks_anew(step),
        over(step.before) ==> over(step.after.0),
        !over(step.after.0) ==> step.after.0.steps_left + (if asks_anew(step) {
            1int
        } else {
            0int
        }) == step.before.steps_left,
{
    reveal(is_step);
    if !over(step.after.0) {
        law_steps_run_out(step.before, step.event, step.now, step.evidence_id, step.after);
    }
}

/// The model will not be asked again.
spec fn over(machine: TurnMachine) -> bool {
    machine.phase is Done || machine.phase is Ending
}

proof fn lemma_asked_and_left(steps: Seq<TurnStep>, first: TurnMachine)
    requires
        is_turn(steps, first),
        first.phase is RecordingInput,
    ensures
        times_asked(steps) <= first.steps_left,
        steps.len() > 0 && !over(steps.last().after.0) ==> times_asked(steps)
            + steps.last().after.0.steps_left == first.steps_left,
    decreases steps.len(),
{
    if steps.len() > 0 {
        let init = steps.drop_last();
        let last = steps[steps.len() - 1];
        assert forall|k: int| 0 <= k < init.len() implies init[k] == steps[k] by {}
        assert(is_turn(init, first));
        lemma_asked_and_left(init, first);
        lemma_step_asks(last);
        if init.len() > 0 {
            assert(last.before == init.last().after.0);
        } else {
            assert(last.before == first);
        }
    }
}

/// In a whole turn the model is asked at most as often as the configuration allows.
pub proof fn law_model_is_asked_at_most_max_steps_times(
    steps: Seq<TurnStep>,
    first: TurnMachine,
    config: RuntimeConfig,
)
    requires
        is_turn(steps, first),
        first.phase is RecordingInput,
        first.steps_left == config.max_steps,
    ensures
        times_asked(steps) <= config.max_steps,
{
    lemma_asked_and_left(steps, first);
}

/// The event tells of a failure outside of the turn.
pub open spec fn is_failure(event: TurnEvent) -> bool {
    event is Failed || (event matches TurnEvent::Tool { event } && event is Failed)
}

/// A step that fails for want of steps, and not for anything outside of the turn,
/// comes where none is left.
proof fn lemma_runs_out(step: TurnStep)
    requires
        is_step(step),
        !is_failure(step.event),
        turn_fails(step.after, ErrorView::MaxStepsExceeded),
    ensures
        step.before.steps_left == 0,
        !over(step.before),
        !asks_anew(step),
{
    reveal(is_step);
    if let TurnEvent::Responded { outputs } = step.event {
        let held = choose|held: TurnMachine|
            {
                &&& #[trigger] held.put_out() == output_views(outputs@)
                &&& held.streamed == step.before.streamed
                &&& held.steps_left == step.before.steps_left
                &&& step.before.same_turn(held)
                &&& held.goes_on(0, step.before.cause, false, step.after)
            };
        assert(held.goes_on(0, step.before.cause, false, step.after));
    }
}

/// A turn that fails because the steps have run out has asked the model exactly as
/// often as the configuration allows.
pub proof fn law_endless_turn_asks_max_steps_times(
    steps: Seq<TurnStep>,
    first: TurnMachine,
    config: RuntimeConfig,
)
    requires
        is_turn(steps, first),
        first.phase is RecordingInput,
        first.steps_left == config.max_steps,
        steps.len() > 0,
        !is_failure(steps.last().event),
        turn_fails(steps.last().after, ErrorView::MaxStepsExceeded),
    ensures
        times_asked(steps) == config.max_steps,
{
    let init = steps.drop_last();
    let last = steps[steps.len() - 1];
    assert forall|k: int| 0 <= k < init.len() implies init[k] == steps[k] by {}
    assert(is_turn(init, first));
    lemma_asked_and_left(init, first);
    lemma_runs_out(last);
    if init.len() > 0 {
        assert(last.before == init.last().after.0);
    } else {
        assert(last.before == first);
    }
}

/// A turn is completed only where the model asked for no tool: the end is
/// recorded behind the last output of a response without a tool call.
pub proof fn law_turn_completes_without_open_calls(
    before: TurnMachine,
    event: TurnEvent,
    now: Timestamp,
    evidence_id: EvidenceId,
    r: (TurnMachine, TurnAction),
)
    requires
        before.well_formed(),
        before.expects(event),
        before.stepped(event, now, evidence_id, r),
        r.0.phase is Ending,
    ensures
        match event {
            TurnEvent::Responded { outputs } => outputs@.len() == 0,
            _ => before.next + 1 >= before.put_out().len() && !before.called_tool,
        },
{
    if let TurnEvent::Responded { outputs } = event {
        let held = choose|held: TurnMachine|
            {
                &&& #[trigger] held.put_out() == output_views(outputs@)
                &&& held.streamed == before.streamed
                &&& held.steps_left == before.steps_left
                &&& before.same_turn(held)
                &&& held.goes_on(0, before.cause, false, r)
            };
        assert(held.put_out().len() == outputs@.len());
    }
}

/// A turn in which the model asks for a tool at every step fails once the steps
/// have run out.
pub proof fn law_endless_turns_fail(before: TurnMachine, cause: Option<EventId>, r: (TurnMachine, TurnAction))
    requires
        before.steps_left == 0,
        before.goes_on(before.put_out().len() as int, cause, true, r),
    ensures
        turn_fails(r, ErrorView::MaxStepsExceeded),
{
}

/// Every turn that ends is closed by one event: it completed, it was
/// cancelled, or it failed and says why.
pub proof fn law_failed_turns_are_closed(result: Result<(), ErrorView>)
    requires
        result is Err,
    ensures
        closing(result) is Some,
        closing(result)->0 is TurnCancelled <==> result->Err_0 is Cancelled,
{
}

} // verus!
