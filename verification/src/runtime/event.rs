//! What happens in a thread, as an append-only stream of events.
use vstd::prelude::*;

use crate::evidence::diagnosis::Diagnosis;
use crate::evidence::EvidenceMeta;
use crate::json::{
    entries_view, optional_entry, push_entry, push_optional, string_view, text_json, text_value,
    texts_view, Json, JsonEntry, JsonView, NumberView,
};
use crate::runtime::incident::{IncidentContext, IncidentView};
use crate::runtime::thread::ApprovalId;
use crate::text::views;

verus! {

/// A durable event, or one that is only delivered to those who listen.
#[derive(Clone, Copy, Debug, PartialEq, Eq, Structural)]
pub enum StreamKind {
    Domain,
    Delivery,
}

impl Default for StreamKind {
    fn default() -> (r: Self)
        ensures
            r is Domain,
    {
        StreamKind::Domain
    }
}

impl StreamKind {
    /// The name under which the kind is written.
    pub open spec fn name(self) -> Seq<char> {
        match self {
            StreamKind::Domain => "domain"@,
            StreamKind::Delivery => "delivery"@,
        }
    }

    pub fn as_str(self) -> (r: &'static str)
        ensures
            r@ == self.name(),
    {
        match self {
            StreamKind::Domain => "domain",
            StreamKind::Delivery => "delivery",
        }
    }
}

#[derive(Debug)]
pub enum RuntimeEvent {
    ThreadCreated,
    UserMessage {
        content: String,
        incident_context: Option<IncidentContext>,
    },
    TurnStarted,
    AssistantDelta {
        delta: String,
    },
    AssistantCompleted {
        content: String,
        diagnosis: Option<Diagnosis>,
    },
    ToolStarted {
        call_id: String,
        tool: String,
        arguments: Json,
    },
    ToolProposed {
        call_id: String,
        tool: String,
        arguments: Json,
    },
    ToolAuthorized {
        call_id: String,
        tool: String,
        decision: String,
    },
    ToolExecutionStarted {
        call_id: String,
        tool: String,
    },
    ToolCompleted {
        call_id: String,
        tool: String,
        output: Json,
        evidence: EvidenceMeta,
        success: bool,
    },
    ApprovalRequired {
        approval_id: ApprovalId,
        tool: String,
        arguments: Json,
    },
    ApprovalResolved {
        approval_id: ApprovalId,
        approved: bool,
    },
    TurnCompleted,
    TurnFailed {
        error: String,
    },
    TurnCancelled,
    ContextCompacted {
        summary_id: String,
        covers_seq_start: u64,
        covers_seq_end: u64,
        source_item_ids: Vec<String>,
        source_evidence_ids: Vec<String>,
        input_hash: String,
        model_provider: Option<String>,
        model: Option<String>,
        prompt_version: Option<String>,
        summary: String,
    },
}

/// What an event says.
pub enum EventView {
    ThreadCreated,
    UserMessage {
        content: Seq<char>,
        incident_context: Option<IncidentView>,
    },
    TurnStarted,
    AssistantDelta {
        delta: Seq<char>,
    },
    AssistantCompleted {
        content: Seq<char>,
        diagnosis: Option<JsonView>,
    },
    ToolStarted {
        call_id: Seq<char>,
        tool: Seq<char>,
        arguments: JsonView,
    },
    ToolProposed {
        call_id: Seq<char>,
        tool: Seq<char>,
        arguments: JsonView,
    },
    ToolAuthorized {
        call_id: Seq<char>,
        tool: Seq<char>,
        decision: Seq<char>,
    },
    ToolExecutionStarted {
        call_id: Seq<char>,
        tool: Seq<char>,
    },
    ToolCompleted {
        call_id: Seq<char>,
        tool: Seq<char>,
        output: JsonView,
        evidence: EvidenceMeta,
        success: bool,
    },
    ApprovalRequired {
        approval_id: ApprovalId,
        tool: Seq<char>,
        arguments: JsonView,
    },
    ApprovalResolved {
        approval_id: ApprovalId,
        approved: bool,
    },
    TurnCompleted,
    TurnFailed {
        error: Seq<char>,
    },
    TurnCancelled,
    ContextCompacted {
        summary_id: Seq<char>,
        covers_seq_start: u64,
        covers_seq_end: u64,
        source_item_ids: Seq<Seq<char>>,
        source_evidence_ids: Seq<Seq<char>>,
        input_hash: Seq<char>,
        model_provider: Option<Seq<char>>,
        model: Option<Seq<char>>,
        prompt_version: Option<Seq<char>>,
        summary: Seq<char>,
    },
}

pub open spec fn incident_view(context: Option<IncidentContext>) -> Option<IncidentView> {
    match context {
        Some(context) => Some(context@),
        None => None,
    }
}

pub open spec fn incident_json(context: Option<IncidentView>) -> Option<JsonView> {
    match context {
        Some(context) => Some(context.json),
        None => None,
    }
}

pub open spec fn diagnosis_view(diagnosis: Option<Diagnosis>) -> Option<JsonView> {
    match diagnosis {
        Some(diagnosis) => Some(diagnosis.json()),
        None => None,
    }
}

impl RuntimeEvent {
    pub open spec fn view(&self) -> EventView {
        match self {
            RuntimeEvent::ThreadCreated => EventView::ThreadCreated,
            RuntimeEvent::UserMessage { content, incident_context } => EventView::UserMessage {
                content: content@,
                incident_context: incident_view(*incident_context),
            },
            RuntimeEvent::TurnStarted => EventView::TurnStarted,
            RuntimeEvent::AssistantDelta { delta } => EventView::AssistantDelta {
                delta: delta@,
            },
            RuntimeEvent::AssistantCompleted { content, diagnosis } => EventView::AssistantCompleted {
                content: content@,
                diagnosis: diagnosis_view(*diagnosis),
            },
            RuntimeEvent::ToolStarted { call_id, tool, arguments } => EventView::ToolStarted {
                call_id: call_id@,
                tool: tool@,
                arguments: arguments@,
            },
            RuntimeEvent::ToolProposed { call_id, tool, arguments } => EventView::ToolProposed {
                call_id: call_id@,
                tool: tool@,
                arguments: arguments@,
            },
            RuntimeEvent::ToolAuthorized { call_id, tool, decision } => EventView::ToolAuthorized {
                call_id: call_id@,
                tool: tool@,
                decision: decision@,
            },
            RuntimeEvent::ToolExecutionStarted { call_id, tool } => EventView::ToolExecutionStarted {
                call_id: call_id@,
                tool: tool@,
            },
            RuntimeEvent::ToolCompleted { call_id, tool, output, evidence, success } => EventView::ToolCompleted {
                call_id: call_id@,
                tool: tool@,
                output: output@,
                evidence: *evidence,
                success: *success,
            },
            RuntimeEvent::ApprovalRequired { approval_id, tool, arguments } => EventView::ApprovalRequired {
                approval_id: *approval_id,
                tool: tool@,
                arguments: arguments@,
            },
            RuntimeEvent::ApprovalResolved { approval_id, approved } => EventView::ApprovalResolved {
                approval_id: *approval_id,
                approved: *approved,
            },
            RuntimeEvent::TurnCompleted => EventView::TurnCompleted,
            RuntimeEvent::TurnFailed { error } => EventView::TurnFailed {
                error: error@,
            },
            RuntimeEvent::TurnCancelled => EventView::TurnCancelled,
            RuntimeEvent::ContextCompacted { summary_id, covers_seq_start, covers_seq_end, source_item_ids, source_evidence_ids, input_hash, model_provider, model, prompt_version, summary } => EventView::ContextCompacted {
                summary_id: summary_id@,
                covers_seq_start: *covers_seq_start,
                covers_seq_end: *covers_seq_end,
                source_item_ids: views(source_item_ids@),
                source_evidence_ids: views(source_evidence_ids@),
                input_hash: input_hash@,
                model_provider: string_view(*model_provider),
                model: string_view(*model),
                prompt_version: string_view(*prompt_version),
                summary: summary@,
            },
        }
    }
}

fn clone_incident(context: &Option<IncidentContext>) -> (r: Option<IncidentContext>)
    ensures
        incident_view(r) == incident_view(*context),
{
    match context {
        Some(context) => Some(context.clone()),
        None => None,
    }
}

fn clone_diagnosis(diagnosis: &Option<Diagnosis>) -> (r: Option<Diagnosis>)
    ensures
        diagnosis_view(r) == diagnosis_view(*diagnosis),
{
    match diagnosis {
        Some(diagnosis) => Some(diagnosis.clone()),
        None => None,
    }
}

impl Clone for RuntimeEvent {
    fn clone(&self) -> (r: Self)
        ensures
            r@ == self@,
    {
        match self {
            RuntimeEvent::ThreadCreated => RuntimeEvent::ThreadCreated,
            RuntimeEvent::UserMessage { content, incident_context } => RuntimeEvent::UserMessage {
                content: content.clone(),
                incident_context: clone_incident(incident_context),
            },
            RuntimeEvent::TurnStarted => RuntimeEvent::TurnStarted,
            RuntimeEvent::AssistantDelta { delta } => RuntimeEvent::AssistantDelta {
                delta: delta.clone(),
            },
            RuntimeEvent::AssistantCompleted { content, diagnosis } => RuntimeEvent::AssistantCompleted {
                content: content.clone(),
                diagnosis: clone_diagnosis(diagnosis),
            },
            RuntimeEvent::ToolStarted { call_id, tool, arguments } => RuntimeEvent::ToolStarted {
                call_id: call_id.clone(),
                tool: tool.clone(),
                arguments: arguments.clone(),
            },
            RuntimeEvent::ToolProposed { call_id, tool, arguments } => RuntimeEvent::ToolProposed {
                call_id: call_id.clone(),
                tool: tool.clone(),
                arguments: arguments.clone(),
            },
            RuntimeEvent::ToolAuthorized { call_id, tool, decision } => RuntimeEvent::ToolAuthorized {
                call_id: call_id.clone(),
                tool: tool.clone(),
                decision: decision.clone(),
            },
            RuntimeEvent::ToolExecutionStarted { call_id, tool } => RuntimeEvent::ToolExecutionStarted {
                call_id: call_id.clone(),
                tool: tool.clone(),
            },
            RuntimeEvent::ToolCompleted { call_id, tool, output, evidence, success } => RuntimeEvent::ToolCompleted {
                call_id: call_id.clone(),
                tool: tool.clone(),
                output: output.clone(),
                evidence: evidence.clone(),
                success: *success,
            },
            RuntimeEvent::ApprovalRequired { approval_id, tool, arguments } => RuntimeEvent::ApprovalRequired {
                approval_id: *approval_id,
                tool: tool.clone(),
                arguments: arguments.clone(),
            },
            RuntimeEvent::ApprovalResolved { approval_id, approved } => RuntimeEvent::ApprovalResolved {
                approval_id: *approval_id,
                approved: *approved,
            },
            RuntimeEvent::TurnCompleted => RuntimeEvent::TurnCompleted,
            RuntimeEvent::TurnFailed { error } => RuntimeEvent::TurnFailed {
                error: error.clone(),
            },
            RuntimeEvent::TurnCancelled => RuntimeEvent::TurnCancelled,
            RuntimeEvent::ContextCompacted { summary_id, covers_seq_start, covers_seq_end, source_item_ids, source_evidence_ids, input_hash, model_provider, model, prompt_version, summary } => RuntimeEvent::ContextCompacted {
                summary_id: summary_id.clone(),
                covers_seq_start: *covers_seq_start,
                covers_seq_end: *covers_seq_end,
                source_item_ids: source_item_ids.clone(),
                source_evidence_ids: source_evidence_ids.clone(),
                input_hash: input_hash.clone(),
                model_provider: model_provider.clone(),
                model: model.clone(),
                prompt_version: prompt_version.clone(),
                summary: summary.clone(),
            },
        }
    }
}

impl EventView {
    /// The name of the event.
    pub open spec fn name(self) -> Seq<char> {
        match self {
            EventView::ThreadCreated => "thread_created"@,
            EventView::UserMessage { .. } => "user_message"@,
            EventView::TurnStarted => "turn_started"@,
            EventView::AssistantDelta { .. } => "assistant_delta"@,
            EventView::AssistantCompleted { .. } => "assistant_completed"@,
            EventView::ToolStarted { .. } => "tool_started"@,
            EventView::ToolProposed { .. } => "tool_proposed"@,
            EventView::ToolAuthorized { .. } => "tool_authorized"@,
            EventView::ToolExecutionStarted { .. } => "tool_execution_started"@,
            EventView::ToolCompleted { .. } => "tool_completed"@,
            EventView::ApprovalRequired { .. } => "approval_required"@,
            EventView::ApprovalResolved { .. } => "approval_resolved"@,
            EventView::TurnCompleted => "turn_completed"@,
            EventView::TurnFailed { .. } => "turn_failed"@,
            EventView::TurnCancelled => "turn_cancelled"@,
            EventView::ContextCompacted { .. } => "context_compacted"@,
        }
    }

    /// A model asks for a tool.
    pub open spec fn proposes_tool(self) -> bool {
        self is ToolStarted || self is ToolProposed
    }

    /// The call, the tool and the arguments of a proposal.
    pub open spec fn call_parts(self) -> Option<(Seq<char>, Seq<char>, JsonView)> {
        match self {
            EventView::ToolStarted { call_id, tool, arguments } => Some((call_id, tool, arguments)),
            EventView::ToolProposed { call_id, tool, arguments } => Some(
                (call_id, tool, arguments),
            ),
            _ => None,
        }
    }

    /// The stream that the event belongs to: only the pieces of an answer are
    /// not kept.
    pub open spec fn stream_kind(self) -> StreamKind {
        if self is AssistantDelta {
            StreamKind::Delivery
        } else {
            StreamKind::Domain
        }
    }

    /// The entries of the JSON form: the name under `type`, then the fields.
    pub open spec fn entries(self) -> Seq<(Seq<char>, JsonView)> {
        let start = one_entry("type"@, JsonView::Text(self.name()));
        match self {
            EventView::ThreadCreated => start,
            EventView::UserMessage { content, incident_context } => start + one_entry("content"@, JsonView::Text(content)) + optional_entry("incident_context"@, incident_json(incident_context)),
            EventView::TurnStarted => start,
            EventView::AssistantDelta { delta } => start + one_entry("delta"@, JsonView::Text(delta)),
            EventView::AssistantCompleted { content, diagnosis } => start + one_entry("content"@, JsonView::Text(content)) + optional_entry("diagnosis"@, diagnosis),
            EventView::ToolStarted { call_id, tool, arguments } => start + one_entry("call_id"@, JsonView::Text(call_id)) + one_entry("tool"@, JsonView::Text(tool)) + one_entry("arguments"@, arguments),
            EventView::ToolProposed { call_id, tool, arguments } => start + one_entry("call_id"@, JsonView::Text(call_id)) + one_entry("tool"@, JsonView::Text(tool)) + one_entry("arguments"@, arguments),
            EventView::ToolAuthorized { call_id, tool, decision } => start + one_entry("call_id"@, JsonView::Text(call_id)) + one_entry("tool"@, JsonView::Text(tool)) + one_entry("decision"@, JsonView::Text(decision)),
            EventView::ToolExecutionStarted { call_id, tool } => start + one_entry("call_id"@, JsonView::Text(call_id)) + one_entry("tool"@, JsonView::Text(tool)),
            EventView::ToolCompleted { call_id, tool, output, evidence, success } => start + one_entry("call_id"@, JsonView::Text(call_id)) + one_entry("tool"@, JsonView::Text(tool)) + one_entry("output"@, output) + one_entry("evidence"@, evidence.json()) + one_entry("success"@, JsonView::Bool(success)),
            EventView::ApprovalRequired { approval_id, tool, arguments } => start + one_entry("approval_id"@, JsonView::Text(approval_id.text())) + one_entry("tool"@, JsonView::Text(tool)) + one_entry("arguments"@, arguments),
            EventView::ApprovalResolved { approval_id, approved } => start + one_entry("approval_id"@, JsonView::Text(approval_id.text())) + one_entry("approved"@, JsonView::Bool(approved)),
            EventView::TurnCompleted => start,
            EventView::TurnFailed { error } => start + one_entry("error"@, JsonView::Text(error)),
            EventView::TurnCancelled => start,
            EventView::ContextCompacted { summary_id, covers_seq_start, covers_seq_end, source_item_ids, source_evidence_ids, input_hash, model_provider, model, prompt_version, summary } => start + one_entry("summary_id"@, JsonView::Text(summary_id)) + one_entry("covers_seq_start"@, JsonView::Number(NumberView::PosInt(covers_seq_start))) + one_entry("covers_seq_end"@, JsonView::Number(NumberView::PosInt(covers_seq_end))) + one_entry("source_item_ids"@, texts_view(source_item_ids)) + one_entry("source_evidence_ids"@, texts_view(source_evidence_ids)) + one_entry("input_hash"@, JsonView::Text(input_hash)) + optional_entry("model_provider"@, text_value(model_provider)) + optional_entry("model"@, text_value(model)) + optional_entry("prompt_version"@, text_value(prompt_version)) + one_entry("summary"@, JsonView::Text(summary)),
        }
    }

    /// The JSON form.
    pub open spec fn json(self) -> JsonView {
        JsonView::Object(self.entries())
    }
}

/// A single entry of an object.
pub open spec fn one_entry(key: Seq<char>, value: JsonView) -> Seq<(Seq<char>, JsonView)> {
    seq![(key, value)]
}

/// Appends an entry.
pub fn put(entries: &mut Vec<JsonEntry>, key: &str, value: Json)
    ensures
        entries_view(final(entries)@) == entries_view(old(entries)@) + one_entry(key@, value@),
{
    let ghost view = value@;
    push_entry(entries, key, value);
    assert(entries_view(entries@) =~= entries_view(old(entries)@) + one_entry(key@, view));
}

fn incident_to_json(context: &Option<IncidentContext>) -> (r: Option<Json>)
    ensures
        crate::json::owned_view(r) == incident_json(incident_view(*context)),
{
    match context {
        Some(context) => Some(context.to_json()),
        None => None,
    }
}

fn diagnosis_to_json(diagnosis: &Option<Diagnosis>) -> (r: Option<Json>)
    ensures
        crate::json::owned_view(r) == diagnosis_view(*diagnosis),
{
    match diagnosis {
        Some(diagnosis) => Some(diagnosis.to_json()),
        None => None,
    }
}

impl RuntimeEvent {
    pub fn user_message(content: String) -> (r: Self)
        ensures
            r@ == (EventView::UserMessage { content: content@, incident_context: None }),
    {
        RuntimeEvent::UserMessage { content, incident_context: None }
    }

    pub fn assistant_completed(content: String) -> (r: Self)
        ensures
            r@ == (EventView::AssistantCompleted { content: content@, diagnosis: None }),
    {
        RuntimeEvent::AssistantCompleted { content, diagnosis: None }
    }

    pub fn event_name(&self) -> (r: &'static str)
        ensures
            r@ == self@.name(),
    {
        match self {
            RuntimeEvent::ThreadCreated => "thread_created",
            RuntimeEvent::UserMessage { .. } => "user_message",
            RuntimeEvent::TurnStarted => "turn_started",
            RuntimeEvent::AssistantDelta { .. } => "assistant_delta",
            RuntimeEvent::AssistantCompleted { .. } => "assistant_completed",
            RuntimeEvent::ToolStarted { .. } => "tool_started",
            RuntimeEvent::ToolProposed { .. } => "tool_proposed",
            RuntimeEvent::ToolAuthorized { .. } => "tool_authorized",
            RuntimeEvent::ToolExecutionStarted { .. } => "tool_execution_started",
            RuntimeEvent::ToolCompleted { .. } => "tool_completed",
            RuntimeEvent::ApprovalRequired { .. } => "approval_required",
            RuntimeEvent::ApprovalResolved { .. } => "approval_resolved",
            RuntimeEvent::TurnCompleted => "turn_completed",
            RuntimeEvent::TurnFailed { .. } => "turn_failed",
            RuntimeEvent::TurnCancelled => "turn_cancelled",
            RuntimeEvent::ContextCompacted { .. } => "context_compacted",
        }
    }

    pub fn is_tool_proposal(&self) -> (r: bool)
        ensures
            r == self@.proposes_tool(),
    {
        matches!(self, RuntimeEvent::ToolStarted { .. } | RuntimeEvent::ToolProposed { .. })
    }

    pub fn tool_call_parts(&self) -> (r: Option<(&str, &str, &Json)>)
        ensures
            match r {
                Some((call_id, tool, arguments)) => self@.call_parts() == Some(
                    (call_id@, tool@, arguments@),
                ),
                None => self@.call_parts() is None,
            },
    {
        match self {
            RuntimeEvent::ToolStarted { call_id, tool, arguments } => Some(
                (call_id.as_str(), tool.as_str(), arguments),
            ),
            RuntimeEvent::ToolProposed { call_id, tool, arguments } => Some(
                (call_id.as_str(), tool.as_str(), arguments),
            ),
            _ => None,
        }
    }

    fn push_fields(&self, entries: &mut Vec<JsonEntry>)
        requires
            entries_view(old(entries)@) == one_entry("type"@, JsonView::Text(self@.name())),
        ensures
            entries_view(final(entries)@) == self@.entries(),
    {
        match self {
            RuntimeEvent::ThreadCreated => {},
            RuntimeEvent::UserMessage { content, incident_context } => {
                put(entries, "content", Json::text(content.as_str()));
                push_optional(entries, "incident_context", incident_to_json(incident_context));
            },
            RuntimeEvent::TurnStarted => {},
            RuntimeEvent::AssistantDelta { delta } => {
                put(entries, "delta", Json::text(delta.as_str()));
            },
            RuntimeEvent::AssistantCompleted { content, diagnosis } => {
                put(entries, "content", Json::text(content.as_str()));
                push_optional(entries, "diagnosis", diagnosis_to_json(diagnosis));
            },
            RuntimeEvent::ToolStarted { call_id, tool, arguments } => {
                put(entries, "call_id", Json::text(call_id.as_str()));
                put(entries, "tool", Json::text(tool.as_str()));
                put(entries, "arguments", arguments.clone());
            },
            RuntimeEvent::ToolProposed { call_id, tool, arguments } => {
                put(entries, "call_id", Json::text(call_id.as_str()));
                put(entries, "tool", Json::text(tool.as_str()));
                put(entries, "arguments", arguments.clone());
            },
            RuntimeEvent::ToolAuthorized { call_id, tool, decision } => {
                put(entries, "call_id", Json::text(call_id.as_str()));
                put(entries, "tool", Json::text(tool.as_str()));
                put(entries, "decision", Json::text(decision.as_str()));
            },
            RuntimeEvent::ToolExecutionStarted { call_id, tool } => {
                put(entries, "call_id", Json::text(call_id.as_str()));
                put(entries, "tool", Json::text(tool.as_str()));
            },
            RuntimeEvent::ToolCompleted { call_id, tool, output, evidence, success } => {
                put(entries, "call_id", Json::text(call_id.as_str()));
                put(entries, "tool", Json::text(tool.as_str()));
                put(entries, "output", output.clone());
                put(entries, "evidence", evidence.to_json());
                put(entries, "success", Json::Bool(*success));
            },
            RuntimeEvent::ApprovalRequired { approval_id, tool, arguments } => {
                put(entries, "approval_id", Json::Text(approval_id.to_string()));
                put(entries, "tool", Json::text(tool.as_str()));
                put(entries, "arguments", arguments.clone());
            },
            RuntimeEvent::ApprovalResolved { approval_id, approved } => {
                put(entries, "approval_id", Json::Text(approval_id.to_string()));
                put(entries, "approved", Json::Bool(*approved));
            },
            RuntimeEvent::TurnCompleted => {},
            RuntimeEvent::TurnFailed { error } => {
                put(entries, "error", Json::text(error.as_str()));
            },
            RuntimeEvent::TurnCancelled => {},
            RuntimeEvent::ContextCompacted { summary_id, covers_seq_start, covers_seq_end, source_item_ids, source_evidence_ids, input_hash, model_provider, model, prompt_version, summary } => {
                put(entries, "summary_id", Json::text(summary_id.as_str()));
                put(entries, "covers_seq_start", Json::number(*covers_seq_start));
                put(entries, "covers_seq_end", Json::number(*covers_seq_end));
                put(entries, "source_item_ids", Json::texts(source_item_ids));
                put(entries, "source_evidence_ids", Json::texts(source_evidence_ids));
                put(entries, "input_hash", Json::text(input_hash.as_str()));
                push_optional(entries, "model_provider", text_json(model_provider));
                push_optional(entries, "model", text_json(model));
                push_optional(entries, "prompt_version", text_json(prompt_version));
                put(entries, "summary", Json::text(summary.as_str()));
            },
        }
    }

    /// The event as a JSON object.
    pub fn to_json(&self) -> (r: Json)
        ensures
            r@ == self@.json(),
    {
        let mut entries: Vec<JsonEntry> = Vec::new();
        push_entry(&mut entries, "type", Json::text(self.event_name()));
        assert(entries_view(entries@) =~= one_entry("type"@, JsonView::Text(self@.name())));
        self.push_fields(&mut entries);
        Json::Object(entries)
    }
}

pub fn stream_kind_for(event: &RuntimeEvent) -> (r: StreamKind)
    ensures
        r == event@.stream_kind(),
{
    match event {
        RuntimeEvent::AssistantDelta { .. } => StreamKind::Delivery,
        _ => StreamKind::Domain,
    }
}

/// Events of different kinds have different names.
pub proof fn law_event_names_distinct(a: EventView, b: EventView)
    requires
        a.name() == b.name(),
    ensures
        a is ThreadCreated <==> b is ThreadCreated,
        a is UserMessage <==> b is UserMessage,
        a is TurnStarted <==> b is TurnStarted,
        a is AssistantDelta <==> b is AssistantDelta,
        a is AssistantCompleted <==> b is AssistantCompleted,
        a is ToolStarted <==> b is ToolStarted,
        a is ToolProposed <==> b is ToolProposed,
        a is ToolAuthorized <==> b is ToolAuthorized,
        a is ToolExecutionStarted <==> b is ToolExecutionStarted,
        a is ToolCompleted <==> b is ToolCompleted,
        a is ApprovalRequired <==> b is ApprovalRequired,
        a is ApprovalResolved <==> b is ApprovalResolved,
        a is TurnCompleted <==> b is TurnCompleted,
        a is TurnFailed <==> b is TurnFailed,
        a is TurnCancelled <==> b is TurnCancelled,
        a is ContextCompacted <==> b is ContextCompacted,
{
    lemma_names_differ();
}

proof fn lemma_names_differ()
    ensures
        "thread_created"@ != "user_message"@,
        "thread_created"@ != "turn_started"@,
        "thread_created"@ != "assistant_delta"@,
        "thread_created"@ != "assistant_completed"@,
        "thread_created"@ != "tool_started"@,
        "thread_created"@ != "tool_proposed"@,
        "thread_created"@ != "tool_authorized"@,
        "thread_created"@ != "tool_execution_started"@,
        "thread_created"@ != "tool_completed"@,
        "thread_created"@ != "approval_required"@,
        "thread_created"@ != "approval_resolved"@,
        "thread_created"@ != "turn_completed"@,
        "thread_created"@ != "turn_failed"@,
        "thread_created"@ != "turn_cancelled"@,
        "thread_created"@ != "context_compacted"@,
        "user_message"@ != "turn_started"@,
        "user_message"@ != "assistant_delta"@,
        "user_message"@ != "assistant_completed"@,
        "user_message"@ != "tool_started"@,
        "user_message"@ != "tool_proposed"@,
        "user_message"@ != "tool_authorized"@,
        "user_message"@ != "tool_execution_started"@,
        "user_message"@ != "tool_completed"@,
        "user_message"@ != "approval_required"@,
        "user_message"@ != "approval_resolved"@,
        "user_message"@ != "turn_completed"@,
        "user_message"@ != "turn_failed"@,
        "user_message"@ != "turn_cancelled"@,
        "user_message"@ != "context_compacted"@,
        "turn_started"@ != "assistant_delta"@,
        "turn_started"@ != "assistant_completed"@,
        "turn_started"@ != "tool_started"@,
        "turn_started"@ != "tool_proposed"@,
        "turn_started"@ != "tool_authorized"@,
        "turn_started"@ != "tool_execution_started"@,
        "turn_started"@ != "tool_completed"@,
        "turn_started"@ != "approval_required"@,
        "turn_started"@ != "approval_resolved"@,
        "turn_started"@ != "turn_completed"@,
        "turn_started"@ != "turn_failed"@,
        "turn_started"@ != "turn_cancelled"@,
        "turn_started"@ != "context_compacted"@,
        "assistant_delta"@ != "assistant_completed"@,
        "assistant_delta"@ != "tool_started"@,
        "assistant_delta"@ != "tool_proposed"@,
        "assistant_delta"@ != "tool_authorized"@,
        "assistant_delta"@ != "tool_execution_started"@,
        "assistant_delta"@ != "tool_completed"@,
        "assistant_delta"@ != "approval_required"@,
        "assistant_delta"@ != "approval_resolved"@,
        "assistant_delta"@ != "turn_completed"@,
        "assistant_delta"@ != "turn_failed"@,
        "assistant_delta"@ != "turn_cancelled"@,
        "assistant_delta"@ != "context_compacted"@,
        "assistant_completed"@ != "tool_started"@,
        "assistant_completed"@ != "tool_proposed"@,
        "assistant_completed"@ != "tool_authorized"@,
        "assistant_completed"@ != "tool_execution_started"@,
        "assistant_completed"@ != "tool_completed"@,
        "assistant_completed"@ != "approval_required"@,
        "assistant_completed"@ != "approval_resolved"@,
        "assistant_completed"@ != "turn_completed"@,
        "assistant_completed"@ != "turn_failed"@,
        "assistant_completed"@ != "turn_cancelled"@,
        "assistant_completed"@ != "context_compacted"@,
        "tool_started"@ != "tool_proposed"@,
        "tool_started"@ != "tool_authorized"@,
        "tool_started"@ != "tool_execution_started"@,
        "tool_started"@ != "tool_completed"@,
        "tool_started"@ != "approval_required"@,
        "tool_started"@ != "approval_resolved"@,
        "tool_started"@ != "turn_completed"@,
        "tool_started"@ != "turn_failed"@,
        "tool_started"@ != "turn_cancelled"@,
        "tool_started"@ != "context_compacted"@,
        "tool_proposed"@ != "tool_authorized"@,
        "tool_proposed"@ != "tool_execution_started"@,
        "tool_proposed"@ != "tool_completed"@,
        "tool_proposed"@ != "approval_required"@,
        "tool_proposed"@ != "approval_resolved"@,
        "tool_proposed"@ != "turn_completed"@,
        "tool_proposed"@ != "turn_failed"@,
        "tool_proposed"@ != "turn_cancelled"@,
        "tool_proposed"@ != "context_compacted"@,
        "tool_authorized"@ != "tool_execution_started"@,
        "tool_authorized"@ != "tool_completed"@,
        "tool_authorized"@ != "approval_required"@,
        "tool_authorized"@ != "approval_resolved"@,
        "tool_authorized"@ != "turn_completed"@,
        "tool_authorized"@ != "turn_failed"@,
        "tool_authorized"@ != "turn_cancelled"@,
        "tool_authorized"@ != "context_compacted"@,
        "tool_execution_started"@ != "tool_completed"@,
        "tool_execution_started"@ != "approval_required"@,
        "tool_execution_started"@ != "approval_resolved"@,
        "tool_execution_started"@ != "turn_completed"@,
        "tool_execution_started"@ != "turn_failed"@,
        "tool_execution_started"@ != "turn_cancelled"@,
        "tool_execution_started"@ != "context_compacted"@,
        "tool_completed"@ != "approval_required"@,
        "tool_completed"@ != "approval_resolved"@,
        "tool_completed"@ != "turn_completed"@,
        "tool_completed"@ != "turn_failed"@,
        "tool_completed"@ != "turn_cancelled"@,
        "tool_completed"@ != "context_compacted"@,
        "approval_required"@ != "approval_resolved"@,
        "approval_required"@ != "turn_completed"@,
        "approval_required"@ != "turn_failed"@,
        "approval_required"@ != "turn_cancelled"@,
        "approval_required"@ != "context_compacted"@,
        "approval_resolved"@ != "turn_completed"@,
        "approval_resolved"@ != "turn_failed"@,
        "approval_resolved"@ != "turn_cancelled"@,
        "approval_resolved"@ != "context_compacted"@,
        "turn_completed"@ != "turn_failed"@,
        "turn_completed"@ != "turn_cancelled"@,
        "turn_completed"@ != "context_compacted"@,
        "turn_failed"@ != "turn_cancelled"@,
        "turn_failed"@ != "context_compacted"@,
        "turn_cancelled"@ != "context_compacted"@,
{
    reveal_strlit("thread_created");
    assert("thread_created"@.len() == 14);
    reveal_strlit("user_message");
    assert("user_message"@.len() == 12);
    reveal_strlit("turn_started");
    assert("turn_started"@.len() == 12);
    reveal_strlit("assistant_delta");
    assert("assistant_delta"@.len() == 15);
    reveal_strlit("assistant_completed");
    assert("assistant_completed"@.len() == 19);
    reveal_strlit("tool_started");
    assert("tool_started"@.len() == 12);
    reveal_strlit("tool_proposed");
    assert("tool_proposed"@.len() == 13);
    reveal_strlit("tool_authorized");
    assert("tool_authorized"@.len() == 15);
    reveal_strlit("tool_execution_started");
    assert("tool_execution_started"@.len() == 22);
    reveal_strlit("tool_completed");
    assert("tool_completed"@.len() == 14);
    reveal_strlit("approval_required");
    assert("approval_required"@.len() == 17);
    reveal_strlit("approval_resolved");
    assert("approval_resolved"@.len() == 17);
    reveal_strlit("turn_completed");
    assert("turn_completed"@.len() == 14);
    reveal_strlit("turn_failed");
    assert("turn_failed"@.len() == 11);
    reveal_strlit("turn_cancelled");
    assert("turn_cancelled"@.len() == 14);
    reveal_strlit("context_compacted");
    assert("context_compacted"@.len() == 17);
    assert("thread_created"@[1] != "tool_completed"@[1]);
    assert("thread_created"@[1] != "turn_completed"@[1]);
    assert("thread_created"@[1] != "turn_cancelled"@[1]);
    assert("user_message"@[0] != "turn_started"@[0]);
    assert("user_message"@[0] != "tool_started"@[0]);
    assert("turn_started"@[1] != "tool_started"@[1]);
    assert("assistant_delta"@[0] != "tool_authorized"@[0]);
    assert("tool_completed"@[1] != "turn_completed"@[1]);
    assert("tool_completed"@[1] != "turn_cancelled"@[1]);
    assert("approval_required"@[11] != "approval_resolved"@[11]);
    assert("approval_required"@[0] != "context_compacted"@[0]);
    assert("approval_resolved"@[0] != "context_compacted"@[0]);
    assert("turn_completed"@[6] != "turn_cancelled"@[6]);
}

} // verus!
