use opscodex::error::OpsCodexError;
use opscodex::evidence::EvidenceMeta;
use opscodex::extensions::capability::{CapabilityDescriptor, CapabilityEffect, RecoveryMode};
use opscodex::json::{Json, JsonEntry};
use opscodex::model::provider::{ModelItem, ModelOutput};
use opscodex::policy::{ApprovalBroker, PendingApproval, PolicyDecision, PolicyEngine};
use opscodex::runtime::agent::{
    closing_event, tools_for, turn_request, ActiveThreads, RuntimeConfig, TurnAction, TurnEvent,
    TurnMachine,
    SYSTEM_INSTRUCTIONS,
};
use opscodex::config::RuntimeSettings;
use opscodex::runtime::envelope::EventEnvelope;
use opscodex::runtime::event::{stream_kind_for, RuntimeEvent, StreamKind};
use opscodex::runtime::incident::{IncidentContext, IncidentSource, LabelMap, TurnInput};
use opscodex::runtime::recovery::{parse_effect, parse_recovery, tool_is_retryable};
use opscodex::runtime::summary::local_summary;
use opscodex::runtime::thread::{
    ApprovalId, EventId, EvidenceId, ThreadId, TurnId, WorkspaceId,
};
use opscodex::runtime::tool_call::{error_json, ToolAction, ToolCall, ToolEvent, ToolMachine};
use opscodex::time::Timestamp;
use opscodex::tools::ToolRisk;

fn object(entries: Vec<(&str, Json)>) -> Json {
    Json::Object(
        entries
            .into_iter()
            .map(|(key, value)| JsonEntry { key: key.to_owned(), value })
            .collect(),
    )
}

fn now() -> Timestamp {
    Timestamp::new(1_700_000_000, 0).unwrap()
}

fn evidence_id() -> EvidenceId {
    EvidenceId::from_uuid(0xe)
}

fn tool_call() -> (ToolMachine, ToolAction) {
    ToolMachine::start(
        WorkspaceId::default(),
        ThreadId::from_uuid(1),
        TurnId::from_uuid(2),
        ToolCall {
            call_id: "c1".to_owned(),
            name: "http_get".to_owned(),
            arguments: object(vec![]),
        },
        1024,
        None,
    )
}

fn step(machine: ToolMachine, event: ToolEvent) -> (ToolMachine, ToolAction) {
    assert!(machine.can_step(&event));
    machine.step(event, now(), evidence_id())
}

fn emitted(machine: ToolMachine) -> (ToolMachine, ToolAction) {
    step(machine, ToolEvent::Emitted { event_id: EventId::from_uuid(5) })
}

#[test]
fn safe_tool_runs_without_asking() {
    let (machine, action) = tool_call();
    assert!(matches!(action, ToolAction::Emit { event: RuntimeEvent::ToolProposed { .. } }));
    let (machine, action) = emitted(machine);
    assert!(matches!(action, ToolAction::LookUp));
    let (machine, action) = step(machine, ToolEvent::Risk { risk: ToolRisk::Safe });
    assert!(matches!(action, ToolAction::Emit { event: RuntimeEvent::ToolAuthorized { .. } }));
    let (machine, action) = emitted(machine);
    assert!(matches!(action, ToolAction::Emit { event: RuntimeEvent::ToolExecutionStarted { .. } }));
    let (machine, action) = emitted(machine);
    assert!(matches!(action, ToolAction::Run));
    let (machine, action) = step(
        machine,
        ToolEvent::Returned {
            content: object(vec![("password", Json::text("x")), ("status", Json::text("ok"))]),
            evidence: EvidenceMeta::new("http_get".to_owned(), now()),
            duration_ms: 12,
        },
    );
    match action {
        ToolAction::Emit {
            event: RuntimeEvent::ToolCompleted { success, evidence, output, .. },
        } => {
            assert!(success);
            assert_eq!(evidence.duration_ms, 12);
            assert!(!output.to_text().contains("\"x\""));
        }
        other => panic!("unexpected {:?}", other),
    }
    let (_, action) = emitted(machine);
    assert!(matches!(action, ToolAction::Finish { .. }));
}

#[test]
fn forbidden_tool_is_denied() {
    let (machine, _) = tool_call();
    let (machine, _) = emitted(machine);
    let (machine, action) = step(machine, ToolEvent::Risk { risk: ToolRisk::Forbidden });
    assert!(matches!(action, ToolAction::Emit { .. }));
    let (_, action) = emitted(machine);
    match action {
        ToolAction::Emit { event: RuntimeEvent::ToolCompleted { success, .. } } => assert!(!success),
        other => panic!("unexpected {:?}", other),
    }
}

#[test]
fn asked_tool_waits_for_the_user() {
    let (machine, _) = tool_call();
    let (machine, _) = emitted(machine);
    let (machine, action) = step(machine, ToolEvent::Risk { risk: ToolRisk::Ask });
    assert!(matches!(action, ToolAction::OpenApproval));
    let id = ApprovalId::from_uuid(8);
    let (machine, action) = step(machine, ToolEvent::Opened { approval_id: id });
    assert!(matches!(action, ToolAction::Emit { event: RuntimeEvent::ApprovalRequired { .. } }));
    let (machine, action) = emitted(machine);
    assert!(matches!(action, ToolAction::AwaitDecision { approval_id } if approval_id == id));
    let (machine, action) = step(machine, ToolEvent::Decided { approved: Some(false) });
    assert!(matches!(
        action,
        ToolAction::Emit { event: RuntimeEvent::ApprovalResolved { approved: false, .. } }
    ));
    let (_, action) = emitted(machine);
    assert!(matches!(action, ToolAction::Emit { .. }));
    let _ = error_json(&OpsCodexError::Cancelled);
}

fn turn() -> (TurnMachine, TurnAction) {
    let config = RuntimeConfig::from_settings(&RuntimeSettings::default());
    TurnMachine::start(
        WorkspaceId::default(),
        ThreadId::from_uuid(1),
        TurnId::from_uuid(2),
        &config,
        TurnInput::from_text("why?".to_owned()),
    )
}

fn turn_step(machine: TurnMachine, event: TurnEvent) -> (TurnMachine, TurnAction) {
    assert!(machine.can_step(&event));
    machine.step(event, now(), evidence_id())
}

fn turn_emitted(machine: TurnMachine) -> (TurnMachine, TurnAction) {
    turn_step(machine, TurnEvent::Emitted { event_id: EventId::from_uuid(5) })
}

#[test]
fn turn_without_tools_answers_and_ends() {
    let (machine, action) = turn();
    assert!(matches!(action, TurnAction::Emit { event: RuntimeEvent::UserMessage { .. }, .. }));
    let (machine, action) = turn_emitted(machine);
    assert!(matches!(action, TurnAction::Emit { event: RuntimeEvent::TurnStarted, .. }));
    let (machine, action) = turn_emitted(machine);
    assert!(matches!(action, TurnAction::Think));
    let (machine, action) = turn_step(
        machine,
        TurnEvent::Responded { outputs: vec![ModelOutput::Message { content: "fine".to_owned() }] },
    );
    assert!(matches!(action, TurnAction::Emit { event: RuntimeEvent::AssistantDelta { .. }, .. }));
    let (machine, action) = turn_emitted(machine);
    assert!(matches!(action, TurnAction::ReadLog { .. }));
    let (machine, action) = turn_step(machine, TurnEvent::LogRead { events: vec![], parsed: None });
    assert!(matches!(action, TurnAction::Emit { event: RuntimeEvent::AssistantCompleted { .. }, .. }));
    let (machine, action) = turn_emitted(machine);
    assert!(matches!(action, TurnAction::Emit { event: RuntimeEvent::TurnCompleted, .. }));
    let (_, action) = turn_emitted(machine);
    assert!(matches!(action, TurnAction::End { result: Ok(()) }));
}

#[test]
fn failed_turn_is_closed_with_its_error() {
    let (machine, _) = turn();
    let (_, action) = turn_step(machine, TurnEvent::Failed { error: OpsCodexError::Cancelled });
    assert!(matches!(action, TurnAction::End { result: Err(OpsCodexError::Cancelled) }));
    assert!(matches!(
        closing_event(&Err(OpsCodexError::Cancelled)),
        Some(RuntimeEvent::TurnCancelled)
    ));
    assert!(matches!(
        closing_event(&Err(OpsCodexError::MaxStepsExceeded)),
        Some(RuntimeEvent::TurnFailed { .. })
    ));
    assert!(closing_event(&Ok(())).is_none());
}

#[test]
fn thread_has_one_turn_at_a_time() {
    let mut active = ActiveThreads::new();
    assert!(active.enter(ThreadId::from_uuid(1)).is_ok());
    assert!(matches!(
        active.enter(ThreadId::from_uuid(1)),
        Err(OpsCodexError::TurnAlreadyRunning)
    ));
    assert!(active.enter(ThreadId::from_uuid(2)).is_ok());
    active.leave(&ThreadId::from_uuid(1));
    assert!(active.enter(ThreadId::from_uuid(1)).is_ok());
}

#[test]
fn workspaces_choose_their_tools() {
    let configured = vec!["a".to_owned(), "b".to_owned()];
    assert_eq!(tools_for(&configured, &WorkspaceId::new("b")).unwrap(), Some(1));
    assert_eq!(tools_for(&vec![], &WorkspaceId::new("b")).unwrap(), None);
    assert!(tools_for(&configured, &WorkspaceId::new("c")).is_err());
    assert!(SYSTEM_INSTRUCTIONS.starts_with("You are OpsCodex"));
    assert!(SYSTEM_INSTRUCTIONS.contains("\"summary\": \"one paragraph\","));
}

#[test]
fn only_observation_is_allowed_without_asking() {
    let mut engine = PolicyEngine::new(ApprovalBroker::new());
    assert_eq!(engine.decision_for(ToolRisk::Safe), PolicyDecision::Allow);
    assert_eq!(engine.evaluate(ToolRisk::Ask), PolicyDecision::Ask);
    assert_eq!(engine.evaluate(ToolRisk::Forbidden), PolicyDecision::Deny);
    let descriptor = |effect: CapabilityEffect| {
        CapabilityDescriptor::builtin("t".to_owned(), "d".to_owned(), Json::Null, ToolRisk::Safe)
            .with_effect(effect)
    };
    assert_eq!(
        engine.evaluate_capability(&descriptor(CapabilityEffect::Observe)),
        PolicyDecision::Allow
    );
    assert_ne!(
        engine.evaluate_capability(&descriptor(CapabilityEffect::ChangeIrreversible)),
        PolicyDecision::Allow
    );
    assert!(engine.broker.pending(&vec![]).is_empty());
}

#[test]
fn approvals_are_resolved_once() {
    let mut broker = ApprovalBroker::new();
    let id = ApprovalId::from_uuid(1);
    broker.request(id, "exec".to_owned(), Json::Null);
    broker.request_with_hash(ApprovalId::from_uuid(2), "t".to_owned(), Json::Null, "h".to_owned());
    broker.restore(PendingApproval {
        id: ApprovalId::from_uuid(3),
        tool: "u".to_owned(),
        arguments: Json::Null,
        schema_hash: None,
    });
    let listed: Vec<u128> =
        broker.pending(&vec![]).iter().map(|request| request.id.value).collect();
    assert_eq!(listed, vec![1, 2, 3]);
    assert_eq!(broker.resolve(&id, true).unwrap().tool, "exec");
    assert_eq!(
        broker.resolve(&id, true).unwrap_err().to_string(),
        "resource not found: approval 00000000-0000-0000-0000-000000000001"
    );
    assert_eq!(
        broker.resolve(&ApprovalId::from_uuid(2), false).unwrap_err().to_string(),
        "policy error: approval 00000000-0000-0000-0000-000000000002 is no longer waiting"
    );
    assert_eq!(broker.pending(&vec![]).len(), 1);
    assert!(broker.pending(&vec![ApprovalId::from_uuid(3)]).is_empty());
}

#[test]
fn only_harmless_tools_are_retried() {
    assert!(tool_is_retryable(CapabilityEffect::Observe, None));
    assert!(!tool_is_retryable(CapabilityEffect::ExternalSideEffect, None));
    assert!(!tool_is_retryable(
        CapabilityEffect::ExternalSideEffect,
        Some(RecoveryMode::NoneNeeded)
    ));
    assert!(!tool_is_retryable(
        CapabilityEffect::ExternalSideEffect,
        Some(RecoveryMode::Idempotent)
    ));
    assert!(tool_is_retryable(CapabilityEffect::Observe, Some(RecoveryMode::Idempotent)));
    assert!(!tool_is_retryable(
        CapabilityEffect::Observe,
        Some(RecoveryMode::NeedsReconciliation)
    ));
    assert_eq!(parse_effect("odd"), CapabilityEffect::ExternalSideEffect);
    assert_eq!(parse_recovery(Some("idempotent")), Some(RecoveryMode::Idempotent));
    assert_eq!(parse_recovery(Some("odd")), None);
}

#[test]
fn delivery_events_are_told_from_domain_events() {
    assert_eq!(
        stream_kind_for(&RuntimeEvent::AssistantDelta { delta: "x".to_owned() }),
        StreamKind::Delivery
    );
    assert_eq!(stream_kind_for(&RuntimeEvent::TurnStarted), StreamKind::Domain);
    assert_eq!(RuntimeEvent::TurnStarted.event_name(), "turn_started");
    assert_eq!(RuntimeEvent::TurnStarted.to_json().to_text(), "{\"type\":\"turn_started\"}");
}

fn incident() -> IncidentContext {
    let mut context = IncidentContext::default();
    context.service = Some("orders".to_owned());
    context.starts_at = Some(now());
    context.labels.insert("severity".to_owned(), "page".to_owned());
    context.source = Some(IncidentSource { kind: "alertmanager".to_owned(), fingerprint: None });
    context
}

#[test]
fn incident_is_checked() {
    assert!(incident().validate().is_ok());
    assert!(!incident().is_empty());
    assert!(IncidentContext::default().is_empty());
    let mut backwards = incident();
    backwards.ends_at = Timestamp::new(1_600_000_000, 0);
    assert!(backwards.validate().unwrap_err().to_string().contains("ends_at must be after starts_at"));
    let mut long = incident();
    long.service = Some("x".repeat(513));
    assert!(long.validate().unwrap_err().to_string().contains("512 characters"));
    let mut many = incident();
    for i in 0..33 {
        many.annotations.insert(format!("k{}", i), String::new());
    }
    assert!(many.validate().unwrap_err().to_string().contains("at most 32"));
    let mut large = incident();
    for i in 0..32 {
        large.annotations.insert(format!("k{}", i), "y".repeat(512));
    }
    assert!(large.validate().unwrap_err().to_string().contains("16384 bytes"));
    assert!(incident().prompt_block().contains("orders"));
}

#[test]
fn summary_names_the_last_question() {
    let event = |seq: u64, event: RuntimeEvent| {
        EventEnvelope::new(
            seq,
            ThreadId::from_uuid(1),
            None,
            event,
            EventId::from_uuid(seq as u128),
            now(),
        )
    };
    let text = local_summary(&vec![
        event(1, RuntimeEvent::user_message("first".to_owned())),
        event(2, RuntimeEvent::user_message("second".to_owned())),
        event(3, RuntimeEvent::TurnFailed { error: "down".to_owned() }),
    ]);
    assert!(text.contains("second"));
}

#[test]
fn both_kinds_of_proposal_name_their_call() {
    let proposed = RuntimeEvent::ToolProposed {
        call_id: "c1".to_owned(),
        tool: "promql".to_owned(),
        arguments: Json::Null,
    };
    let started = RuntimeEvent::ToolStarted {
        call_id: "c2".to_owned(),
        tool: "exec".to_owned(),
        arguments: Json::Bool(true),
    };
    assert!(proposed.is_tool_proposal() && started.is_tool_proposal());
    let (call_id, tool, _) = proposed.tool_call_parts().unwrap();
    assert_eq!((call_id, tool), ("c1", "promql"));
    let (call_id, tool, arguments) = started.tool_call_parts().unwrap();
    assert_eq!((call_id, tool, arguments.to_text()), ("c2", "exec", "true".to_owned()));
    assert!(!RuntimeEvent::TurnStarted.is_tool_proposal());
    assert!(RuntimeEvent::TurnStarted.tool_call_parts().is_none());
}

#[test]
fn labels_are_kept_in_order_and_once() {
    let mut labels = LabelMap::new();
    for (key, value) in [("b", "1"), ("a", "2"), ("c", "3"), ("b", "4")] {
        labels.insert(key.to_owned(), value.to_owned());
    }
    assert_eq!(labels.len(), 3);
    let kept: Vec<(&str, &str)> = labels
        .labels()
        .iter()
        .map(|label| (label.key.as_str(), label.value.as_str()))
        .collect();
    assert_eq!(kept, vec![("a", "2"), ("b", "4"), ("c", "3")]);
}

#[test]
fn endless_turn_asks_the_model_as_often_as_it_may() {
    let (mut machine, mut action) = turn();
    let mut asked = 0;
    loop {
        let event = match action {
            TurnAction::Emit { .. } => TurnEvent::Emitted { event_id: EventId::from_uuid(5) },
            TurnAction::Think => {
                asked += 1;
                TurnEvent::Responded {
                    outputs: vec![ModelOutput::ToolCall {
                        call_id: format!("c{}", asked),
                        name: "t".to_owned(),
                        arguments: Json::Null,
                    }],
                }
            }
            TurnAction::Tool { action: ToolAction::LookUp } => TurnEvent::Tool {
                event: ToolEvent::Unknown { error: OpsCodexError::NotFound("t".to_owned()) },
            },
            TurnAction::Tool { action: ToolAction::Emit { .. } } => TurnEvent::Tool {
                event: ToolEvent::Emitted { event_id: EventId::from_uuid(6) },
            },
            TurnAction::End { result } => {
                assert!(matches!(result, Err(OpsCodexError::MaxStepsExceeded)));
                break;
            }
            other => panic!("unexpected {:?}", other),
        };
        (machine, action) = turn_step(machine, event);
    }
    assert_eq!(asked, RuntimeSettings::default().max_steps);
}

#[test]
fn model_is_asked_with_instructions_and_context() {
    let config = RuntimeConfig::from_settings(&RuntimeSettings::default());
    let asked = EventEnvelope::new(
        1,
        ThreadId::from_uuid(1),
        None,
        RuntimeEvent::UserMessage { content: "why?".to_owned(), incident_context: None },
        EventId::from_uuid(2),
        now(),
    );
    let request = turn_request(&vec![asked], &config.context, vec![]);
    assert!(request.instructions.starts_with("You are OpsCodex"));
    assert_eq!(request.input.len(), 1);
    assert!(matches!(&request.input[0], ModelItem::UserMessage { content } if content == "why?"));
    assert_eq!(request.tools.len(), 0);
}
