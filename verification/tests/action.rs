use opscodex::action::runner::{
    check_loopback_url, demo_endpoint, execute_demo_fault, execute_k8s_scale, read_reply,
    start_demo_fault, take_reply, validate_loopback_url, DemoAction, DemoPhase, ExecutionOutcome,
    Reply, ScaleAction, ScalePhase, ScaleRequest,
};
use opscodex::action::{
    action_request_hash, audit_record_hash, deny_extension_remediation, evaluate_action,
    is_extension_tool, next_record, schema_hash_for, transition, verify_audit_chain,
    ActionPolicyInput, ActionRecord, ActionStatus, AuditRecord, DEMO_FAULT_TOOL, K8S_SCALE_TOOL,
    TOOL_VERSION,
};
use opscodex::error::{ConnectorClass, OpsCodexError};
use opscodex::extensions::capability::CapabilityEffect;
use opscodex::json::{Json, JsonEntry};
use opscodex::policy::PolicyDecision;
use opscodex::runtime::execution::{
    can_execute, execute_action, start_execution, ExecutionAction, ExecutionEvent, ExecutionPhase,
};
use opscodex::runtime::remediation::{
    action_plan, after_check, after_dry_run, after_execution, approve_action, build_action,
    check_preconditions, claim_action, judge_action, may_change, plan_run, required_str, Proposed,
    RunPlan,
};
use opscodex::runtime::thread::{ActionId, ApprovalId, ClaimId, PlanId, ThreadId, WorkspaceId};
use opscodex::time::Timestamp;
use opscodex::url_text::UrlParts;

fn object(entries: Vec<(&str, Json)>) -> Json {
    Json::Object(
        entries
            .into_iter()
            .map(|(key, value)| JsonEntry { key: key.to_owned(), value })
            .collect(),
    )
}

fn now() -> Timestamp {
    Timestamp::new(1_700_000_000, 0).unwrap()
}

fn sample_action() -> ActionRecord {
    ActionRecord {
        action_id: ActionId::from_uuid(1),
        plan_id: PlanId::from_uuid(2),
        workspace_id: WorkspaceId::new("local-demo"),
        thread_id: ThreadId::from_uuid(3),
        tool_id: DEMO_FAULT_TOOL.to_owned(),
        tool_version: TOOL_VERSION.to_owned(),
        schema_hash: schema_hash_for(DEMO_FAULT_TOOL),
        effect: CapabilityEffect::ChangeReversible.as_str().to_owned(),
        normalized_target: "demo:order-service".to_owned(),
        normalized_parameters: object(vec![
            ("mode", Json::text("normal")),
            ("service", Json::text("order-service")),
        ]),
        preconditions: vec!["mode!=normal".to_owned()],
        expected_effect: "fault mode normal".to_owned(),
        dry_run_result: None,
        verification_spec: "GET /health status=ok".to_owned(),
        rollback_spec: None,
        blast_radius: "local demo order-service only".to_owned(),
        operation_id: "op-1".to_owned(),
        request_hash: String::new(),
        status: ActionStatus::Proposed,
        approval_id: None,
        consumed_approval: false,
        expires_at: now(),
        updated_at: now(),
    }
}

#[test]
fn proposed_cannot_skip_to_executing() {
    let error = transition(ActionStatus::Proposed, ActionStatus::Executing).unwrap_err();
    assert!(error.to_string().contains("illegal action transition"));
}

#[test]
fn request_hash_changes_when_parameters_change() {
    let mut action = sample_action();
    let original = action_request_hash(&action);
    action.normalized_parameters = object(vec![
        ("mode", Json::text("normal")),
        ("service", Json::text("other")),
    ]);
    assert_ne!(original, action_request_hash(&action));
}

#[test]
fn request_hash_distinguishes_adjacent_field_boundaries() {
    let mut left = sample_action();
    left.tool_id = "ab".to_owned();
    left.tool_version = "c".to_owned();
    let mut right = sample_action();
    right.tool_id = "a".to_owned();
    right.tool_version = "bc".to_owned();

    assert_ne!(action_request_hash(&left), action_request_hash(&right));
}

#[test]
fn change_effects_cannot_be_allow() {
    let workspace = WorkspaceId::new("local-demo");
    let reversible = evaluate_action(&ActionPolicyInput {
        workspace_id: &workspace,
        allow_remediation: true,
        max_effect: None,
        tool_id: DEMO_FAULT_TOOL,
        effect: CapabilityEffect::ChangeReversible,
        production_safe: false,
        kill_switch: false,
        remediation_enabled: true,
    });
    assert_eq!(reversible, PolicyDecision::Ask);
    let irreversible = evaluate_action(&ActionPolicyInput {
        workspace_id: &workspace,
        allow_remediation: true,
        max_effect: None,
        tool_id: K8S_SCALE_TOOL,
        effect: CapabilityEffect::ChangeIrreversible,
        production_safe: true,
        kill_switch: false,
        remediation_enabled: true,
    });
    assert_eq!(irreversible, PolicyDecision::Deny);
    assert_eq!(
        evaluate_action(&ActionPolicyInput {
            workspace_id: &workspace,
            allow_remediation: true,
            max_effect: None,
            tool_id: "exec",
            effect: CapabilityEffect::ChangeReversible,
            production_safe: false,
            kill_switch: false,
            remediation_enabled: true,
        }),
        PolicyDecision::Deny
    );
}

#[test]
fn audit_chain_detects_record_tamper() {
    let created = now();
    let summary = object(vec![("action_id", Json::text("a1"))]);
    let hash = audit_record_hash(
        "genesis",
        "operator",
        Some("local-demo"),
        "action.awaiting_approval",
        &summary,
        created,
    );
    let records = vec![AuditRecord {
        seq: 1,
        record_hash: hash,
        previous_hash: "genesis".to_owned(),
        actor: "operator".to_owned(),
        workspace_id: Some("local-demo".to_owned()),
        operation: "action.awaiting_approval".to_owned(),
        summary: object(vec![("action_id", Json::text("tampered"))]),
        created_at: created,
    }];
    assert!(verify_audit_chain(&records)
        .unwrap_err()
        .to_string()
        .contains("hash"));
}

#[test]
fn audit_hash_distinguishes_adjacent_field_boundaries() {
    let created = now();
    let summary = object(vec![("action_id", Json::text("a1"))]);

    assert_ne!(
        audit_record_hash("genesis", "ab", Some("c"), "operation", &summary, created),
        audit_record_hash("genesis", "a", Some("bc"), "operation", &summary, created)
    );
}

fn audit(previous: &str, seq: i64, operation: &str) -> AuditRecord {
    let summary = object(vec![("seq", Json::number(seq as u64))]);
    AuditRecord {
        seq,
        record_hash: audit_record_hash(previous, "operator", None, operation, &summary, now()),
        previous_hash: previous.to_owned(),
        actor: "operator".to_owned(),
        workspace_id: None,
        operation: operation.to_owned(),
        summary,
        created_at: now(),
    }
}

#[test]
fn untouched_audit_chain_is_accepted() {
    let first = audit("genesis", 1, "a");
    let second = audit(&first.record_hash, 2, "b");
    assert!(verify_audit_chain(&vec![first, second]).is_ok());
    assert!(verify_audit_chain(&vec![]).is_ok());
}

#[test]
fn audit_chain_detects_missing_record() {
    let first = audit("genesis", 1, "a");
    let second = audit(&first.record_hash, 2, "b");
    let third = audit(&second.record_hash, 3, "c");
    assert!(verify_audit_chain(&vec![first, third]).is_err());
}

#[test]
fn kill_switch_denies_what_would_be_asked() {
    let workspace = WorkspaceId::new("local-demo");
    assert_eq!(
        evaluate_action(&ActionPolicyInput {
            workspace_id: &workspace,
            allow_remediation: true,
            max_effect: None,
            tool_id: DEMO_FAULT_TOOL,
            effect: CapabilityEffect::ChangeReversible,
            production_safe: false,
            kill_switch: true,
            remediation_enabled: true,
        }),
        PolicyDecision::Deny
    );
}

#[test]
fn action_status_names_are_read_back() {
    assert_eq!(ActionStatus::AwaitingApproval.as_str(), "awaiting_approval");
    assert_eq!(
        ActionStatus::parse("awaiting_approval").unwrap(),
        ActionStatus::AwaitingApproval
    );
    assert!(ActionStatus::parse("unheard-of").is_err());
    assert!(ActionStatus::Succeeded.is_terminal());
    assert!(!ActionStatus::Authorized.is_terminal());
}

#[test]
fn extension_tools_do_not_remediate() {
    assert!(is_extension_tool("mcp/server/tool"));
    assert!(deny_extension_remediation("custom/tool"));
    assert!(!deny_extension_remediation(DEMO_FAULT_TOOL));
}

fn proposal(kind: &str, parameters: Json) -> Result<ActionRecord, OpsCodexError> {
    build_action(
        &ThreadId::from_uuid(3),
        &WorkspaceId::new("local-demo"),
        kind,
        &parameters,
        600,
        now(),
        ActionId::from_uuid(1),
        PlanId::from_uuid(2),
    )
}

#[test]
fn approval_binds_the_request_and_is_given_once() {
    let mut action = proposal(
        DEMO_FAULT_TOOL,
        object(vec![("service", Json::text("order-service"))]),
    )
    .unwrap();
    let workspace = WorkspaceId::new("local-demo");
    let input = ActionPolicyInput {
        workspace_id: &workspace,
        allow_remediation: true,
        max_effect: None,
        tool_id: DEMO_FAULT_TOOL,
        effect: CapabilityEffect::ChangeReversible,
        production_safe: false,
        kill_switch: false,
        remediation_enabled: true,
    };
    action = match judge_action(action, &input) {
        Proposed::DryRun { action } => action,
        Proposed::Denied { error, .. } => panic!("denied: {}", error.to_string()),
    };
    assert_eq!(action.status, ActionStatus::DryRun);
    let outcome = ExecutionOutcome {
        committed: false,
        verified: false,
        uncertain: false,
        before: object(vec![("mode", Json::text("error_rate"))]),
        after: Json::Null,
        message: "dry run".to_owned(),
    };
    let (action, result) = after_dry_run(action, outcome, ApprovalId::from_uuid(9));
    assert!(result.is_ok());
    assert_eq!(action.status, ActionStatus::AwaitingApproval);

    let wrong = approve_action(action, "other", true, now());
    assert!(wrong.refusal.is_some());
    assert_eq!(wrong.action.status, ActionStatus::AwaitingApproval);

    let hash = wrong.action.request_hash.clone();
    let given = approve_action(wrong.action, &hash, true, now());
    assert!(given.refusal.is_none());
    assert_eq!(given.action.status, ActionStatus::Authorized);

    let again = approve_action(given.action, &hash, true, now());
    assert!(again.refusal.is_some());
    assert_eq!(again.action.status, ActionStatus::Authorized);

    let (claimed, result) = claim_action(again.action, now());
    assert!(result.is_ok());
    assert_eq!(claimed.status, ActionStatus::PreconditionCheck);
    let (twice, result) = claim_action(claimed, now());
    assert!(result.is_err());
    assert!(matches!(plan_run(&twice, false), Ok(RunPlan::DemoFault)));

    let (ready, result) = after_check(twice, Ok(()), now());
    assert!(result.is_ok());
    assert_eq!(ready.status, ActionStatus::Executing);
    let finished = after_execution(
        ready,
        Ok(ExecutionOutcome {
            committed: true,
            verified: true,
            uncertain: false,
            before: Json::Null,
            after: Json::Null,
            message: "done".to_owned(),
        }),
        now(),
    );
    assert_eq!(finished.action.status, ActionStatus::Succeeded);
    assert!(finished.mutated);
    assert!(finished.result.is_ok());
}

#[test]
fn scaling_is_bounded() {
    let scale = |replicas: u64| {
        proposal(
            K8S_SCALE_TOOL,
            object(vec![
                ("kind", Json::text("Deployment")),
                ("name", Json::text("orders")),
                ("namespace", Json::text("shop")),
                ("replicas", Json::number(replicas)),
                ("resource_version", Json::text("7")),
                ("uid", Json::text("u-1")),
            ]),
        )
    };
    assert!(scale(3).is_ok());
    assert!(scale(1_000_000).is_err());
    assert!(proposal("unheard-of", object(vec![])).is_err());
}

#[test]
fn required_parameter_is_named_when_it_is_missing() {
    let error = required_str(&object(vec![]), "service").unwrap_err();
    assert!(error.to_string().contains("service"));
    assert_eq!(
        required_str(&object(vec![("service", Json::text("x"))]), "service").unwrap(),
        "x"
    );
}

#[test]
fn changes_need_the_switches() {
    assert!(may_change(false, true).is_ok());
    assert!(may_change(true, true).is_err());
    assert!(may_change(false, false).is_err());
}

fn demo() -> UrlParts {
    validate_loopback_url("http://localhost:9/base").unwrap()
}

#[test]
fn demo_endpoints_lie_under_the_base() {
    let (base, phase, first) = start_demo_fault("http://localhost:9/base").unwrap();
    assert!(matches!(phase, DemoPhase::Checking));
    assert!(matches!(
        first,
        DemoAction::GetHealth { url } if url == "http://localhost:9/base/health"
    ));
    assert_eq!(demo_endpoint(&base, "x").unwrap(), "http://localhost:9/base/x");
    let (phase, reset) =
        execute_demo_fault(&base, phase, Reply::Value { value: Json::Null }, false);
    assert!(matches!(
        reset,
        DemoAction::PostReset { url } if url == "http://localhost:9/base/debug/fault/normal"
    ));
    let (phase, again) =
        execute_demo_fault(&base, phase, Reply::Value { value: Json::Null }, false);
    assert!(matches!(
        again,
        DemoAction::GetHealth { url } if url == "http://localhost:9/base/health"
    ));
    let health = read_reply(true, "200 OK", b"{\"status\":\"ok\",\"mode\":\"normal\"}").unwrap();
    let (_, done) = execute_demo_fault(&base, phase, Reply::Value { value: health }, false);
    assert!(matches!(done, DemoAction::Finish { outcome } if outcome.verified));
    assert!(start_demo_fault("http://example.com/").is_err());
}

#[test]
fn answers_of_the_demo_service_are_read() {
    assert_eq!(
        read_reply(false, "503 Service Unavailable", b"{}").unwrap_err().to_string(),
        "tool error: demo fault endpoint returned 503 Service Unavailable"
    );
    assert_eq!(read_reply(true, "200 OK", b"[1]").unwrap().to_text(), "[1]");
    assert!(matches!(
        read_reply(true, "200 OK", b"{"),
        Err(OpsCodexError::Connector { class: ConnectorClass::MalformedData, .. })
    ));
    assert!(take_reply(true, "200 OK", Err("eof".to_owned())).is_err());
}

#[test]
fn demo_dry_run_does_not_reset() {
    let health = object(vec![
        ("mode", Json::text("error_rate")),
        ("status", Json::text("degraded")),
    ]);
    let (_, action) = execute_demo_fault(
        &demo(),
        DemoPhase::Checking,
        Reply::Value { value: health },
        true,
    );
    match action {
        DemoAction::Finish { outcome } => assert!(!outcome.committed),
        other => panic!("unexpected {:?}", other),
    }
}

#[test]
fn demo_failure_of_the_first_check_aborts() {
    let (_, action) = execute_demo_fault(
        &demo(),
        DemoPhase::Checking,
        Reply::Failed { error: OpsCodexError::Tool("down".to_owned()) },
        false,
    );
    assert!(matches!(action, DemoAction::Abort { .. }));
}

#[test]
fn changed_workload_is_left_alone() {
    let request = ScaleRequest {
        kind: "Deployment".to_owned(),
        namespace: "shop".to_owned(),
        name: "orders".to_owned(),
        replicas: 3,
        resource_version: "7".to_owned(),
        uid: "u-1".to_owned(),
        operation_id: "op-1".to_owned(),
    };
    let read = |version: &str| {
        object(vec![
            (
                "metadata",
                object(vec![
                    ("resourceVersion", Json::text(version)),
                    ("uid", Json::text("u-1")),
                ]),
            ),
            ("spec", object(vec![("replicas", Json::number(1))])),
        ])
    };
    let (_, stale) = execute_k8s_scale(
        &request,
        ScalePhase::Reading,
        Reply::Value { value: read("8") },
        false,
    );
    assert!(matches!(stale, ScaleAction::Abort { .. }));
    let (_, fresh) = execute_k8s_scale(
        &request,
        ScalePhase::Reading,
        Reply::Value { value: read("7") },
        false,
    );
    assert!(matches!(
        fresh,
        ScaleAction::Patch { resource_version, operation_id }
            if resource_version == "7" && operation_id == "op-1"
    ));
}

#[test]
fn loopback_urls_are_told_from_others() {
    let url = validate_loopback_url("http://127.0.0.1:8080/demo").unwrap();
    assert_eq!(url.scheme, "http");
    assert_eq!(url.host.as_deref(), Some("127.0.0.1"));
    assert_eq!(url.path, "/demo/");
    assert_eq!(url.text, "http://127.0.0.1:8080/demo/");
    assert_eq!(
        validate_loopback_url("http://localhost:9/base?q=1").unwrap().text,
        "http://localhost:9/base/?q=1"
    );
    assert_eq!(validate_loopback_url("http://localhost:1/").unwrap().path, "/");
    assert!(validate_loopback_url("http://example.com/").is_err());
    assert!(validate_loopback_url("http://user@127.0.0.1/").is_err());
    assert!(validate_loopback_url("ftp://127.0.0.1/").is_err());
    let error = validate_loopback_url("not a url").unwrap_err().to_string();
    assert!(error.contains("invalid demo_fault_url: "));
    assert!(check_loopback_url(&UrlParts {
        text: "http://::1/".to_owned(),
        scheme: "http".to_owned(),
        username: String::new(),
        has_password: false,
        host: Some("::1".to_owned()),
        path: "/".to_owned(),
    })
    .is_ok());
}

#[test]
fn preconditions_are_held_against_a_snapshot() {
    let action = proposal(
        DEMO_FAULT_TOOL,
        object(vec![("service", Json::text("order-service"))]),
    )
    .unwrap();
    assert!(check_preconditions(&action, &object(vec![("mode", Json::text("error_rate"))])).is_ok());
}

#[test]
fn a_plan_holds_its_action_and_the_claims() {
    let action = proposal("demo_fault_reset", Json::Object(vec![])).unwrap();
    let plan = action_plan(&action, vec![ClaimId::from_uuid(9)]);
    assert_eq!(plan.plan_id, action.plan_id);
    assert_eq!(plan.diagnosis_claim_ids, vec![ClaimId::from_uuid(9)]);
    assert_eq!(plan.actions.len(), 1);
    assert_eq!(plan.actions[0].request_hash, action.request_hash);
    assert_eq!(plan.created_at, action.updated_at);
    assert_eq!(plan.expires_at, action.expires_at);
}

#[test]
fn order_of_keys_does_not_change_a_request() {
    let sorted = object(vec![("mode", Json::text("normal")), ("service", Json::text("order-service"))]);
    let turned = object(vec![("service", Json::text("order-service")), ("mode", Json::text("normal"))]);
    let mut action = proposal(DEMO_FAULT_TOOL, sorted.clone()).unwrap();
    action.normalized_parameters = sorted;
    let hash = action_request_hash(&action);
    action.normalized_parameters = turned;
    assert_eq!(action_request_hash(&action), hash);
    action.normalized_parameters = object(vec![
        ("mode", Json::text("odd")),
        ("service", Json::text("order-service")),
        ("mode", Json::text("normal")),
    ]);
    assert_eq!(action_request_hash(&action), hash);
    action.normalized_parameters = object(vec![("mode", Json::text("normal"))]);
    assert_ne!(action_request_hash(&action), hash);
}

#[test]
fn records_are_chained() {
    let mut log: Vec<AuditRecord> = Vec::new();
    for operation in ["action.authorized", "action.succeeded"] {
        let record = next_record(&log, "operator", Some("local-demo"), operation, Json::Null, now());
        log.push(record);
    }
    assert_eq!(log[0].previous_hash, "genesis");
    assert_eq!(log[1].previous_hash, log[0].record_hash);
    assert_eq!(log[1].seq, 2);
    assert!(verify_audit_chain(&log).is_ok());
    log[0].actor = "other".to_owned();
    assert!(verify_audit_chain(&log).is_err());
}

fn authorized(kind: &str, parameters: Json) -> ActionRecord {
    let mut action = proposal(kind, parameters).unwrap();
    action.status = ActionStatus::Authorized;
    action
}

fn outcome(verified: bool) -> ExecutionOutcome {
    ExecutionOutcome {
        committed: true,
        verified,
        uncertain: false,
        before: Json::Null,
        after: Json::Null,
        message: "done".to_owned(),
    }
}

#[test]
fn execution_is_allowed_claimed_checked_run_and_recorded() {
    let id = ActionId::from_uuid(1);
    let (phase, action) = start_execution(id, false, true);
    assert!(matches!(action, ExecutionAction::Load));
    let loaded = authorized(DEMO_FAULT_TOOL, object(vec![]));
    let event = ExecutionEvent::Loaded { action: Some(loaded), cluster: false };
    assert!(can_execute(&phase, &event));
    let (phase, action) = execute_action(phase, event, now());
    match action {
        ExecutionAction::Save { action } => {
            assert_eq!(action.status, ActionStatus::PreconditionCheck)
        }
        other => panic!("unexpected {:?}", other),
    }
    assert!(!can_execute(&phase, &ExecutionEvent::Ran { outcome: Ok(outcome(true)) }));
    let (phase, action) = execute_action(phase, ExecutionEvent::Saved, now());
    match action {
        ExecutionAction::Save { action } => assert_eq!(action.status, ActionStatus::Executing),
        other => panic!("unexpected {:?}", other),
    }
    let (phase, action) = execute_action(phase, ExecutionEvent::Saved, now());
    assert!(matches!(action, ExecutionAction::Run { plan: RunPlan::DemoFault }));
    let (phase, action) =
        execute_action(phase, ExecutionEvent::Ran { outcome: Ok(outcome(true)) }, now());
    match action {
        ExecutionAction::Record { action, mutated, operation, .. } => {
            assert_eq!(action.status, ActionStatus::Succeeded);
            assert!(mutated);
            assert_eq!(operation, "action.succeeded");
        }
        other => panic!("unexpected {:?}", other),
    }
    let (phase, action) = execute_action(phase, ExecutionEvent::Saved, now());
    assert!(matches!(phase, ExecutionPhase::Done));
    assert!(matches!(action, ExecutionAction::End { result: Ok(_) }));
}

#[test]
fn blocked_or_unknown_actions_are_not_carried_out() {
    let id = ActionId::from_uuid(1);
    for (kill_switch, enabled) in [(true, true), (false, false)] {
        let (phase, action) = start_execution(id, kill_switch, enabled);
        assert!(matches!(phase, ExecutionPhase::Done));
        assert!(matches!(action, ExecutionAction::End { result: Err(_) }));
    }
    let (phase, _) = start_execution(id, false, true);
    let (_, action) =
        execute_action(phase, ExecutionEvent::Loaded { action: None, cluster: true }, now());
    match action {
        ExecutionAction::End { result: Err(error) } => {
            assert!(error.to_string().starts_with("resource not found: action "))
        }
        other => panic!("unexpected {:?}", other),
    }
    let (phase, _) = start_execution(id, false, true);
    let waiting = proposal(DEMO_FAULT_TOOL, object(vec![])).unwrap();
    let event = ExecutionEvent::Loaded { action: Some(waiting), cluster: true };
    let (_, action) = execute_action(phase, event, now());
    match action {
        ExecutionAction::End { result: Err(error) } => {
            assert!(error.to_string().contains("cannot be executed"))
        }
        other => panic!("unexpected {:?}", other),
    }
}

#[test]
fn changed_workloads_make_an_action_stale() {
    let parameters = object(vec![
        ("kind", Json::text("Deployment")),
        ("name", Json::text("orders")),
        ("namespace", Json::text("shop")),
        ("replicas", Json::number(3)),
    ]);
    let claim = |cluster: bool| {
        let mut action = authorized(K8S_SCALE_TOOL, parameters.clone());
        action.preconditions = vec!["uid=u-1".to_owned(), "resourceVersion=7".to_owned()];
        let (phase, _) = start_execution(ActionId::from_uuid(1), false, true);
        let event = ExecutionEvent::Loaded { action: Some(action), cluster };
        let (phase, _) = execute_action(phase, event, now());
        execute_action(phase, ExecutionEvent::Saved, now())
    };
    let look = |uid: &str| {
        let (phase, action) = claim(true);
        match action {
            ExecutionAction::Look { workload } => assert_eq!(workload.name, "orders"),
            other => panic!("unexpected {:?}", other),
        }
        let snapshot = object(vec![(
            "metadata",
            object(vec![("resourceVersion", Json::text("7")), ("uid", Json::text(uid))]),
        )]);
        execute_action(phase, ExecutionEvent::Looked { snapshot: Ok(snapshot) }, now())
    };
    let status = |action: ExecutionAction| match action {
        ExecutionAction::Save { action } => action.status,
        other => panic!("unexpected {:?}", other),
    };
    assert_eq!(status(look("u-1").1), ActionStatus::Executing);
    let (phase, action) = look("u-2");
    assert_eq!(status(action), ActionStatus::Stale);
    let (_, action) = execute_action(phase, ExecutionEvent::Saved, now());
    match action {
        ExecutionAction::End { result: Err(error) } => {
            assert!(error.to_string().contains("kubernetes target changed"))
        }
        other => panic!("unexpected {:?}", other),
    }
    let (phase, action) = claim(false);
    assert_eq!(status(action), ActionStatus::Stale);
    let (_, action) = execute_action(phase, ExecutionEvent::Saved, now());
    match action {
        ExecutionAction::End { result: Err(error) } => assert_eq!(
            error.to_string(),
            "policy error: workspace local-demo has no remediation Kubernetes client"
        ),
        other => panic!("unexpected {:?}", other),
    }
}
