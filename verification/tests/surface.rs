use opscodex::action::{audit_record_hash, AuditRecord};
use opscodex::cli::{
    exported_line, incident_from_flags, incident_from_times, is_yes, migrated_line, render_event,
    Shown,
};
use opscodex::config::{
    bind_name_of, check_reasoning, choose_model, choose_store, is_loopback_bind_host, join_path,
    Config, ExtensionConfigEntry, ModelChoice, ModelConfig, StoreChoice, WorkspaceConfigEntry,
};
use opscodex::error::OpsCodexError;
use opscodex::evidence::EvidenceMeta;
use opscodex::json::Json;
use opscodex::model::provider::ModelCapabilities;
use opscodex::ops::{
    backup_file, deny_non_loopback_bind, doctor, listen_texts, require_file, require_sqlite,
    validate_config, verify_audit, verify_store, CheckStatus, StoreProbe,
};
use opscodex::runtime::envelope::EventEnvelope;
use opscodex::runtime::event::{RuntimeEvent, StreamKind};
use opscodex::runtime::incident::IncidentContext;
use opscodex::runtime::thread::{
    ActionId, ApprovalId, EventId, ThreadId, ThreadStatus, TurnId, TurnStatus, WorkspaceId,
};
use opscodex::server::active::ActiveTurns;
use opscodex::server::routes::{
    action_not_found, approval_resolved_body, check_action_kind, check_context, check_request_hash,
    check_resume, check_turn, health_body, idempotency_key, limit_events, not_ready_body,
    parse_claim_ids, parse_thread_query, parse_turn_id, ready_body, remediation_body,
    thread_created_body, thread_forked_body, threads_in, turn_cancelling_body,
    turn_is_not_running, turn_is_running, turn_started_body, ApiError,
};
use opscodex::server::sse::{resume_after, retain_kind, sse_event, EventStream};
use opscodex::store::continuity::{CheckpointPhase, RecoveryReport, ResumePolicy};
use opscodex::store::migrate::{ExportReport, MigrateReport};
use opscodex::store::projection::ThreadSummary;
use opscodex::telemetry::RuntimeMetrics;
use opscodex::time::Timestamp;
use opscodex::url_text::UrlParts;

fn now() -> Timestamp {
    Timestamp::new(1_700_000_000, 0).unwrap()
}

// ---------------------------------------------------------------------------
// Configuration
// ---------------------------------------------------------------------------
#[test]
fn default_configuration_is_accepted() {
    let config = Config::default();
    assert!(config.validate(&vec![]).is_ok());
    assert_eq!(config.model.model, "gpt-5.2");
    assert_eq!(config.runtime.max_steps, 12);
    assert_eq!(config.extensions.max_skill_context_bytes, 4096);
    assert!(validate_config(&config, &vec![]).is_ok());
}

fn refused(change: fn(&mut Config)) -> String {
    let mut config = Config::default();
    change(&mut config);
    let names = config.workspaces.iter().map(|_| Ok(())).collect();
    config.validate(&names).unwrap_err().to_string()
}

#[test]
fn wrong_settings_are_refused() {
    assert_eq!(
        refused(|config| config.runtime.max_steps = 0),
        "protocol error: runtime.max_steps must be greater than zero"
    );
    assert!(refused(|config| config.model.model = "  ".to_owned()).contains("model.model"));
    assert!(refused(|config| config.model.reasoning_effort = Some("odd".to_owned()))
        .contains("reasoning_effort"));
    assert!(refused(|config| config.loki.max_lines = 0).contains("loki.max_lines"));
    assert!(refused(|config| config.store.backend = "redis".to_owned()).contains("`redis`"));
    assert!(refused(|config| config.server.host = "0.0.0.0".to_owned()).contains("loopback"));
    assert!(refused(|config| config.remediation.demo_fault_url = "http://example.com".to_owned())
        .contains("loopback host"));
    assert!(refused(|config| config.remediation.demo_fault_url = "::".to_owned())
        .contains("invalid remediation.demo_fault_url: "));
    assert!(refused(|config| {
        config.extensions.production_safe = true;
        config.tools.allow_exec = true;
    })
    .contains("production_safe"));
}

#[test]
fn names_in_a_configuration_are_distinct() {
    let twice = refused(|config| {
        for _ in 0..2 {
            let mut entry = WorkspaceConfigEntry::default();
            entry.id = "w".to_owned();
            config.workspaces.push(entry);
        }
    });
    assert!(twice.contains("duplicate workspace id `w`"));
    let effect = refused(|config| {
        let mut entry = WorkspaceConfigEntry::default();
        entry.id = "w".to_owned();
        entry.max_effect = Some("odd".to_owned());
        config.workspaces.push(entry);
    });
    assert!(effect.contains("unsupported capability effect `odd`"));
    let turns = refused(|config| {
        let mut entry = WorkspaceConfigEntry::default();
        entry.id = "w".to_owned();
        entry.max_concurrent_turns = Some(0);
        config.workspaces.push(entry);
    });
    assert!(turns.contains("max_concurrent_turns must be greater than zero"));
    let nameless = refused(|config| config.extension.push(ExtensionConfigEntry::default()));
    assert!(nameless.contains("extension.id must not be empty"));
    let odd = refused(|config| {
        let mut entry = ExtensionConfigEntry::default();
        entry.id = "x".to_owned();
        entry.kind = "odd".to_owned();
        config.extension.push(entry);
    });
    assert!(odd.contains("unsupported extension kind `odd`"));
    let double = refused(|config| {
        for id in ["x", " x "] {
            let mut entry = ExtensionConfigEntry::default();
            entry.id = id.to_owned();
            entry.kind = "mcp".to_owned();
            config.extension.push(entry);
        }
    });
    assert!(double.contains("duplicate extension id ` x `"));
}

#[test]
fn configuration_is_checked_with_a_url_that_was_read() {
    let url = |host: &str| UrlParts {
        text: String::new(),
        scheme: "http".to_owned(),
        username: String::new(),
        has_password: false,
        host: Some(host.to_owned()),
        path: "/".to_owned(),
    };
    let config = Config::default();
    assert!(config.check(Ok(url("localhost")), &vec![]).is_ok());
    assert!(config.check(Ok(url("example.com")), &vec![]).is_err());
    assert!(config.check(Err("bad".to_owned()), &vec![]).unwrap_err().to_string().contains("bad"));
}

#[test]
fn loopback_hosts_are_told_from_others() {
    for host in ["127.0.0.1", "127.9.8.7", "localhost", "LOCALHOST", "::1", "[::1]", "0:0:0:0:0:0:0:1"] {
        assert!(is_loopback_bind_host(host), "{}", host);
    }
    for host in ["0.0.0.0", "10.0.0.1", "example.com", "::", "127.0.0", "127.0.0.256", ""] {
        assert!(!is_loopback_bind_host(host), "{}", host);
    }
    assert_eq!(bind_name_of("[::1]"), "::1");
    assert!(deny_non_loopback_bind("8.8.8.8").is_err());
    let (plain, bracketed) = listen_texts("127.0.0.1", 80).unwrap();
    assert_eq!(plain, "127.0.0.1:80");
    assert_eq!(bracketed, "[127.0.0.1]:80");
}

#[test]
fn store_and_model_are_chosen() {
    let mut config = Config::default();
    assert!(matches!(choose_store(&config.store), Ok(StoreChoice::Sqlite { path: None })));
    config.store.backend = "jsonl".to_owned();
    assert!(matches!(choose_store(&config.store), Ok(StoreChoice::Jsonl { .. })));
    config.store.backend = "odd".to_owned();
    assert!(choose_store(&config.store).is_err());
    assert!(matches!(choose_model(&config.model, true), Ok(ModelChoice::Demo)));
    assert!(matches!(choose_model(&config.model, false), Ok(ModelChoice::OpenAi)));
    let mut effort = ModelConfig::default();
    effort.reasoning_effort = Some("high".to_owned());
    assert!(check_reasoning(&effort, &ModelCapabilities::openai_responses()).is_ok());
    assert!(check_reasoning(&effort, &ModelCapabilities::fake()).is_err());
}

#[test]
fn paths_are_put_together() {
    assert_eq!(join_path("/a", "b"), "/a/b");
    assert_eq!(join_path("/a/", "b"), "/a/b");
    assert_eq!(join_path("", "b"), "b");
    let dir = Config::data_dir(Some("/x"), Some("/home/u"));
    assert!(dir.starts_with("/x"));
    assert!(Config::data_dir(None, Some("/home/u")).starts_with("/home/u/.opscodex"));
    assert_eq!(Config::default().sqlite_path("/d"), "/d/state.sqlite3");
    assert!(Config::default().artifact_dir("/d").starts_with("/d/"));
    assert!(!Config::default_path("/d").is_empty());
}

#[test]
fn configuration_is_loaded() {
    assert!(Config::from_toml(Ok(Config::default()), &vec![]).is_ok());
    assert_eq!(
        Config::from_toml(Err("line 1".to_owned()), &vec![]).unwrap_err().to_string(),
        "protocol error: invalid config: line 1"
    );
    assert_eq!(
        Config::load("/c.toml", Err("denied".to_owned()), &vec![]).unwrap_err().to_string(),
        "storage error: could not read /c.toml: denied"
    );
    assert!(Config::load("/c.toml", Ok(Ok(Config::default())), &vec![]).is_ok());
    let config = Config::default();
    assert_eq!(config.api_key(Some("SECRET-REDACTED".to_owned())).unwrap(), "SECRET-REDACTED");
    assert_eq!(
        config.api_key(None).unwrap_err().to_string(),
        "model error: environment variable OPENAI_API_KEY is not set"
    );
}

// ---------------------------------------------------------------------------
// Operations
// ---------------------------------------------------------------------------
#[test]
fn doctor_reports_what_is_wrong() {
    let fine = doctor(
        &Config::default(),
        &vec![],
        Ok(1),
        StoreProbe::Present { store: Ok("ok".to_owned()), audit: Ok("ok".to_owned()) },
    );
    assert!(fine.is_ok());
    let absent = doctor(&Config::default(), &vec![], Ok(1), StoreProbe::Absent { path: "/s".to_owned() });
    assert!(matches!(absent.status, CheckStatus::Degraded));
    let mut broken = Config::default();
    broken.runtime.max_steps = 0;
    let report = doctor(&broken, &vec![], Ok(1), StoreProbe::Absent { path: "/s".to_owned() });
    assert!(!report.is_ok());
    assert!(matches!(report.checks[0].status, CheckStatus::Error));
    let no_store = doctor(
        &Config::default(),
        &vec![],
        Err(OpsCodexError::NotFound("w".to_owned())),
        StoreProbe::Present { store: Err(OpsCodexError::Storage("x".to_owned())), audit: Ok(String::new()) },
    );
    assert!(!no_store.is_ok());
}

#[test]
fn stores_are_verified_and_backed_up() {
    assert!(verify_store(&vec![], 1).is_err());
    assert!(require_sqlite("sqlite", "backup").is_ok());
    assert!(require_sqlite("jsonl", "backup").is_err());
    assert_eq!(backup_file("/b/x.db", Some("db")), "/b/x.db");
    assert_eq!(backup_file("/b", None), "/b/state.sqlite3");
}

#[test]
fn metrics_are_rendered() {
    let mut metrics = RuntimeMetrics::default();
    RuntimeMetrics::inc(&mut metrics.turns_started);
    RuntimeMetrics::add(&mut metrics.tool_latency_ms_sum, 41);
    metrics.set_queue_waiters(3);
    let page = metrics.render_prometheus();
    assert!(page.contains(" 41"));
    assert!(page.contains(" 3"));
    assert!(!metrics.uses_high_cardinality_labels());
}

// ---------------------------------------------------------------------------
// Server
// ---------------------------------------------------------------------------
fn envelope(seq: u64, event: RuntimeEvent) -> EventEnvelope {
    EventEnvelope::new(
        seq,
        ThreadId::from_uuid(1),
        None,
        event,
        EventId::from_uuid(seq as u128),
        now(),
    )
}

fn delta(seq: u64) -> EventEnvelope {
    envelope(seq, RuntimeEvent::AssistantDelta { delta: "x".to_owned() })
}

fn domain(seq: u64) -> EventEnvelope {
    envelope(seq, RuntimeEvent::TurnStarted)
}

#[test]
fn listener_gets_every_event_once() {
    for stored in 2..6u64 {
        for published in 0..=stored {
            let mut stream = EventStream::new(None, 2);
            let replay = (3..=stored).map(domain).collect();
            let mut seen: Vec<u64> = stream.replay(replay).iter().map(|e| e.seq).collect();
            for seq in published + 1..=8 {
                if stream.accept(&domain(seq)) {
                    seen.push(seq);
                }
            }
            assert_eq!(seen, vec![3, 4, 5, 6, 7, 8]);
        }
    }
}

#[test]
fn listener_may_ask_for_one_kind() {
    let mut stream = EventStream::new(Some(StreamKind::Domain), 0);
    let first = stream.replay(vec![domain(1), delta(2), delta(3)]);
    assert_eq!(first.len(), 1);
    assert_eq!(stream.last_seq, 1);
    assert!(!stream.accept(&delta(3)));
    assert_eq!(stream.last_seq, 3);
    assert!(stream.accept(&domain(4)));
    assert!(!stream.accept(&domain(4)));
    assert_eq!(retain_kind(vec![domain(1), delta(2)], Some(StreamKind::Delivery)).len(), 1);
}

#[test]
fn listener_resumes_after_the_later_number() {
    assert_eq!(resume_after(3, Some("5")), 5);
    assert_eq!(resume_after(9, Some("5")), 9);
    assert_eq!(resume_after(3, Some("five")), 3);
    assert_eq!(resume_after(3, None), 3);
    let (id, name, data) = sse_event(&domain(7));
    assert_eq!(id, "7");
    assert_eq!(name, "turn_started");
    assert_eq!(data, domain(7).to_json().to_text());
}

#[test]
fn running_turns_are_kept_by_thread() {
    let mut active: ActiveTurns<&str> = ActiveTurns::new();
    let (thread, turn) = (ThreadId::from_uuid(1), TurnId::from_uuid(2));
    assert!(active.insert(thread, turn, "a"));
    assert!(!active.insert(thread, TurnId::from_uuid(3), "b"));
    assert_eq!(active.cancellation(&turn), Some(&"a"));
    assert_eq!(active.cancellation(&TurnId::from_uuid(3)), None);
    active.remove(&thread, &TurnId::from_uuid(3));
    assert!(!active.insert(thread, TurnId::from_uuid(4), "c"));
    active.remove(&thread, &turn);
    assert_eq!(active.cancellation(&turn), None);
    assert!(active.insert(thread, TurnId::from_uuid(4), "c"));
}

#[test]
fn errors_are_answered() {
    let status = |error: OpsCodexError| {
        let answer = ApiError::from_error(error);
        (answer.status, answer.code, answer.message)
    };
    assert_eq!(
        status(OpsCodexError::NotFound("x".to_owned())),
        (404, "not_found", "x".to_owned())
    );
    assert_eq!(
        status(OpsCodexError::TurnAlreadyRunning),
        (409, "conflict", "thread already has an active turn".to_owned())
    );
    assert_eq!(status(OpsCodexError::NeedsReconciliation("r".to_owned())).0, 409);
    assert_eq!(status(OpsCodexError::Protocol("p".to_owned())).0, 400);
    assert_eq!(status(OpsCodexError::Policy("p".to_owned())), (403, "forbidden", "p".to_owned()));
    assert_eq!(
        status(OpsCodexError::Storage("s".to_owned())),
        (500, "internal_error", "storage error: s".to_owned())
    );
    assert_eq!(
        ApiError::bad_request("b".to_owned()).body().to_text(),
        "{\"error\":{\"code\":\"bad_request\",\"message\":\"b\"}}"
    );
    assert_eq!(turn_is_running().status, 409);
    assert!(turn_is_not_running(&TurnId::from_uuid(0)).message.starts_with("active turn 0000"));
    assert_eq!(action_not_found(&ActionId::from_uuid(0)).status, 404);
}

#[test]
fn requests_are_checked() {
    assert_eq!(check_turn("  hi ", &None).unwrap(), "hi");
    assert_eq!(check_turn("  ", &None).unwrap_err().message, "input must not be empty");
    assert_eq!(
        check_turn(&"x".repeat(32 * 1024 + 1), &None).unwrap_err().message,
        "input exceeds 32 KiB"
    );
    assert!(check_turn(&"x".repeat(32 * 1024), &None).is_ok());
    let mut context = IncidentContext::default();
    context.service = Some("x".repeat(600));
    assert!(check_context(&Some(context)).is_err());
    assert_eq!(parse_thread_query("x").unwrap_err().message, "invalid thread id");
    assert_eq!(parse_turn_id("x").unwrap_err().message, "invalid turn id");
    assert_eq!(
        parse_thread_query(&ThreadId::from_uuid(5).to_string()).unwrap(),
        ThreadId::from_uuid(5)
    );
    assert_eq!(parse_claim_ids(&vec!["x".to_owned()]).unwrap_err().message, "invalid claim id");
    assert!(parse_claim_ids(&vec![]).unwrap().is_empty());
    assert_eq!(idempotency_key(Some(" k ")).unwrap(), "k");
    assert!(idempotency_key(Some(" ")).is_err());
    assert!(idempotency_key(None).is_err());
    assert!(check_request_hash(" ").is_err());
    assert!(check_request_hash("h").is_ok());
    assert!(check_action_kind("").is_err());
    assert!(check_action_kind("k8s_scale").is_ok());
}

#[test]
fn unclear_turns_are_not_resumed() {
    let report = |policy: ResumePolicy| RecoveryReport {
        turn_id: TurnId::from_uuid(1),
        thread_id: ThreadId::from_uuid(2),
        status: TurnStatus::Interrupted,
        phase: CheckpointPhase::ToolRunning,
        resume_policy: policy,
        risk: String::new(),
        user_action: "look".to_owned(),
        skipped_tools: vec![],
        checkpoint: None,
    };
    assert!(check_resume(&report(ResumePolicy::ReplayModel)).is_ok());
    assert_eq!(check_resume(&report(ResumePolicy::Reconcile)).unwrap_err().message, "look");
}

#[test]
fn lists_are_narrowed() {
    let summary = |id: u128, workspace: &str| ThreadSummary {
        id: ThreadId::from_uuid(id),
        workspace_id: WorkspaceId::new(workspace),
        status: ThreadStatus::Idle,
        title: None,
        created_at: now(),
        updated_at: now(),
        parent_thread_id: None,
        forked_at_seq: None,
    };
    let kept = threads_in(
        vec![summary(1, "a"), summary(2, "b"), summary(3, "a")],
        &WorkspaceId::new("a"),
    );
    assert_eq!(kept.iter().map(|t| t.id.value).collect::<Vec<_>>(), vec![1, 3]);
    let events = || vec![domain(1), domain(2), domain(3)];
    assert_eq!(limit_events(events(), Some(2)).len(), 2);
    assert_eq!(limit_events(events(), Some(0)).len(), 1);
    assert_eq!(limit_events(events(), Some(9)).len(), 3);
    assert_eq!(limit_events(events(), None).len(), 3);
}

#[test]
fn answers_are_written() {
    assert_eq!(health_body().to_text(), "{\"status\":\"ok\"}");
    assert_eq!(
        ready_body(2, 1).to_text(),
        "{\"status\":\"ready\",\"store\":\"ok\",\"threads\":2,\"workspaces\":1}"
    );
    assert_eq!(
        not_ready_body(&OpsCodexError::Storage("s".to_owned())).to_text(),
        "{\"error\":{\"code\":\"storage_error\",\"message\":\"storage error: s\"},\"status\":\"not_ready\",\"store\":\"error\"}"
    );
    let (thread, turn) = (ThreadId::from_uuid(0), TurnId::from_uuid(0));
    let nil = "00000000-0000-0000-0000-000000000000";
    assert_eq!(
        thread_created_body(&thread, &WorkspaceId::default()).to_text(),
        format!("{{\"id\":\"{}\",\"workspace_id\":\"default\"}}", nil)
    );
    assert_eq!(
        turn_started_body(&turn).to_text(),
        format!("{{\"turn_id\":\"{}\",\"status\":\"running\"}}", nil)
    );
    assert_eq!(
        turn_cancelling_body(&turn).to_text(),
        format!("{{\"status\":\"cancelling\",\"turn_id\":\"{}\"}}", nil)
    );
    assert_eq!(
        approval_resolved_body(&ApprovalId::from_uuid(0), false).to_text(),
        format!("{{\"approval_id\":\"{}\",\"status\":\"rejected\"}}", nil)
    );
    assert_eq!(
        thread_forked_body(&thread, &thread, 4, &None).to_text(),
        format!(
            "{{\"forked_at_seq\":4,\"id\":\"{}\",\"parent_thread_id\":\"{}\",\"title\":null}}",
            nil, nil
        )
    );
    assert_eq!(
        remediation_body(true, false, 3).to_text(),
        "{\"enabled\":true,\"kill_switch\":false,\"mutations\":3}"
    );
}

// ---------------------------------------------------------------------------
// Command line
// ---------------------------------------------------------------------------
#[test]
fn flags_describe_an_incident() {
    assert!(incident_from_flags(None, None, None, None).unwrap().is_none());
    let context = incident_from_flags(
        Some("orders".to_owned()),
        None,
        Some("2024-01-01T00:00:00Z".to_owned()),
        None,
    )
    .unwrap()
    .unwrap();
    assert_eq!(context.service.as_deref(), Some("orders"));
    assert_eq!(context.starts_at.unwrap().seconds(), 1_704_067_200);
    assert!(incident_from_flags(None, None, Some("soon".to_owned()), None)
        .unwrap_err()
        .to_string()
        .contains("invalid timestamp: "));
    let early = Timestamp::new(1_600_000_000, 0).unwrap();
    assert!(incident_from_times(None, None, Some(Ok(now())), Some(Ok(early))).is_err());
    assert!(incident_from_times(None, None, None, Some(Err("x".to_owned()))).is_err());
}

#[test]
fn events_are_shown() {
    let mut streaming = false;
    assert!(matches!(
        render_event(&RuntimeEvent::AssistantDelta { delta: "a".to_owned() }, &mut streaming),
        Shown::Piece(text) if text == "a"
    ));
    assert!(streaming);
    let done = RuntimeEvent::assistant_completed("a".to_owned());
    assert!(matches!(render_event(&done, &mut streaming), Shown::Line(text) if text == "\n"));
    assert!(!streaming);
    assert!(matches!(render_event(&done, &mut streaming), Shown::Nothing));
    let proposed = |tool: &str| RuntimeEvent::ToolProposed {
        call_id: "c".to_owned(),
        tool: tool.to_owned(),
        arguments: Json::Null,
    };
    assert!(matches!(render_event(&proposed("mcp/x"), &mut streaming),
        Shown::Line(text) if text == "[tool] mcp/x proposed (external)"));
    assert!(matches!(render_event(&proposed("x"), &mut streaming),
        Shown::Line(text) if text == "[tool] x proposed"));
    let completed = RuntimeEvent::ToolCompleted {
        call_id: "c".to_owned(),
        tool: "x".to_owned(),
        output: Json::Null,
        evidence: EvidenceMeta::new("x".to_owned(), now()).with_duration_ms(12),
        success: false,
    };
    assert!(matches!(render_event(&completed, &mut streaming),
        Shown::Line(text) if text == "[tool] x failed (12 ms)"));
    let question = RuntimeEvent::ApprovalRequired {
        approval_id: ApprovalId::from_uuid(1),
        tool: "x".to_owned(),
        arguments: Json::Null,
    };
    assert!(matches!(render_event(&question, &mut streaming),
        Shown::Question(text, id) if text == "[approval] x null" && id == ApprovalId::from_uuid(1)));
    assert!(matches!(render_event(&RuntimeEvent::TurnCancelled, &mut streaming),
        Shown::Failure(text) if text == "turn cancelled"));
    assert!(is_yes(" Yes\n"));
    assert!(is_yes("y"));
    assert!(!is_yes("yeah"));
}

#[test]
fn reports_are_shown() {
    let report = MigrateReport { threads: 1, events: 20, hash: "h".to_owned(), backup_dir: None };
    assert_eq!(migrated_line(&report), "migrated threads=1 events=20 hash=h");
    let export = ExportReport {
        thread_id: ThreadId::from_uuid(0),
        events: 3,
        path: "/x".to_owned(),
    };
    assert_eq!(
        exported_line(&export),
        "exported thread 00000000-0000-0000-0000-000000000000 (3 events) to /x"
    );
}

#[test]
fn audit_logs_are_verified_in_the_database_alone() {
    let detail = |backend: &str, records: Option<Vec<AuditRecord>>| {
        verify_audit(backend, &records).map_err(|error| error.to_string())
    };
    assert_eq!(detail("jsonl", None), Ok("audit verify skipped for jsonl store".to_owned()));
    assert_eq!(detail("sqlite", None), Ok("no audit log yet".to_owned()));
    let created_at = Timestamp::new(1_700_000_000, 0).unwrap();
    let record_hash =
        audit_record_hash("genesis", "operator", None, "action.rejected", &Json::Null, created_at);
    let record = |record_hash: String| AuditRecord {
        seq: 1,
        record_hash,
        previous_hash: "genesis".to_owned(),
        actor: "operator".to_owned(),
        workspace_id: None,
        operation: "action.rejected".to_owned(),
        summary: Json::Null,
        created_at,
    };
    assert_eq!(
        detail("sqlite", Some(vec![record(record_hash)])),
        Ok("1 audit record(s) verified".to_owned())
    );
    assert!(detail("sqlite", Some(vec![record("0".to_owned())])).is_err());
}

#[test]
fn operations_need_the_file_of_the_database() {
    assert!(require_file("/d/state.sqlite3", true).is_ok());
    assert_eq!(
        require_file("/d/state.sqlite3", false).unwrap_err().to_string(),
        "storage error: sqlite file /d/state.sqlite3 does not exist"
    );
}

#[test]
fn a_refused_name_refuses_the_configuration() {
    let mut config = Config::default();
    for id in ["a", "b"] {
        let mut entry = WorkspaceConfigEntry::default();
        entry.id = id.to_owned();
        config.workspaces.push(entry);
    }
    assert!(config.validate(&vec![Ok(()), Ok(())]).is_ok());
    let names = vec![Ok(()), Err(OpsCodexError::Protocol("bad name `b`".to_owned()))];
    assert_eq!(
        config.validate(&names).unwrap_err().to_string(),
        "protocol error: bad name `b`"
    );
    assert!(validate_config(&config, &names).is_err());
}
