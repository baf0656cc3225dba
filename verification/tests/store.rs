use opscodex::error::OpsCodexError;
use opscodex::evidence::EvidenceMeta;
use opscodex::json::{Json, JsonEntry};
use opscodex::runtime::envelope::{
    assemble, event_payload, from_value, read_fields, v1_event_id, EnvelopeFields, EventEnvelope,
};
use opscodex::runtime::event::{RuntimeEvent, StreamKind};
use opscodex::runtime::recovery::{classify_checkpoint, pending_operation_id};
use opscodex::runtime::thread::{
    ApprovalId, EventId, EvidenceId, ThreadId, ThreadStatus, TurnId, TurnStatus, WorkspaceId,
};
use opscodex::store::continuity::{
    approval_request_hash, context_input_hash, ApprovalStatus, CheckpointPhase, CheckpointRecord,
    DurableApproval, Lease, PendingOperation, ResumePolicy,
};
use opscodex::store::fork::{fork_thread, import_thread};
use opscodex::store::lease::{acquire_lease, refresh_lease, release_lease};
use opscodex::store::list::sort_summaries;
use opscodex::store::log::{
    append_bytes, encode_line, events_after, frame_log, get_evidence_in, get_thread_in, last_seq,
    next_envelope, parse_log, AppendEvent, LogTail,
};
use opscodex::store::migrate::{
    backup_dir, export_log, exported_id, exported_thread, is_log_file, migrate_step,
    migration_report, verify_thread, MigrateOptions, MigrateStep,
};
use opscodex::store::projection::{
    model_items_from_events, reconstruct_thread, status_after, summary_from_thread,
};
use opscodex::store::sqlite::{
    approval_for_turn, check_schema, event_hash, is_open_turn, parse_time, schema_checksum,
    store_hash, thread_status_of_turn, SchemaStep,
};
use opscodex::model::provider::ModelItem;
use opscodex::time::Timestamp;

fn object(entries: Vec<(&str, Json)>) -> Json {
    Json::Object(
        entries
            .into_iter()
            .map(|(key, value)| JsonEntry { key: key.to_owned(), value })
            .collect(),
    )
}

fn at(seconds: i64) -> Timestamp {
    Timestamp::new(1_700_000_000 + seconds, 0).unwrap()
}

fn checkpoint(phase: CheckpointPhase, operation: Option<PendingOperation>) -> CheckpointRecord {
    CheckpointRecord {
        checkpoint_id: "cp-1".to_owned(),
        turn_id: TurnId::from_uuid(11),
        thread_id: ThreadId::from_uuid(12),
        step: 1,
        phase,
        context_input_hash: None,
        pending_operation: operation,
        last_committed_seq: 4,
        resume_policy: ResumePolicy::NoResume,
        created_at: at(0),
    }
}

#[test]
fn observe_tool_crash_is_retryable() {
    let report = classify_checkpoint(
        &checkpoint(
            CheckpointPhase::ToolRunning,
            Some(PendingOperation {
                operation_id: "op-1".to_owned(),
                call_id: "call-1".to_owned(),
                tool: "promql_query".to_owned(),
                arguments: object(vec![]),
                effect: "observe".to_owned(),
                recovery: Some("none_needed".to_owned()),
            }),
        ),
        &vec![],
    );
    assert_eq!(report.status, TurnStatus::Interrupted);
    assert_eq!(report.resume_policy, ResumePolicy::RetryObserve);
}

#[test]
fn change_tool_crash_needs_reconciliation() {
    let report = classify_checkpoint(
        &checkpoint(
            CheckpointPhase::ToolRunning,
            Some(PendingOperation {
                operation_id: "op-2".to_owned(),
                call_id: "call-2".to_owned(),
                tool: "exec".to_owned(),
                arguments: object(vec![("command", Json::text("reboot"))]),
                effect: "external_side_effect".to_owned(),
                recovery: Some("none_needed".to_owned()),
            }),
        ),
        &vec![],
    );
    assert_eq!(report.status, TurnStatus::NeedsReconciliation);
    assert_eq!(report.resume_policy, ResumePolicy::Reconcile);
}

#[test]
fn completed_tool_is_not_retried() {
    let thread_id = ThreadId::from_uuid(21);
    let turn_id = TurnId::from_uuid(22);
    let events = vec![EventEnvelope::new(
        3,
        thread_id,
        Some(turn_id),
        RuntimeEvent::ToolCompleted {
            call_id: "call-1".to_owned(),
            tool: "promql_query".to_owned(),
            output: object(vec![("ok", Json::Bool(true))]),
            evidence: EvidenceMeta::new("promql_query".to_owned(), at(0)),
            success: true,
        },
        EventId::from_uuid(23),
        at(0),
    )];
    let mut record = checkpoint(
        CheckpointPhase::ToolRunning,
        Some(PendingOperation {
            operation_id: "op-1".to_owned(),
            call_id: "call-1".to_owned(),
            tool: "promql_query".to_owned(),
            arguments: object(vec![]),
            effect: "observe".to_owned(),
            recovery: None,
        }),
    );
    record.thread_id = thread_id;
    record.turn_id = turn_id;
    let report = classify_checkpoint(&record, &events);
    assert_eq!(report.resume_policy, ResumePolicy::SkipCompletedTool);
    assert_eq!(report.status, TurnStatus::Interrupted);
}

#[test]
fn model_and_approval_boundaries_have_unique_resume_policies() {
    let model = classify_checkpoint(&checkpoint(CheckpointPhase::ModelRunning, None), &vec![]);
    assert_eq!(model.status, TurnStatus::Interrupted);
    assert_eq!(model.resume_policy, ResumePolicy::ReplayModel);
    let waiting = classify_checkpoint(&checkpoint(CheckpointPhase::WaitingApproval, None), &vec![]);
    assert_eq!(waiting.status, TurnStatus::WaitingApproval);
    assert_eq!(waiting.resume_policy, ResumePolicy::WaitApproval);
    let completed = classify_checkpoint(&checkpoint(CheckpointPhase::ToolCompleted, None), &vec![]);
    assert_eq!(completed.resume_policy, ResumePolicy::SkipCompletedTool);
}

#[test]
fn schema_checksum_mismatch_refuses_start() {
    let error = match check_schema(&Some("deadbeef".to_owned())) {
        Ok(_) => panic!("expected schema checksum mismatch"),
        Err(error) => error,
    };
    assert!(error.to_string().contains("checksum mismatch"));
}

#[test]
fn known_schema_is_kept_and_a_new_one_recorded() {
    assert_eq!(check_schema(&Some(schema_checksum())).unwrap(), SchemaStep::Keep);
    assert_eq!(check_schema(&None).unwrap(), SchemaStep::Record);
    assert_eq!(schema_checksum().len(), 64);
}

fn copy(lease: &Lease) -> Lease {
    Lease {
        lease_id: lease.lease_id.clone(),
        turn_id: lease.turn_id,
        thread_id: lease.thread_id,
        owner_id: lease.owner_id.clone(),
        expires_at: lease.expires_at,
        fencing_token: lease.fencing_token,
    }
}

#[test]
fn live_lease_blocks_a_second_owner_and_stale_fencing_token() {
    let thread_id = ThreadId::from_uuid(31);
    let turn_id = TurnId::from_uuid(32);
    let lease = acquire_lease(
        None,
        &turn_id,
        &thread_id,
        "owner-a",
        at(0),
        30,
        "lease-1".to_owned(),
    )
    .unwrap();
    let blocked = acquire_lease(
        Some(copy(&lease)),
        &turn_id,
        &thread_id,
        "owner-b",
        at(1),
        30,
        "lease-2".to_owned(),
    )
    .unwrap_err();
    assert!(matches!(blocked, OpsCodexError::TurnAlreadyRunning));
    let stale = refresh_lease(
        Some(copy(&lease)),
        &lease.lease_id,
        lease.fencing_token + 9,
        at(1),
        30,
    )
    .unwrap_err();
    assert!(stale.to_string().contains("fencing token"));
    let expired = acquire_lease(
        None,
        &turn_id,
        &thread_id,
        "owner-a",
        at(2),
        0,
        "lease-3".to_owned(),
    )
    .unwrap();
    let next = acquire_lease(
        Some(copy(&expired)),
        &turn_id,
        &thread_id,
        "owner-b",
        at(3),
        30,
        "lease-4".to_owned(),
    )
    .unwrap();
    assert_eq!(next.fencing_token, expired.fencing_token + 1);
    assert!(refresh_lease(
        Some(copy(&next)),
        &expired.lease_id,
        expired.fencing_token,
        at(3),
        30,
    )
    .is_err());
}

#[test]
fn released_lease_is_gone_and_another_stays() {
    let lease = acquire_lease(
        None,
        &TurnId::from_uuid(1),
        &ThreadId::from_uuid(2),
        "owner",
        at(0),
        30,
        "lease-1".to_owned(),
    )
    .unwrap();
    let token = lease.fencing_token;
    let kept = release_lease(Some(lease), "lease-1", token + 1);
    assert!(kept.is_some());
    assert!(release_lease(kept, "lease-1", token).is_none());
}

// ---------------------------------------------------------------------------
// Logs
// ---------------------------------------------------------------------------
fn thread() -> ThreadId {
    ThreadId::from_uuid(0x1234)
}

fn envelope(seq: u64, event: RuntimeEvent) -> EventEnvelope {
    EventEnvelope::new(
        seq,
        thread(),
        None,
        event,
        EventId::from_uuid(1000 + seq as u128),
        at(seq as i64),
    )
}

fn log() -> Vec<EventEnvelope> {
    vec![
        envelope(1, RuntimeEvent::ThreadCreated),
        envelope(2, RuntimeEvent::user_message("why is it slow?".to_owned())),
        envelope(3, RuntimeEvent::TurnStarted),
        envelope(4, RuntimeEvent::assistant_completed("it is not".to_owned())),
        envelope(5, RuntimeEvent::TurnCompleted),
    ]
}

#[test]
fn exported_log_is_cut_into_its_lines() {
    let bytes = export_log(&log());
    let frame = frame_log(&bytes);
    assert_eq!(frame.lines.len(), 5);
    assert_eq!(frame.trailing.len(), 0);
    assert_eq!(frame.complete_bytes, bytes.len());
    let mut first = frame.lines[0].clone();
    first.push(b'\n');
    assert_eq!(first, encode_line(&log()[0]));
    let value: serde_json::Value = serde_json::from_slice(&frame.lines[1]).unwrap();
    assert_eq!(value["seq"], serde_json::Value::from(2));
    assert_eq!(value["event"]["type"], serde_json::Value::from("user_message"));
}

#[test]
fn partial_last_line_is_left_out_and_a_valid_one_kept() {
    let good: Vec<Result<EventEnvelope, String>> = log().into_iter().map(Ok).collect();
    let parsed = parse_log("x.jsonl", &thread(), good, None, 77).unwrap();
    assert_eq!(parsed.events.len(), 5);
    assert!(matches!(parsed.tail, LogTail::Clean));
    let some: Vec<Result<EventEnvelope, String>> = log().into_iter().take(2).map(Ok).collect();
    let partial = parse_log("x.jsonl", &thread(), some, Some(Err("eof".to_owned())), 40).unwrap();
    assert_eq!(partial.events.len(), 2);
    assert!(matches!(partial.tail, LogTail::Partial { valid_bytes: 40 }));
    let some: Vec<Result<EventEnvelope, String>> = log().into_iter().take(2).map(Ok).collect();
    let last = log().remove(2);
    let open = parse_log("x.jsonl", &thread(), some, Some(Ok(last)), 40).unwrap();
    assert_eq!(open.events.len(), 3);
    assert!(matches!(open.tail, LogTail::ValidWithoutNewline));
}

#[test]
fn gap_in_a_log_is_refused() {
    let mut events = log();
    events.remove(1);
    let lines = events.into_iter().map(Ok).collect();
    assert!(parse_log("x.jsonl", &thread(), lines, None, 1).is_err());
    let undecodable = vec![Err("bad".to_owned())];
    assert!(parse_log("x.jsonl", &thread(), undecodable, None, 1).is_err());
}

#[test]
fn append_continues_the_numbers() {
    let events = log();
    assert_eq!(last_seq(&events), 5);
    let next = next_envelope(
        &events,
        AppendEvent::new(thread(), None, RuntimeEvent::TurnCancelled),
        EventId::from_uuid(7),
        at(9),
    )
    .unwrap();
    assert_eq!(next.seq, 6);
    let after_open = append_bytes(LogTail::ValidWithoutNewline, &next);
    assert_eq!(after_open[0], b'\n');
    assert_eq!(append_bytes(LogTail::Clean, &next), encode_line(&next));
}

#[test]
fn replays_join_to_the_whole_log() {
    let first = log().into_iter().take(2).count();
    let rest = events_after(log(), 2);
    assert_eq!(first + rest.len(), 5);
    assert_eq!(rest[0].seq, 3);
    assert_eq!(events_after(log(), 9).len(), 0);
}

#[test]
fn thread_is_rebuilt_from_its_log() {
    let rebuilt = reconstruct_thread(&thread(), &log()).unwrap();
    assert_eq!(rebuilt.status, ThreadStatus::Idle);
    assert_eq!(rebuilt.items.len(), 2);
    assert_eq!(rebuilt.created_at, at(1));
    assert_eq!(rebuilt.updated_at, at(5));
    let summary = summary_from_thread(rebuilt);
    assert_eq!(summary.title.as_deref(), Some("why is it slow?"));
    assert!(reconstruct_thread(&thread(), &vec![]).is_err());
    assert_eq!(
        status_after(ThreadStatus::Idle, &RuntimeEvent::TurnStarted),
        ThreadStatus::Running
    );
}

#[test]
fn model_sees_messages_of_a_log() {
    let items = model_items_from_events(&log());
    assert_eq!(items.len(), 2);
    assert!(items[1].message_contains("it is not"));
}

#[test]
fn threads_are_listed_newest_first() {
    let older = summary_from_thread(reconstruct_thread(&thread(), &log()[..2].to_vec_of()).unwrap());
    let newer = summary_from_thread(reconstruct_thread(&thread(), &log()).unwrap());
    let sorted = sort_summaries(vec![older, newer]);
    assert_eq!(sorted[0].updated_at, at(5));
    assert_eq!(sorted[1].updated_at, at(2));
}

trait ToVecOf {
    fn to_vec_of(&self) -> Vec<EventEnvelope>;
}

impl ToVecOf for [EventEnvelope] {
    fn to_vec_of(&self) -> Vec<EventEnvelope> {
        self.iter().map(|envelope| envelope.clone()).collect()
    }
}

// ---------------------------------------------------------------------------
// Envelopes
// ---------------------------------------------------------------------------
#[test]
fn envelope_that_is_written_is_read_back() {
    let written = envelope(2, RuntimeEvent::user_message("hi".to_owned()));
    let value = written.to_json();
    assert_eq!(event_payload(&value).to_text(), written.event.to_json().to_text());
    let read = from_value(
        &value,
        Ok(RuntimeEvent::user_message("hi".to_owned())),
        Ok(StreamKind::Domain),
        at(99),
    )
    .unwrap();
    assert_eq!(read.to_json().to_text(), value.to_text());
    assert_eq!(read.timestamp, at(2));
}

#[test]
fn old_envelope_gets_an_identifier_from_its_place() {
    let value = object(vec![
        ("seq", Json::number(3)),
        ("thread_id", Json::Text(thread().to_string())),
    ]);
    let read = from_value(&value, Ok(RuntimeEvent::TurnStarted), Ok(StreamKind::Domain), at(4)).unwrap();
    assert_eq!(read.event_id, v1_event_id(&thread(), 3));
    assert_ne!(v1_event_id(&thread(), 3), v1_event_id(&thread(), 4));
    assert_eq!(read.timestamp, at(4));
    assert_eq!(read.schema_version, 1);
    let namespace = uuid::Uuid::from_u128(0x7c3d2e91_5a4b_4f6c_8d1e_0a9b8c7d6e5f);
    let name = format!("{}:3", thread().to_string());
    assert_eq!(
        read.event_id.to_string(),
        uuid::Uuid::new_v5(&namespace, name.as_bytes()).to_string()
    );
}

#[test]
fn envelope_errors_come_in_order() {
    let fields = || EnvelopeFields {
        thread: Some(Ok(1)),
        turn: None,
        item: None,
        cause: None,
        event: Some(Ok(2)),
        time: None,
    };
    let fail = |value: &Json, fields: EnvelopeFields| {
        assemble(value, fields, Ok(RuntimeEvent::TurnStarted), Ok(StreamKind::Domain), at(0))
            .unwrap_err()
    };
    assert_eq!(fail(&Json::Null, fields()), "event envelope must be an object");
    assert_eq!(fail(&object(vec![]), fields()), "event envelope missing seq");
    let numbered = object(vec![("seq", Json::number(1))]);
    let mut none = fields();
    none.thread = None;
    assert_eq!(fail(&numbered, none), "event envelope missing thread_id");
    let mut bad = fields();
    bad.time = Some(Err("no time".to_owned()));
    assert_eq!(fail(&numbered, bad), "no time");
    let read = assemble(
        &numbered,
        fields(),
        Ok(RuntimeEvent::TurnStarted),
        Err("not asked for".to_owned()),
        at(5),
    )
    .unwrap();
    assert_eq!(read.event_id, EventId::from_uuid(2));
    assert_eq!(read.stream_kind, StreamKind::Domain);
}

#[test]
fn fields_of_a_document_are_read_by_the_outside_crates() {
    let value = object(vec![
        ("thread_id", Json::text("not a uuid")),
        ("turn_id", Json::Null),
        ("timestamp", Json::text("2024-01-02T03:04:05Z")),
    ]);
    let fields = read_fields(&value);
    assert!(matches!(fields.thread, Some(Err(_))));
    assert!(fields.turn.is_none());
    assert!(fields.event.is_none());
    let time = fields.time.unwrap().unwrap();
    assert_eq!(time.seconds(), 1_704_164_645);
}

// ---------------------------------------------------------------------------
// Forks, imports, migrations
// ---------------------------------------------------------------------------
#[test]
fn fork_starts_from_one_again() {
    let ids: Vec<EventId> = (0..10).map(EventId::from_uuid).collect();
    let plan = fork_thread(
        &thread(),
        &log(),
        4,
        ThreadId::from_uuid(77),
        Some("again".to_owned()),
        &ids,
        at(20),
    )
    .unwrap();
    assert_eq!(plan.forked_at_seq, 4);
    assert_eq!(plan.title.as_deref(), Some("again"));
    for (i, event) in plan.events.iter().enumerate() {
        assert_eq!(event.seq, i as u64 + 1);
        assert_eq!(event.thread_id, ThreadId::from_uuid(77));
    }
    assert!(fork_thread(&thread(), &log(), 40, ThreadId::from_uuid(77), None, &ids, at(20)).is_err());
}

#[test]
fn import_is_idempotent() {
    assert!(import_thread(&log(), &None).unwrap().is_some());
    assert!(import_thread(&log(), &Some(log())).unwrap().is_none());
    let mut other = log();
    other.pop();
    assert!(import_thread(&log(), &Some(other)).is_err());
}

#[test]
fn migration_counts_and_hashes() {
    let report = migration_report(&vec![log(), log()], None);
    assert_eq!(report.threads, 2);
    assert_eq!(report.events, 10);
    assert_eq!(report.hash, store_hash(&vec![log(), log()]));
    assert!(verify_thread(&log(), &log()).is_ok());
    let mut short = log();
    short.pop();
    assert_eq!(
        verify_thread(&log(), &short).unwrap_err().to_string(),
        format!(
            "storage error: sqlite verification failed for thread {}",
            thread().to_string()
        )
    );
    assert_ne!(event_hash(&log()), event_hash(&short));
    assert_eq!(
        migrate_step(MigrateOptions { dry_run: true, verify: true }),
        MigrateStep::Report
    );
    assert_eq!(
        migrate_step(MigrateOptions { dry_run: false, verify: true }),
        MigrateStep::Verify
    );
    assert_eq!(migrate_step(MigrateOptions::default()), MigrateStep::Import);
}

#[test]
fn backups_are_named_after_the_time() {
    assert_eq!(
        backup_dir("/data/threads", at(0)),
        "/data/threads/backup-20231114T221320Z"
    );
    assert!(is_log_file("a.jsonl"));
    assert!(is_log_file("a.b.jsonl"));
    assert!(!is_log_file(".jsonl"));
    assert!(!is_log_file("jsonl"));
    assert!(!is_log_file("a.json"));
}

#[test]
fn stored_times_are_read() {
    assert_eq!(parse_time("2023-11-14T22:13:20+00:00").unwrap(), at(0));
    assert!(parse_time("yesterday").is_err());
}

// ---------------------------------------------------------------------------
// Hashes of requests
// ---------------------------------------------------------------------------
#[test]
fn approval_hash_binds_arguments() {
    let a = approval_request_hash("exec", &object(vec![("c", Json::text("ls"))]), None);
    let b = approval_request_hash("exec", &object(vec![("c", Json::text("rm"))]), None);
    assert_ne!(a, b);
    assert_ne!(a, approval_request_hash("exec", &object(vec![("c", Json::text("ls"))]), Some("h")));
}

#[test]
fn context_hash_follows_the_items() {
    let one = vec![ModelItem::UserMessage { content: "a".to_owned() }];
    let two = vec![ModelItem::UserMessage { content: "b".to_owned() }];
    assert_ne!(context_input_hash(&one), context_input_hash(&two));
    assert_eq!(context_input_hash(&one), context_input_hash(&one.clone()));
}

#[test]
fn operation_identifiers_follow_turn_and_call() {
    let id = pending_operation_id(TurnId::from_uuid(5), "call-1");
    assert!(id.contains("call-1"));
    assert_ne!(id, pending_operation_id(TurnId::from_uuid(6), "call-1"));
    let _ = WorkspaceId::default();
}

#[test]
fn the_pending_approval_stands_for_a_turn() {
    let approval = |id: u128, status: ApprovalStatus| DurableApproval {
        approval_id: ApprovalId::from_uuid(id),
        thread_id: None,
        turn_id: None,
        tool: "exec".to_owned(),
        arguments: Json::Null,
        request_hash: String::new(),
        schema_hash: None,
        status,
        expires_at: None,
    };
    let picked = approval_for_turn(vec![
        approval(1, ApprovalStatus::Expired),
        approval(2, ApprovalStatus::Pending),
        approval(3, ApprovalStatus::Approved),
        approval(4, ApprovalStatus::Pending),
    ]);
    assert_eq!(picked.unwrap().approval_id, ApprovalId::from_uuid(2));
    let picked = approval_for_turn(vec![
        approval(1, ApprovalStatus::Rejected),
        approval(2, ApprovalStatus::Approved),
    ]);
    assert_eq!(picked.unwrap().approval_id, ApprovalId::from_uuid(2));
    assert!(approval_for_turn(vec![]).is_none());
}

#[test]
fn turns_that_stop_without_an_end_mark_their_thread() {
    assert_eq!(
        thread_status_of_turn(TurnStatus::Interrupted),
        Some(ThreadStatus::Interrupted)
    );
    assert_eq!(
        thread_status_of_turn(TurnStatus::NeedsReconciliation),
        Some(ThreadStatus::NeedsReconciliation)
    );
    assert_eq!(thread_status_of_turn(TurnStatus::Completed), None);
    assert!(is_open_turn(TurnStatus::WaitingApproval));
    assert!(!is_open_turn(TurnStatus::Cancelled));
}

#[test]
fn idempotent_change_with_unknown_result_needs_reconciliation() {
    let report = classify_checkpoint(
        &checkpoint(
            CheckpointPhase::ToolRunning,
            Some(PendingOperation {
                operation_id: "op-3".to_owned(),
                call_id: "call-3".to_owned(),
                tool: "deploy".to_owned(),
                arguments: object(vec![]),
                effect: "external_side_effect".to_owned(),
                recovery: Some("idempotent".to_owned()),
            }),
        ),
        &vec![],
    );
    assert_eq!(report.status, TurnStatus::NeedsReconciliation);
    assert_eq!(report.resume_policy, ResumePolicy::Reconcile);
}

#[test]
fn exported_threads_are_named_by_their_identifier() {
    let id = ThreadId::from_uuid(7);
    assert_eq!(exported_thread(&id.to_string()).unwrap(), id);
    assert!(exported_thread("odd")
        .unwrap_err()
        .to_string()
        .starts_with("protocol error: invalid thread id: "));
    assert_eq!(exported_id(Ok(9)).unwrap(), ThreadId::from_uuid(9));
    assert_eq!(
        exported_id(Err("bad".to_owned())).unwrap_err().to_string(),
        "protocol error: invalid thread id: bad"
    );
}

#[test]
fn threads_are_shown_to_their_workspace_alone() {
    let denied = || Err(OpsCodexError::Policy("other".to_owned()));
    let found = || reconstruct_thread(&thread(), &log());
    assert!(get_thread_in(found(), Ok(())).is_ok());
    assert!(matches!(get_thread_in(found(), denied()), Err(OpsCodexError::Policy(_))));
    let missing = || Err(OpsCodexError::NotFound("thread".to_owned()));
    assert!(matches!(get_thread_in(missing(), denied()), Err(OpsCodexError::NotFound(_))));
    let id = EvidenceId::from_uuid(99);
    assert!(matches!(
        get_evidence_in(found(), denied(), &thread(), &log(), &id),
        Err(OpsCodexError::Policy(_))
    ));
    assert_eq!(
        get_evidence_in(found(), Ok(()), &thread(), &log(), &id).unwrap_err().to_string(),
        format!("resource not found: evidence {}", id.to_string())
    );
}
