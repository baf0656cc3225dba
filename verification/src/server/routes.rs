//! What the routes of the HTTP interface check, and what they answer.
use vstd::prelude::*;
use vstd::utf8::encode_utf8;

use crate::error::{ErrorView, OpsCodexError};
use crate::json::{
    entries_view, push_entry, str_view, string_view, Json, JsonEntry, JsonView, NumberView,
};
use crate::runtime::envelope::EventEnvelope;
use crate::runtime::incident::IncidentContext;
use crate::runtime::thread::{
    ActionId, ApprovalId, ClaimId, EvidenceId, ThreadId, TurnId, WorkspaceId,
};
use crate::store::continuity::{RecoveryReport, ResumePolicy};
use crate::store::projection::ThreadSummary;
use crate::text::{byte_len, same, trim, trim_str, views};
use crate::uuid_text::parsed_uuid;

verus! {

/// The largest input of a turn, in bytes.
pub const MAX_INPUT_BYTES: usize = 32768;

/// How much of an artifact is sent where the query names no size.
pub const DEFAULT_ARTIFACT_BYTES: usize = 65536;

// ---------------------------------------------------------------------------
// Errors
// ---------------------------------------------------------------------------
/// An error as it is answered.
#[derive(Debug)]
pub struct ApiError {
    pub status: u16,
    pub code: &'static str,
    pub message: String,
}

pub struct ApiView {
    pub status: u16,
    pub code: Seq<char>,
    pub message: Seq<char>,
}

pub open spec fn bad_request(message: Seq<char>) -> ApiView {
    ApiView { status: 400, code: "bad_request"@, message }
}

pub open spec fn conflict(message: Seq<char>) -> ApiView {
    ApiView { status: 409, code: "conflict"@, message }
}

pub open spec fn not_found(message: Seq<char>) -> ApiView {
    ApiView { status: 404, code: "not_found"@, message }
}

/// How an error of the runtime is answered.
pub open spec fn answered(error: ErrorView) -> ApiView {
    match error {
        ErrorView::NotFound(message) => not_found(message),
        ErrorView::TurnAlreadyRunning => conflict("thread already has an active turn"@),
        ErrorView::NeedsReconciliation(message) => conflict(message),
        ErrorView::Protocol(message) => bad_request(message),
        ErrorView::Policy(message) => ApiView { status: 403, code: "forbidden"@, message },
        other => ApiView { status: 500, code: "internal_error"@, message: other.text() },
    }
}

pub open spec fn error_entries(error: ApiView) -> Seq<(Seq<char>, JsonView)> {
    seq![("code"@, JsonView::Text(error.code)), ("message"@, JsonView::Text(error.message))]
}

pub open spec fn error_body(error: ApiView) -> Seq<(Seq<char>, JsonView)> {
    seq![("error"@, JsonView::Object(error_entries(error)))]
}

impl ApiError {
    pub open spec fn view(&self) -> ApiView {
        ApiView { status: self.status, code: self.code@, message: self.message@ }
    }

    pub fn bad_request(message: String) -> (r: Self)
        ensures
            r@ == bad_request(message@),
    {
        ApiError { status: 400, code: "bad_request", message }
    }

    pub fn conflict(message: String) -> (r: Self)
        ensures
            r@ == conflict(message@),
    {
        ApiError { status: 409, code: "conflict", message }
    }

    pub fn not_found(message: String) -> (r: Self)
        ensures
            r@ == not_found(message@),
    {
        ApiError { status: 404, code: "not_found", message }
    }

    /// Answers an error of the runtime.
    pub fn from_error(error: OpsCodexError) -> (r: Self)
        ensures
            r@ == answered(error@),
    {
        match error {
            OpsCodexError::NotFound(message) => ApiError::not_found(message),
            OpsCodexError::TurnAlreadyRunning => ApiError::conflict(
                "thread already has an active turn".to_owned(),
            ),
            OpsCodexError::NeedsReconciliation(message) => ApiError::conflict(message),
            OpsCodexError::Protocol(message) => ApiError::bad_request(message),
            OpsCodexError::Policy(message) => ApiError { status: 403, code: "forbidden", message },
            other => ApiError { status: 500, code: "internal_error", message: other.to_string() },
        }
    }

    /// The body of the answer.
    pub fn body(&self) -> (r: Json)
        ensures
            r@ == JsonView::Object(error_body(self@)),
    {
        let mut inner: Vec<JsonEntry> = Vec::new();
        push_entry(&mut inner, "code", Json::text(self.code));
        push_entry(&mut inner, "message", Json::text(self.message.as_str()));
        assert(entries_view(inner@) =~= error_entries(self@));
        let mut entries: Vec<JsonEntry> = Vec::new();
        push_entry(&mut entries, "error", Json::Object(inner));
        assert(entries_view(entries@) =~= error_body(self@));
        Json::Object(entries)
    }
}

/// No error is answered as a success, and the errors of a request are told from
/// those of the service.
pub proof fn law_errors_are_answered_as_errors(error: ErrorView)
    ensures
        400 <= answered(error).status < 600,
        answered(error).status == 500 <==> !(error is NotFound || error is TurnAlreadyRunning
            || error is NeedsReconciliation || error is Protocol || error is Policy),
{
}

// ---------------------------------------------------------------------------
// Identifiers
// ---------------------------------------------------------------------------
/// A text that names no identifier.
pub open spec fn bad_id(kind: Seq<char>) -> ApiView {
    bad_request("invalid "@ + kind + " id"@)
}

fn invalid_id(kind: &str) -> (r: ApiError)
    ensures
        r@ == bad_id(kind@),
{
    let mut message = "invalid ".to_owned();
    message.append(kind);
    message.append(" id");
    ApiError::bad_request(message)
}

pub fn parse_thread_query(value: &str) -> (r: Result<ThreadId, ApiError>)
    ensures
        match r {
            Ok(id) => parsed_uuid(value@) == Some(id.value),
            Err(e) => parsed_uuid(value@) is None && e@ == bad_id("thread"@),
        },
{
    match ThreadId::parse(value) {
        Some(id) => Ok(id),
        None => Err(invalid_id("thread")),
    }
}

pub fn parse_turn_id(value: &str) -> (r: Result<TurnId, ApiError>)
    ensures
        match r {
            Ok(id) => parsed_uuid(value@) == Some(id.value),
            Err(e) => parsed_uuid(value@) is None && e@ == bad_id("turn"@),
        },
{
    match TurnId::parse(value) {
        Some(id) => Ok(id),
        None => Err(invalid_id("turn")),
    }
}

pub fn parse_approval_id(value: &str) -> (r: Result<ApprovalId, ApiError>)
    ensures
        match r {
            Ok(id) => parsed_uuid(value@) == Some(id.value),
            Err(e) => parsed_uuid(value@) is None && e@ == bad_id("approval"@),
        },
{
    match ApprovalId::parse(value) {
        Some(id) => Ok(id),
        None => Err(invalid_id("approval")),
    }
}

pub fn parse_evidence_id(value: &str) -> (r: Result<EvidenceId, ApiError>)
    ensures
        match r {
            Ok(id) => parsed_uuid(value@) == Some(id.value),
            Err(e) => parsed_uuid(value@) is None && e@ == bad_id("evidence"@),
        },
{
    match EvidenceId::parse(value) {
        Some(id) => Ok(id),
        None => Err(invalid_id("evidence")),
    }
}

pub fn parse_claim_id(value: &str) -> (r: Result<ClaimId, ApiError>)
    ensures
        match r {
            Ok(id) => parsed_uuid(value@) == Some(id.value),
            Err(e) => parsed_uuid(value@) is None && e@ == bad_id("claim"@),
        },
{
    match ClaimId::parse(value) {
        Some(id) => Ok(id),
        None => Err(invalid_id("claim")),
    }
}

pub fn parse_action_id(value: &str) -> (r: Result<ActionId, ApiError>)
    ensures
        match r {
            Ok(id) => parsed_uuid(value@) == Some(id.value),
            Err(e) => parsed_uuid(value@) is None && e@ == bad_id("action"@),
        },
{
    match ActionId::parse(value) {
        Some(id) => Ok(id),
        None => Err(invalid_id("action")),
    }
}

/// Some text names no claim.
pub open spec fn has_bad_claim(texts: Seq<Seq<char>>) -> bool {
    exists|i: int| 0 <= i < texts.len() && parsed_uuid(#[trigger] texts[i]) is None
}

pub fn parse_claim_ids(texts: &Vec<String>) -> (r: Result<Vec<ClaimId>, ApiError>)
    ensures
        match r {
            Ok(ids) => ids@.len() == texts@.len() && forall|i: int|
                0 <= i < ids@.len() ==> parsed_uuid(views(texts@)[i]) == Some(
                    (#[trigger] ids@[i]).value,
                ),
            Err(e) => has_bad_claim(views(texts@)) && e@ == bad_id("claim"@),
        },
{
    let ghost seen = views(texts@);
    let mut ids: Vec<ClaimId> = Vec::new();
    let mut i: usize = 0;
    while i < texts.len()
        invariant
            i <= texts@.len(),
            seen == views(texts@),
            ids@.len() == i,
            forall|k: int| 0 <= k < i ==> parsed_uuid(seen[k]) == Some((#[trigger] ids@[k]).value),
        decreases texts@.len() - i,
    {
        assert(seen[i as int] == texts@[i as int]@);
        match parse_claim_id(texts[i].as_str()) {
            Ok(id) => ids.push(id),
            Err(e) => return Err(e),
        }
        i += 1;
    }
    Ok(ids)
}

// ---------------------------------------------------------------------------
// Requests
// ---------------------------------------------------------------------------
/// What is wrong with the context of an incident.
pub open spec fn context_error(context: Option<IncidentContext>) -> Option<ApiView> {
    match context {
        Some(context) => match context.error() {
            Some(e) => Some(answered(e)),
            None => None,
        },
        None => None,
    }
}

pub fn check_context(context: &Option<IncidentContext>) -> (r: Result<(), ApiError>)
    ensures
        match r {
            Ok(_) => context_error(*context) is None,
            Err(e) => context_error(*context) == Some(e@),
        },
{
    match context {
        Some(context) => match context.validate() {
            Ok(_) => Ok(()),
            Err(e) => Err(ApiError::from_error(e)),
        },
        None => Ok(()),
    }
}

/// What is wrong with a turn that is to be started.
pub open spec fn turn_error(input: Seq<char>, context: Option<IncidentContext>) -> Option<ApiView> {
    let content = trim(input);
    if content.len() == 0 {
        Some(bad_request("input must not be empty"@))
    } else if encode_utf8(content).len() > MAX_INPUT_BYTES {
        Some(bad_request("input exceeds 32 KiB"@))
    } else {
        context_error(context)
    }
}

/// Checks a turn that is to be started, and gives its input.
pub fn check_turn(input: &str, context: &Option<IncidentContext>) -> (r: Result<String, ApiError>)
    ensures
        match r {
            Ok(content) => turn_error(input@, *context) is None && content@ == trim(input@),
            Err(e) => turn_error(input@, *context) == Some(e@),
        },
{
    let content = trim_str(input);
    if content.as_str().is_empty() {
        return Err(ApiError::bad_request("input must not be empty".to_owned()));
    }
    if byte_len(content.as_str()) > MAX_INPUT_BYTES {
        return Err(ApiError::bad_request("input exceeds 32 KiB".to_owned()));
    }
    match check_context(context) {
        Ok(_) => Ok(content),
        Err(e) => Err(e),
    }
}

/// What is answered where a turn is running already.
pub fn turn_is_running() -> (r: ApiError)
    ensures
        r@ == conflict("thread already has an active turn"@),
{
    ApiError::conflict("thread already has an active turn".to_owned())
}

/// What is answered where a turn is not running.
pub fn turn_is_not_running(turn_id: &TurnId) -> (r: ApiError)
    ensures
        r@ == not_found("active turn "@ + turn_id.text()),
{
    let mut message = "active turn ".to_owned();
    message.append(turn_id.to_string().as_str());
    ApiError::not_found(message)
}

/// The key under which a resumption is done once; `header` is what was sent.
pub fn idempotency_key(header: Option<&str>) -> (r: Result<String, ApiError>)
    ensures
        match r {
            Ok(key) => str_view(header) matches Some(text) && key@ == trim(text) && key@.len() > 0,
            Err(e) => {
                &&& str_view(header) matches Some(text) ==> trim(text).len() == 0
                &&& e@ == bad_request("Idempotency-Key is required"@)
            },
        },
{
    if let Some(text) = header {
        let key = trim_str(text);
        if !key.as_str().is_empty() {
            return Ok(key);
        }
    }
    Err(ApiError::bad_request("Idempotency-Key is required".to_owned()))
}

/// Whether a turn may be resumed without looking at what it left behind.
pub fn check_resume(report: &RecoveryReport) -> (r: Result<(), ApiError>)
    ensures
        match r {
            Ok(_) => !(report.resume_policy is Reconcile),
            Err(e) => report.resume_policy is Reconcile && e@ == conflict(report.user_action@),
        },
{
    match report.resume_policy {
        ResumePolicy::Reconcile => Err(ApiError::conflict(report.user_action.clone())),
        _ => Ok(()),
    }
}

/// Whether a decision names the request that it is about.
pub fn check_request_hash(request_hash: &str) -> (r: Result<(), ApiError>)
    ensures
        match r {
            Ok(_) => trim(request_hash@).len() > 0,
            Err(e) => trim(request_hash@).len() == 0 && e@ == bad_request(
                "request_hash is required to bind an approval"@,
            ),
        },
{
    if trim_str(request_hash).as_str().is_empty() {
        return Err(
            ApiError::bad_request("request_hash is required to bind an approval".to_owned()),
        );
    }
    Ok(())
}

/// Whether a proposed action names a kind.
pub fn check_action_kind(kind: &str) -> (r: Result<(), ApiError>)
    ensures
        match r {
            Ok(_) => trim(kind@).len() > 0,
            Err(e) => trim(kind@).len() == 0 && e@ == bad_request("kind must not be empty"@),
        },
{
    if trim_str(kind).as_str().is_empty() {
        return Err(ApiError::bad_request("kind must not be empty".to_owned()));
    }
    Ok(())
}

/// What is answered where an action is not known.
pub fn action_not_found(action_id: &ActionId) -> (r: ApiError)
    ensures
        r@ == not_found("action "@ + action_id.text()),
{
    let mut message = "action ".to_owned();
    message.append(action_id.to_string().as_str());
    ApiError::not_found(message)
}

// ---------------------------------------------------------------------------
// Lists
// ---------------------------------------------------------------------------
/// The threads of a workspace.
pub open spec fn threads_of(threads: Seq<ThreadSummary>, workspace_id: Seq<char>) -> Seq<
    ThreadSummary,
> {
    threads.filter(|thread: ThreadSummary| thread.workspace_id@ == workspace_id)
}

pub fn threads_in(threads: Vec<ThreadSummary>, workspace_id: &WorkspaceId) -> (r: Vec<
    ThreadSummary,
>)
    ensures
        r@ == threads_of(threads@, workspace_id@),
{
    let ghost all = threads@;
    let ghost keep = |thread: ThreadSummary| thread.workspace_id@ == workspace_id@;
    let mut rest = crate::seqs::reversed(threads);
    let mut kept: Vec<ThreadSummary> = Vec::new();
    let ghost mut i: int = 0;
    proof {
        reveal(Seq::filter);
        assert(kept@ =~= all.take(0).filter(keep));
    }
    while rest.len() > 0
        invariant
            0 <= i <= all.len(),
            rest@ == all.skip(i).reverse(),
            keep == |thread: ThreadSummary| thread.workspace_id@ == workspace_id@,
            kept@ == all.take(i).filter(keep),
        decreases rest@.len(),
    {
        if let Some(thread) = rest.pop() {
            proof {
                reveal(Seq::filter);
                assert(thread == all.skip(i)[0]);
                assert(rest@ =~= all.skip(i + 1).reverse());
                assert(all.take(i + 1).drop_last() =~= all.take(i));
                assert(all.take(i + 1).last() == thread);
                i = i + 1;
            }
            if same(thread.workspace_id.as_str(), workspace_id.as_str()) {
                kept.push(thread);
            }
        }
    }
    assert(i == all.len()) by {
        assert(all.skip(i).reverse().len() == all.len() - i);
    }
    assert(all.take(i) =~= all);
    kept
}

/// The first events, as many as a query asks for, but at least one.
pub fn limit_events(events: Vec<EventEnvelope>, limit: Option<usize>) -> (r: Vec<EventEnvelope>)
    ensures
        r@ == (match limit {
            Some(n) => {
                let n = if n == 0 {
                    1
                } else {
                    n as int
                };
                if n < events@.len() {
                    events@.take(n)
                } else {
                    events@
                }
            },
            None => events@,
        }),
{
    let mut r = events;
    if let Some(limit) = limit {
        let n: usize = if limit == 0 {
            1
        } else {
            limit
        };
        if n < r.len() {
            r.truncate(n);
            assert(r@ =~= events@.take(n as int));
        }
    }
    r
}

// ---------------------------------------------------------------------------
// Answers
// ---------------------------------------------------------------------------
pub open spec fn health_entries() -> Seq<(Seq<char>, JsonView)> {
    seq![
        ("status"@, JsonView::Text("ok"@)),
    ]
}

/// The service is alive.
pub fn health_body() -> (r: Json)
    ensures
        r@ == JsonView::Object(health_entries()),
{
    let mut entries: Vec<JsonEntry> = Vec::new();
    push_entry(&mut entries, "status", Json::text("ok"));
    assert(entries_view(entries@) =~= health_entries());
    Json::Object(entries)
}

pub open spec fn ready_entries(threads: u64, workspaces: u64) -> Seq<(Seq<char>, JsonView)> {
    seq![
        ("status"@, JsonView::Text("ready"@)),
        ("store"@, JsonView::Text("ok"@)),
        ("threads"@, JsonView::Number(NumberView::PosInt(threads))),
        ("workspaces"@, JsonView::Number(NumberView::PosInt(workspaces))),
    ]
}

/// The store can be read.
pub fn ready_body(threads: u64, workspaces: u64) -> (r: Json)
    ensures
        r@ == JsonView::Object(ready_entries(threads, workspaces)),
{
    let mut entries: Vec<JsonEntry> = Vec::new();
    push_entry(&mut entries, "status", Json::text("ready"));
    push_entry(&mut entries, "store", Json::text("ok"));
    push_entry(&mut entries, "threads", Json::number(threads));
    push_entry(&mut entries, "workspaces", Json::number(workspaces));
    assert(entries_view(entries@) =~= ready_entries(threads, workspaces));
    Json::Object(entries)
}

pub open spec fn storage_entries(message: Seq<char>) -> Seq<(Seq<char>, JsonView)> {
    seq![("code"@, JsonView::Text("storage_error"@)), ("message"@, JsonView::Text(message))]
}

pub open spec fn not_ready_entries(message: Seq<char>) -> Seq<(Seq<char>, JsonView)> {
    seq![
        ("error"@, JsonView::Object(storage_entries(message))),
        ("status"@, JsonView::Text("not_ready"@)),
        ("store"@, JsonView::Text("error"@)),
    ]
}

/// The store cannot be read.
pub fn not_ready_body(error: &OpsCodexError) -> (r: Json)
    ensures
        r@ == JsonView::Object(not_ready_entries(error@.text())),
{
    let text = error.to_string();
    let mut inner: Vec<JsonEntry> = Vec::new();
    push_entry(&mut inner, "code", Json::text("storage_error"));
    push_entry(&mut inner, "message", Json::text(text.as_str()));
    assert(entries_view(inner@) =~= storage_entries(text@));
    let mut entries: Vec<JsonEntry> = Vec::new();
    push_entry(&mut entries, "error", Json::Object(inner));
    push_entry(&mut entries, "status", Json::text("not_ready"));
    push_entry(&mut entries, "store", Json::text("error"));
    assert(entries_view(entries@) =~= not_ready_entries(text@));
    Json::Object(entries)
}

pub open spec fn thread_created_entries(id: ThreadId, workspace_id: Seq<char>) -> Seq<(Seq<char>, JsonView)> {
    seq![
        ("id"@, JsonView::Text(id.text())),
        ("workspace_id"@, JsonView::Text(workspace_id)),
    ]
}

/// A thread was created.
pub fn thread_created_body(id: &ThreadId, workspace_id: &WorkspaceId) -> (r: Json)
    ensures
        r@ == JsonView::Object(thread_created_entries(*id, workspace_id@)),
{
    let mut entries: Vec<JsonEntry> = Vec::new();
    push_entry(&mut entries, "id", Json::Text(id.to_string()));
    push_entry(&mut entries, "workspace_id", Json::text(workspace_id.as_str()));
    assert(entries_view(entries@) =~= thread_created_entries(*id, workspace_id@));
    Json::Object(entries)
}

pub open spec fn turn_started_entries(turn_id: TurnId) -> Seq<(Seq<char>, JsonView)> {
    seq![
        ("turn_id"@, JsonView::Text(turn_id.text())),
        ("status"@, JsonView::Text("running"@)),
    ]
}

/// A turn was started.
pub fn turn_started_body(turn_id: &TurnId) -> (r: Json)
    ensures
        r@ == JsonView::Object(turn_started_entries(*turn_id)),
{
    let mut entries: Vec<JsonEntry> = Vec::new();
    push_entry(&mut entries, "turn_id", Json::Text(turn_id.to_string()));
    push_entry(&mut entries, "status", Json::text("running"));
    assert(entries_view(entries@) =~= turn_started_entries(*turn_id));
    Json::Object(entries)
}

pub open spec fn turn_cancelling_entries(turn_id: TurnId) -> Seq<(Seq<char>, JsonView)> {
    seq![
        ("status"@, JsonView::Text("cancelling"@)),
        ("turn_id"@, JsonView::Text(turn_id.text())),
    ]
}

/// A turn is being interrupted.
pub fn turn_cancelling_body(turn_id: &TurnId) -> (r: Json)
    ensures
        r@ == JsonView::Object(turn_cancelling_entries(*turn_id)),
{
    let mut entries: Vec<JsonEntry> = Vec::new();
    push_entry(&mut entries, "status", Json::text("cancelling"));
    push_entry(&mut entries, "turn_id", Json::Text(turn_id.to_string()));
    assert(entries_view(entries@) =~= turn_cancelling_entries(*turn_id));
    Json::Object(entries)
}

/// The word for a decision.
pub open spec fn decision_name(approved: bool) -> Seq<char> {
    if approved {
        "approved"@
    } else {
        "rejected"@
    }
}

pub open spec fn approval_resolved_entries(approval_id: ApprovalId, approved: bool) -> Seq<(Seq<char>, JsonView)> {
    seq![
        ("approval_id"@, JsonView::Text(approval_id.text())),
        ("status"@, JsonView::Text(decision_name(approved))),
    ]
}

/// A request was decided.
pub fn approval_resolved_body(approval_id: &ApprovalId, approved: bool) -> (r: Json)
    ensures
        r@ == JsonView::Object(approval_resolved_entries(*approval_id, approved)),
{
    let mut entries: Vec<JsonEntry> = Vec::new();
    push_entry(&mut entries, "approval_id", Json::Text(approval_id.to_string()));
    push_entry(&mut entries, "status", if approved {
        Json::text("approved")
    } else {
        Json::text("rejected")
    });
    assert(entries_view(entries@) =~= approval_resolved_entries(*approval_id, approved));
    Json::Object(entries)
}

pub open spec fn thread_forked_entries(id: ThreadId, parent: ThreadId, at_seq: u64, title: Option<Seq<char>>) -> Seq<(Seq<char>, JsonView)> {
    seq![
        ("forked_at_seq"@, JsonView::Number(NumberView::PosInt(at_seq))),
        ("id"@, JsonView::Text(id.text())),
        ("parent_thread_id"@, JsonView::Text(parent.text())),
        ("title"@, crate::json::optional_text(title)),
    ]
}

/// A thread was forked.
pub fn thread_forked_body(id: &ThreadId, parent: &ThreadId, at_seq: u64, title: &Option<String>) -> (r: Json)
    ensures
        r@ == JsonView::Object(thread_forked_entries(*id, *parent, at_seq, string_view(*title))),
{
    let mut entries: Vec<JsonEntry> = Vec::new();
    push_entry(&mut entries, "forked_at_seq", Json::number(at_seq));
    push_entry(&mut entries, "id", Json::Text(id.to_string()));
    push_entry(&mut entries, "parent_thread_id", Json::Text(parent.to_string()));
    push_entry(&mut entries, "title", Json::optional_text(title));
    assert(entries_view(entries@) =~= thread_forked_entries(*id, *parent, at_seq, string_view(*title)));
    Json::Object(entries)
}

pub open spec fn remediation_entries(enabled: bool, kill_switch: bool, mutations: u64) -> Seq<(Seq<char>, JsonView)> {
    seq![
        ("enabled"@, JsonView::Bool(enabled)),
        ("kill_switch"@, JsonView::Bool(kill_switch)),
        ("mutations"@, JsonView::Number(NumberView::PosInt(mutations))),
    ]
}

/// Whether changes are made.
pub fn remediation_body(enabled: bool, kill_switch: bool, mutations: u64) -> (r: Json)
    ensures
        r@ == JsonView::Object(remediation_entries(enabled, kill_switch, mutations)),
{
    let mut entries: Vec<JsonEntry> = Vec::new();
    push_entry(&mut entries, "enabled", Json::Bool(enabled));
    push_entry(&mut entries, "kill_switch", Json::Bool(kill_switch));
    push_entry(&mut entries, "mutations", Json::number(mutations));
    assert(entries_view(entries@) =~= remediation_entries(enabled, kill_switch, mutations));
    Json::Object(entries)
}

} // verus!
