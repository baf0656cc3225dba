//! Structured changes: what is proposed, what an approval binds, and what is
//! done with what came of it.
use vstd::prelude::*;

use crate::action::runner::{
    count_at, count_in, metadata, metadata_string, ExecutionOutcome, OutcomeView, ScaleRequest,
};
use crate::action::{
    action_decision, action_preimage, action_request_hash, deny_extension_remediation,
    evaluate_action, remediation_denied, schema_hash_for, tool_schema, ActionPlan,
    ActionPolicyInput, ActionRecord, ActionStatus, DEMO_FAULT_TOOL, K8S_SCALE_TOOL, TOOL_VERSION,
};
use crate::digest::sha256_text;
use crate::error::{fails, ErrorView, OpsCodexError, OpsResult};
use crate::extensions::capability::CapabilityEffect;
use crate::json::{
    bytes_of, entries_view, push_entry, string_view, Json, JsonEntry, JsonView, NumberView,
};
use crate::policy::PolicyDecision;
use crate::runtime::thread::{ActionId, ApprovalId, ClaimId, PlanId, ThreadId, WorkspaceId};
use crate::text::{decimal, decimal_of, same, starts_with, strip_prefix, views};
use crate::time::{Timestamp, MAX_SECONDS, NANOS_PER_SECOND};

verus! {

pub const DEFAULT_APPROVAL_SECONDS: u64 = 1800;

/// The longest time in seconds that an approval may be asked for.
pub const MAX_APPROVAL_SECONDS: u64 = 9_223_372_036_854_775;

// ---------------------------------------------------------------------------
// Reading parameters
// ---------------------------------------------------------------------------
/// A text that has to be there.
pub fn required_str(value: &Json, key: &str) -> (r: OpsResult<String>)
    ensures
        match r {
            Ok(text) => value@.text_at(key@) == Some(text@),
            Err(e) => value@.text_at(key@) is None && e@ == ErrorView::Protocol(
                key@ + " required"@,
            ),
        },
{
    match value.str_at(key) {
        Some(text) => Ok(text.to_owned()),
        None => {
            let mut message = key.to_owned();
            message.append(" required");
            Err(OpsCodexError::Protocol(message))
        },
    }
}

/// What follows `prefix` in the first text that starts with it.
pub open spec fn after_prefix(texts: Seq<Seq<char>>, prefix: Seq<char>) -> Option<Seq<char>>
    decreases texts.len(),
{
    if texts.len() == 0 {
        None
    } else if starts_with(texts[0], prefix) {
        Some(texts[0].skip(prefix.len() as int))
    } else {
        after_prefix(texts.skip(1), prefix)
    }
}

fn find_prefixed(texts: &Vec<String>, prefix: &str) -> (r: Option<String>)
    ensures
        string_view(r) == after_prefix(views(texts@), prefix@),
{
    let mut i: usize = 0;
    let ghost whole = views(texts@);
    assert(whole.skip(0) =~= whole);
    while i < texts.len()
        invariant
            i <= texts@.len(),
            whole == views(texts@),
            after_prefix(whole, prefix@) == after_prefix(whole.skip(i as int), prefix@),
        decreases texts@.len() - i,
    {
        assert(whole.skip(i as int)[0] == texts@[i as int]@);
        assert(whole.skip(i as int).skip(1) =~= whole.skip(i + 1));
        if let Some(rest) = strip_prefix(texts[i].as_str(), prefix) {
            return Some(rest);
        }
        i += 1;
    }
    assert(whole.skip(i as int) =~= Seq::empty());
    None
}

pub open spec fn or_empty(text: Option<Seq<char>>) -> Seq<char> {
    match text {
        Some(text) => text,
        None => Seq::empty(),
    }
}

fn prefixed_or_empty(texts: &Vec<String>, prefix: &str) -> (r: String)
    ensures
        r@ == or_empty(after_prefix(views(texts@), prefix@)),
{
    match find_prefixed(texts, prefix) {
        Some(rest) => rest,
        None => String::new(),
    }
}

// ---------------------------------------------------------------------------
// Building an action
// ---------------------------------------------------------------------------
/// What an action is to do.
pub struct Proposal {
    pub target: Seq<char>,
    pub parameters: JsonView,
    pub expected: Seq<char>,
    pub verification: Seq<char>,
    pub blast: Seq<char>,
    pub preconditions: Seq<Seq<char>>,
}

/// A text under a key, or another.
pub open spec fn text_or(value: JsonView, key: Seq<char>, default: Seq<char>) -> Seq<char> {
    match value.text_at(key) {
        Some(text) => text,
        None => default,
    }
}

/// The reset of the demo fault.
pub open spec fn demo_proposal(workspace: Seq<char>, parameters: JsonView) -> Result<
    Proposal,
    ErrorView,
> {
    if workspace != "local-demo"@ {
        Err(
            ErrorView::Policy(
                "demo_fault_reset is only registered in the local-demo workspace"@,
            ),
        )
    } else if text_or(parameters, "service"@, "order-service"@) != "order-service"@ {
        Err(ErrorView::Policy("demo_fault_reset target must be order-service"@))
    } else if text_or(parameters, "mode"@, "normal"@) != "normal"@ {
        Err(ErrorView::Policy("demo_fault_reset can only set mode=normal"@))
    } else {
        Ok(
            Proposal {
                target: "demo:order-service"@,
                parameters: JsonView::Object(demo_parameters()),
                expected: "Set demo fault mode to normal"@,
                verification: "GET /health returns status=ok and mode=normal"@,
                blast: "single local demo container"@,
                preconditions: seq!["loopback-only"@],
            },
        )
    }
}

pub open spec fn demo_parameters() -> Seq<(Seq<char>, JsonView)> {
    seq![
        ("mode"@, JsonView::Text("normal"@)),
        ("service"@, JsonView::Text("order-service"@)),
    ]
}

pub open spec fn scale_parameters(
    kind: Seq<char>,
    namespace: Seq<char>,
    name: Seq<char>,
    replicas: u64,
) -> Seq<(Seq<char>, JsonView)> {
    seq![
        ("kind"@, JsonView::Text(kind)),
        ("name"@, JsonView::Text(name)),
        ("namespace"@, JsonView::Text(namespace)),
        ("replicas"@, JsonView::Number(NumberView::PosInt(replicas))),
    ]
}

pub open spec fn required(key: Seq<char>) -> ErrorView {
    ErrorView::Protocol(key + " required"@)
}

/// The scale of a workload.
pub open spec fn scale_proposal(parameters: JsonView) -> Result<Proposal, ErrorView> {
    match parameters.text_at("kind"@) {
        None => Err(required("kind"@)),
        Some(kind) => if kind != "Deployment"@ && kind != "StatefulSet"@ {
            Err(ErrorView::Policy("k8s_scale only supports Deployment or StatefulSet"@))
        } else {
            match parameters.text_at("namespace"@) {
                None => Err(required("namespace"@)),
                Some(namespace) => match parameters.text_at("name"@) {
                    None => Err(required("name"@)),
                    Some(name) => match parameters.u64_at("replicas"@) {
                        None => Err(required("replicas"@)),
                        Some(replicas) => if replicas < 1 || replicas > 16 {
                            Err(ErrorView::Policy("k8s_scale replicas must be between 1 and 16"@))
                        } else {
                            Ok(
                                Proposal {
                                    target: "k8s:"@ + namespace + "/"@ + kind + "/"@ + name,
                                    parameters: JsonView::Object(
                                        scale_parameters(kind, namespace, name, replicas),
                                    ),
                                    expected: "Scale "@ + kind + "/"@ + name + " to "@ + decimal(
                                        replicas as nat,
                                    ),
                                    verification: "desired and available replicas match the approved count"@,
                                    blast: "one "@ + kind + " in "@ + namespace,
                                    preconditions: Seq::empty(),
                                },
                            )
                        },
                    },
                },
            }
        },
    }
}

/// What an action of this kind is to do, or why there is none.
pub open spec fn proposal(workspace: Seq<char>, kind: Seq<char>, parameters: JsonView) -> Result<
    Proposal,
    ErrorView,
> {
    if kind == DEMO_FAULT_TOOL@ {
        demo_proposal(workspace, parameters)
    } else if kind == K8S_SCALE_TOOL@ {
        scale_proposal(parameters)
    } else {
        Err(ErrorView::Protocol("unsupported remediation kind `"@ + kind + "`"@))
    }
}

struct Planned {
    target: String,
    parameters: Json,
    expected: String,
    verification: String,
    blast: String,
    preconditions: Vec<String>,
}

impl Planned {
    spec fn view(&self) -> Proposal {
        Proposal {
            target: self.target@,
            parameters: self.parameters@,
            expected: self.expected@,
            verification: self.verification@,
            blast: self.blast@,
            preconditions: views(self.preconditions@),
        }
    }
}

spec fn plans(r: OpsResult<Planned>, expected: Result<Proposal, ErrorView>) -> bool {
    match r {
        Ok(planned) => expected == Ok::<Proposal, ErrorView>(planned@),
        Err(e) => expected == Err::<Proposal, ErrorView>(e@),
    }
}

fn is_text_or(value: &Json, key: &str, default: &str) -> (r: bool)
    ensures
        r == (text_or(value@, key@, default@) == default@),
{
    match value.str_at(key) {
        Some(text) => same(text, default),
        None => true,
    }
}

fn plan_demo(workspace: &str, parameters: &Json) -> (r: OpsResult<Planned>)
    ensures
        plans(r, demo_proposal(workspace@, parameters@)),
{
    if !same(workspace, "local-demo") {
        return Err(
            OpsCodexError::Policy(
                "demo_fault_reset is only registered in the local-demo workspace".to_owned(),
            ),
        );
    }
    if !is_text_or(parameters, "service", "order-service") {
        return Err(
            OpsCodexError::Policy("demo_fault_reset target must be order-service".to_owned()),
        );
    }
    if !is_text_or(parameters, "mode", "normal") {
        return Err(OpsCodexError::Policy("demo_fault_reset can only set mode=normal".to_owned()));
    }
    let mut entries: Vec<JsonEntry> = Vec::new();
    push_entry(&mut entries, "mode", Json::text("normal"));
    push_entry(&mut entries, "service", Json::text("order-service"));
    assert(entries_view(entries@) =~= demo_parameters());
    let mut preconditions: Vec<String> = Vec::new();
    preconditions.push("loopback-only".to_owned());
    assert(views(preconditions@) =~= seq!["loopback-only"@]);
    Ok(
        Planned {
            target: "demo:order-service".to_owned(),
            parameters: Json::Object(entries),
            expected: "Set demo fault mode to normal".to_owned(),
            verification: "GET /health returns status=ok and mode=normal".to_owned(),
            blast: "single local demo container".to_owned(),
            preconditions,
        },
    )
}

fn plan_scale(parameters: &Json) -> (r: OpsResult<Planned>)
    ensures
        plans(r, scale_proposal(parameters@)),
{
    let kind = match required_str(parameters, "kind") {
        Ok(kind) => kind,
        Err(e) => return Err(e),
    };
    if !same(kind.as_str(), "Deployment") && !same(kind.as_str(), "StatefulSet") {
        return Err(
            OpsCodexError::Policy("k8s_scale only supports Deployment or StatefulSet".to_owned()),
        );
    }
    let namespace = match required_str(parameters, "namespace") {
        Ok(namespace) => namespace,
        Err(e) => return Err(e),
    };
    let name = match required_str(parameters, "name") {
        Ok(name) => name,
        Err(e) => return Err(e),
    };
    let replicas = match parameters.u64_at("replicas") {
        Some(replicas) => replicas,
        None => {
            let mut message = "replicas".to_owned();
            message.append(" required");
            return Err(OpsCodexError::Protocol(message));
        },
    };
    if replicas < 1 || replicas > 16 {
        return Err(
            OpsCodexError::Policy("k8s_scale replicas must be between 1 and 16".to_owned()),
        );
    }
    let mut entries: Vec<JsonEntry> = Vec::new();
    push_entry(&mut entries, "kind", Json::text(kind.as_str()));
    push_entry(&mut entries, "name", Json::text(name.as_str()));
    push_entry(&mut entries, "namespace", Json::text(namespace.as_str()));
    push_entry(&mut entries, "replicas", Json::number(replicas));
    assert(entries_view(entries@) =~= scale_parameters(kind@, namespace@, name@, replicas));
    let mut target = "k8s:".to_owned();
    target.append(namespace.as_str());
    target.append("/");
    target.append(kind.as_str());
    target.append("/");
    target.append(name.as_str());
    let mut expected = "Scale ".to_owned();
    expected.append(kind.as_str());
    expected.append("/");
    expected.append(name.as_str());
    expected.append(" to ");
    expected.append(decimal_of(replicas).as_str());
    let mut blast = "one ".to_owned();
    blast.append(kind.as_str());
    blast.append(" in ");
    blast.append(namespace.as_str());
    let preconditions: Vec<String> = Vec::new();
    assert(views(preconditions@) =~= Seq::empty());
    Ok(
        Planned {
            target,
            parameters: Json::Object(entries),
            expected,
            verification: "desired and available replicas match the approved count".to_owned(),
            blast,
            preconditions,
        },
    )
}

fn plan_action(workspace: &str, kind: &str, parameters: &Json) -> (r: OpsResult<Planned>)
    ensures
        plans(r, proposal(workspace@, kind@, parameters@)),
{
    if same(kind, DEMO_FAULT_TOOL) {
        plan_demo(workspace, parameters)
    } else if same(kind, K8S_SCALE_TOOL) {
        plan_scale(parameters)
    } else {
        let mut message = "unsupported remediation kind `".to_owned();
        message.append(kind);
        message.append("`");
        Err(OpsCodexError::Protocol(message))
    }
}

/// How long an approval lasts that is asked for `ttl` seconds.
pub open spec fn approval_seconds(ttl: u64) -> u64 {
    if ttl > MAX_APPROVAL_SECONDS {
        DEFAULT_APPROVAL_SECONDS
    } else {
        ttl
    }
}

/// The record is that of a new action that does what the proposal says.
pub open spec fn is_proposed(
    action: ActionRecord,
    proposal: Proposal,
    thread_id: ThreadId,
    workspace: Seq<char>,
    kind: Seq<char>,
    ttl: u64,
    now: Timestamp,
    action_id: ActionId,
    plan_id: PlanId,
) -> bool {
    &&& action.action_id == action_id
    &&& action.plan_id == plan_id
    &&& action.workspace_id@ == workspace
    &&& action.thread_id == thread_id
    &&& action.tool_id@ == kind
    &&& action.tool_version@ == TOOL_VERSION@
    &&& action.schema_hash@ == sha256_text(bytes_of(tool_schema(kind)))
    &&& action.effect@ == CapabilityEffect::ChangeReversible.name()
    &&& action.normalized_target@ == proposal.target
    &&& action.normalized_parameters@ == proposal.parameters
    &&& views(action.preconditions@) == proposal.preconditions
    &&& action.expected_effect@ == proposal.expected
    &&& action.dry_run_result is None
    &&& action.verification_spec@ == proposal.verification
    &&& action.rollback_spec is None
    &&& action.blast_radius@ == proposal.blast
    &&& action.operation_id@ == action_id.text() + ":1"@
    &&& action.request_hash@ == sha256_text(action_preimage(&action))
    &&& action.status is Proposed
    &&& action.approval_id is None
    &&& !action.consumed_approval
    &&& action.expires_at.whole_seconds() == now.whole_seconds() + approval_seconds(ttl)
    &&& action.expires_at.subsecond() == now.subsecond()
    &&& action.updated_at == now
}

/// Builds an action. The identifiers and the time are the caller's.
pub fn build_action(
    thread_id: &ThreadId,
    workspace_id: &WorkspaceId,
    kind: &str,
    parameters: &Json,
    ttl: u64,
    now: Timestamp,
    action_id: ActionId,
    plan_id: PlanId,
) -> (r: OpsResult<ActionRecord>)
    requires
        now.subsecond() < NANOS_PER_SECOND,
        now.whole_seconds() + approval_seconds(ttl) <= MAX_SECONDS,
    ensures
        match r {
            Ok(action) => proposal(workspace_id@, kind@, parameters@) matches Ok(proposal)
                && is_proposed(
                action,
                proposal,
                *thread_id,
                workspace_id@,
                kind@,
                ttl,
                now,
                action_id,
                plan_id,
            ),
            Err(e) => proposal(workspace_id@, kind@, parameters@) == Err::<Proposal, ErrorView>(e@),
        },
{
    let planned = match plan_action(workspace_id.as_str(), kind, parameters) {
        Ok(planned) => planned,
        Err(e) => return Err(e),
    };
    let seconds = if ttl > MAX_APPROVAL_SECONDS {
        DEFAULT_APPROVAL_SECONDS
    } else {
        ttl
    };
    let expires_at = match now.plus_seconds(seconds) {
        Some(end) => end,
        None => now,
    };
    let mut operation_id = action_id.to_string();
    operation_id.append(":1");
    let action = ActionRecord {
        action_id,
        plan_id,
        workspace_id: workspace_id.clone(),
        thread_id: *thread_id,
        tool_id: kind.to_owned(),
        tool_version: TOOL_VERSION.to_owned(),
        schema_hash: schema_hash_for(kind),
        effect: CapabilityEffect::ChangeReversible.as_str().to_owned(),
        normalized_target: planned.target,
        normalized_parameters: planned.parameters,
        preconditions: planned.preconditions,
        expected_effect: planned.expected,
        dry_run_result: None,
        verification_spec: planned.verification,
        rollback_spec: None,
        blast_radius: planned.blast,
        operation_id,
        request_hash: String::new(),
        status: ActionStatus::Proposed,
        approval_id: None,
        consumed_approval: false,
        expires_at,
        updated_at: now,
    };
    let request_hash = action_request_hash(&action);
    Ok(ActionRecord { request_hash, ..action })
}

/// A workload can be scaled only to between one and sixteen replicas, and only
/// where it is of a kind that can be.
pub proof fn law_scale_is_bounded(workspace: Seq<char>, parameters: JsonView)
    requires
        proposal(workspace, K8S_SCALE_TOOL@, parameters) is Ok,
    ensures
        parameters.u64_at("replicas"@) matches Some(n) && 1 <= n <= 16,
        parameters.text_at("kind"@) == Some("Deployment"@) || parameters.text_at("kind"@) == Some(
            "StatefulSet"@,
        ),
{
    reveal_strlit("k8s_scale");
    reveal_strlit("demo_fault_reset");
    assert(K8S_SCALE_TOOL@.len() == 9);
    assert(DEMO_FAULT_TOOL@.len() == 16);
}

// ---------------------------------------------------------------------------
// Proposing
// ---------------------------------------------------------------------------
/// What becomes of an action that is proposed.
#[derive(Debug)]
pub enum Proposed {
    /// The action is recorded as denied, and the error returned.
    Denied { action: ActionRecord, error: OpsCodexError },
    /// The action is tried without an effect.
    DryRun { action: ActionRecord },
}

/// The policy does not let the action through.
pub open spec fn is_denied(action: ActionRecord, input: &ActionPolicyInput<'_>) -> bool {
    remediation_denied(action.tool_id@) || action_decision(input) is Deny
}

/// Holds a new action to the policy. `input` is about this action.
pub fn judge_action(action: ActionRecord, input: &ActionPolicyInput<'_>) -> (r: Proposed)
    ensures
        match r {
            Proposed::Denied { action: denied, error } => is_denied(action, input) && denied == (
            ActionRecord { status: ActionStatus::PolicyDenied, ..action }) && error@
                == ErrorView::Policy(
                "remediation is denied by policy, kill switch, or workspace settings"@,
            ),
            Proposed::DryRun { action: next } => !is_denied(action, input) && next == (
            ActionRecord { status: ActionStatus::DryRun, ..action }),
        },
{
    let decision = evaluate_action(input);
    if deny_extension_remediation(action.tool_id.as_str()) || matches!(
        decision,
        PolicyDecision::Deny
    ) {
        Proposed::Denied {
            action: ActionRecord { status: ActionStatus::PolicyDenied, ..action },
            error: OpsCodexError::Policy(
                "remediation is denied by policy, kill switch, or workspace settings".to_owned(),
            ),
        }
    } else {
        Proposed::DryRun { action: ActionRecord { status: ActionStatus::DryRun, ..action } }
    }
}

/// What a dry run shows of the workload that is to be scaled.
pub open spec fn observed(kind: Seq<char>, before: JsonView) -> Seq<Seq<char>> {
    if kind != K8S_SCALE_TOOL@ {
        Seq::empty()
    } else {
        seq![
            "uid="@ + metadata(before, "uid"@),
            "resourceVersion="@ + metadata(before, "resourceVersion"@),
            "previousReplicas="@ + decimal(count_in(before, "spec"@, "replicas"@) as nat),
        ]
    }
}

pub fn dry_run_preconditions(kind: &str, before: &Json) -> (r: Vec<String>)
    ensures
        views(r@) == observed(kind@, before@),
{
    let mut texts: Vec<String> = Vec::new();
    if same(kind, K8S_SCALE_TOOL) {
        let mut uid = "uid=".to_owned();
        uid.append(metadata_string(before, "uid").as_str());
        let mut version = "resourceVersion=".to_owned();
        version.append(metadata_string(before, "resourceVersion").as_str());
        let mut replicas = "previousReplicas=".to_owned();
        replicas.append(decimal_of(count_at(before, "spec", "replicas")).as_str());
        texts.push(uid);
        texts.push(version);
        texts.push(replicas);
    }
    assert(views(texts@) =~= observed(kind@, before@));
    texts
}

/// The action waits for an approval of what the dry run has shown.
pub open spec fn awaits_approval(
    action: ActionRecord,
    before: ActionRecord,
    outcome: OutcomeView,
    approval_id: ApprovalId,
) -> bool {
    &&& views(action.preconditions@) == views(before.preconditions@) + observed(
        before.tool_id@,
        outcome.before,
    )
    &&& action.request_hash@ == sha256_text(action_preimage(&action))
    &&& string_view(action.dry_run_result) == Some(outcome.message)
    &&& action == (ActionRecord {
        status: ActionStatus::AwaitingApproval,
        approval_id: Some(approval_id),
        preconditions: action.preconditions,
        request_hash: action.request_hash,
        dry_run_result: action.dry_run_result,
        ..before
    })
}

/// What a dry run leads to: the action waits for an approval, or is invalid.
pub fn after_dry_run(action: ActionRecord, outcome: ExecutionOutcome, approval_id: ApprovalId) -> (r:
    (ActionRecord, OpsResult<()>))
    ensures
        if outcome.uncertain {
            &&& r.0 == (ActionRecord {
                status: ActionStatus::Invalid,
                dry_run_result: r.0.dry_run_result,
                ..action
            })
            &&& string_view(r.0.dry_run_result) == Some(outcome@.message)
            &&& fails(r.1, ErrorView::Tool(outcome@.message))
        } else {
            awaits_approval(r.0, action, outcome@, approval_id) && r.1 is Ok
        },
{
    if outcome.uncertain {
        let message = outcome.message.clone();
        return (
            ActionRecord {
                status: ActionStatus::Invalid,
                dry_run_result: Some(outcome.message),
                ..action
            },
            Err(OpsCodexError::Tool(message)),
        );
    }
    let mut found = dry_run_preconditions(action.tool_id.as_str(), &outcome.before);
    let ghost before = action;
    let mut action = action;
    let ghost first = action.preconditions@;
    let ghost more = found@;
    action.preconditions.append(&mut found);
    assert(views(action.preconditions@) =~= views(first) + views(more));
    action.dry_run_result = Some(outcome.message);
    action.request_hash = action_request_hash(&action);
    action.status = ActionStatus::AwaitingApproval;
    action.approval_id = Some(approval_id);
    (action, Ok(()))
}

/// The plan under which an action is kept: the action alone, for the claims that it
/// answers.
pub fn action_plan(action: &ActionRecord, claim_ids: Vec<ClaimId>) -> (r: ActionPlan)
    ensures
        r.plan_id == action.plan_id,
        r.workspace_id@ == action.workspace_id@,
        r.thread_id == action.thread_id,
        r.diagnosis_claim_ids@ == claim_ids@,
        r.actions@.len() == 1,
        r.actions@[0].same_as(action),
        r.created_at == action.updated_at,
        r.expires_at == action.expires_at,
{
    let mut actions: Vec<ActionRecord> = Vec::new();
    actions.push(action.clone());
    ActionPlan {
        plan_id: action.plan_id,
        workspace_id: action.workspace_id.clone(),
        thread_id: action.thread_id,
        diagnosis_claim_ids: claim_ids,
        actions,
        created_at: action.updated_at,
        expires_at: action.expires_at,
    }
}

// ---------------------------------------------------------------------------
// Approving
// ---------------------------------------------------------------------------
/// The action has waited too long.
pub open spec fn has_expired(action: ActionRecord, now: Timestamp) -> bool {
    action.status is AwaitingApproval && action.expires_at.no_later_than(now)
}

/// What becomes of a decision on an action.
#[derive(Debug)]
pub struct Decision {
    pub action: ActionRecord,
    /// The action has changed and is to be recorded.
    pub changed: bool,
    pub refusal: Option<OpsCodexError>,
}

/// Why a decision on an action is refused, if it is.
pub open spec fn refusal(action: ActionRecord, request_hash: Seq<char>, now: Timestamp) -> Option<
    ErrorView,
> {
    let status = if has_expired(action, now) {
        ActionStatus::Expired
    } else {
        action.status
    };
    let current = sha256_text(action_preimage(&action));
    if !(status is AwaitingApproval) {
        Some(
            ErrorView::Policy(
                "action "@ + action.action_id.text() + " is "@ + status.name(),
            ),
        )
    } else if action.consumed_approval {
        Some(ErrorView::Policy("approval was already consumed"@))
    } else if current != action.request_hash@ || current != request_hash {
        Some(
            ErrorView::Policy("approval request hash mismatch; refusing to bind approval"@),
        )
    } else {
        None
    }
}

/// Takes a decision on an action. The decision is bound to what the action is
/// to do, by the hash of the request.
pub fn approve_action(action: ActionRecord, request_hash: &str, approved: bool, now: Timestamp) -> (r:
    Decision)
    ensures
        match r.refusal {
            Some(e) => refusal(action, request_hash@, now) == Some(e@) && r.changed == has_expired(
                action,
                now,
            ) && r.action == (if has_expired(action, now) {
                ActionRecord { status: ActionStatus::Expired, updated_at: now, ..action }
            } else {
                action
            }),
            None => refusal(action, request_hash@, now) is None && r.changed && r.action == (
            ActionRecord {
                status: if approved {
                    ActionStatus::Authorized
                } else {
                    ActionStatus::Rejected
                },
                consumed_approval: approved,
                updated_at: now,
                ..action
            }),
        },
{
    let waiting = matches!(action.status, ActionStatus::AwaitingApproval);
    let expired = waiting && action.expires_at.at_or_before(now);
    if !waiting || expired {
        let status = if expired {
            ActionStatus::Expired
        } else {
            action.status
        };
        let mut message = "action ".to_owned();
        message.append(action.action_id.to_string().as_str());
        message.append(" is ");
        message.append(status.as_str());
        let action = if expired {
            ActionRecord { status: ActionStatus::Expired, updated_at: now, ..action }
        } else {
            action
        };
        return Decision {
            action,
            changed: expired,
            refusal: Some(OpsCodexError::Policy(message)),
        };
    }
    if action.consumed_approval {
        return Decision {
            action,
            changed: false,
            refusal: Some(OpsCodexError::Policy("approval was already consumed".to_owned())),
        };
    }
    let current = action_request_hash(&action);
    if !same(current.as_str(), action.request_hash.as_str()) || !same(
        current.as_str(),
        request_hash,
    ) {
        return Decision {
            action,
            changed: false,
            refusal: Some(
                OpsCodexError::Policy(
                    "approval request hash mismatch; refusing to bind approval".to_owned(),
                ),
            ),
        };
    }
    let status = if approved {
        ActionStatus::Authorized
    } else {
        ActionStatus::Rejected
    };
    Decision {
        action: ActionRecord { status, consumed_approval: approved, updated_at: now, ..action },
        changed: true,
        refusal: None,
    }
}

/// An approval is given once: an action that was decided on cannot be decided
/// on again.
pub proof fn law_approval_is_given_once(
    action: ActionRecord,
    request_hash: Seq<char>,
    now: Timestamp,
    decided: ActionRecord,
    approved: bool,
    again: Seq<char>,
    later: Timestamp,
)
    requires
        refusal(action, request_hash, now) is None,
        decided == (ActionRecord {
            status: if approved {
                ActionStatus::Authorized
            } else {
                ActionStatus::Rejected
            },
            consumed_approval: approved,
            updated_at: now,
            ..action
        }),
    ensures
        refusal(decided, again, later) is Some,
{
}

/// A decision is taken only under the hash of the very request that the action
/// makes.
pub proof fn law_decision_binds_the_request(
    action: ActionRecord,
    request_hash: Seq<char>,
    now: Timestamp,
)
    requires
        refusal(action, request_hash, now) is None,
    ensures
        request_hash == sha256_text(action_preimage(&action)),
{
}

/// A decision or an expiry moves an action only along its life cycle.
pub proof fn law_decisions_follow_the_life_cycle(action: ActionRecord, approved: bool)
    requires
        action.status is AwaitingApproval,
    ensures
        action.status.leads_to(ActionStatus::Expired),
        action.status.leads_to(ActionStatus::Authorized),
        action.status.leads_to(ActionStatus::Rejected),
{
}

// ---------------------------------------------------------------------------
// Executing
// ---------------------------------------------------------------------------
/// Nothing is changed while the switch is thrown, or while changes are off.
pub fn may_change(kill_switch: bool, enabled: bool) -> (r: OpsResult<()>)
    ensures
        r is Ok <==> !kill_switch && enabled,
        r matches Err(e) ==> e@ == ErrorView::Policy("kill switch is blocking change operations"@),
{
    if kill_switch || !enabled {
        Err(OpsCodexError::Policy("kill switch is blocking change operations".to_owned()))
    } else {
        Ok(())
    }
}

/// The action may be carried out now.
pub open spec fn can_claim(action: ActionRecord, now: Timestamp) -> bool {
    action.status is Authorized && !action.expires_at.no_later_than(now)
}

/// Why an action cannot be carried out.
pub open spec fn not_executable(action: ActionRecord) -> ErrorView {
    ErrorView::Policy(
        "action "@ + action.action_id.text() + " is "@ + action.status.name()
            + " and cannot be executed"@,
    )
}

/// Claims an action that is authorized, so that nobody else carries it out.
pub fn claim_action(action: ActionRecord, now: Timestamp) -> (r: (ActionRecord, OpsResult<()>))
    ensures
        if can_claim(action, now) {
            r.1 is Ok && r.0 == (ActionRecord {
                status: ActionStatus::PreconditionCheck,
                updated_at: now,
                ..action
            })
        } else {
            fails(r.1, not_executable(action)) && r.0 == action
        },
{
    if matches!(action.status, ActionStatus::Authorized) && !action.expires_at.at_or_before(now) {
        return (
            ActionRecord { status: ActionStatus::PreconditionCheck, updated_at: now, ..action },
            Ok(()),
        );
    }
    let mut message = "action ".to_owned();
    message.append(action.action_id.to_string().as_str());
    message.append(" is ");
    message.append(action.status.as_str());
    message.append(" and cannot be executed");
    (action, Err(OpsCodexError::Policy(message)))
}

/// Where a workload is looked for, the workspace needs a cluster.
pub open spec fn no_cluster(action: ActionRecord) -> ErrorView {
    ErrorView::Policy(
        "workspace "@ + action.workspace_id@ + " has no remediation Kubernetes client"@,
    )
}

fn cluster_missing(action: &ActionRecord) -> (r: OpsCodexError)
    ensures
        r@ == no_cluster(*action),
{
    let mut message = "workspace ".to_owned();
    message.append(action.workspace_id.as_str());
    message.append(" has no remediation Kubernetes client");
    OpsCodexError::Policy(message)
}

/// What keeps the workload of an action from being looked up.
pub open spec fn target_error(action: ActionRecord, cluster: bool) -> Option<ErrorView> {
    let parameters = action.normalized_parameters@;
    if !cluster {
        Some(no_cluster(action))
    } else if parameters.text_at("kind"@) is None {
        Some(required("kind"@))
    } else if parameters.text_at("namespace"@) is None {
        Some(required("namespace"@))
    } else if parameters.text_at("name"@) is None {
        Some(required("name"@))
    } else {
        None
    }
}

/// What keeps a workload from being scaled.
pub open spec fn scale_error(action: ActionRecord, cluster: bool) -> Option<ErrorView> {
    if target_error(action, cluster) is Some {
        target_error(action, cluster)
    } else if action.normalized_parameters@.u64_at("replicas"@) is None {
        Some(required("replicas"@))
    } else {
        None
    }
}

/// A workload: its kind, its namespace and its name.
#[derive(Debug)]
pub struct Workload {
    pub kind: String,
    pub namespace: String,
    pub name: String,
}

/// The workload is the one that the action names.
pub open spec fn is_target_of(workload: Workload, action: ActionRecord) -> bool {
    let parameters = action.normalized_parameters@;
    &&& parameters.text_at("kind"@) == Some(workload.kind@)
    &&& parameters.text_at("namespace"@) == Some(workload.namespace@)
    &&& parameters.text_at("name"@) == Some(workload.name@)
}

/// The workload that an action names; `cluster` tells whether its workspace has a
/// cluster to look in.
pub fn target_of(action: &ActionRecord, cluster: bool) -> (r: OpsResult<Workload>)
    ensures
        match r {
            Ok(workload) => target_error(*action, cluster) is None && is_target_of(
                workload,
                *action,
            ),
            Err(e) => target_error(*action, cluster) == Some(e@),
        },
{
    if !cluster {
        return Err(cluster_missing(action));
    }
    let parameters = &action.normalized_parameters;
    let kind = match required_str(parameters, "kind") {
        Ok(kind) => kind,
        Err(e) => return Err(e),
    };
    let namespace = match required_str(parameters, "namespace") {
        Ok(namespace) => namespace,
        Err(e) => return Err(e),
    };
    let name = match required_str(parameters, "name") {
        Ok(name) => name,
        Err(e) => return Err(e),
    };
    Ok(Workload { kind, namespace, name })
}

/// How an action is carried out.
#[derive(Debug)]
pub enum RunPlan {
    DemoFault,
    Scale { request: ScaleRequest },
}

/// The request is the one that the action makes.
pub open spec fn is_scale_of(request: ScaleRequest, action: ActionRecord) -> bool {
    let parameters = action.normalized_parameters@;
    let preconditions = views(action.preconditions@);
    &&& parameters.text_at("kind"@) == Some(request.kind@)
    &&& parameters.text_at("namespace"@) == Some(request.namespace@)
    &&& parameters.text_at("name"@) == Some(request.name@)
    &&& parameters.u64_at("replicas"@) matches Some(n) && request.replicas == n as u32
    &&& request.resource_version@ == or_empty(
        after_prefix(preconditions, "resourceVersion="@),
    )
    &&& request.uid@ == or_empty(after_prefix(preconditions, "uid="@))
    &&& request.operation_id == action.operation_id
}

/// What keeps an action from being carried out.
pub open spec fn run_error(action: ActionRecord, cluster: bool) -> Option<ErrorView> {
    if action.tool_id@ == DEMO_FAULT_TOOL@ {
        None
    } else if action.tool_id@ == K8S_SCALE_TOOL@ {
        scale_error(action, cluster)
    } else {
        Some(
            ErrorView::Policy(
                "`"@ + action.tool_id@ + "` is not a structured remediation action"@,
            ),
        )
    }
}

/// The plan is how the action is carried out.
pub open spec fn is_plan_of(plan: RunPlan, action: ActionRecord) -> bool {
    match plan {
        RunPlan::DemoFault => action.tool_id@ == DEMO_FAULT_TOOL@,
        RunPlan::Scale { request } => action.tool_id@ != DEMO_FAULT_TOOL@ && action.tool_id@
            == K8S_SCALE_TOOL@ && is_scale_of(request, action),
    }
}

/// Tells how an action is carried out; `cluster` tells whether its workspace has a
/// cluster.
pub fn plan_run(action: &ActionRecord, cluster: bool) -> (r: OpsResult<RunPlan>)
    ensures
        match r {
            Ok(plan) => run_error(*action, cluster) is None && is_plan_of(plan, *action),
            Err(e) => run_error(*action, cluster) == Some(e@),
        },
{
    if same(action.tool_id.as_str(), DEMO_FAULT_TOOL) {
        return Ok(RunPlan::DemoFault);
    }
    if !same(action.tool_id.as_str(), K8S_SCALE_TOOL) {
        let mut message = "`".to_owned();
        message.append(action.tool_id.as_str());
        message.append("` is not a structured remediation action");
        return Err(OpsCodexError::Policy(message));
    }
    let target = match target_of(action, cluster) {
        Ok(target) => target,
        Err(e) => return Err(e),
    };
    let replicas = match action.normalized_parameters.u64_at("replicas") {
        Some(replicas) => replicas as u32,
        None => {
            let mut message = "replicas".to_owned();
            message.append(" required");
            return Err(OpsCodexError::Protocol(message));
        },
    };
    let resource_version = prefixed_or_empty(&action.preconditions, "resourceVersion=");
    let uid = prefixed_or_empty(&action.preconditions, "uid=");
    Ok(
        RunPlan::Scale {
            request: ScaleRequest {
                kind: target.kind,
                namespace: target.namespace,
                name: target.name,
                replicas,
                resource_version,
                uid,
                operation_id: action.operation_id.clone(),
            },
        },
    )
}

/// The workload is still the one that the dry run saw.
pub open spec fn still_as_seen(action: ActionRecord, snapshot: JsonView) -> bool {
    let preconditions = views(action.preconditions@);
    metadata(snapshot, "uid"@) == or_empty(after_prefix(preconditions, "uid="@)) && metadata(
        snapshot,
        "resourceVersion"@,
    ) == or_empty(after_prefix(preconditions, "resourceVersion="@))
}

/// Holds a workload, as it is now, to what was approved.
pub fn check_preconditions(action: &ActionRecord, snapshot: &Json) -> (r: OpsResult<()>)
    ensures
        r is Ok <==> action.tool_id@ != K8S_SCALE_TOOL@ || still_as_seen(*action, snapshot@),
        r matches Err(e) ==> e@ == ErrorView::Policy(
            "kubernetes target changed; refusing to execute stale approval"@,
        ),
{
    if same(action.tool_id.as_str(), K8S_SCALE_TOOL) {
        let uid = metadata_string(snapshot, "uid");
        let version = metadata_string(snapshot, "resourceVersion");
        let expected_uid = prefixed_or_empty(&action.preconditions, "uid=");
        let expected_version = prefixed_or_empty(&action.preconditions, "resourceVersion=");
        if !same(uid.as_str(), expected_uid.as_str()) || !same(
            version.as_str(),
            expected_version.as_str(),
        ) {
            return Err(
                OpsCodexError::Policy(
                    "kubernetes target changed; refusing to execute stale approval".to_owned(),
                ),
            );
        }
    }
    Ok(())
}

/// What the check of the preconditions leads to: the action is carried out, or
/// is stale.
pub fn after_check(action: ActionRecord, checked: OpsResult<()>, now: Timestamp) -> (r: (
    ActionRecord,
    OpsResult<()>,
))
    requires
        action.status is PreconditionCheck,
    ensures
        match checked {
            Ok(_) => r.1 is Ok,
            Err(e) => fails(r.1, e@),
        },
        r.0 == (ActionRecord {
            status: if checked is Ok {
                ActionStatus::Executing
            } else {
                ActionStatus::Stale
            },
            updated_at: now,
            ..action
        }),
        action.status.leads_to(r.0.status),
{
    match checked {
        Ok(_) => (
            ActionRecord { status: ActionStatus::Executing, updated_at: now, ..action },
            Ok(()),
        ),
        Err(error) => (
            ActionRecord { status: ActionStatus::Stale, updated_at: now, ..action },
            Err(error),
        ),
    }
}

/// What is proposed after a change that did not reach its goal.
pub open spec fn rollback(action: ActionRecord) -> Seq<char> {
    if action.tool_id@ == K8S_SCALE_TOOL@ {
        "propose a new scale action back to "@ + (match after_prefix(
            views(action.preconditions@),
            "previousReplicas="@,
        ) {
            Some(previous) => previous,
            None => "unknown"@,
        }) + " replicas; do not auto-execute"@
    } else {
        "re-diagnose and propose a new action; rollback is never automatic"@
    }
}

pub fn rollback_spec(action: &ActionRecord) -> (r: String)
    ensures
        r@ == rollback(*action),
{
    if same(action.tool_id.as_str(), K8S_SCALE_TOOL) {
        let mut text = "propose a new scale action back to ".to_owned();
        match find_prefixed(&action.preconditions, "previousReplicas=") {
            Some(previous) => text.append(previous.as_str()),
            None => text.append("unknown"),
        }
        text.append(" replicas; do not auto-execute");
        text
    } else {
        "re-diagnose and propose a new action; rollback is never automatic".to_owned()
    }
}

/// What the audit log is told of an action that was carried out.
pub open spec fn audit_entries(
    action: ActionRecord,
    committed: Option<bool>,
    message: Seq<char>,
) -> Seq<(Seq<char>, JsonView)> {
    seq![
        ("action_id"@, JsonView::Text(action.action_id.text())),
        (
            "committed"@,
            match committed {
                Some(committed) => JsonView::Bool(committed),
                None => JsonView::Null,
            },
        ),
        ("message"@, JsonView::Text(message)),
        ("request_hash"@, JsonView::Text(action.request_hash@)),
        ("status"@, JsonView::Text(action.status.name())),
    ]
}

fn audit_summary(action: &ActionRecord, committed: Option<bool>, message: &str) -> (r: Json)
    ensures
        r@ == JsonView::Object(audit_entries(*action, committed, message@)),
{
    let mut entries: Vec<JsonEntry> = Vec::new();
    push_entry(&mut entries, "action_id", Json::Text(action.action_id.to_string()));
    let told = match committed {
        Some(committed) => Json::Bool(committed),
        None => Json::Null,
    };
    push_entry(&mut entries, "committed", told);
    push_entry(&mut entries, "message", Json::text(message));
    push_entry(&mut entries, "request_hash", Json::text(action.request_hash.as_str()));
    push_entry(&mut entries, "status", Json::text(action.status.as_str()));
    assert(entries_view(entries@) =~= audit_entries(*action, committed, message@));
    Json::Object(entries)
}

/// What is done after an action was carried out.
#[derive(Debug)]
pub struct Finished {
    pub action: ActionRecord,
    /// Something was changed.
    pub mutated: bool,
    /// What the audit log is told.
    pub operation: String,
    pub summary: Json,
    pub result: OpsResult<()>,
}

/// The status in which an action ends.
pub open spec fn end_status(outcome: OutcomeView) -> ActionStatus {
    if outcome.uncertain {
        ActionStatus::NeedsReconciliation
    } else if outcome.verified {
        ActionStatus::Succeeded
    } else {
        ActionStatus::RollbackProposed
    }
}

/// What is done after an action was carried out and it is known what came of
/// it.
pub open spec fn is_finished(
    r: Finished,
    action: ActionRecord,
    outcome: OutcomeView,
    now: Timestamp,
) -> bool {
    &&& r.action == (ActionRecord {
        status: end_status(outcome),
        rollback_spec: r.action.rollback_spec,
        updated_at: now,
        ..action
    })
    &&& if end_status(outcome) is RollbackProposed {
        string_view(r.action.rollback_spec) == Some(rollback(action))
    } else {
        r.action.rollback_spec == action.rollback_spec
    }
    &&& r.mutated == outcome.committed
    &&& r.operation@ == "action."@ + end_status(outcome).name()
    &&& r.summary@ == JsonView::Object(
        audit_entries(r.action, Some(outcome.committed), outcome.message),
    )
    &&& if outcome.uncertain {
        fails(r.result, ErrorView::NeedsReconciliation(outcome.message))
    } else {
        r.result is Ok
    }
}

/// What is done where the runner failed after it had begun: it is not known
/// whether anything was changed.
pub open spec fn is_broken(
    r: Finished,
    action: ActionRecord,
    error: ErrorView,
    now: Timestamp,
) -> bool {
    let message = "action runner failed after execution began: "@ + error.text();
    &&& r.action == (ActionRecord {
        status: ActionStatus::NeedsReconciliation,
        updated_at: now,
        ..action
    })
    &&& !r.mutated
    &&& r.operation@ == "action.needs_reconciliation"@
    &&& r.summary@ == JsonView::Object(audit_entries(r.action, None, message))
    &&& fails(r.result, ErrorView::NeedsReconciliation(message))
}

fn broken(action: ActionRecord, error: &OpsCodexError, now: Timestamp) -> (r: Finished)
    ensures
        is_broken(r, action, error@, now),
{
    let mut message = "action runner failed after execution began: ".to_owned();
    message.append(error.to_string().as_str());
    let action = ActionRecord {
        status: ActionStatus::NeedsReconciliation,
        updated_at: now,
        ..action
    };
    let summary = audit_summary(&action, None, message.as_str());
    Finished {
        action,
        mutated: false,
        operation: "action.needs_reconciliation".to_owned(),
        summary,
        result: Err(OpsCodexError::NeedsReconciliation(message)),
    }
}

/// Decides what is done after an action was carried out. A change whose result
/// is not known is left to people.
pub fn after_execution(
    action: ActionRecord,
    outcome: OpsResult<ExecutionOutcome>,
    now: Timestamp,
) -> (r: Finished)
    requires
        action.status is Executing,
    ensures
        match outcome {
            Ok(outcome) => is_finished(r, action, outcome@, now),
            Err(error) => is_broken(r, action, error@, now),
        },
{
    let outcome = match outcome {
        Ok(outcome) => outcome,
        Err(error) => return broken(action, &error, now),
    };
    let status = if outcome.uncertain {
        ActionStatus::NeedsReconciliation
    } else if outcome.verified {
        ActionStatus::Succeeded
    } else {
        ActionStatus::RollbackProposed
    };
    let rollback_spec = if matches!(status, ActionStatus::RollbackProposed) {
        Some(rollback_spec(&action))
    } else {
        action.rollback_spec.clone()
    };
    let action = ActionRecord { status, rollback_spec, updated_at: now, ..action };
    let mut operation = "action.".to_owned();
    operation.append(status.as_str());
    let summary = audit_summary(&action, Some(outcome.committed), outcome.message.as_str());
    let result = if outcome.uncertain {
        Err(OpsCodexError::NeedsReconciliation(outcome.message))
    } else {
        Ok(())
    };
    Finished { action, mutated: outcome.committed, operation, summary, result }
}

/// An action that is carried out ends, in one of the states that lead nowhere,
/// along its life cycle: it needs people, or it was verified and succeeded, or
/// it was not and a rollback is proposed.
pub proof fn law_execution_ends(outcome: OutcomeView)
    ensures
        end_status(outcome).terminal(),
        end_status(outcome) is NeedsReconciliation ==> ActionStatus::Executing.leads_to(
            end_status(outcome),
        ),
        !(end_status(outcome) is NeedsReconciliation) ==> ActionStatus::Executing.leads_to(
            ActionStatus::Verifying,
        ),
        end_status(outcome) is Succeeded ==> ActionStatus::Verifying.leads_to(end_status(outcome)),
        end_status(outcome) is RollbackProposed ==> ActionStatus::Verifying.leads_to(
            ActionStatus::VerificationFailed,
        ) && ActionStatus::VerificationFailed.leads_to(end_status(outcome)),
{
}

/// An action succeeds only where its effect was verified.
pub proof fn law_success_is_verified(outcome: OutcomeView)
    requires
        end_status(outcome) is Succeeded,
    ensures
        outcome.verified,
        !outcome.uncertain,
{
}

/// An action is carried out once: whatever came of it, it cannot be claimed
/// again.
pub proof fn law_execution_happens_once(
    action: ActionRecord,
    outcome: OutcomeView,
    r: Finished,
    now: Timestamp,
    later: Timestamp,
)
    requires
        is_finished(r, action, outcome, now),
    ensures
        !can_claim(r.action, later),
{
}

} // verus!
