//! Structured remediation actions: their life cycle, the hash that an approval
//! binds, and the hash-chained audit log.
pub mod action_law;
pub mod runner;

use vstd::prelude::*;
use vstd::utf8::encode_utf8;

use crate::digest::{
    field, fits, lemma_field_unique, lemma_list_field_unique, lemma_optional_field_unique,
    list_field, list_fits, optional_field, preimage_start, sha256, sha256_hex, sha256_text,
    Preimage,
};
use crate::error::{ErrorView, OpsCodexError, OpsResult};
use crate::extensions::capability::CapabilityEffect;
use crate::json::{
    bytes_of, entries_view, items_view, optional_text, push_entry, push_item, string_view, str_view,
    texts_view, Json, JsonEntry, JsonView, NumberView,
};
use crate::json_map::{law_bytes_determine_map, map_bytes, mapped};
use crate::policy::PolicyDecision;
use crate::runtime::thread::{ActionId, ApprovalId, ClaimId, PlanId, ThreadId, WorkspaceId};
use crate::text::{has_prefix, lemma_utf8_injective, same, starts_with, views};
use crate::time::Timestamp;

verus! {

pub const DEMO_FAULT_TOOL: &'static str = "demo_fault_reset";

pub const K8S_SCALE_TOOL: &'static str = "k8s_scale";

pub const TOOL_VERSION: &'static str = "1.0.0";

// ---------------------------------------------------------------------------
// Life cycle
// ---------------------------------------------------------------------------
#[derive(Clone, Copy, Debug, PartialEq, Eq, Structural)]
pub enum ActionStatus {
    Proposed,
    PolicyDenied,
    DryRun,
    Invalid,
    AwaitingApproval,
    Expired,
    Rejected,
    Authorized,
    PreconditionCheck,
    Stale,
    Executing,
    Verifying,
    Succeeded,
    VerificationFailed,
    RollbackProposed,
    NeedsReconciliation,
}

impl ActionStatus {
    /// The name under which the status is written.
    pub open spec fn name(self) -> Seq<char> {
        match self {
            ActionStatus::Proposed => "proposed"@,
            ActionStatus::PolicyDenied => "policy_denied"@,
            ActionStatus::DryRun => "dry_run"@,
            ActionStatus::Invalid => "invalid"@,
            ActionStatus::AwaitingApproval => "awaiting_approval"@,
            ActionStatus::Expired => "expired"@,
            ActionStatus::Rejected => "rejected"@,
            ActionStatus::Authorized => "authorized"@,
            ActionStatus::PreconditionCheck => "precondition_check"@,
            ActionStatus::Stale => "stale"@,
            ActionStatus::Executing => "executing"@,
            ActionStatus::Verifying => "verifying"@,
            ActionStatus::Succeeded => "succeeded"@,
            ActionStatus::VerificationFailed => "verification_failed"@,
            ActionStatus::RollbackProposed => "rollback_proposed"@,
            ActionStatus::NeedsReconciliation => "needs_reconciliation"@,
        }
    }

    pub fn as_str(self) -> (r: &'static str)
        ensures
            r@ == self.name(),
    {
        match self {
            ActionStatus::Proposed => "proposed",
            ActionStatus::PolicyDenied => "policy_denied",
            ActionStatus::DryRun => "dry_run",
            ActionStatus::Invalid => "invalid",
            ActionStatus::AwaitingApproval => "awaiting_approval",
            ActionStatus::Expired => "expired",
            ActionStatus::Rejected => "rejected",
            ActionStatus::Authorized => "authorized",
            ActionStatus::PreconditionCheck => "precondition_check",
            ActionStatus::Stale => "stale",
            ActionStatus::Executing => "executing",
            ActionStatus::Verifying => "verifying",
            ActionStatus::Succeeded => "succeeded",
            ActionStatus::VerificationFailed => "verification_failed",
            ActionStatus::RollbackProposed => "rollback_proposed",
            ActionStatus::NeedsReconciliation => "needs_reconciliation",
        }
    }

    /// Reads the name of a status.
    pub fn parse(value: &str) -> (r: OpsResult<Self>)
        ensures
            match r {
                Ok(v) => v.name() == value@,
                Err(e) => {
                    &&& e@ == ErrorView::Protocol("unknown action status `"@ + value@ + "`"@)
                    &&& forall|v: ActionStatus| #[trigger] v.name() != value@
                },
            },
    {
        if same(value, "proposed") {
            Ok(ActionStatus::Proposed)
        } else if same(value, "policy_denied") {
            Ok(ActionStatus::PolicyDenied)
        } else if same(value, "dry_run") {
            Ok(ActionStatus::DryRun)
        } else if same(value, "invalid") {
            Ok(ActionStatus::Invalid)
        } else if same(value, "awaiting_approval") {
            Ok(ActionStatus::AwaitingApproval)
        } else if same(value, "expired") {
            Ok(ActionStatus::Expired)
        } else if same(value, "rejected") {
            Ok(ActionStatus::Rejected)
        } else if same(value, "authorized") {
            Ok(ActionStatus::Authorized)
        } else if same(value, "precondition_check") {
            Ok(ActionStatus::PreconditionCheck)
        } else if same(value, "stale") {
            Ok(ActionStatus::Stale)
        } else if same(value, "executing") {
            Ok(ActionStatus::Executing)
        } else if same(value, "verifying") {
            Ok(ActionStatus::Verifying)
        } else if same(value, "succeeded") {
            Ok(ActionStatus::Succeeded)
        } else if same(value, "verification_failed") {
            Ok(ActionStatus::VerificationFailed)
        } else if same(value, "rollback_proposed") {
            Ok(ActionStatus::RollbackProposed)
        } else if same(value, "needs_reconciliation") {
            Ok(ActionStatus::NeedsReconciliation)
        } else {
            let mut message = "unknown action status `".to_owned();
            message.append(value);
            message.append("`");
            Err(OpsCodexError::Protocol(message))
        }
    }
}

/// A name belongs to one status alone.
pub proof fn law_status_names_distinct(a: ActionStatus, b: ActionStatus)
    requires
        a.name() == b.name(),
    ensures
        a == b,
{
    reveal_strlit("proposed");
    assert("proposed"@.len() == 8);
    assert("proposed"@[0] == 'p');
    reveal_strlit("policy_denied");
    assert("policy_denied"@.len() == 13);
    assert("policy_denied"@[0] == 'p');
    reveal_strlit("dry_run");
    assert("dry_run"@.len() == 7);
    assert("dry_run"@[0] == 'd');
    reveal_strlit("invalid");
    assert("invalid"@.len() == 7);
    assert("invalid"@[0] == 'i');
    reveal_strlit("awaiting_approval");
    assert("awaiting_approval"@.len() == 17);
    assert("awaiting_approval"@[0] == 'a');
    reveal_strlit("expired");
    assert("expired"@.len() == 7);
    assert("expired"@[0] == 'e');
    reveal_strlit("rejected");
    assert("rejected"@.len() == 8);
    assert("rejected"@[0] == 'r');
    reveal_strlit("authorized");
    assert("authorized"@.len() == 10);
    assert("authorized"@[0] == 'a');
    reveal_strlit("precondition_check");
    assert("precondition_check"@.len() == 18);
    assert("precondition_check"@[0] == 'p');
    reveal_strlit("stale");
    assert("stale"@.len() == 5);
    assert("stale"@[0] == 's');
    reveal_strlit("executing");
    assert("executing"@.len() == 9);
    assert("executing"@[0] == 'e');
    reveal_strlit("verifying");
    assert("verifying"@.len() == 9);
    assert("verifying"@[0] == 'v');
    reveal_strlit("succeeded");
    assert("succeeded"@.len() == 9);
    assert("succeeded"@[0] == 's');
    reveal_strlit("verification_failed");
    assert("verification_failed"@.len() == 19);
    assert("verification_failed"@[0] == 'v');
    reveal_strlit("rollback_proposed");
    assert("rollback_proposed"@.len() == 17);
    assert("rollback_proposed"@[0] == 'r');
    reveal_strlit("needs_reconciliation");
    assert("needs_reconciliation"@.len() == 20);
    assert("needs_reconciliation"@[0] == 'n');
}

impl ActionStatus {
    /// Nothing follows this status.
    pub open spec fn terminal(self) -> bool {
        self is PolicyDenied || self is Invalid || self is Expired || self is Rejected
            || self is Stale || self is Succeeded || self is RollbackProposed
            || self is NeedsReconciliation
    }

    pub fn is_terminal(self) -> (r: bool)
        ensures
            r == self.terminal(),
    {
        matches!(
            self,
            ActionStatus::PolicyDenied
                | ActionStatus::Invalid
                | ActionStatus::Expired
                | ActionStatus::Rejected
                | ActionStatus::Stale
                | ActionStatus::Succeeded
                | ActionStatus::RollbackProposed
                | ActionStatus::NeedsReconciliation
        )
    }

    /// `next` may follow this status.
    pub open spec fn leads_to(self, next: ActionStatus) -> bool {
        match self {
            ActionStatus::Proposed => next is PolicyDenied || next is DryRun,
            ActionStatus::DryRun => next is AwaitingApproval || next is Invalid,
            ActionStatus::AwaitingApproval => next is Expired || next is Rejected
                || next is Authorized,
            ActionStatus::Authorized => next is Expired || next is PreconditionCheck,
            ActionStatus::PreconditionCheck => next is Stale || next is Executing
                || next is NeedsReconciliation,
            ActionStatus::Executing => next is Verifying || next is NeedsReconciliation,
            ActionStatus::Verifying => next is Succeeded || next is VerificationFailed
                || next is NeedsReconciliation,
            ActionStatus::VerificationFailed => next is RollbackProposed,
            _ => false,
        }
    }

    pub fn can_transition(self, next: ActionStatus) -> (r: bool)
        ensures
            r == self.leads_to(next),
    {
        matches!(
            (self, next),
            (ActionStatus::Proposed, ActionStatus::PolicyDenied | ActionStatus::DryRun)
                | (ActionStatus::DryRun, ActionStatus::AwaitingApproval | ActionStatus::Invalid)
                | (
                    ActionStatus::AwaitingApproval,
                    ActionStatus::Expired | ActionStatus::Rejected | ActionStatus::Authorized
                )
                | (ActionStatus::Authorized, ActionStatus::Expired | ActionStatus::PreconditionCheck)
                | (
                    ActionStatus::PreconditionCheck,
                    ActionStatus::Stale | ActionStatus::Executing | ActionStatus::NeedsReconciliation
                )
                | (ActionStatus::Executing, ActionStatus::Verifying | ActionStatus::NeedsReconciliation)
                | (
                    ActionStatus::Verifying,
                    ActionStatus::Succeeded
                        | ActionStatus::VerificationFailed
                        | ActionStatus::NeedsReconciliation
                )
                | (ActionStatus::VerificationFailed, ActionStatus::RollbackProposed)
        )
    }
}

pub fn transition(from: ActionStatus, to: ActionStatus) -> (r: OpsResult<ActionStatus>)
    ensures
        match r {
            Ok(status) => from.leads_to(to) && status == to,
            Err(e) => !from.leads_to(to) && e@ == ErrorView::Protocol(
                "illegal action transition "@ + from.name() + " -> "@ + to.name(),
            ),
        },
{
    if from.can_transition(to) {
        Ok(to)
    } else {
        let mut message = "illegal action transition ".to_owned();
        message.append(from.as_str());
        message.append(" -> ");
        message.append(to.as_str());
        Err(OpsCodexError::Protocol(message))
    }
}

/// Exactly the terminal statuses lead nowhere.
pub proof fn law_terminal_leads_nowhere(status: ActionStatus)
    ensures
        status.terminal() <==> forall|next: ActionStatus| !status.leads_to(next),
{
    assert(ActionStatus::Proposed.leads_to(ActionStatus::DryRun));
    assert(ActionStatus::DryRun.leads_to(ActionStatus::Invalid));
    assert(ActionStatus::AwaitingApproval.leads_to(ActionStatus::Rejected));
    assert(ActionStatus::Authorized.leads_to(ActionStatus::Expired));
    assert(ActionStatus::PreconditionCheck.leads_to(ActionStatus::Stale));
    assert(ActionStatus::Executing.leads_to(ActionStatus::Verifying));
    assert(ActionStatus::Verifying.leads_to(ActionStatus::Succeeded));
    assert(ActionStatus::VerificationFailed.leads_to(ActionStatus::RollbackProposed));
}

/// Each status of the history leads to the next.
pub open spec fn lawful_history(history: Seq<ActionStatus>) -> bool {
    forall|i: int|
        0 <= i < history.len() - 1 ==> (#[trigger] history[i]).leads_to(history[i + 1])
}

/// An action that began as a proposal executes only after it was dry-run,
/// awaited approval, was authorized and had its preconditions checked, in this
/// order.
pub proof fn law_execution_needs_authorization(history: Seq<ActionStatus>)
    requires
        lawful_history(history),
        history.len() > 0,
        history[0] == ActionStatus::Proposed,
        history.last() == ActionStatus::Executing,
    ensures
        history.len() >= 6,
        history[history.len() - 2] == ActionStatus::PreconditionCheck,
        history[history.len() - 3] == ActionStatus::Authorized,
        history[history.len() - 4] == ActionStatus::AwaitingApproval,
        history[history.len() - 5] == ActionStatus::DryRun,
{
    let n = history.len() as int;
    assert(n > 1);
    assert(history[n - 2].leads_to(history[n - 1]));
    assert(history[n - 2] == ActionStatus::PreconditionCheck);
    assert(history[n - 3].leads_to(history[n - 2]));
    assert(history[n - 3] == ActionStatus::Authorized);
    assert(history[n - 4].leads_to(history[n - 3]));
    assert(history[n - 4] == ActionStatus::AwaitingApproval);
    assert(history[n - 5].leads_to(history[n - 4]));
    assert(history[n - 5] == ActionStatus::DryRun);
}

// ---------------------------------------------------------------------------
// Records
// ---------------------------------------------------------------------------
#[derive(Debug)]
pub struct ActionPlan {
    pub plan_id: PlanId,
    pub workspace_id: WorkspaceId,
    pub thread_id: ThreadId,
    pub diagnosis_claim_ids: Vec<ClaimId>,
    pub actions: Vec<ActionRecord>,
    pub created_at: Timestamp,
    pub expires_at: Timestamp,
}

#[derive(Debug)]
pub struct ActionRecord {
    pub action_id: ActionId,
    pub plan_id: PlanId,
    pub workspace_id: WorkspaceId,
    pub thread_id: ThreadId,
    pub tool_id: String,
    pub tool_version: String,
    pub schema_hash: String,
    pub effect: String,
    pub normalized_target: String,
    pub normalized_parameters: Json,
    pub preconditions: Vec<String>,
    pub expected_effect: String,
    pub dry_run_result: Option<String>,
    pub verification_spec: String,
    pub rollback_spec: Option<String>,
    pub blast_radius: String,
    pub operation_id: String,
    pub request_hash: String,
    pub status: ActionStatus,
    pub approval_id: Option<ApprovalId>,
    pub consumed_approval: bool,
    pub expires_at: Timestamp,
    pub updated_at: Timestamp,
}

impl ActionRecord {
    /// The two records hold the same values.
    pub open spec fn same_as(&self, other: &ActionRecord) -> bool {
        &&& self.action_id == other.action_id
        &&& self.plan_id == other.plan_id
        &&& self.workspace_id@ == other.workspace_id@
        &&& self.thread_id == other.thread_id
        &&& self.tool_id@ == other.tool_id@
        &&& self.tool_version@ == other.tool_version@
        &&& self.schema_hash@ == other.schema_hash@
        &&& self.effect@ == other.effect@
        &&& self.normalized_target@ == other.normalized_target@
        &&& self.normalized_parameters@ == other.normalized_parameters@
        &&& views(self.preconditions@) == views(other.preconditions@)
        &&& self.expected_effect@ == other.expected_effect@
        &&& string_view(self.dry_run_result) == string_view(other.dry_run_result)
        &&& self.verification_spec@ == other.verification_spec@
        &&& string_view(self.rollback_spec) == string_view(other.rollback_spec)
        &&& self.blast_radius@ == other.blast_radius@
        &&& self.operation_id@ == other.operation_id@
        &&& self.request_hash@ == other.request_hash@
        &&& self.status == other.status
        &&& self.approval_id == other.approval_id
        &&& self.consumed_approval == other.consumed_approval
        &&& self.expires_at == other.expires_at
        &&& self.updated_at == other.updated_at
    }
}

impl Clone for ActionRecord {
    fn clone(&self) -> (r: Self)
        ensures
            r.same_as(self),
    {
        ActionRecord {
            action_id: self.action_id,
            plan_id: self.plan_id,
            workspace_id: self.workspace_id.clone(),
            thread_id: self.thread_id,
            tool_id: self.tool_id.clone(),
            tool_version: self.tool_version.clone(),
            schema_hash: self.schema_hash.clone(),
            effect: self.effect.clone(),
            normalized_target: self.normalized_target.clone(),
            normalized_parameters: self.normalized_parameters.clone(),
            preconditions: self.preconditions.clone(),
            expected_effect: self.expected_effect.clone(),
            dry_run_result: self.dry_run_result.clone(),
            verification_spec: self.verification_spec.clone(),
            rollback_spec: self.rollback_spec.clone(),
            blast_radius: self.blast_radius.clone(),
            operation_id: self.operation_id.clone(),
            request_hash: self.request_hash.clone(),
            status: self.status,
            approval_id: self.approval_id,
            consumed_approval: self.consumed_approval,
            expires_at: self.expires_at,
            updated_at: self.updated_at,
        }
    }
}

/// What an operator reviews of an action, keys in order.
pub open spec fn review_entries(action: &ActionRecord) -> Seq<(Seq<char>, JsonView)> {
        seq![
            ("action_id"@, JsonView::Text(action.action_id.text())),
            ("blast_radius"@, JsonView::Text(action.blast_radius@)),
            ("dry_run"@, optional_text(string_view(action.dry_run_result))),
            ("effect"@, JsonView::Text(action.effect@)),
            ("expected_effect"@, JsonView::Text(action.expected_effect@)),
            ("expires_at"@, JsonView::Text(action.expires_at.zulu())),
            ("operation_id"@, JsonView::Text(action.operation_id@)),
            ("parameters"@, action.normalized_parameters@),
            ("preconditions"@, texts_view(views(action.preconditions@))),
            ("request_hash"@, JsonView::Text(action.request_hash@)),
            ("rollback"@, optional_text(string_view(action.rollback_spec))),
            ("status"@, JsonView::Text(action.status.name())),
            ("target"@, JsonView::Text(action.normalized_target@)),
            ("tool_id"@, JsonView::Text(action.tool_id@)),
            ("tool_version"@, JsonView::Text(action.tool_version@)),
            ("verification"@, JsonView::Text(action.verification_spec@)),
        ]
}

pub open spec fn review_view(action: &ActionRecord) -> JsonView {
    JsonView::Object(review_entries(action))
}

impl ActionRecord {
    pub fn review_summary(&self) -> (r: Json)
        ensures
            r@ == review_view(self),
    {
        let mut entries: Vec<JsonEntry> = Vec::new();
        push_entry(&mut entries, "action_id", Json::Text(self.action_id.to_string()));
        push_entry(&mut entries, "blast_radius", Json::text(self.blast_radius.as_str()));
        push_entry(&mut entries, "dry_run", Json::optional_text(&self.dry_run_result));
        push_entry(&mut entries, "effect", Json::text(self.effect.as_str()));
        push_entry(&mut entries, "expected_effect", Json::text(self.expected_effect.as_str()));
        push_entry(&mut entries, "expires_at", Json::Text(self.expires_at.to_zulu()));
        push_entry(&mut entries, "operation_id", Json::text(self.operation_id.as_str()));
        push_entry(&mut entries, "parameters", self.normalized_parameters.clone());
        push_entry(&mut entries, "preconditions", Json::texts(&self.preconditions));
        push_entry(&mut entries, "request_hash", Json::text(self.request_hash.as_str()));
        push_entry(&mut entries, "rollback", Json::optional_text(&self.rollback_spec));
        push_entry(&mut entries, "status", Json::text(self.status.as_str()));
        push_entry(&mut entries, "target", Json::text(self.normalized_target.as_str()));
        push_entry(&mut entries, "tool_id", Json::text(self.tool_id.as_str()));
        push_entry(&mut entries, "tool_version", Json::text(self.tool_version.as_str()));
        push_entry(&mut entries, "verification", Json::text(self.verification_spec.as_str()));
        assert(entries_view(entries@) =~= review_entries(self));
        Json::Object(entries)
    }
}

// ---------------------------------------------------------------------------
// The hash that an approval binds
// ---------------------------------------------------------------------------
/// The bytes that the request hash covers.
pub open spec fn action_preimage(a: &ActionRecord) -> Seq<u8> {
    preimage_start("action-request"@)
        + field("workspace_id"@, encode_utf8(a.workspace_id@))
        + field("tool_id"@, encode_utf8(a.tool_id@))
        + field("tool_version"@, encode_utf8(a.tool_version@))
        + field("schema_hash"@, encode_utf8(a.schema_hash@))
        + field("normalized_target"@, encode_utf8(a.normalized_target@))
        + field("normalized_parameters"@, map_bytes(a.normalized_parameters@))
        + list_field("preconditions"@, views(a.preconditions@))
        + field("verification_spec"@, encode_utf8(a.verification_spec@))
        + field("effect"@, encode_utf8(a.effect@))
        + field("operation_id"@, encode_utf8(a.operation_id@))
        + field("expires_at"@, encode_utf8(a.expires_at.rfc3339()))
}

/// The lengths of what is hashed fit into their prefixes.
pub open spec fn action_fits(a: &ActionRecord) -> bool {
    &&& fits(encode_utf8(a.workspace_id@))
    &&& fits(encode_utf8(a.tool_id@))
    &&& fits(encode_utf8(a.tool_version@))
    &&& fits(encode_utf8(a.schema_hash@))
    &&& fits(encode_utf8(a.normalized_target@))
    &&& fits(map_bytes(a.normalized_parameters@))
    &&& list_fits(views(a.preconditions@))
    &&& fits(encode_utf8(a.verification_spec@))
    &&& fits(encode_utf8(a.effect@))
    &&& fits(encode_utf8(a.operation_id@))
    &&& fits(encode_utf8(a.expires_at.rfc3339()))
}

pub fn action_request_hash(action: &ActionRecord) -> (r: String)
    ensures
        r@ == sha256_text(action_preimage(action)),
        r@.len() == 64,
{
    let parameters = action.normalized_parameters.to_map_bytes();
    let expires_at = action.expires_at.to_rfc3339();
    let mut hasher = Preimage::canonical("action-request");
    hasher.push_field("workspace_id", action.workspace_id.as_str().as_bytes());
    hasher.push_field("tool_id", action.tool_id.as_str().as_bytes());
    hasher.push_field("tool_version", action.tool_version.as_str().as_bytes());
    hasher.push_field("schema_hash", action.schema_hash.as_str().as_bytes());
    hasher.push_field("normalized_target", action.normalized_target.as_str().as_bytes());
    hasher.push_field("normalized_parameters", parameters.as_slice());
    hasher.push_string_list("preconditions", &action.preconditions);
    hasher.push_field("verification_spec", action.verification_spec.as_str().as_bytes());
    hasher.push_field("effect", action.effect.as_str().as_bytes());
    hasher.push_field("operation_id", action.operation_id.as_str().as_bytes());
    hasher.push_field("expires_at", expires_at.as_str().as_bytes());
    hasher.finish()
}

proof fn lemma_regroup(a: Seq<u8>, b: Seq<u8>, c: Seq<u8>)
    ensures
        (a + b) + c == a + (b + c),
{
    assert((a + b) + c =~= a + (b + c));
}

/// Two requests with the same hash input ask for the same thing: the same
/// workspace, tool, target, parameters, preconditions, verification, effect,
/// operation and expiry.
pub proof fn law_request_input_binds_request(a: &ActionRecord, b: &ActionRecord)
    requires
        action_fits(a),
        action_fits(b),
        crate::json_law::valid(a.normalized_parameters@),
        crate::json_law::valid(b.normalized_parameters@),
        action_preimage(a) == action_preimage(b),
    ensures
        a.workspace_id@ == b.workspace_id@,
        a.tool_id@ == b.tool_id@,
        a.tool_version@ == b.tool_version@,
        a.schema_hash@ == b.schema_hash@,
        a.normalized_target@ == b.normalized_target@,
        mapped(a.normalized_parameters@) == mapped(b.normalized_parameters@),
        views(a.preconditions@) == views(b.preconditions@),
        a.verification_spec@ == b.verification_spec@,
        a.effect@ == b.effect@,
        a.operation_id@ == b.operation_id@,
        a.expires_at.rfc3339() == b.expires_at.rfc3339(),
{
    let start = preimage_start("action-request"@);
    let af0 = field("workspace_id"@, encode_utf8(a.workspace_id@));
    let af1 = field("tool_id"@, encode_utf8(a.tool_id@));
    let af2 = field("tool_version"@, encode_utf8(a.tool_version@));
    let af3 = field("schema_hash"@, encode_utf8(a.schema_hash@));
    let af4 = field("normalized_target"@, encode_utf8(a.normalized_target@));
    let af5 = field("normalized_parameters"@, map_bytes(a.normalized_parameters@));
    let af6 = list_field("preconditions"@, views(a.preconditions@));
    let af7 = field("verification_spec"@, encode_utf8(a.verification_spec@));
    let af8 = field("effect"@, encode_utf8(a.effect@));
    let af9 = field("operation_id"@, encode_utf8(a.operation_id@));
    let af10 = field("expires_at"@, encode_utf8(a.expires_at.rfc3339()));
    let at11 = Seq::<u8>::empty();
    let at10 = af10 + at11;
    let at9 = af9 + at10;
    let at8 = af8 + at9;
    let at7 = af7 + at8;
    let at6 = af6 + at7;
    let at5 = af5 + at6;
    let at4 = af4 + at5;
    let at3 = af3 + at4;
    let at2 = af2 + at3;
    let at1 = af1 + at2;
    let at0 = af0 + at1;
    let as0 = start;
    let as1 = as0 + af0;
    let as2 = as1 + af1;
    let as3 = as2 + af2;
    let as4 = as3 + af3;
    let as5 = as4 + af4;
    let as6 = as5 + af5;
    let as7 = as6 + af6;
    let as8 = as7 + af7;
    let as9 = as8 + af8;
    let as10 = as9 + af9;
    let as11 = as10 + af10;
    assert(as11 == action_preimage(a));
    assert(as11 + at11 =~= as11);
    lemma_regroup(as10, af10, at11);
    lemma_regroup(as9, af9, at10);
    lemma_regroup(as8, af8, at9);
    lemma_regroup(as7, af7, at8);
    lemma_regroup(as6, af6, at7);
    lemma_regroup(as5, af5, at6);
    lemma_regroup(as4, af4, at5);
    lemma_regroup(as3, af3, at4);
    lemma_regroup(as2, af2, at3);
    lemma_regroup(as1, af1, at2);
    lemma_regroup(as0, af0, at1);
    assert(as11 == start + at0);
    let bf0 = field("workspace_id"@, encode_utf8(b.workspace_id@));
    let bf1 = field("tool_id"@, encode_utf8(b.tool_id@));
    let bf2 = field("tool_version"@, encode_utf8(b.tool_version@));
    let bf3 = field("schema_hash"@, encode_utf8(b.schema_hash@));
    let bf4 = field("normalized_target"@, encode_utf8(b.normalized_target@));
    let bf5 = field("normalized_parameters"@, map_bytes(b.normalized_parameters@));
    let bf6 = list_field("preconditions"@, views(b.preconditions@));
    let bf7 = field("verification_spec"@, encode_utf8(b.verification_spec@));
    let bf8 = field("effect"@, encode_utf8(b.effect@));
    let bf9 = field("operation_id"@, encode_utf8(b.operation_id@));
    let bf10 = field("expires_at"@, encode_utf8(b.expires_at.rfc3339()));
    let bt11 = Seq::<u8>::empty();
    let bt10 = bf10 + bt11;
    let bt9 = bf9 + bt10;
    let bt8 = bf8 + bt9;
    let bt7 = bf7 + bt8;
    let bt6 = bf6 + bt7;
    let bt5 = bf5 + bt6;
    let bt4 = bf4 + bt5;
    let bt3 = bf3 + bt4;
    let bt2 = bf2 + bt3;
    let bt1 = bf1 + bt2;
    let bt0 = bf0 + bt1;
    let bs0 = start;
    let bs1 = bs0 + bf0;
    let bs2 = bs1 + bf1;
    let bs3 = bs2 + bf2;
    let bs4 = bs3 + bf3;
    let bs5 = bs4 + bf4;
    let bs6 = bs5 + bf5;
    let bs7 = bs6 + bf6;
    let bs8 = bs7 + bf7;
    let bs9 = bs8 + bf8;
    let bs10 = bs9 + bf9;
    let bs11 = bs10 + bf10;
    assert(bs11 == action_preimage(b));
    assert(bs11 + bt11 =~= bs11);
    lemma_regroup(bs10, bf10, bt11);
    lemma_regroup(bs9, bf9, bt10);
    lemma_regroup(bs8, bf8, bt9);
    lemma_regroup(bs7, bf7, bt8);
    lemma_regroup(bs6, bf6, bt7);
    lemma_regroup(bs5, bf5, bt6);
    lemma_regroup(bs4, bf4, bt5);
    lemma_regroup(bs3, bf3, bt4);
    lemma_regroup(bs2, bf2, bt3);
    lemma_regroup(bs1, bf1, bt2);
    lemma_regroup(bs0, bf0, bt1);
    assert(bs11 == start + bt0);
    assert(at0 =~= (start + at0).skip(start.len() as int));
    assert(bt0 =~= (start + bt0).skip(start.len() as int));
    lemma_field_unique("workspace_id"@, encode_utf8(a.workspace_id@), encode_utf8(b.workspace_id@), at1, bt1);
    lemma_field_unique("tool_id"@, encode_utf8(a.tool_id@), encode_utf8(b.tool_id@), at2, bt2);
    lemma_field_unique("tool_version"@, encode_utf8(a.tool_version@), encode_utf8(b.tool_version@), at3, bt3);
    lemma_field_unique("schema_hash"@, encode_utf8(a.schema_hash@), encode_utf8(b.schema_hash@), at4, bt4);
    lemma_field_unique("normalized_target"@, encode_utf8(a.normalized_target@), encode_utf8(b.normalized_target@), at5, bt5);
    lemma_field_unique("normalized_parameters"@, map_bytes(a.normalized_parameters@), map_bytes(b.normalized_parameters@), at6, bt6);
    lemma_list_field_unique("preconditions"@, views(a.preconditions@), views(b.preconditions@), at7, bt7);
    lemma_field_unique("verification_spec"@, encode_utf8(a.verification_spec@), encode_utf8(b.verification_spec@), at8, bt8);
    lemma_field_unique("effect"@, encode_utf8(a.effect@), encode_utf8(b.effect@), at9, bt9);
    lemma_field_unique("operation_id"@, encode_utf8(a.operation_id@), encode_utf8(b.operation_id@), at10, bt10);
    lemma_field_unique("expires_at"@, encode_utf8(a.expires_at.rfc3339()), encode_utf8(b.expires_at.rfc3339()), at11, bt11);
    lemma_utf8_injective(a.workspace_id@, b.workspace_id@);
    lemma_utf8_injective(a.tool_id@, b.tool_id@);
    lemma_utf8_injective(a.tool_version@, b.tool_version@);
    lemma_utf8_injective(a.schema_hash@, b.schema_hash@);
    lemma_utf8_injective(a.normalized_target@, b.normalized_target@);
    law_bytes_determine_map(a.normalized_parameters@, b.normalized_parameters@);
    lemma_utf8_injective(a.verification_spec@, b.verification_spec@);
    lemma_utf8_injective(a.effect@, b.effect@);
    lemma_utf8_injective(a.operation_id@, b.operation_id@);
    lemma_utf8_injective(a.expires_at.rfc3339(), b.expires_at.rfc3339());
}

pub open spec fn demo_properties() -> Seq<(Seq<char>, JsonView)> {
    seq![
        ("mode"@, JsonView::Object(seq![("const"@, JsonView::Text("normal"@))])),
        ("service"@, JsonView::Object(seq![("const"@, JsonView::Text("order-service"@))])),
    ]
}

pub open spec fn replicas_schema() -> Seq<(Seq<char>, JsonView)> {
    seq![
        ("maximum"@, JsonView::Number(NumberView::PosInt(16))),
        ("minimum"@, JsonView::Number(NumberView::PosInt(1))),
        ("type"@, JsonView::Text("integer"@)),
    ]
}

pub open spec fn scale_properties() -> Seq<(Seq<char>, JsonView)> {
    seq![
        (
            "kind"@,
            JsonView::Object(
                seq![
                    (
                        "enum"@,
                        JsonView::Array(
                            seq![JsonView::Text("Deployment"@), JsonView::Text("StatefulSet"@)],
                        ),
                    ),
                ],
            ),
        ),
        ("name"@, JsonView::Object(seq![("type"@, JsonView::Text("string"@))])),
        ("namespace"@, JsonView::Object(seq![("type"@, JsonView::Text("string"@))])),
        ("replicas"@, JsonView::Object(replicas_schema())),
    ]
}

/// The parameter schema of a remediation tool, keys in order.
pub open spec fn tool_schema_entries(tool_id: Seq<char>) -> Seq<(Seq<char>, JsonView)> {
    if tool_id == "demo_fault_reset"@ {
        seq![
            ("properties"@, JsonView::Object(demo_properties())),
            (
                "required"@,
                JsonView::Array(seq![JsonView::Text("service"@), JsonView::Text("mode"@)]),
            ),
            ("type"@, JsonView::Text("object"@)),
        ]
    } else if tool_id == "k8s_scale"@ {
        seq![
            ("properties"@, JsonView::Object(scale_properties())),
            (
                "required"@,
                JsonView::Array(
                    seq![
                        JsonView::Text("kind"@),
                        JsonView::Text("namespace"@),
                        JsonView::Text("name"@),
                        JsonView::Text("replicas"@),
                    ],
                ),
            ),
            ("type"@, JsonView::Text("object"@)),
        ]
    } else {
        seq![("type"@, JsonView::Text("object"@))]
    }
}

pub open spec fn tool_schema(tool_id: Seq<char>) -> JsonView {
    JsonView::Object(tool_schema_entries(tool_id))
}

/// An object with one text entry.
fn single(key: &str, value: &str) -> (r: Json)
    ensures
        r@ == JsonView::Object(seq![(key@, JsonView::Text(value@))]),
{
    let mut entries: Vec<JsonEntry> = Vec::new();
    push_entry(&mut entries, key, Json::text(value));
    Json::Object(entries)
}

fn schema_for(tool_id: &str) -> (r: Json)
    ensures
        r@ == tool_schema(tool_id@),
{
    let mut schema: Vec<JsonEntry> = Vec::new();
    if same(tool_id, DEMO_FAULT_TOOL) {
        let mut properties: Vec<JsonEntry> = Vec::new();
        push_entry(&mut properties, "mode", single("const", "normal"));
        push_entry(&mut properties, "service", single("const", "order-service"));
        let mut required: Vec<Json> = Vec::new();
        push_item(&mut required, Json::text("service"));
        push_item(&mut required, Json::text("mode"));
        assert(entries_view(properties@) =~= demo_properties());
        assert(items_view(required@) =~= seq![JsonView::Text("service"@), JsonView::Text("mode"@)]);
        push_entry(&mut schema, "properties", Json::Object(properties));
        push_entry(&mut schema, "required", Json::Array(required));
    } else if same(tool_id, K8S_SCALE_TOOL) {
        let mut kinds: Vec<Json> = Vec::new();
        push_item(&mut kinds, Json::text("Deployment"));
        push_item(&mut kinds, Json::text("StatefulSet"));
        assert(items_view(kinds@) =~= seq![
            JsonView::Text("Deployment"@),
            JsonView::Text("StatefulSet"@),
        ]);
        let mut kind: Vec<JsonEntry> = Vec::new();
        push_entry(&mut kind, "enum", Json::Array(kinds));
        let mut replicas: Vec<JsonEntry> = Vec::new();
        push_entry(&mut replicas, "maximum", Json::number(16));
        push_entry(&mut replicas, "minimum", Json::number(1));
        push_entry(&mut replicas, "type", Json::text("integer"));
        assert(entries_view(replicas@) =~= replicas_schema());
        let mut properties: Vec<JsonEntry> = Vec::new();
        push_entry(&mut properties, "kind", Json::Object(kind));
        push_entry(&mut properties, "name", single("type", "string"));
        push_entry(&mut properties, "namespace", single("type", "string"));
        push_entry(&mut properties, "replicas", Json::Object(replicas));
        let mut required: Vec<Json> = Vec::new();
        push_item(&mut required, Json::text("kind"));
        push_item(&mut required, Json::text("namespace"));
        push_item(&mut required, Json::text("name"));
        push_item(&mut required, Json::text("replicas"));
        assert(entries_view(properties@) =~= scale_properties());
        assert(items_view(required@) =~= seq![
            JsonView::Text("kind"@),
            JsonView::Text("namespace"@),
            JsonView::Text("name"@),
            JsonView::Text("replicas"@),
        ]);
        push_entry(&mut schema, "properties", Json::Object(properties));
        push_entry(&mut schema, "required", Json::Array(required));
    }
    push_entry(&mut schema, "type", Json::text("object"));
    assert(entries_view(schema@) =~= tool_schema_entries(tool_id@));
    Json::Object(schema)
}

pub fn schema_hash_for(tool_id: &str) -> (r: String)
    ensures
        r@ == sha256_text(bytes_of(tool_schema(tool_id@))),
        r@.len() == 64,
{
    sha256_hex(schema_for(tool_id).to_bytes().as_slice())
}

// ---------------------------------------------------------------------------
// Audit log
// ---------------------------------------------------------------------------
#[derive(Debug)]
pub struct AuditRecord {
    pub seq: i64,
    pub record_hash: String,
    pub previous_hash: String,
    pub actor: String,
    pub workspace_id: Option<String>,
    pub operation: String,
    pub summary: Json,
    pub created_at: Timestamp,
}

/// The bytes of an optional text.
pub open spec fn optional_bytes(text: Option<Seq<char>>) -> Option<Seq<u8>> {
    match text {
        Some(text) => Some(encode_utf8(text)),
        None => None,
    }
}

/// The bytes that the hash of an audit record covers.
#[verifier::opaque]
pub open spec fn audit_preimage(
    previous_hash: Seq<char>,
    actor: Seq<char>,
    workspace_id: Option<Seq<char>>,
    operation: Seq<char>,
    summary: JsonView,
    created_at: Timestamp,
) -> Seq<u8> {
    preimage_start("audit-record"@)
        + field("previous_hash"@, encode_utf8(previous_hash))
        + field("actor"@, encode_utf8(actor))
        + optional_field("workspace_id"@, optional_bytes(workspace_id))
        + field("operation"@, encode_utf8(operation))
        + field("summary"@, map_bytes(summary))
        + field("created_at"@, encode_utf8(created_at.rfc3339()))
}

pub fn audit_record_hash(
    previous_hash: &str,
    actor: &str,
    workspace_id: Option<&str>,
    operation: &str,
    summary: &Json,
    created_at: Timestamp,
) -> (r: String)
    ensures
        r@ == sha256_text(
            audit_preimage(
                previous_hash@,
                actor@,
                str_view(workspace_id),
                operation@,
                summary@,
                created_at,
            ),
        ),
        r@.len() == 64,
{
    proof {
        reveal(audit_preimage);
    }
    let summary = summary.to_map_bytes();
    let created_at = created_at.to_rfc3339();
    let workspace = match workspace_id {
        Some(text) => Some(text.as_bytes()),
        None => None,
    };
    let mut hasher = Preimage::canonical("audit-record");
    hasher.push_field("previous_hash", previous_hash.as_bytes());
    hasher.push_field("actor", actor.as_bytes());
    hasher.push_optional_field("workspace_id", workspace);
    hasher.push_field("operation", operation.as_bytes());
    hasher.push_field("summary", summary.as_slice());
    hasher.push_field("created_at", created_at.as_str().as_bytes());
    hasher.finish()
}

impl AuditRecord {
    /// The bytes that the record's hash covers.
    pub open spec fn preimage(&self) -> Seq<u8> {
        audit_preimage(
            self.previous_hash@,
            self.actor@,
            string_view(self.workspace_id),
            self.operation@,
            self.summary@,
            self.created_at,
        )
    }

    /// The hash that the record should carry.
    pub open spec fn expected_hash(&self) -> Seq<char> {
        sha256_text(self.preimage())
    }

    /// The two records report the same event after the same record.
    #[verifier::opaque]
    pub open spec fn same_report(&self, other: &AuditRecord) -> bool {
        &&& self.previous_hash@ == other.previous_hash@
        &&& self.actor@ == other.actor@
        &&& string_view(self.workspace_id) == string_view(other.workspace_id)
        &&& self.operation@ == other.operation@
        &&& mapped(self.summary@) == mapped(other.summary@)
        &&& self.created_at.rfc3339() == other.created_at.rfc3339()
    }

    /// The lengths of what is hashed fit into their prefixes, and the numbers
    /// of the summary are numbers.
    #[verifier::opaque]
    pub open spec fn hashable(&self) -> bool {
        &&& fits(encode_utf8(self.previous_hash@))
        &&& fits(encode_utf8(self.actor@))
        &&& string_view(self.workspace_id) matches Some(text) ==> fits(encode_utf8(text))
        &&& fits(encode_utf8(self.operation@))
        &&& fits(map_bytes(self.summary@))
        &&& fits(encode_utf8(self.created_at.rfc3339()))
        &&& crate::json_law::valid(self.summary@)
    }
}

/// What is wrong with a log whose first record should follow `previous`.
pub open spec fn chain_error(records: Seq<AuditRecord>, previous: Seq<char>) -> Option<ErrorView>
    decreases records.len(),
{
    if records.len() == 0 {
        None
    } else if records[0].previous_hash@ != previous {
        Some(ErrorView::Storage("audit hash chain previous hash mismatch"@))
    } else if records[0].record_hash@ != records[0].expected_hash() {
        Some(ErrorView::Storage("audit hash chain record hash mismatch"@))
    } else {
        chain_error(records.skip(1), records[0].record_hash@)
    }
}

/// The log is a chain of records from the beginning.
pub open spec fn chained(records: Seq<AuditRecord>) -> bool {
    chain_error(records, "genesis"@) is None
}

/// The record that comes next in a log: it names the last hash, and carries its own.
pub fn next_record(
    log: &Vec<AuditRecord>,
    actor: &str,
    workspace_id: Option<&str>,
    operation: &str,
    summary: Json,
    created_at: Timestamp,
) -> (r: AuditRecord)
    requires
        log@.len() < i64::MAX,
    ensures
        r.seq == log@.len() + 1,
        r.previous_hash@ == chain_head(log@),
        r.record_hash@ == r.expected_hash(),
        r.actor@ == actor@,
        string_view(r.workspace_id) == str_view(workspace_id),
        r.operation@ == operation@,
        r.summary == summary,
        r.created_at == created_at,
        chained(log@) ==> chained(log@.push(r)),
{
    let previous_hash = if log.len() == 0 {
        "genesis".to_owned()
    } else {
        log[log.len() - 1].record_hash.clone()
    };
    let record_hash = audit_record_hash(
        previous_hash.as_str(),
        actor,
        workspace_id,
        operation,
        &summary,
        created_at,
    );
    let record = AuditRecord {
        seq: log.len() as i64 + 1,
        record_hash,
        previous_hash,
        actor: actor.to_owned(),
        workspace_id: match workspace_id {
            Some(text) => Some(text.to_owned()),
            None => None,
        },
        operation: operation.to_owned(),
        summary,
        created_at,
    };
    proof {
        if chained(log@) {
            law_append_keeps_chain(log@, record);
        }
    }
    record
}

pub fn verify_audit_chain(records: &Vec<AuditRecord>) -> (r: OpsResult<()>)
    ensures
        match r {
            Ok(_) => chained(records@),
            Err(e) => chain_error(records@, "genesis"@) == Some(e@),
        },
{
    let mut previous = "genesis".to_owned();
    let mut i: usize = 0;
    assert(records@.skip(0) =~= records@);
    while i < records.len()
        invariant
            i <= records@.len(),
            chain_error(records@, "genesis"@) == chain_error(records@.skip(i as int), previous@),
        decreases records@.len() - i,
    {
        let record = &records[i];
        proof {
            assert(records@.skip(i as int)[0] == *record);
            assert(records@.skip(i as int).skip(1) =~= records@.skip(i + 1));
        }
        if !same(record.previous_hash.as_str(), previous.as_str()) {
            return Err(
                OpsCodexError::Storage("audit hash chain previous hash mismatch".to_owned()),
            );
        }
        let workspace_id = match &record.workspace_id {
            Some(text) => Some(text.as_str()),
            None => None,
        };
        let expected = audit_record_hash(
            record.previous_hash.as_str(),
            record.actor.as_str(),
            workspace_id,
            record.operation.as_str(),
            &record.summary,
            record.created_at,
        );
        if !same(expected.as_str(), record.record_hash.as_str()) {
            return Err(OpsCodexError::Storage("audit hash chain record hash mismatch".to_owned()));
        }
        previous = record.record_hash.clone();
        i += 1;
    }
    Ok(())
}

/// The hash that the next record of a log must name.
pub open spec fn chain_head(records: Seq<AuditRecord>) -> Seq<char> {
    if records.len() == 0 {
        "genesis"@
    } else {
        records.last().record_hash@
    }
}

proof fn lemma_chain_push(records: Seq<AuditRecord>, record: AuditRecord, previous: Seq<char>)
    requires
        chain_error(records, previous) is None,
        record.previous_hash@ == (if records.len() == 0 {
            previous
        } else {
            records.last().record_hash@
        }),
        record.record_hash@ == record.expected_hash(),
    ensures
        chain_error(records.push(record), previous) is None,
    decreases records.len(),
{
    let all = records.push(record);
    if records.len() == 0 {
        assert(all[0] == record);
        assert(all.skip(1) =~= Seq::empty());
        assert(chain_error(Seq::<AuditRecord>::empty(), record.record_hash@) is None);
    } else {
        assert(all[0] == records[0]);
        assert(all.skip(1) =~= records.skip(1).push(record));
        if records.len() > 1 {
            assert(records.skip(1).last() == records.last());
        }
        lemma_chain_push(records.skip(1), record, records[0].record_hash@);
    }
}

/// Appending a record that names the last hash and carries its own keeps the
/// log a chain.
pub proof fn law_append_keeps_chain(records: Seq<AuditRecord>, record: AuditRecord)
    requires
        chained(records),
        record.previous_hash@ == chain_head(records),
        record.record_hash@ == record.expected_hash(),
    ensures
        chained(records.push(record)),
{
    lemma_chain_push(records, record, "genesis"@);
}

proof fn lemma_chain_hashes(records: Seq<AuditRecord>, previous: Seq<char>, i: int)
    requires
        chain_error(records, previous) is None,
        0 <= i < records.len(),
    ensures
        records[i].record_hash@ == records[i].expected_hash(),
        records[i].previous_hash@ == (if i == 0 {
            previous
        } else {
            records[i - 1].record_hash@
        }),
    decreases records.len(),
{
    if i > 0 {
        lemma_chain_hashes(records.skip(1), records[0].record_hash@, i - 1);
        assert(records.skip(1)[i - 1] == records[i]);
        if i > 1 {
            assert(records.skip(1)[i - 2] == records[i - 1]);
        }
    }
}

/// Two byte sequences share a digest.
pub open spec fn collision(x: Seq<u8>, y: Seq<u8>) -> bool {
    x != y && sha256(x) == sha256(y)
}

proof fn lemma_same_hash(a: AuditRecord, b: AuditRecord)
    requires
        a.hashable(),
        b.hashable(),
        a.expected_hash() == b.expected_hash(),
    ensures
        a.same_report(&b) || collision(a.preimage(), b.preimage()),
{
    crate::digest::law_hex_injective(sha256(a.preimage()), sha256(b.preimage()));
    if a.preimage() == b.preimage() {
        lemma_audit_input(a, b);
    }
}

proof fn lemma_audit_input(a: AuditRecord, b: AuditRecord)
    requires
        a.hashable(),
        b.hashable(),
        a.preimage() == b.preimage(),
    ensures
        a.same_report(&b),
{
    reveal(audit_preimage);
    reveal(AuditRecord::hashable);
    reveal(AuditRecord::same_report);
    let start = preimage_start("audit-record"@);
    let af0 = field("previous_hash"@, encode_utf8(a.previous_hash@));
    let af1 = field("actor"@, encode_utf8(a.actor@));
    let af2 = optional_field("workspace_id"@, optional_bytes(string_view(a.workspace_id)));
    let af3 = field("operation"@, encode_utf8(a.operation@));
    let af4 = field("summary"@, map_bytes(a.summary@));
    let af5 = field("created_at"@, encode_utf8(a.created_at.rfc3339()));
    let at6 = Seq::<u8>::empty();
    let at5 = af5 + at6;
    let at4 = af4 + at5;
    let at3 = af3 + at4;
    let at2 = af2 + at3;
    let at1 = af1 + at2;
    let at0 = af0 + at1;
    let as0 = start;
    let as1 = as0 + af0;
    let as2 = as1 + af1;
    let as3 = as2 + af2;
    let as4 = as3 + af3;
    let as5 = as4 + af4;
    let as6 = as5 + af5;
    assert(as6 == a.preimage());
    assert(as6 + at6 =~= as6);
    lemma_regroup(as5, af5, at6);
    lemma_regroup(as4, af4, at5);
    lemma_regroup(as3, af3, at4);
    lemma_regroup(as2, af2, at3);
    lemma_regroup(as1, af1, at2);
    lemma_regroup(as0, af0, at1);
    assert(as6 == start + at0);
    let bf0 = field("previous_hash"@, encode_utf8(b.previous_hash@));
    let bf1 = field("actor"@, encode_utf8(b.actor@));
    let bf2 = optional_field("workspace_id"@, optional_bytes(string_view(b.workspace_id)));
    let bf3 = field("operation"@, encode_utf8(b.operation@));
    let bf4 = field("summary"@, map_bytes(b.summary@));
    let bf5 = field("created_at"@, encode_utf8(b.created_at.rfc3339()));
    let bt6 = Seq::<u8>::empty();
    let bt5 = bf5 + bt6;
    let bt4 = bf4 + bt5;
    let bt3 = bf3 + bt4;
    let bt2 = bf2 + bt3;
    let bt1 = bf1 + bt2;
    let bt0 = bf0 + bt1;
    let bs0 = start;
    let bs1 = bs0 + bf0;
    let bs2 = bs1 + bf1;
    let bs3 = bs2 + bf2;
    let bs4 = bs3 + bf3;
    let bs5 = bs4 + bf4;
    let bs6 = bs5 + bf5;
    assert(bs6 == b.preimage());
    assert(bs6 + bt6 =~= bs6);
    lemma_regroup(bs5, bf5, bt6);
    lemma_regroup(bs4, bf4, bt5);
    lemma_regroup(bs3, bf3, bt4);
    lemma_regroup(bs2, bf2, bt3);
    lemma_regroup(bs1, bf1, bt2);
    lemma_regroup(bs0, bf0, bt1);
    assert(bs6 == start + bt0);
    assert(at0 =~= (start + at0).skip(start.len() as int));
    assert(bt0 =~= (start + bt0).skip(start.len() as int));
    lemma_field_unique("previous_hash"@, encode_utf8(a.previous_hash@), encode_utf8(b.previous_hash@), at1, bt1);
    lemma_field_unique("actor"@, encode_utf8(a.actor@), encode_utf8(b.actor@), at2, bt2);
    lemma_optional_field_unique("workspace_id"@, optional_bytes(string_view(a.workspace_id)), optional_bytes(string_view(b.workspace_id)), at3, bt3);
    lemma_field_unique("operation"@, encode_utf8(a.operation@), encode_utf8(b.operation@), at4, bt4);
    lemma_field_unique("summary"@, map_bytes(a.summary@), map_bytes(b.summary@), at5, bt5);
    lemma_field_unique("created_at"@, encode_utf8(a.created_at.rfc3339()), encode_utf8(b.created_at.rfc3339()), at6, bt6);
    lemma_utf8_injective(a.previous_hash@, b.previous_hash@);
    lemma_utf8_injective(a.actor@, b.actor@);
    lemma_utf8_injective(a.operation@, b.operation@);
    lemma_utf8_injective(a.created_at.rfc3339(), b.created_at.rfc3339());
    law_bytes_determine_map(a.summary@, b.summary@);
    match (a.workspace_id, b.workspace_id) {
        (Some(x), Some(y)) => {
            lemma_utf8_injective(x@, y@);
        },
        _ => {},
    }
}

/// A record of a verified log cannot be altered behind its hash: if the log
/// still verifies with another record of the same hash in its place, the record
/// reports the same event, or SHA-256 has collided.
pub proof fn law_tampering_breaks_chain(records: Seq<AuditRecord>, i: int, altered: AuditRecord)
    requires
        chained(records),
        0 <= i < records.len(),
        altered.record_hash@ == records[i].record_hash@,
        chained(records.update(i, altered)),
        records[i].hashable(),
        altered.hashable(),
    ensures
        altered.same_report(&records[i]) || collision(altered.preimage(), records[i].preimage()),
{
    let other = records.update(i, altered);
    lemma_chain_hashes(records, "genesis"@, i);
    lemma_chain_hashes(other, "genesis"@, i);
    assert(other[i] == altered);
    lemma_same_hash(altered, records[i]);
}

/// Every record of the log can be hashed.
pub open spec fn all_hashable(records: Seq<AuditRecord>) -> bool {
    forall|j: int| 0 <= j < records.len() ==> (#[trigger] records[j]).hashable()
}

/// The last hash of a verified log fixes every record before it, unless SHA-256
/// has collided: two verified logs of one length that end in the same hash
/// report the same events.
pub proof fn law_head_fixes_history(a: Seq<AuditRecord>, b: Seq<AuditRecord>, i: int)
    requires
        chained(a),
        chained(b),
        a.len() == b.len(),
        0 <= i < a.len(),
        a.last().record_hash@ == b.last().record_hash@,
        all_hashable(a),
        all_hashable(b),
    ensures
        a[i].same_report(&b[i]) || exists|j: int|
            i <= j < a.len() && collision(#[trigger] a[j].preimage(), b[j].preimage()),
    decreases a.len() - i,
{
    let n = a.len() as int;
    if forall|j: int|
        i <= j < n ==> !collision(#[trigger] a[j].preimage(), b[j].preimage()) {
        lemma_head_fixes(a, b, i);
    }
}

proof fn lemma_head_fixes(a: Seq<AuditRecord>, b: Seq<AuditRecord>, i: int)
    requires
        chained(a),
        chained(b),
        a.len() == b.len(),
        0 <= i < a.len(),
        a.last().record_hash@ == b.last().record_hash@,
        all_hashable(a),
        all_hashable(b),
        forall|j: int|
            i <= j < a.len() ==> !collision(#[trigger] a[j].preimage(), b[j].preimage()),
    ensures
        a[i].same_report(&b[i]),
        a[i].record_hash@ == b[i].record_hash@,
    decreases a.len() - i,
{
    reveal(AuditRecord::same_report);
    lemma_chain_hashes(a, "genesis"@, i);
    lemma_chain_hashes(b, "genesis"@, i);
    if i < a.len() - 1 {
        lemma_head_fixes(a, b, i + 1);
        lemma_chain_hashes(a, "genesis"@, i + 1);
        lemma_chain_hashes(b, "genesis"@, i + 1);
    }
    assert(a[i].hashable() && b[i].hashable());
    lemma_same_hash(a[i], b[i]);
    assert(!collision(a[i].preimage(), b[i].preimage()));
}

// ---------------------------------------------------------------------------
// Policy
// ---------------------------------------------------------------------------
pub struct ActionPolicyInput<'a> {
    pub workspace_id: &'a WorkspaceId,
    pub allow_remediation: bool,
    pub max_effect: Option<CapabilityEffect>,
    pub tool_id: &'a str,
    pub effect: CapabilityEffect,
    pub production_safe: bool,
    pub kill_switch: bool,
    pub remediation_enabled: bool,
}

/// The tool comes from an extension.
pub open spec fn extension_tool(tool_id: Seq<char>) -> bool {
    starts_with(tool_id, "mcp/"@) || starts_with(tool_id, "custom/"@)
}

/// The tool can never be used for remediation.
pub open spec fn remediation_denied(tool_id: Seq<char>) -> bool {
    extension_tool(tool_id) || tool_id == "exec"@
}

/// What the policy decides of an action.
pub open spec fn action_decision(input: &ActionPolicyInput<'_>) -> PolicyDecision {
    if input.kill_switch || !input.remediation_enabled || !input.allow_remediation
        || remediation_denied(input.tool_id@) {
        PolicyDecision::Deny
    } else if input.max_effect == Some(CapabilityEffect::Observe) && input.effect
        != CapabilityEffect::Observe {
        PolicyDecision::Deny
    } else {
        match input.effect {
            CapabilityEffect::Observe => PolicyDecision::Allow,
            CapabilityEffect::ChangeReversible => PolicyDecision::Ask,
            _ => PolicyDecision::Deny,
        }
    }
}

/// A change is never allowed without asking, and an irreversible change or a
/// side effect is never allowed at all.
pub fn evaluate_action(input: &ActionPolicyInput<'_>) -> (r: PolicyDecision)
    ensures
        r == action_decision(input),
        r == PolicyDecision::Allow ==> input.effect == CapabilityEffect::Observe,
        r == PolicyDecision::Ask ==> input.effect == CapabilityEffect::ChangeReversible,
        input.kill_switch ==> r == PolicyDecision::Deny,
{
    if input.kill_switch || !input.remediation_enabled || !input.allow_remediation {
        return PolicyDecision::Deny;
    }
    if deny_extension_remediation(input.tool_id) {
        return PolicyDecision::Deny;
    }
    if input.max_effect == Some(CapabilityEffect::Observe) && input.effect
        != CapabilityEffect::Observe {
        return PolicyDecision::Deny;
    }
    match input.effect {
        CapabilityEffect::Observe => PolicyDecision::Allow,
        CapabilityEffect::ChangeReversible => PolicyDecision::Ask,
        CapabilityEffect::ChangeIrreversible | CapabilityEffect::ExternalSideEffect => {
            PolicyDecision::Deny
        },
    }
}

pub fn is_extension_tool(tool_id: &str) -> (r: bool)
    ensures
        r == extension_tool(tool_id@),
{
    has_prefix(tool_id, "mcp/") || has_prefix(tool_id, "custom/")
}

pub fn deny_extension_remediation(tool_id: &str) -> (r: bool)
    ensures
        r == remediation_denied(tool_id@),
{
    is_extension_tool(tool_id) || same(tool_id, "exec")
}

} // verus!
