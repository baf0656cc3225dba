//! What survives a crash: turns, checkpoints, approvals and leases.
use vstd::prelude::*;
use vstd::utf8::encode_utf8;

use crate::digest::{sha256_hex, sha256_text};
use crate::json::{bytes_of, items_view, push_item, string_view, Json, JsonView};
use crate::json_map::{law_bytes_determine_map, map_bytes, mapped};
use crate::model::provider::{item_views, ItemView, ModelItem};
use crate::runtime::thread::{ApprovalId, ThreadId, TurnId, TurnStatus};
use crate::text::same;
use crate::time::Timestamp;

verus! {

/// Where a turn stood when it was last recorded.
#[derive(Clone, Copy, Debug, PartialEq, Eq, Structural)]
pub enum CheckpointPhase {
    Queued,
    ModelRunning,
    WaitingApproval,
    ToolRunning,
    ToolCompleted,
    Interrupted,
    NeedsReconciliation,
    Completed,
    Failed,
    Cancelled,
}

impl CheckpointPhase {
    /// The name under which the phase is written.
    pub open spec fn name(self) -> Seq<char> {
        match self {
            CheckpointPhase::Queued => "queued"@,
            CheckpointPhase::ModelRunning => "model_running"@,
            CheckpointPhase::WaitingApproval => "waiting_approval"@,
            CheckpointPhase::ToolRunning => "tool_running"@,
            CheckpointPhase::ToolCompleted => "tool_completed"@,
            CheckpointPhase::Interrupted => "interrupted"@,
            CheckpointPhase::NeedsReconciliation => "needs_reconciliation"@,
            CheckpointPhase::Completed => "completed"@,
            CheckpointPhase::Failed => "failed"@,
            CheckpointPhase::Cancelled => "cancelled"@,
        }
    }

    pub fn as_str(self) -> (r: &'static str)
        ensures
            r@ == self.name(),
    {
        match self {
            CheckpointPhase::Queued => "queued",
            CheckpointPhase::ModelRunning => "model_running",
            CheckpointPhase::WaitingApproval => "waiting_approval",
            CheckpointPhase::ToolRunning => "tool_running",
            CheckpointPhase::ToolCompleted => "tool_completed",
            CheckpointPhase::Interrupted => "interrupted",
            CheckpointPhase::NeedsReconciliation => "needs_reconciliation",
            CheckpointPhase::Completed => "completed",
            CheckpointPhase::Failed => "failed",
            CheckpointPhase::Cancelled => "cancelled",
        }
    }

    /// Reads the name of a phase; any other text is read as `Interrupted`.
    pub fn parse(value: &str) -> (r: Self)
        ensures
            r.name() == value@ || (r == CheckpointPhase::Interrupted && forall|v: CheckpointPhase| #[trigger] v.name() != value@),
    {
        if same(value, "queued") {
            CheckpointPhase::Queued
        } else if same(value, "model_running") {
            CheckpointPhase::ModelRunning
        } else if same(value, "waiting_approval") {
            CheckpointPhase::WaitingApproval
        } else if same(value, "tool_running") {
            CheckpointPhase::ToolRunning
        } else if same(value, "tool_completed") {
            CheckpointPhase::ToolCompleted
        } else if same(value, "interrupted") {
            CheckpointPhase::Interrupted
        } else if same(value, "needs_reconciliation") {
            CheckpointPhase::NeedsReconciliation
        } else if same(value, "completed") {
            CheckpointPhase::Completed
        } else if same(value, "failed") {
            CheckpointPhase::Failed
        } else if same(value, "cancelled") {
            CheckpointPhase::Cancelled
        } else {
            CheckpointPhase::Interrupted
        }
    }
}

/// A name belongs to one phase alone.
pub proof fn law_phase_names_distinct(a: CheckpointPhase, b: CheckpointPhase)
    requires
        a.name() == b.name(),
    ensures
        a == b,
{
    reveal_strlit("queued");
    assert("queued"@.len() == 6);
    assert("queued"@[0] == 'q');
    assert("queued"@[1] == 'u');
    reveal_strlit("model_running");
    assert("model_running"@.len() == 13);
    assert("model_running"@[0] == 'm');
    assert("model_running"@[1] == 'o');
    reveal_strlit("waiting_approval");
    assert("waiting_approval"@.len() == 16);
    assert("waiting_approval"@[0] == 'w');
    assert("waiting_approval"@[1] == 'a');
    reveal_strlit("tool_running");
    assert("tool_running"@.len() == 12);
    assert("tool_running"@[0] == 't');
    assert("tool_running"@[1] == 'o');
    reveal_strlit("tool_completed");
    assert("tool_completed"@.len() == 14);
    assert("tool_completed"@[0] == 't');
    assert("tool_completed"@[1] == 'o');
    reveal_strlit("interrupted");
    assert("interrupted"@.len() == 11);
    assert("interrupted"@[0] == 'i');
    assert("interrupted"@[1] == 'n');
    reveal_strlit("needs_reconciliation");
    assert("needs_reconciliation"@.len() == 20);
    assert("needs_reconciliation"@[0] == 'n');
    assert("needs_reconciliation"@[1] == 'e');
    reveal_strlit("completed");
    assert("completed"@.len() == 9);
    assert("completed"@[0] == 'c');
    assert("completed"@[1] == 'o');
    reveal_strlit("failed");
    assert("failed"@.len() == 6);
    assert("failed"@[0] == 'f');
    assert("failed"@[1] == 'a');
    reveal_strlit("cancelled");
    assert("cancelled"@.len() == 9);
    assert("cancelled"@[0] == 'c');
    assert("cancelled"@[1] == 'a');
}

impl CheckpointPhase {
    /// Nothing more happens in the turn by itself.
    pub open spec fn ends_turn(self) -> bool {
        self is Completed || self is Failed || self is Cancelled || self is NeedsReconciliation
    }

    pub fn is_terminal(self) -> (r: bool)
        ensures
            r == self.ends_turn(),
    {
        matches!(
            self,
            CheckpointPhase::Completed | CheckpointPhase::Failed | CheckpointPhase::Cancelled
                | CheckpointPhase::NeedsReconciliation
        )
    }
}

/// How a turn goes on after a crash.
#[derive(Clone, Copy, Debug, PartialEq, Eq, Structural)]
pub enum ResumePolicy {
    ReplayModel,
    WaitApproval,
    RetryObserve,
    SkipCompletedTool,
    Reconcile,
    NoResume,
}

impl Default for ResumePolicy {
    fn default() -> (r: Self)
        ensures
            r == ResumePolicy::NoResume,
    {
        ResumePolicy::NoResume
    }
}

impl ResumePolicy {
    /// The name under which the policy is written.
    pub open spec fn name(self) -> Seq<char> {
        match self {
            ResumePolicy::ReplayModel => "replay_model"@,
            ResumePolicy::WaitApproval => "wait_approval"@,
            ResumePolicy::RetryObserve => "retry_observe"@,
            ResumePolicy::SkipCompletedTool => "skip_completed_tool"@,
            ResumePolicy::Reconcile => "reconcile"@,
            ResumePolicy::NoResume => "none"@,
        }
    }

    pub fn as_str(self) -> (r: &'static str)
        ensures
            r@ == self.name(),
    {
        match self {
            ResumePolicy::ReplayModel => "replay_model",
            ResumePolicy::WaitApproval => "wait_approval",
            ResumePolicy::RetryObserve => "retry_observe",
            ResumePolicy::SkipCompletedTool => "skip_completed_tool",
            ResumePolicy::Reconcile => "reconcile",
            ResumePolicy::NoResume => "none",
        }
    }

    /// Reads the name of a policy; any other text is read as `NoResume`.
    pub fn parse(value: &str) -> (r: Self)
        ensures
            r.name() == value@ || (r == ResumePolicy::NoResume && forall|v: ResumePolicy| #[trigger] v.name() != value@),
    {
        if same(value, "replay_model") {
            ResumePolicy::ReplayModel
        } else if same(value, "wait_approval") {
            ResumePolicy::WaitApproval
        } else if same(value, "retry_observe") {
            ResumePolicy::RetryObserve
        } else if same(value, "skip_completed_tool") {
            ResumePolicy::SkipCompletedTool
        } else if same(value, "reconcile") {
            ResumePolicy::Reconcile
        } else if same(value, "none") {
            ResumePolicy::NoResume
        } else {
            ResumePolicy::NoResume
        }
    }
}

/// A name belongs to one policy alone.
pub proof fn law_policy_names_distinct(a: ResumePolicy, b: ResumePolicy)
    requires
        a.name() == b.name(),
    ensures
        a == b,
{
    reveal_strlit("replay_model");
    assert("replay_model"@.len() == 12);
    assert("replay_model"@[0] == 'r');
    reveal_strlit("wait_approval");
    assert("wait_approval"@.len() == 13);
    assert("wait_approval"@[0] == 'w');
    reveal_strlit("retry_observe");
    assert("retry_observe"@.len() == 13);
    assert("retry_observe"@[0] == 'r');
    reveal_strlit("skip_completed_tool");
    assert("skip_completed_tool"@.len() == 19);
    assert("skip_completed_tool"@[0] == 's');
    reveal_strlit("reconcile");
    assert("reconcile"@.len() == 9);
    assert("reconcile"@[0] == 'r');
    reveal_strlit("none");
    assert("none"@.len() == 4);
    assert("none"@[0] == 'n');
}

/// A tool call that was under way.
#[derive(Debug)]
pub struct PendingOperation {
    pub operation_id: String,
    pub call_id: String,
    pub tool: String,
    pub arguments: Json,
    pub effect: String,
    pub recovery: Option<String>,
}

/// What a tool call that was under way says.
pub struct OperationView {
    pub operation_id: Seq<char>,
    pub call_id: Seq<char>,
    pub tool: Seq<char>,
    pub arguments: JsonView,
    pub effect: Seq<char>,
    pub recovery: Option<Seq<char>>,
}

impl PendingOperation {
    pub open spec fn view(&self) -> OperationView {
        OperationView {
            operation_id: self.operation_id@,
            call_id: self.call_id@,
            tool: self.tool@,
            arguments: self.arguments@,
            effect: self.effect@,
            recovery: string_view(self.recovery),
        }
    }
}

impl Clone for PendingOperation {
    fn clone(&self) -> (r: Self)
        ensures
            r@ == self@,
    {
        PendingOperation {
            operation_id: self.operation_id.clone(),
            call_id: self.call_id.clone(),
            tool: self.tool.clone(),
            arguments: self.arguments.clone(),
            effect: self.effect.clone(),
            recovery: self.recovery.clone(),
        }
    }
}

pub open spec fn operation_view(operation: Option<PendingOperation>) -> Option<OperationView> {
    match operation {
        Some(operation) => Some(operation@),
        None => None,
    }
}

/// The state of a turn, as it was last recorded.
#[derive(Debug)]
pub struct CheckpointRecord {
    pub checkpoint_id: String,
    pub turn_id: TurnId,
    pub thread_id: ThreadId,
    pub step: u32,
    pub phase: CheckpointPhase,
    pub context_input_hash: Option<String>,
    pub pending_operation: Option<PendingOperation>,
    pub last_committed_seq: u64,
    pub resume_policy: ResumePolicy,
    pub created_at: Timestamp,
}

/// What a checkpoint says.
pub struct CheckpointView {
    pub checkpoint_id: Seq<char>,
    pub turn_id: TurnId,
    pub thread_id: ThreadId,
    pub step: u32,
    pub phase: CheckpointPhase,
    pub context_input_hash: Option<Seq<char>>,
    pub pending_operation: Option<OperationView>,
    pub last_committed_seq: u64,
    pub resume_policy: ResumePolicy,
    pub created_at: Timestamp,
}

impl CheckpointRecord {
    pub open spec fn view(&self) -> CheckpointView {
        CheckpointView {
            checkpoint_id: self.checkpoint_id@,
            turn_id: self.turn_id,
            thread_id: self.thread_id,
            step: self.step,
            phase: self.phase,
            context_input_hash: string_view(self.context_input_hash),
            pending_operation: operation_view(self.pending_operation),
            last_committed_seq: self.last_committed_seq,
            resume_policy: self.resume_policy,
            created_at: self.created_at,
        }
    }
}

impl Clone for CheckpointRecord {
    fn clone(&self) -> (r: Self)
        ensures
            r@ == self@,
    {
        CheckpointRecord {
            checkpoint_id: self.checkpoint_id.clone(),
            turn_id: self.turn_id,
            thread_id: self.thread_id,
            step: self.step,
            phase: self.phase,
            context_input_hash: self.context_input_hash.clone(),
            pending_operation: match &self.pending_operation {
                Some(operation) => Some(operation.clone()),
                None => None,
            },
            last_committed_seq: self.last_committed_seq,
            resume_policy: self.resume_policy,
            created_at: self.created_at,
        }
    }
}

#[derive(Debug)]
pub struct TurnRecord {
    pub id: TurnId,
    pub thread_id: ThreadId,
    pub status: TurnStatus,
    pub active_lease_id: Option<String>,
    pub last_checkpoint_id: Option<String>,
    pub created_at: Timestamp,
    pub updated_at: Timestamp,
}

#[derive(Clone, Copy, Debug, PartialEq, Eq, Structural)]
pub enum ApprovalStatus {
    Pending,
    Approved,
    Rejected,
    Expired,
}

impl ApprovalStatus {
    /// The name under which the approval status is written.
    pub open spec fn name(self) -> Seq<char> {
        match self {
            ApprovalStatus::Pending => "pending"@,
            ApprovalStatus::Approved => "approved"@,
            ApprovalStatus::Rejected => "rejected"@,
            ApprovalStatus::Expired => "expired"@,
        }
    }

    pub fn as_str(self) -> (r: &'static str)
        ensures
            r@ == self.name(),
    {
        match self {
            ApprovalStatus::Pending => "pending",
            ApprovalStatus::Approved => "approved",
            ApprovalStatus::Rejected => "rejected",
            ApprovalStatus::Expired => "expired",
        }
    }

    /// Reads the name of a approval status; any other text is read as `Pending`.
    pub fn parse(value: &str) -> (r: Self)
        ensures
            r.name() == value@ || (r == ApprovalStatus::Pending && forall|v: ApprovalStatus| #[trigger] v.name() != value@),
    {
        if same(value, "pending") {
            ApprovalStatus::Pending
        } else if same(value, "approved") {
            ApprovalStatus::Approved
        } else if same(value, "rejected") {
            ApprovalStatus::Rejected
        } else if same(value, "expired") {
            ApprovalStatus::Expired
        } else {
            ApprovalStatus::Pending
        }
    }
}

/// A name belongs to one approval status alone.
pub proof fn law_approval_status_names_distinct(a: ApprovalStatus, b: ApprovalStatus)
    requires
        a.name() == b.name(),
    ensures
        a == b,
{
    reveal_strlit("pending");
    assert("pending"@.len() == 7);
    assert("pending"@[0] == 'p');
    reveal_strlit("approved");
    assert("approved"@.len() == 8);
    assert("approved"@[0] == 'a');
    reveal_strlit("rejected");
    assert("rejected"@.len() == 8);
    assert("rejected"@[0] == 'r');
    reveal_strlit("expired");
    assert("expired"@.len() == 7);
    assert("expired"@[0] == 'e');
}

/// A request for an approval that outlives the process.
#[derive(Debug)]
pub struct DurableApproval {
    pub approval_id: ApprovalId,
    pub thread_id: Option<ThreadId>,
    pub turn_id: Option<TurnId>,
    pub tool: String,
    pub arguments: Json,
    pub request_hash: String,
    pub schema_hash: Option<String>,
    pub status: ApprovalStatus,
    pub expires_at: Option<Timestamp>,
}

/// The right to run a turn, until it expires.
#[derive(Debug)]
pub struct Lease {
    pub lease_id: String,
    pub turn_id: TurnId,
    pub thread_id: ThreadId,
    pub owner_id: String,
    pub expires_at: Timestamp,
    pub fencing_token: i64,
}

/// What is to be done about a turn after a crash.
#[derive(Debug)]
pub struct RecoveryReport {
    pub turn_id: TurnId,
    pub thread_id: ThreadId,
    pub status: TurnStatus,
    pub phase: CheckpointPhase,
    pub resume_policy: ResumePolicy,
    pub risk: String,
    pub user_action: String,
    pub skipped_tools: Vec<String>,
    pub checkpoint: Option<CheckpointRecord>,
}

// ---------------------------------------------------------------------------
// Hashes
// ---------------------------------------------------------------------------
/// The bytes that stand for a request: the tool, the arguments and the schema.
pub open spec fn request_bytes(
    tool: Seq<char>,
    arguments: JsonView,
    schema_hash: Option<Seq<char>>,
) -> Seq<u8> {
    encode_utf8(tool) + map_bytes(arguments) + (match schema_hash {
        Some(schema_hash) => encode_utf8(schema_hash),
        None => Seq::empty(),
    })
}

/// The hash that binds an approval to what was asked for.
pub fn approval_request_hash(tool: &str, arguments: &Json, schema_hash: Option<&str>) -> (r: String)
    ensures
        r@ == sha256_text(
            request_bytes(tool@, arguments@, crate::json::str_view(schema_hash)),
        ),
{
    let mut bytes = tool.as_bytes_vec();
    let mut json = arguments.to_map_bytes();
    bytes.append(&mut json);
    if let Some(schema_hash) = schema_hash {
        let mut tail = schema_hash.as_bytes_vec();
        bytes.append(&mut tail);
    }
    assert(bytes@ =~= request_bytes(tool@, arguments@, crate::json::str_view(schema_hash)));
    sha256_hex(bytes.as_slice())
}

/// The items that a model was sent, as one document.
pub open spec fn items_document(items: Seq<ItemView>) -> JsonView {
    JsonView::Array(items.map_values(|item: ItemView| item.json()))
}

/// The hash of the items that a model is sent.
pub fn context_input_hash(items: &Vec<ModelItem>) -> (r: String)
    ensures
        r@ == sha256_text(bytes_of(items_document(item_views(items@)))),
{
    let mut documents: Vec<Json> = Vec::new();
    let mut i: usize = 0;
    let ghost whole = item_views(items@);
    while i < items.len()
        invariant
            i <= items@.len(),
            whole == item_views(items@),
            items_view(documents@) == whole.take(i as int).map_values(
                |item: ItemView| item.json(),
            ),
        decreases items@.len() - i,
    {
        push_item(&mut documents, items[i].to_json());
        i += 1;
        assert(items_view(documents@) =~= whole.take(i as int).map_values(
            |item: ItemView| item.json(),
        ));
    }
    assert(whole.take(i as int) =~= whole);
    let document = Json::Array(documents);
    sha256_hex(document.to_bytes().as_slice())
}

/// Requests that differ in the arguments alone are hashed from different bytes.
pub proof fn law_request_bytes_bind_arguments(
    tool: Seq<char>,
    a: JsonView,
    b: JsonView,
    schema_hash: Option<Seq<char>>,
)
    requires
        crate::json_law::valid(a),
        crate::json_law::valid(b),
        request_bytes(tool, a, schema_hash) == request_bytes(tool, b, schema_hash),
    ensures
        mapped(a) == mapped(b),
{
    let x = request_bytes(tool, a, schema_hash);
    let y = request_bytes(tool, b, schema_hash);
    let from = encode_utf8(tool).len() as int;
    let tail = match schema_hash {
        Some(schema_hash) => encode_utf8(schema_hash),
        None => Seq::empty(),
    };
    assert(x == encode_utf8(tool) + map_bytes(a) + tail);
    assert(y == encode_utf8(tool) + map_bytes(b) + tail);
    assert(x.len() == from + map_bytes(a).len() + tail.len());
    assert(y.len() == from + map_bytes(b).len() + tail.len());
    let to = from + map_bytes(a).len();
    assert(x.subrange(from, to) =~= map_bytes(a));
    assert(y.subrange(from, to) =~= map_bytes(b));
    law_bytes_determine_map(a, b);
}

} // verus!
