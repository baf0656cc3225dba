//! Identifiers, and the thread that the events of a session project to.
use vstd::prelude::*;

use crate::evidence::EvidenceMeta;
use crate::json::{Json, JsonView};
use crate::text::{same, views};
use crate::time::Timestamp;
use crate::uuid_text::{format_uuid, parse_uuid, parsed_uuid, uuid_text};

verus! {

/// The identifier of a thread.
#[derive(Clone, Copy, Debug, PartialEq, Eq, Hash, Structural)]
pub struct ThreadId {
    pub value: u128,
}

impl ThreadId {
    pub fn from_uuid(value: u128) -> (r: Self)
        ensures
            r.value == value,
    {
        ThreadId { value }
    }

    /// The hyphenated text of the identifier.
    pub open spec fn text(self) -> Seq<char> {
        uuid_text(self.value)
    }

    pub fn to_string(&self) -> (r: String)
        ensures
            r@ == self.text(),
    {
        format_uuid(self.value)
    }

    /// Reads an identifier.
    pub fn parse(text: &str) -> (r: Option<Self>)
        ensures
            r == (match parsed_uuid(text@) {
                Some(value) => Some(ThreadId { value }),
                None => None,
            }),
            forall|id: ThreadId| text@ == #[trigger] id.text() ==> r == Some(id),
    {
        match parse_uuid(text) {
            Some(value) => Some(ThreadId { value }),
            None => None,
        }
    }
}

/// The identifier of a turn.
#[derive(Clone, Copy, Debug, PartialEq, Eq, Hash, Structural)]
pub struct TurnId {
    pub value: u128,
}

impl TurnId {
    pub fn from_uuid(value: u128) -> (r: Self)
        ensures
            r.value == value,
    {
        TurnId { value }
    }

    /// The hyphenated text of the identifier.
    pub open spec fn text(self) -> Seq<char> {
        uuid_text(self.value)
    }

    pub fn to_string(&self) -> (r: String)
        ensures
            r@ == self.text(),
    {
        format_uuid(self.value)
    }

    /// Reads an identifier.
    pub fn parse(text: &str) -> (r: Option<Self>)
        ensures
            r == (match parsed_uuid(text@) {
                Some(value) => Some(TurnId { value }),
                None => None,
            }),
            forall|id: TurnId| text@ == #[trigger] id.text() ==> r == Some(id),
    {
        match parse_uuid(text) {
            Some(value) => Some(TurnId { value }),
            None => None,
        }
    }
}

/// The identifier of an item.
#[derive(Clone, Copy, Debug, PartialEq, Eq, Hash, Structural)]
pub struct ItemId {
    pub value: u128,
}

impl ItemId {
    pub fn from_uuid(value: u128) -> (r: Self)
        ensures
            r.value == value,
    {
        ItemId { value }
    }

    /// The hyphenated text of the identifier.
    pub open spec fn text(self) -> Seq<char> {
        uuid_text(self.value)
    }

    pub fn to_string(&self) -> (r: String)
        ensures
            r@ == self.text(),
    {
        format_uuid(self.value)
    }

    /// Reads an identifier.
    pub fn parse(text: &str) -> (r: Option<Self>)
        ensures
            r == (match parsed_uuid(text@) {
                Some(value) => Some(ItemId { value }),
                None => None,
            }),
            forall|id: ItemId| text@ == #[trigger] id.text() ==> r == Some(id),
    {
        match parse_uuid(text) {
            Some(value) => Some(ItemId { value }),
            None => None,
        }
    }
}

/// The identifier of an event.
#[derive(Clone, Copy, Debug, PartialEq, Eq, Hash, Structural)]
pub struct EventId {
    pub value: u128,
}

impl EventId {
    pub fn from_uuid(value: u128) -> (r: Self)
        ensures
            r.value == value,
    {
        EventId { value }
    }

    /// The hyphenated text of the identifier.
    pub open spec fn text(self) -> Seq<char> {
        uuid_text(self.value)
    }

    pub fn to_string(&self) -> (r: String)
        ensures
            r@ == self.text(),
    {
        format_uuid(self.value)
    }

    /// Reads an identifier.
    pub fn parse(text: &str) -> (r: Option<Self>)
        ensures
            r == (match parsed_uuid(text@) {
                Some(value) => Some(EventId { value }),
                None => None,
            }),
            forall|id: EventId| text@ == #[trigger] id.text() ==> r == Some(id),
    {
        match parse_uuid(text) {
            Some(value) => Some(EventId { value }),
            None => None,
        }
    }
}

/// The identifier of an evidence.
#[derive(Clone, Copy, Debug, PartialEq, Eq, Hash, Structural)]
pub struct EvidenceId {
    pub value: u128,
}

impl EvidenceId {
    pub fn from_uuid(value: u128) -> (r: Self)
        ensures
            r.value == value,
    {
        EvidenceId { value }
    }

    /// The hyphenated text of the identifier.
    pub open spec fn text(self) -> Seq<char> {
        uuid_text(self.value)
    }

    pub fn to_string(&self) -> (r: String)
        ensures
            r@ == self.text(),
    {
        format_uuid(self.value)
    }

    /// Reads an identifier.
    pub fn parse(text: &str) -> (r: Option<Self>)
        ensures
            r == (match parsed_uuid(text@) {
                Some(value) => Some(EvidenceId { value }),
                None => None,
            }),
            forall|id: EvidenceId| text@ == #[trigger] id.text() ==> r == Some(id),
    {
        match parse_uuid(text) {
            Some(value) => Some(EvidenceId { value }),
            None => None,
        }
    }
}

/// The identifier of a claim.
#[derive(Clone, Copy, Debug, PartialEq, Eq, Hash, Structural)]
pub struct ClaimId {
    pub value: u128,
}

impl ClaimId {
    pub fn from_uuid(value: u128) -> (r: Self)
        ensures
            r.value == value,
    {
        ClaimId { value }
    }

    /// The hyphenated text of the identifier.
    pub open spec fn text(self) -> Seq<char> {
        uuid_text(self.value)
    }

    pub fn to_string(&self) -> (r: String)
        ensures
            r@ == self.text(),
    {
        format_uuid(self.value)
    }

    /// Reads an identifier.
    pub fn parse(text: &str) -> (r: Option<Self>)
        ensures
            r == (match parsed_uuid(text@) {
                Some(value) => Some(ClaimId { value }),
                None => None,
            }),
            forall|id: ClaimId| text@ == #[trigger] id.text() ==> r == Some(id),
    {
        match parse_uuid(text) {
            Some(value) => Some(ClaimId { value }),
            None => None,
        }
    }
}

/// The identifier of an approval.
#[derive(Clone, Copy, Debug, PartialEq, Eq, Hash, Structural)]
pub struct ApprovalId {
    pub value: u128,
}

impl ApprovalId {
    pub fn from_uuid(value: u128) -> (r: Self)
        ensures
            r.value == value,
    {
        ApprovalId { value }
    }

    /// The hyphenated text of the identifier.
    pub open spec fn text(self) -> Seq<char> {
        uuid_text(self.value)
    }

    pub fn to_string(&self) -> (r: String)
        ensures
            r@ == self.text(),
    {
        format_uuid(self.value)
    }

    /// Reads an identifier.
    pub fn parse(text: &str) -> (r: Option<Self>)
        ensures
            r == (match parsed_uuid(text@) {
                Some(value) => Some(ApprovalId { value }),
                None => None,
            }),
            forall|id: ApprovalId| text@ == #[trigger] id.text() ==> r == Some(id),
    {
        match parse_uuid(text) {
            Some(value) => Some(ApprovalId { value }),
            None => None,
        }
    }
}

/// The identifier of an action.
#[derive(Clone, Copy, Debug, PartialEq, Eq, Hash, Structural)]
pub struct ActionId {
    pub value: u128,
}

impl ActionId {
    pub fn from_uuid(value: u128) -> (r: Self)
        ensures
            r.value == value,
    {
        ActionId { value }
    }

    /// The hyphenated text of the identifier.
    pub open spec fn text(self) -> Seq<char> {
        uuid_text(self.value)
    }

    pub fn to_string(&self) -> (r: String)
        ensures
            r@ == self.text(),
    {
        format_uuid(self.value)
    }

    /// Reads an identifier.
    pub fn parse(text: &str) -> (r: Option<Self>)
        ensures
            r == (match parsed_uuid(text@) {
                Some(value) => Some(ActionId { value }),
                None => None,
            }),
            forall|id: ActionId| text@ == #[trigger] id.text() ==> r == Some(id),
    {
        match parse_uuid(text) {
            Some(value) => Some(ActionId { value }),
            None => None,
        }
    }
}

/// The identifier of a plan.
#[derive(Clone, Copy, Debug, PartialEq, Eq, Hash, Structural)]
pub struct PlanId {
    pub value: u128,
}

impl PlanId {
    pub fn from_uuid(value: u128) -> (r: Self)
        ensures
            r.value == value,
    {
        PlanId { value }
    }

    /// The hyphenated text of the identifier.
    pub open spec fn text(self) -> Seq<char> {
        uuid_text(self.value)
    }

    pub fn to_string(&self) -> (r: String)
        ensures
            r@ == self.text(),
    {
        format_uuid(self.value)
    }

    /// Reads an identifier.
    pub fn parse(text: &str) -> (r: Option<Self>)
        ensures
            r == (match parsed_uuid(text@) {
                Some(value) => Some(PlanId { value }),
                None => None,
            }),
            forall|id: PlanId| text@ == #[trigger] id.text() ==> r == Some(id),
    {
        match parse_uuid(text) {
            Some(value) => Some(PlanId { value }),
            None => None,
        }
    }
}

/// The workspace that a thread belongs to.
#[derive(Debug)]
pub struct WorkspaceId {
    pub name: String,
}

impl Clone for WorkspaceId {
    fn clone(&self) -> (r: Self)
        ensures
            r == *self,
    {
        WorkspaceId { name: self.name.clone() }
    }
}

impl Default for WorkspaceId {
    fn default() -> (r: Self)
        ensures
            r@ == "default"@,
    {
        WorkspaceId { name: "default".to_owned() }
    }
}

impl WorkspaceId {
    pub open spec fn view(&self) -> Seq<char> {
        self.name@
    }

    pub fn new(name: &str) -> (r: Self)
        ensures
            r@ == name@,
    {
        WorkspaceId { name: name.to_owned() }
    }

    pub fn as_str(&self) -> (r: &str)
        ensures
            r@ == self@,
    {
        self.name.as_str()
    }
}

/// Where a thread stands.
#[derive(Clone, Copy, Debug, PartialEq, Eq, Structural)]
pub enum ThreadStatus {
    Idle,
    Running,
    WaitingApproval,
    Interrupted,
    NeedsReconciliation,
    Failed,
}

impl ThreadStatus {
    /// The name under which the thread status is written.
    pub open spec fn name(self) -> Seq<char> {
        match self {
            ThreadStatus::Idle => "idle"@,
            ThreadStatus::Running => "running"@,
            ThreadStatus::WaitingApproval => "waiting_approval"@,
            ThreadStatus::Interrupted => "interrupted"@,
            ThreadStatus::NeedsReconciliation => "needs_reconciliation"@,
            ThreadStatus::Failed => "failed"@,
        }
    }

    pub fn as_str(self) -> (r: &'static str)
        ensures
            r@ == self.name(),
    {
        match self {
            ThreadStatus::Idle => "idle",
            ThreadStatus::Running => "running",
            ThreadStatus::WaitingApproval => "waiting_approval",
            ThreadStatus::Interrupted => "interrupted",
            ThreadStatus::NeedsReconciliation => "needs_reconciliation",
            ThreadStatus::Failed => "failed",
        }
    }

    /// Reads the name of a thread status; any other text is read as `Idle`.
    pub fn parse(value: &str) -> (r: Self)
        ensures
            r.name() == value@ || (r == ThreadStatus::Idle && forall|v: ThreadStatus| #[trigger] v.name() != value@),
    {
        if same(value, "idle") {
            ThreadStatus::Idle
        } else if same(value, "running") {
            ThreadStatus::Running
        } else if same(value, "waiting_approval") {
            ThreadStatus::WaitingApproval
        } else if same(value, "interrupted") {
            ThreadStatus::Interrupted
        } else if same(value, "needs_reconciliation") {
            ThreadStatus::NeedsReconciliation
        } else if same(value, "failed") {
            ThreadStatus::Failed
        } else {
            ThreadStatus::Idle
        }
    }
}

/// A name belongs to one thread status alone.
pub proof fn law_thread_status_names_distinct(a: ThreadStatus, b: ThreadStatus)
    requires
        a.name() == b.name(),
    ensures
        a == b,
{
    reveal_strlit("idle");
    assert("idle"@.len() == 4);
    reveal_strlit("running");
    assert("running"@.len() == 7);
    reveal_strlit("waiting_approval");
    assert("waiting_approval"@.len() == 16);
    reveal_strlit("interrupted");
    assert("interrupted"@.len() == 11);
    reveal_strlit("needs_reconciliation");
    assert("needs_reconciliation"@.len() == 20);
    reveal_strlit("failed");
    assert("failed"@.len() == 6);
}

/// Where a turn stands.
#[derive(Clone, Copy, Debug, PartialEq, Eq, Structural)]
pub enum TurnStatus {
    Running,
    WaitingApproval,
    Completed,
    Failed,
    Cancelled,
    Interrupted,
    NeedsReconciliation,
}

impl TurnStatus {
    /// The name under which the turn status is written.
    pub open spec fn name(self) -> Seq<char> {
        match self {
            TurnStatus::Running => "running"@,
            TurnStatus::WaitingApproval => "waiting_approval"@,
            TurnStatus::Completed => "completed"@,
            TurnStatus::Failed => "failed"@,
            TurnStatus::Cancelled => "cancelled"@,
            TurnStatus::Interrupted => "interrupted"@,
            TurnStatus::NeedsReconciliation => "needs_reconciliation"@,
        }
    }

    pub fn as_str(self) -> (r: &'static str)
        ensures
            r@ == self.name(),
    {
        match self {
            TurnStatus::Running => "running",
            TurnStatus::WaitingApproval => "waiting_approval",
            TurnStatus::Completed => "completed",
            TurnStatus::Failed => "failed",
            TurnStatus::Cancelled => "cancelled",
            TurnStatus::Interrupted => "interrupted",
            TurnStatus::NeedsReconciliation => "needs_reconciliation",
        }
    }

    /// Reads the name of a turn status; any other text is read as `Running`.
    pub fn parse(value: &str) -> (r: Self)
        ensures
            r.name() == value@ || (r == TurnStatus::Running && forall|v: TurnStatus| #[trigger] v.name() != value@),
    {
        if same(value, "running") {
            TurnStatus::Running
        } else if same(value, "waiting_approval") {
            TurnStatus::WaitingApproval
        } else if same(value, "completed") {
            TurnStatus::Completed
        } else if same(value, "failed") {
            TurnStatus::Failed
        } else if same(value, "cancelled") {
            TurnStatus::Cancelled
        } else if same(value, "interrupted") {
            TurnStatus::Interrupted
        } else if same(value, "needs_reconciliation") {
            TurnStatus::NeedsReconciliation
        } else {
            TurnStatus::Running
        }
    }
}

/// A name belongs to one turn status alone.
pub proof fn law_turn_status_names_distinct(a: TurnStatus, b: TurnStatus)
    requires
        a.name() == b.name(),
    ensures
        a == b,
{
    reveal_strlit("running");
    assert("running"@.len() == 7);
    assert("running"@[1] == 'u');
    reveal_strlit("waiting_approval");
    assert("waiting_approval"@.len() == 16);
    assert("waiting_approval"@[1] == 'a');
    reveal_strlit("completed");
    assert("completed"@.len() == 9);
    assert("completed"@[1] == 'o');
    reveal_strlit("failed");
    assert("failed"@.len() == 6);
    assert("failed"@[1] == 'a');
    reveal_strlit("cancelled");
    assert("cancelled"@.len() == 9);
    assert("cancelled"@[1] == 'a');
    reveal_strlit("interrupted");
    assert("interrupted"@.len() == 11);
    assert("interrupted"@[1] == 'n');
    reveal_strlit("needs_reconciliation");
    assert("needs_reconciliation"@.len() == 20);
    assert("needs_reconciliation"@[1] == 'e');
}

/// An entry of a thread.
#[derive(Debug)]
pub enum Item {
    UserMessage { content: String },
    AssistantMessage { content: String },
    ToolCall { call_id: String, name: String, arguments: Json },
    ToolResult { call_id: String, output: Json, evidence: EvidenceMeta },
    Approval { id: ApprovalId, approved: Option<bool> },
    Summary {
        summary_id: String,
        covers_seq_start: u64,
        covers_seq_end: u64,
        summary: String,
        source_evidence_ids: Vec<String>,
    },
}

/// What an entry of a thread says.
#[verifier::ext_equal]
pub enum EntryView {
    UserMessage(Seq<char>),
    AssistantMessage(Seq<char>),
    ToolCall(Seq<char>, Seq<char>, JsonView),
    ToolResult(Seq<char>, JsonView, EvidenceMeta),
    Approval(ApprovalId, Option<bool>),
    Summary(Seq<char>, u64, u64, Seq<char>, Seq<Seq<char>>),
}

impl Item {
    pub open spec fn view(&self) -> EntryView {
        match self {
            Item::UserMessage { content } => EntryView::UserMessage(content@),
            Item::AssistantMessage { content } => EntryView::AssistantMessage(content@),
            Item::ToolCall { call_id, name, arguments } => EntryView::ToolCall(
                call_id@,
                name@,
                arguments@,
            ),
            Item::ToolResult { call_id, output, evidence } => EntryView::ToolResult(
                call_id@,
                output@,
                *evidence,
            ),
            Item::Approval { id, approved } => EntryView::Approval(*id, *approved),
            Item::Summary {
                summary_id,
                covers_seq_start,
                covers_seq_end,
                summary,
                source_evidence_ids,
            } => EntryView::Summary(
                summary_id@,
                *covers_seq_start,
                *covers_seq_end,
                summary@,
                views(source_evidence_ids@),
            ),
        }
    }
}

/// What the entries of a thread say.
pub open spec fn entry_views(items: Seq<Item>) -> Seq<EntryView> {
    items.map_values(|item: Item| item@)
}

/// A conversation, as its events give it.
#[derive(Debug)]
pub struct Thread {
    pub id: ThreadId,
    pub workspace_id: WorkspaceId,
    pub items: Vec<Item>,
    pub status: ThreadStatus,
    pub created_at: Timestamp,
    pub updated_at: Timestamp,
    pub parent_thread_id: Option<ThreadId>,
    pub forked_at_seq: Option<u64>,
}

} // verus!
