//! The schema of the database, and the names and hashes that stand in it.
use vstd::prelude::*;
use vstd::utf8::encode_utf8;

use crate::digest::{sha256_hex, sha256_text};
use crate::error::{ErrorView, OpsCodexError, OpsResult};
use crate::json::bytes_of;
use crate::runtime::envelope::{log_view, EnvelopeView, EventEnvelope};
use crate::runtime::thread::{ThreadStatus, TurnStatus};
use crate::store::continuity::{ApprovalStatus, DurableApproval};
use crate::text::{decimal, decimal_of, same};
use crate::time::{parsed_rfc3339, Timestamp};

verus! {

pub const SCHEMA_VERSION: i64 = 1;

pub const SCHEMA_SQL: &'static str = r#"
CREATE TABLE IF NOT EXISTS schema_migrations (
    version INTEGER PRIMARY KEY,
    checksum TEXT NOT NULL,
    applied_at TEXT NOT NULL
);
CREATE TABLE IF NOT EXISTS workspaces (
    id TEXT PRIMARY KEY,
    created_at TEXT NOT NULL
);
CREATE TABLE IF NOT EXISTS threads (
    id TEXT PRIMARY KEY,
    workspace_id TEXT NOT NULL,
    parent_thread_id TEXT,
    forked_at_seq INTEGER,
    status TEXT NOT NULL,
    title TEXT,
    created_at TEXT NOT NULL,
    updated_at TEXT NOT NULL,
    FOREIGN KEY(workspace_id) REFERENCES workspaces(id)
);
CREATE TABLE IF NOT EXISTS turns (
    id TEXT PRIMARY KEY,
    thread_id TEXT NOT NULL,
    status TEXT NOT NULL,
    active_lease_id TEXT,
    last_checkpoint_id TEXT,
    created_at TEXT NOT NULL,
    updated_at TEXT NOT NULL,
    FOREIGN KEY(thread_id) REFERENCES threads(id)
);
CREATE INDEX IF NOT EXISTS idx_turns_status ON turns(status);
CREATE TABLE IF NOT EXISTS events (
    thread_id TEXT NOT NULL,
    seq INTEGER NOT NULL,
    event_id TEXT NOT NULL UNIQUE,
    schema_version INTEGER NOT NULL,
    stream_kind TEXT NOT NULL,
    turn_id TEXT,
    item_id TEXT,
    causation_id TEXT,
    timestamp TEXT NOT NULL,
    event_type TEXT NOT NULL,
    payload TEXT NOT NULL,
    PRIMARY KEY (thread_id, seq),
    FOREIGN KEY(thread_id) REFERENCES threads(id)
);
CREATE INDEX IF NOT EXISTS idx_events_thread_seq ON events(thread_id, seq);
CREATE INDEX IF NOT EXISTS idx_threads_updated ON threads(updated_at DESC);
CREATE TABLE IF NOT EXISTS evidence (
    evidence_id TEXT PRIMARY KEY,
    thread_id TEXT NOT NULL,
    artifact_ref TEXT,
    sha256 TEXT,
    meta TEXT NOT NULL,
    FOREIGN KEY(thread_id) REFERENCES threads(id)
);
CREATE TABLE IF NOT EXISTS checkpoints (
    checkpoint_id TEXT PRIMARY KEY,
    turn_id TEXT NOT NULL,
    thread_id TEXT NOT NULL,
    step INTEGER NOT NULL,
    phase TEXT NOT NULL,
    state TEXT NOT NULL,
    input_hash TEXT,
    last_committed_seq INTEGER NOT NULL,
    resume_policy TEXT NOT NULL,
    created_at TEXT NOT NULL
);
CREATE INDEX IF NOT EXISTS idx_checkpoints_turn ON checkpoints(turn_id, created_at DESC);
CREATE TABLE IF NOT EXISTS approvals (
    approval_id TEXT PRIMARY KEY,
    thread_id TEXT,
    turn_id TEXT,
    tool TEXT NOT NULL,
    request_hash TEXT NOT NULL,
    status TEXT NOT NULL,
    expires_at TEXT,
    payload TEXT NOT NULL
);
CREATE TABLE IF NOT EXISTS leases (
    lease_id TEXT PRIMARY KEY,
    turn_id TEXT NOT NULL UNIQUE,
    thread_id TEXT NOT NULL,
    owner_id TEXT NOT NULL,
    expires_at TEXT NOT NULL,
    fencing_token INTEGER NOT NULL
);
CREATE TABLE IF NOT EXISTS resume_ops (
    idempotency_key TEXT PRIMARY KEY,
    turn_id TEXT NOT NULL,
    payload TEXT NOT NULL,
    created_at TEXT NOT NULL
);
"#;

/// The checksum of the schema.
pub fn schema_checksum() -> (r: String)
    ensures
        r@ == sha256_text(encode_utf8(SCHEMA_SQL@)),
{
    sha256_hex(SCHEMA_SQL.as_bytes())
}

/// What is done on start about the schema that a database has.
#[derive(Clone, Copy, Debug, PartialEq, Eq, Structural)]
pub enum SchemaStep {
    /// The schema is the one that is expected.
    Keep,
    /// The database is new: the checksum is recorded.
    Record,
}

/// Compares the checksum that a database was made with to that of the schema.
pub fn check_schema(applied: &Option<String>) -> (r: OpsResult<SchemaStep>)
    ensures
        match applied {
            None => r == Ok::<SchemaStep, OpsCodexError>(SchemaStep::Record),
            Some(existing) => if existing@ == sha256_text(encode_utf8(SCHEMA_SQL@)) {
                r == Ok::<SchemaStep, OpsCodexError>(SchemaStep::Keep)
            } else {
                r matches Err(e) && e@ == ErrorView::Storage(
                    "sqlite schema checksum mismatch; refusing to start"@,
                )
            },
        },
{
    match applied {
        None => Ok(SchemaStep::Record),
        Some(existing) => if same(existing.as_str(), schema_checksum().as_str()) {
            Ok(SchemaStep::Keep)
        } else {
            Err(
                OpsCodexError::Storage(
                    "sqlite schema checksum mismatch; refusing to start".to_owned(),
                ),
            )
        },
    }
}

/// Reads a time that stands in the database.
pub fn parse_time(value: &str) -> (r: OpsResult<Timestamp>)
    ensures
        match r {
            Ok(time) => parsed_rfc3339(value@) == Ok::<(i64, u32), Seq<char>>(
                (time.whole_seconds(), time.subsecond()),
            ),
            Err(e) => parsed_rfc3339(value@) matches Err(error) && e@ == ErrorView::Storage(
                "invalid timestamp: "@ + error,
            ),
        },
{
    match Timestamp::parse_rfc3339(value) {
        Ok(time) => Ok(time),
        Err(error) => {
            let mut message = "invalid timestamp: ".to_owned();
            message.append(error.as_str());
            Err(OpsCodexError::Storage(message))
        },
    }
}

/// A number that is not negative, or zero.
pub fn stored_seq(value: i64) -> (r: u64)
    ensures
        r == (if value < 0 {
            0
        } else {
            value as int
        }),
{
    if value < 0 {
        0
    } else {
        value as u64
    }
}

/// A number as it is stored: as large as a signed number can be, at most.
pub fn clamped_seq(seq: u64) -> (r: i64)
    ensures
        r == (if seq > i64::MAX {
            i64::MAX as int
        } else {
            seq as int
        }),
{
    if seq > i64::MAX as u64 {
        i64::MAX
    } else {
        seq as i64
    }
}

/// The status that a turn gives to its thread when it stops without an end.
pub open spec fn status_of_turn(status: TurnStatus) -> Option<ThreadStatus> {
    match status {
        TurnStatus::WaitingApproval => Some(ThreadStatus::WaitingApproval),
        TurnStatus::NeedsReconciliation => Some(ThreadStatus::NeedsReconciliation),
        TurnStatus::Interrupted => Some(ThreadStatus::Interrupted),
        _ => None,
    }
}

pub fn thread_status_of_turn(status: TurnStatus) -> (r: Option<ThreadStatus>)
    ensures
        r == status_of_turn(status),
{
    match status {
        TurnStatus::WaitingApproval => Some(ThreadStatus::WaitingApproval),
        TurnStatus::NeedsReconciliation => Some(ThreadStatus::NeedsReconciliation),
        TurnStatus::Interrupted => Some(ThreadStatus::Interrupted),
        _ => None,
    }
}

/// A turn that may still go on.
pub fn is_open_turn(status: TurnStatus) -> (r: bool)
    ensures
        r == !(status is Completed || status is Failed || status is Cancelled),
{
    !matches!(status, TurnStatus::Completed | TurnStatus::Failed | TurnStatus::Cancelled)
}

// ---------------------------------------------------------------------------
// Hashes
// ---------------------------------------------------------------------------
/// The bytes that stand for an event: its number, its identifier and what it
/// says.
pub open spec fn event_bytes(envelope: EnvelopeView) -> Seq<u8> {
    encode_utf8(decimal(envelope.seq as nat)) + encode_utf8(envelope.event_id.text()) + bytes_of(
        envelope.event.json(),
    )
}

/// The bytes that stand for a log.
pub open spec fn log_bytes(events: Seq<EnvelopeView>) -> Seq<u8>
    decreases events.len(),
{
    if events.len() == 0 {
        Seq::empty()
    } else {
        log_bytes(events.drop_last()) + event_bytes(events.last())
    }
}

/// The hash of a log.
pub fn event_hash(events: &Vec<EventEnvelope>) -> (r: String)
    ensures
        r@ == sha256_text(log_bytes(log_view(events@))),
{
    let ghost log = log_view(events@);
    let mut bytes: Vec<u8> = Vec::new();
    let mut i: usize = 0;
    assert(bytes@ =~= log_bytes(log.take(0)));
    while i < events.len()
        invariant
            i <= events@.len(),
            log == log_view(events@),
            bytes@ == log_bytes(log.take(i as int)),
        decreases events@.len() - i,
    {
        let envelope = &events[i];
        let ghost before = bytes@;
        let mut seq = decimal_of(envelope.seq).as_str().as_bytes_vec();
        bytes.append(&mut seq);
        let mut id = envelope.event_id.to_string().as_str().as_bytes_vec();
        bytes.append(&mut id);
        let mut event = envelope.event.to_json().to_bytes();
        bytes.append(&mut event);
        assert(bytes@ =~= before + event_bytes(envelope@));
        i += 1;
        assert(log.take(i as int).drop_last() =~= log.take(i - 1));
        assert(log.take(i as int).last() == events@[i - 1]@);
    }
    assert(log.take(i as int) =~= log);
    sha256_hex(bytes.as_slice())
}

pub open spec fn logs_view(threads: Seq<Vec<EventEnvelope>>) -> Seq<Seq<EnvelopeView>> {
    threads.map_values(|events: Vec<EventEnvelope>| log_view(events@))
}

/// The hashes of logs, one after the other.
pub open spec fn hashes_bytes(logs: Seq<Seq<EnvelopeView>>) -> Seq<u8>
    decreases logs.len(),
{
    if logs.len() == 0 {
        Seq::empty()
    } else {
        hashes_bytes(logs.drop_last()) + encode_utf8(sha256_text(log_bytes(logs.last())))
    }
}

/// The hash of a store: that of the hashes of its logs.
pub fn store_hash(threads: &Vec<Vec<EventEnvelope>>) -> (r: String)
    ensures
        r@ == sha256_text(hashes_bytes(logs_view(threads@))),
{
    let ghost logs = logs_view(threads@);
    let mut bytes: Vec<u8> = Vec::new();
    let mut i: usize = 0;
    assert(bytes@ =~= hashes_bytes(logs.take(0)));
    while i < threads.len()
        invariant
            i <= threads@.len(),
            logs == logs_view(threads@),
            bytes@ == hashes_bytes(logs.take(i as int)),
        decreases threads@.len() - i,
    {
        let mut hash = event_hash(&threads[i]).as_str().as_bytes_vec();
        bytes.append(&mut hash);
        i += 1;
        assert(logs.take(i as int).drop_last() =~= logs.take(i - 1));
        assert(logs.take(i as int).last() == log_view(threads@[i - 1]@));
    }
    assert(logs.take(i as int) =~= logs);
    sha256_hex(bytes.as_slice())
}

/// How many events logs hold.
pub open spec fn total_events(logs: Seq<Seq<EnvelopeView>>) -> nat
    decreases logs.len(),
{
    if logs.len() == 0 {
        0
    } else {
        total_events(logs.drop_last()) + logs.last().len()
    }
}

/// Counts the events of logs, unless they are too many to count.
pub fn count_events(threads: &Vec<Vec<EventEnvelope>>) -> (r: Option<usize>)
    ensures
        match r {
            Some(n) => n == total_events(logs_view(threads@)),
            None => total_events(logs_view(threads@)) > usize::MAX,
        },
{
    let ghost logs = logs_view(threads@);
    let mut total: usize = 0;
    let mut i: usize = 0;
    while i < threads.len()
        invariant
            i <= threads@.len(),
            logs == logs_view(threads@),
            total == total_events(logs.take(i as int)),
        decreases threads@.len() - i,
    {
        assert(logs.take(i + 1).drop_last() =~= logs.take(i as int));
        assert(logs.take(i + 1).last() == log_view(threads@[i as int]@));
        match total.checked_add(threads[i].len()) {
            Some(sum) => {
                total = sum;
            },
            None => {
                proof {
                    lemma_total_grows(logs, i + 1);
                }
                return None;
            },
        }
        i += 1;
    }
    assert(logs.take(i as int) =~= logs);
    Some(total)
}

proof fn lemma_total_grows(logs: Seq<Seq<EnvelopeView>>, n: int)
    requires
        0 <= n <= logs.len(),
    ensures
        total_events(logs.take(n)) <= total_events(logs),
    decreases logs.len(),
{
    if n < logs.len() {
        assert(logs.drop_last().take(n) =~= logs.take(n));
        lemma_total_grows(logs.drop_last(), n);
    } else {
        assert(logs.take(n) =~= logs);
    }
}

// ---------------------------------------------------------------------------
// Approvals
// ---------------------------------------------------------------------------
/// The order in which approvals of a turn are preferred.
pub open spec fn preference(status: ApprovalStatus) -> int {
    match status {
        ApprovalStatus::Pending => 0,
        ApprovalStatus::Approved => 1,
        ApprovalStatus::Rejected => 2,
        ApprovalStatus::Expired => 3,
    }
}

fn preference_of(status: ApprovalStatus) -> (r: u8)
    ensures
        r == preference(status),
{
    match status {
        ApprovalStatus::Pending => 0,
        ApprovalStatus::Approved => 1,
        ApprovalStatus::Rejected => 2,
        ApprovalStatus::Expired => 3,
    }
}

/// The approval at `i` is the one that stands for a turn: none is preferred to
/// it, and among those that are preferred as much it is the first.
pub open spec fn is_preferred(approvals: Seq<DurableApproval>, i: int) -> bool {
    &&& 0 <= i < approvals.len()
    &&& forall|k: int|
        0 <= k < approvals.len() ==> preference(approvals[i].status) <= preference(
            (#[trigger] approvals[k]).status,
        )
    &&& forall|k: int|
        0 <= k < i ==> preference(approvals[i].status) < preference((#[trigger] approvals[k]).status)
}

/// Picks the approval that stands for a turn.
pub fn approval_for_turn(approvals: Vec<DurableApproval>) -> (r: Option<DurableApproval>)
    ensures
        match r {
            Some(approval) => exists|i: int|
                is_preferred(approvals@, i) && approval == #[trigger] approvals@[i],
            None => approvals@.len() == 0,
        },
{
    if approvals.len() == 0 {
        return None;
    }
    let mut best: usize = 0;
    let mut i: usize = 1;
    while i < approvals.len()
        invariant
            1 <= i <= approvals@.len(),
            best < i,
            forall|k: int|
                0 <= k < i ==> preference(approvals@[best as int].status) <= preference(
                    (#[trigger] approvals@[k]).status,
                ),
            forall|k: int|
                0 <= k < best ==> preference(approvals@[best as int].status) < preference(
                    (#[trigger] approvals@[k]).status,
                ),
        decreases approvals@.len() - i,
    {
        if preference_of(approvals[i].status) < preference_of(approvals[best].status) {
            best = i;
        }
        i += 1;
    }
    assert(is_preferred(approvals@, best as int));
    let mut approvals = approvals;
    Some(approvals.swap_remove(best))
}

} // verus!
