//! A new thread out of the history of another, and threads that are imported.
use vstd::prelude::*;

use crate::error::{ErrorView, OpsCodexError, OpsResult};
use crate::runtime::envelope::{fresh_envelope, log_view, EnvelopeView, EventEnvelope};
use crate::runtime::event::{EventView, RuntimeEvent};
use crate::runtime::thread::{EventId, ThreadId, ThreadStatus, WorkspaceId};
use crate::store::log::{numbered, well_numbered};
use crate::store::projection::{
    items_title, log_items, log_status, next_status, next_title, reconstruct_thread, status_after,
    thread_error, thread_title, title_from_event,
};
use crate::store::sqlite::{event_hash, log_bytes};
use crate::digest::sha256_text;
use crate::text::{decimal, decimal_of, same};
use crate::time::Timestamp;

verus! {

/// What a fork takes over: what was said and found, not what was delivered,
/// decided or under way.
pub open spec fn is_inherited(event: EventView) -> bool {
    match event {
        EventView::AssistantDelta { .. } => false,
        EventView::ApprovalRequired { .. } => false,
        EventView::ApprovalResolved { .. } => false,
        EventView::TurnStarted => false,
        EventView::TurnCompleted => false,
        EventView::TurnCancelled => false,
        EventView::TurnFailed { .. } => false,
        EventView::ToolAuthorized { .. } => false,
        EventView::ToolExecutionStarted { .. } => false,
        _ => true,
    }
}

pub fn inheritable(event: &RuntimeEvent) -> (r: bool)
    ensures
        r == is_inherited(event@),
{
    !matches!(
        event,
        RuntimeEvent::AssistantDelta { .. } | RuntimeEvent::ApprovalRequired { .. }
            | RuntimeEvent::ApprovalResolved { .. } | RuntimeEvent::TurnStarted
            | RuntimeEvent::TurnCompleted | RuntimeEvent::TurnCancelled
            | RuntimeEvent::TurnFailed { .. } | RuntimeEvent::ToolAuthorized { .. }
            | RuntimeEvent::ToolExecutionStarted { .. }
    )
}

/// The events of a log that a fork at `at_seq` takes over, the creation of the
/// thread among them.
pub open spec fn inherited(events: Seq<EnvelopeView>, at_seq: u64) -> Seq<EnvelopeView> {
    events.filter(
        |envelope: EnvelopeView| envelope.seq <= at_seq && is_inherited(envelope.event),
    )
}

/// What is wrong with a request for a fork.
pub open spec fn fork_error(
    thread_id: ThreadId,
    events: Seq<EnvelopeView>,
    at_seq: u64,
) -> Option<ErrorView> {
    if at_seq == 0 {
        Some(ErrorView::Protocol("fork requires a durable seq greater than zero"@))
    } else if events.len() == 0 {
        Some(ErrorView::NotFound("thread "@ + thread_id.text()))
    } else if events.last().seq < at_seq {
        Some(
            ErrorView::Protocol(
                "fork seq "@ + decimal(at_seq as nat) + " is past the last committed event"@,
            ),
        )
    } else {
        None
    }
}

/// The workspace of a fork: that of the first event that it takes over.
pub open spec fn fork_workspace(kept: Seq<EnvelopeView>) -> Seq<char> {
    if kept.len() > 0 {
        kept[0].workspace_id
    } else {
        "default"@
    }
}

/// The envelope of the event of `source` in a fork, the `k`-th after the
/// creation.
pub open spec fn copied(
    source: EnvelopeView,
    k: int,
    new_thread_id: ThreadId,
    workspace_id: Seq<char>,
    event_id: EventId,
    now: Timestamp,
) -> EnvelopeView {
    EnvelopeView {
        stream_kind: source.stream_kind,
        workspace_id,
        ..fresh_envelope(
            (k + 2) as u64,
            new_thread_id,
            None,
            source.item_id,
            source.causation_id,
            source.event,
            event_id,
            now,
        )
    }
}

/// The log of a fork: its creation, then what it takes over, numbered anew.
pub open spec fn fork_log(
    kept: Seq<EnvelopeView>,
    new_thread_id: ThreadId,
    ids: Seq<EventId>,
    now: Timestamp,
) -> Seq<EnvelopeView> {
    let workspace_id = fork_workspace(kept);
    let created = EnvelopeView {
        workspace_id,
        ..fresh_envelope(
            1,
            new_thread_id,
            None,
            None,
            None,
            EventView::ThreadCreated,
            ids[0],
            now,
        )
    };
    let rest = if kept.len() == 0 {
        kept
    } else {
        kept.skip(1)
    };
    seq![created] + Seq::new(
        rest.len(),
        |k: int| copied(rest[k], k, new_thread_id, workspace_id, ids[k + 1], now),
    )
}

/// The status and the title after the events of a log.
pub open spec fn status_from(status: ThreadStatus, events: Seq<EnvelopeView>) -> ThreadStatus
    decreases events.len(),
{
    if events.len() == 0 {
        status
    } else {
        next_status(status_from(status, events.drop_last()), events.last().event)
    }
}

pub open spec fn title_from(title: Option<Seq<char>>, events: Seq<EnvelopeView>) -> Option<
    Seq<char>,
>
    decreases events.len(),
{
    if events.len() == 0 {
        title
    } else {
        next_title(title_from(title, events.drop_last()), events.last().event)
    }
}

/// A thread that is to be made.
#[derive(Debug)]
pub struct ForkPlan {
    pub events: Vec<EventEnvelope>,
    pub parent_thread_id: ThreadId,
    pub forked_at_seq: u64,
    pub status: ThreadStatus,
    pub title: Option<String>,
}

fn keep_inherited(events: &Vec<EventEnvelope>, at_seq: u64) -> (r: Vec<EventEnvelope>)
    ensures
        log_view(r@) == inherited(log_view(events@), at_seq),
        r@.len() <= events@.len(),
{
    let ghost log = log_view(events@);
    let ghost keep = |envelope: EnvelopeView|
        envelope.seq <= at_seq && is_inherited(envelope.event);
    let mut kept: Vec<EventEnvelope> = Vec::new();
    let mut i: usize = 0;
    proof {
        reveal(Seq::filter);
        assert(log_view(kept@) =~= log.take(0).filter(keep));
    }
    while i < events.len()
        invariant
            i <= events@.len(),
            kept@.len() <= i,
            log == log_view(events@),
            keep == |envelope: EnvelopeView|
                envelope.seq <= at_seq && is_inherited(envelope.event),
            log_view(kept@) == log.take(i as int).filter(keep),
        decreases events@.len() - i,
    {
        proof {
            reveal(Seq::filter);
            assert(log.take(i + 1).drop_last() =~= log.take(i as int));
            assert(log.take(i + 1).last() == events@[i as int]@);
        }
        if events[i].seq <= at_seq && inheritable(&events[i].event) {
            let ghost before = kept@;
            kept.push(events[i].clone());
            assert(log_view(kept@) =~= log_view(before).push(events@[i as int]@));
        }
        i += 1;
    }
    assert(log.take(i as int) =~= log);
    kept
}

fn or_title(title: Option<String>, event: &RuntimeEvent) -> (r: Option<String>)
    ensures
        crate::json::string_view(r) == next_title(crate::json::string_view(title), event@),
{
    match title {
        Some(title) => Some(title),
        None => title_from_event(event),
    }
}

fn fork_refusal(thread_id: &ThreadId, events: &Vec<EventEnvelope>, at_seq: u64) -> (r: Option<
    OpsCodexError,
>)
    ensures
        match r {
            Some(e) => fork_error(*thread_id, log_view(events@), at_seq) == Some(e@),
            None => fork_error(*thread_id, log_view(events@), at_seq) is None,
        },
{
    if at_seq == 0 {
        return Some(
            OpsCodexError::Protocol("fork requires a durable seq greater than zero".to_owned()),
        );
    }
    let n: usize = events.len();
    if n == 0 {
        let mut message = "thread ".to_owned();
        message.append(thread_id.to_string().as_str());
        return Some(OpsCodexError::NotFound(message));
    }
    assert(log_view(events@).last() == events@[n - 1]@);
    if events[n - 1].seq < at_seq {
        let mut message = "fork seq ".to_owned();
        message.append(decimal_of(at_seq).as_str());
        message.append(" is past the last committed event");
        return Some(OpsCodexError::Protocol(message));
    }
    None
}

/// Plans a thread that starts from the history of another, up to `at_seq`. The
/// caller supplies an identifier for each event, one more than the log has
/// events at most.
pub fn fork_thread(
    thread_id: &ThreadId,
    events: &Vec<EventEnvelope>,
    at_seq: u64,
    new_thread_id: ThreadId,
    title: Option<String>,
    ids: &Vec<EventId>,
    now: Timestamp,
) -> (r: OpsResult<ForkPlan>)
    requires
        ids@.len() > events@.len(),
    ensures
        match r {
            Ok(plan) => {
                let log = fork_log(
                    inherited(log_view(events@), at_seq),
                    new_thread_id,
                    ids@,
                    now,
                );
                &&& fork_error(*thread_id, log_view(events@), at_seq) is None
                &&& log_view(plan.events@) == log
                &&& plan.parent_thread_id == *thread_id
                &&& plan.forked_at_seq == at_seq
                &&& plan.status == status_from(ThreadStatus::Idle, log.skip(1))
                &&& crate::json::string_view(plan.title) == title_from(
                    crate::json::string_view(title),
                    log.skip(1),
                )
            },
            Err(e) => fork_error(*thread_id, log_view(events@), at_seq) == Some(e@),
        },
{
    if let Some(error) = fork_refusal(thread_id, events, at_seq) {
        return Err(error);
    }
    let kept = keep_inherited(events, at_seq);
    let ghost source = log_view(kept@);
    let ghost first_title = crate::json::string_view(title);
    let workspace_id = if kept.len() > 0 {
        assert(source[0] == kept@[0]@);
        kept[0].workspace_id.clone()
    } else {
        WorkspaceId::default()
    };
    let ghost log = fork_log(source, new_thread_id, ids@, now);
    let created = EventEnvelope::new(
        1,
        new_thread_id,
        None,
        RuntimeEvent::ThreadCreated,
        ids[0],
        now,
    ).with_workspace(workspace_id.clone());
    let mut copies: Vec<EventEnvelope> = Vec::new();
    copies.push(created);
    let mut status = ThreadStatus::Idle;
    let mut title = title;
    let mut i: usize = 1;
    assert(log_view(copies@) =~= log.take(1));
    assert(log.take(1).skip(1) =~= Seq::empty());
    while i < kept.len()
        invariant
            kept@.len() <= events@.len() < ids@.len(),
            1 <= i,
            i <= kept@.len() || (i == 1 && kept@.len() == 0),
            source == log_view(kept@),
            workspace_id@ == fork_workspace(source),
            log == fork_log(source, new_thread_id, ids@, now),
            log.len() == (if kept@.len() == 0 {
                1
            } else {
                kept@.len()
            }),
            log_view(copies@) == log.take(i as int),
            status == status_from(ThreadStatus::Idle, log.take(i as int).skip(1)),
            crate::json::string_view(title) == title_from(
                first_title,
                log.take(i as int).skip(1),
            ),
        decreases kept@.len() - i,
    {
        let envelope = &kept[i];
        assert(source.skip(1)[i - 1] == envelope@);
        let copy = EventEnvelope::with_causation(
            i as u64 + 1,
            new_thread_id,
            None,
            envelope.item_id,
            envelope.causation_id,
            envelope.event.clone(),
            ids[i],
            now,
        ).with_workspace(workspace_id.clone());
        let copy = EventEnvelope { stream_kind: envelope.stream_kind, ..copy };
        status = status_after(status, &copy.event);
        title = or_title(title, &copy.event);
        let ghost before = copies@;
        assert(copy@ == log[i as int]);
        copies.push(copy);
        proof {
            assert(log_view(copies@) =~= log_view(before).push(log[i as int]));
            assert(log.take(i + 1) =~= log.take(i as int).push(log[i as int]));
            let longer = log.take(i + 1).skip(1);
            assert(longer =~= log.take(i as int).skip(1).push(log[i as int]));
            assert(longer.drop_last() =~= log.take(i as int).skip(1));
        }
        i += 1;
    }
    assert(log.take(i as int) =~= log);
    Ok(
        ForkPlan {
            events: copies,
            parent_thread_id: *thread_id,
            forked_at_seq: at_seq,
            status,
            title,
        },
    )
}

/// The log of a fork is well numbered, in the workspace of its source.
pub proof fn law_fork_is_well_numbered(
    kept: Seq<EnvelopeView>,
    new_thread_id: ThreadId,
    ids: Seq<EventId>,
    now: Timestamp,
)
    requires
        kept.len() < u64::MAX,
    ensures
        well_numbered(new_thread_id, fork_log(kept, new_thread_id, ids, now)),
{
    let log = fork_log(kept, new_thread_id, ids, now);
    assert forall|i: int| 0 <= i < log.len() implies numbered(
        new_thread_id,
        log[0].workspace_id,
        #[trigger] log[i],
        i,
    ) by {}
}

/// A fork holds no request for an approval and no decision on one, and nothing
/// of a turn that was under way: it can do nothing that was approved elsewhere.
pub proof fn law_fork_inherits_no_authority(
    events: Seq<EnvelopeView>,
    at_seq: u64,
    new_thread_id: ThreadId,
    ids: Seq<EventId>,
    now: Timestamp,
    i: int,
)
    requires
        0 <= i < fork_log(inherited(events, at_seq), new_thread_id, ids, now).len(),
    ensures
        is_inherited(fork_log(inherited(events, at_seq), new_thread_id, ids, now)[i].event),
{
    let kept = inherited(events, at_seq);
    if i > 0 {
        let keep = |envelope: EnvelopeView|
            envelope.seq <= at_seq && is_inherited(envelope.event);
        events.lemma_filter_contains_rev(keep, kept[i]);
        lemma_filter_holds(events, keep);
        assert(keep(kept[i]));
    }
}

proof fn lemma_filter_holds(events: Seq<EnvelopeView>, keep: spec_fn(EnvelopeView) -> bool)
    ensures
        forall|i: int| 0 <= i < events.filter(keep).len() ==> keep(#[trigger] events.filter(keep)[i]),
    decreases events.len(),
{
    reveal(Seq::filter);
    if events.len() > 0 {
        lemma_filter_holds(events.drop_last(), keep);
    }
}

// ---------------------------------------------------------------------------
// Import
// ---------------------------------------------------------------------------
/// A thread that is to be imported.
#[derive(Debug)]
pub struct ImportPlan {
    pub status: ThreadStatus,
    pub title: Option<String>,
    pub created_at: Timestamp,
    pub updated_at: Timestamp,
}

/// Two logs have the same hash.
pub open spec fn same_hash(a: Seq<EnvelopeView>, b: Seq<EnvelopeView>) -> bool {
    sha256_text(log_bytes(a)) == sha256_text(log_bytes(b))
}

/// What is wrong with a log that is to be imported, where `current` is the log
/// that is there already.
pub open spec fn import_error(
    events: Seq<EnvelopeView>,
    current: Option<Seq<EnvelopeView>>,
) -> Option<ErrorView> {
    if events.len() == 0 {
        Some(ErrorView::Storage("cannot import an empty thread"@))
    } else {
        match current {
            Some(current) => if same_hash(current, events) {
                None
            } else {
                Some(
                    ErrorView::Storage(
                        "thread "@ + events[0].thread_id.text()
                            + " already exists with different content"@,
                    ),
                )
            },
            None => thread_error(events[0].thread_id, events),
        }
    }
}

pub open spec fn current_view(current: Option<Vec<EventEnvelope>>) -> Option<Seq<EnvelopeView>> {
    match current {
        Some(events) => Some(log_view(events@)),
        None => None,
    }
}

/// Plans the import of a log. There is nothing to do where the store has it.
pub fn import_thread(events: &Vec<EventEnvelope>, current: &Option<Vec<EventEnvelope>>) -> (r:
    OpsResult<Option<ImportPlan>>)
    ensures
        match r {
            Ok(None) => current is Some && import_error(
                log_view(events@),
                current_view(*current),
            ) is None,
            Ok(Some(plan)) => {
                let log = log_view(events@);
                &&& current is None
                &&& import_error(log, current_view(*current)) is None
                &&& plan.status == log_status(log)
                &&& crate::json::string_view(plan.title) == items_title(log_items(log))
                &&& plan.created_at == log[0].timestamp
                &&& plan.updated_at == log.last().timestamp
            },
            Err(e) => import_error(log_view(events@), current_view(*current)) == Some(e@),
        },
{
    if events.len() == 0 {
        return Err(OpsCodexError::Storage("cannot import an empty thread".to_owned()));
    }
    assert(log_view(events@)[0] == events@[0]@);
    let thread_id = events[0].thread_id;
    if let Some(current) = current {
        if !same(event_hash(current).as_str(), event_hash(events).as_str()) {
            let mut message = "thread ".to_owned();
            message.append(thread_id.to_string().as_str());
            message.append(" already exists with different content");
            return Err(OpsCodexError::Storage(message));
        }
        return Ok(None);
    }
    match reconstruct_thread(&thread_id, events) {
        Ok(thread) => {
            let title = thread_title(&thread.items);
            Ok(
                Some(
                    ImportPlan {
                        status: thread.status,
                        title,
                        created_at: thread.created_at,
                        updated_at: thread.updated_at,
                    },
                ),
            )
        },
        Err(e) => Err(e),
    }
}

/// A log that was imported can be imported again: nothing happens.
pub proof fn law_import_is_idempotent(events: Seq<EnvelopeView>)
    requires
        import_error(events, None) is None,
    ensures
        import_error(events, Some(events)) is None,
{
}

} // verus!
