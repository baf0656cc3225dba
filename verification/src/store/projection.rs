//! What the events of a thread add up to.
use vstd::prelude::*;

use crate::error::{ErrorView, OpsCodexError, OpsResult};
use crate::model::provider::{item_views, ItemView, ModelItem};
use crate::runtime::envelope::{log_view, EnvelopeView, EventEnvelope};
use crate::runtime::event::{EventView, RuntimeEvent};
use crate::runtime::thread::{
    entry_views, ApprovalId, EntryView, Item, Thread, ThreadId, ThreadStatus, WorkspaceId,
};
use crate::text::{decimal, decimal_of, join, join_strings, prefix, take_chars};
use crate::time::Timestamp;

verus! {

pub const TITLE_CHARS: usize = 120;

// ---------------------------------------------------------------------------
// What a model is shown
// ---------------------------------------------------------------------------
/// The events that a summary stands for.
pub open spec fn covers(event: EventView, seq: u64) -> bool {
    event matches EventView::ContextCompacted { covers_seq_start, covers_seq_end, .. }
        && covers_seq_start <= seq <= covers_seq_end
}

/// Some summary of the log stands for the event with this number.
pub open spec fn is_compacted(events: Seq<EnvelopeView>, seq: u64) -> bool {
    exists|i: int| 0 <= i < events.len() && covers((#[trigger] events[i]).event, seq)
}

/// The message by which a summary is shown.
pub open spec fn summary_message(
    start: u64,
    end: u64,
    evidence: Seq<Seq<char>>,
    summary: Seq<char>,
) -> Seq<char> {
    "[compacted context seq "@ + decimal(start as nat) + "-"@ + decimal(end as nat)
        + "; evidence: "@ + join(evidence, ", "@) + "]\n"@ + summary
}

/// What a model is shown of an event, if anything.
pub open spec fn item_of(event: EventView) -> Option<ItemView> {
    match event {
        EventView::UserMessage { content, incident_context } => Some(
            ItemView::UserMessage(
                match incident_context {
                    Some(context) => context.prompt + "\n\n"@ + content,
                    None => content,
                },
            ),
        ),
        EventView::AssistantCompleted { content, .. } => Some(ItemView::AssistantMessage(content)),
        EventView::ToolStarted { call_id, tool, arguments } => Some(
            ItemView::ToolCall(call_id, tool, arguments),
        ),
        EventView::ToolProposed { call_id, tool, arguments } => Some(
            ItemView::ToolCall(call_id, tool, arguments),
        ),
        EventView::ToolCompleted { call_id, output, .. } => Some(
            ItemView::ToolResult(call_id, output),
        ),
        EventView::ContextCompacted {
            covers_seq_start,
            covers_seq_end,
            source_evidence_ids,
            summary,
            ..
        } => Some(
            ItemView::UserMessage(
                summary_message(covers_seq_start, covers_seq_end, source_evidence_ids, summary),
            ),
        ),
        _ => None,
    }
}

/// The event is shown: no summary stands for it, or it is a summary itself.
pub open spec fn is_shown(events: Seq<EnvelopeView>, envelope: EnvelopeView) -> bool {
    envelope.event is ContextCompacted || !is_compacted(events, envelope.seq)
}

/// What a model is shown of the first `n` events of a log.
pub open spec fn shown_items(events: Seq<EnvelopeView>, n: int) -> Seq<ItemView>
    decreases n,
{
    if n <= 0 {
        Seq::empty()
    } else {
        let before = shown_items(events, n - 1);
        let envelope = events[n - 1];
        if is_shown(events, envelope) && item_of(envelope.event) is Some {
            before.push(item_of(envelope.event)->0)
        } else {
            before
        }
    }
}

/// What a model is shown of a log.
pub open spec fn history(events: Seq<EnvelopeView>) -> Seq<ItemView> {
    shown_items(events, events.len() as int)
}

/// The ranges that the summaries of a log stand for.
fn compacted_ranges(events: &Vec<EventEnvelope>) -> (r: Vec<(u64, u64)>)
    ensures
        forall|seq: u64| #[trigger]
            in_ranges(r@, seq) == is_compacted(log_view(events@), seq),
{
    let mut r: Vec<(u64, u64)> = Vec::new();
    let mut i: usize = 0;
    let ghost log = log_view(events@);
    assert forall|seq: u64| #[trigger] in_ranges(r@, seq) == is_compacted(log.take(0), seq) by {}
    while i < events.len()
        invariant
            i <= events@.len(),
            log == log_view(events@),
            forall|seq: u64| #[trigger]
                in_ranges(r@, seq) == is_compacted(log.take(i as int), seq),
        decreases events@.len() - i,
    {
        let ghost ranges = r@;
        let ghost shorter = log.take(i as int);
        let ghost longer = log.take(i + 1);
        if let RuntimeEvent::ContextCompacted { covers_seq_start, covers_seq_end, .. } =
            &events[i].event {
            r.push((*covers_seq_start, *covers_seq_end));
        }
        proof {
            assert(longer =~= shorter.push(events@[i as int]@));
            assert forall|seq: u64| #[trigger] in_ranges(r@, seq) == is_compacted(longer, seq) by {
                lemma_compacted_push(shorter, events@[i as int]@, seq);
                assert(in_ranges(ranges, seq) == is_compacted(shorter, seq));
                if events@[i as int]@.event is ContextCompacted {
                    lemma_ranges_push(ranges, r@.last(), seq);
                    assert(r@ =~= ranges.push(r@.last()));
                }
            }
        }
        i += 1;
    }
    assert(log.take(i as int) =~= log);
    r
}

/// Some range holds the number.
pub open spec fn in_ranges(ranges: Seq<(u64, u64)>, seq: u64) -> bool {
    exists|i: int| 0 <= i < ranges.len() && (#[trigger] ranges[i]).0 <= seq <= ranges[i].1
}

proof fn lemma_ranges_push(ranges: Seq<(u64, u64)>, last: (u64, u64), seq: u64)
    ensures
        in_ranges(ranges.push(last), seq) == (in_ranges(ranges, seq) || last.0 <= seq <= last.1),
{
    let longer = ranges.push(last);
    if in_ranges(ranges, seq) {
        let i = choose|i: int|
            0 <= i < ranges.len() && (#[trigger] ranges[i]).0 <= seq <= ranges[i].1;
        assert(longer[i] == ranges[i]);
    }
    if last.0 <= seq <= last.1 {
        assert(longer[ranges.len() as int] == last);
    }
    if in_ranges(longer, seq) {
        let i = choose|i: int|
            0 <= i < longer.len() && (#[trigger] longer[i]).0 <= seq <= longer[i].1;
        if i < ranges.len() {
            assert(ranges[i] == longer[i]);
        }
    }
}

proof fn lemma_compacted_push(events: Seq<EnvelopeView>, last: EnvelopeView, seq: u64)
    ensures
        is_compacted(events.push(last), seq) == (is_compacted(events, seq) || covers(
            last.event,
            seq,
        )),
{
    let longer = events.push(last);
    if is_compacted(events, seq) {
        let i = choose|i: int| 0 <= i < events.len() && covers((#[trigger] events[i]).event, seq);
        assert(longer[i] == events[i]);
    }
    if covers(last.event, seq) {
        assert(longer[events.len() as int] == last);
    }
    if is_compacted(longer, seq) {
        let i = choose|i: int| 0 <= i < longer.len() && covers((#[trigger] longer[i]).event, seq);
        if i < events.len() {
            assert(events[i] == longer[i]);
        }
    }
}

fn is_covered(seq: u64, ranges: &Vec<(u64, u64)>) -> (r: bool)
    ensures
        r == in_ranges(ranges@, seq),
{
    let mut i: usize = 0;
    while i < ranges.len()
        invariant
            i <= ranges@.len(),
            forall|k: int| 0 <= k < i ==> !((#[trigger] ranges@[k]).0 <= seq <= ranges@[k].1),
        decreases ranges@.len() - i,
    {
        if ranges[i].0 <= seq && seq <= ranges[i].1 {
            return true;
        }
        i += 1;
    }
    false
}

fn shown_item(event: &RuntimeEvent) -> (r: Option<ModelItem>)
    ensures
        match r {
            Some(item) => item_of(event@) == Some(item@),
            None => item_of(event@) is None,
        },
{
    match event {
        RuntimeEvent::UserMessage { content, incident_context } => {
            let content = match incident_context {
                Some(context) => {
                    let mut text = context.prompt_block();
                    text.append("\n\n");
                    text.append(content.as_str());
                    text
                },
                None => content.clone(),
            };
            Some(ModelItem::UserMessage { content })
        },
        RuntimeEvent::AssistantCompleted { content, .. } => Some(
            ModelItem::AssistantMessage { content: content.clone() },
        ),
        RuntimeEvent::ToolStarted { call_id, tool, arguments } => Some(
            ModelItem::ToolCall {
                call_id: call_id.clone(),
                name: tool.clone(),
                arguments: arguments.clone(),
            },
        ),
        RuntimeEvent::ToolProposed { call_id, tool, arguments } => Some(
            ModelItem::ToolCall {
                call_id: call_id.clone(),
                name: tool.clone(),
                arguments: arguments.clone(),
            },
        ),
        RuntimeEvent::ToolCompleted { call_id, output, .. } => Some(
            ModelItem::ToolResult { call_id: call_id.clone(), output: output.clone() },
        ),
        RuntimeEvent::ContextCompacted {
            covers_seq_start,
            covers_seq_end,
            source_evidence_ids,
            summary,
            ..
        } => {
            let mut content = "[compacted context seq ".to_owned();
            content.append(decimal_of(*covers_seq_start).as_str());
            content.append("-");
            content.append(decimal_of(*covers_seq_end).as_str());
            content.append("; evidence: ");
            content.append(join_strings(source_evidence_ids, ", ").as_str());
            content.append("]\n");
            content.append(summary.as_str());
            Some(ModelItem::UserMessage { content })
        },
        _ => None,
    }
}

/// The history that a model is shown.
pub fn model_items_from_events(events: &Vec<EventEnvelope>) -> (r: Vec<ModelItem>)
    ensures
        item_views(r@) == history(log_view(events@)),
{
    let covered = compacted_ranges(events);
    let ghost log = log_view(events@);
    let mut items: Vec<ModelItem> = Vec::new();
    let mut i: usize = 0;
    assert(item_views(items@) =~= shown_items(log, 0));
    while i < events.len()
        invariant
            i <= events@.len(),
            log == log_view(events@),
            forall|seq: u64| #[trigger] in_ranges(covered@, seq) == is_compacted(log, seq),
            item_views(items@) == shown_items(log, i as int),
        decreases events@.len() - i,
    {
        let envelope = &events[i];
        assert(log[i as int] == envelope@);
        let summary = matches!(&envelope.event, RuntimeEvent::ContextCompacted { .. });
        if summary || !is_covered(envelope.seq, &covered) {
            let ghost before = items@;
            if let Some(item) = shown_item(&envelope.event) {
                items.push(item);
                assert(item_views(items@) =~= item_views(before).push(item@));
            }
        }
        i += 1;
    }
    items
}

// ---------------------------------------------------------------------------
// Threads
// ---------------------------------------------------------------------------
/// The status of a thread after an event.
pub open spec fn next_status(status: ThreadStatus, event: EventView) -> ThreadStatus {
    match event {
        EventView::ApprovalRequired { .. } => ThreadStatus::WaitingApproval,
        EventView::ApprovalResolved { .. } => ThreadStatus::Running,
        EventView::TurnStarted => ThreadStatus::Running,
        EventView::TurnCompleted => ThreadStatus::Idle,
        EventView::TurnCancelled => ThreadStatus::Idle,
        EventView::TurnFailed { .. } => ThreadStatus::Failed,
        _ => status,
    }
}

pub fn status_after(status: ThreadStatus, event: &RuntimeEvent) -> (r: ThreadStatus)
    ensures
        r == next_status(status, event@),
{
    match event {
        RuntimeEvent::ApprovalRequired { .. } => ThreadStatus::WaitingApproval,
        RuntimeEvent::ApprovalResolved { .. } => ThreadStatus::Running,
        RuntimeEvent::TurnStarted => ThreadStatus::Running,
        RuntimeEvent::TurnCompleted => ThreadStatus::Idle,
        RuntimeEvent::TurnCancelled => ThreadStatus::Idle,
        RuntimeEvent::TurnFailed { .. } => ThreadStatus::Failed,
        _ => status,
    }
}

/// The title that an event gives to a thread.
pub open spec fn event_title(event: EventView) -> Option<Seq<char>> {
    match event {
        EventView::UserMessage { content, .. } => Some(prefix(content, TITLE_CHARS as nat)),
        _ => None,
    }
}

pub fn title_from_event(event: &RuntimeEvent) -> (r: Option<String>)
    ensures
        crate::json::string_view(r) == event_title(event@),
{
    match event {
        RuntimeEvent::UserMessage { content, .. } => Some(
            take_chars(content.as_str(), TITLE_CHARS),
        ),
        _ => None,
    }
}

/// The last request for an approval with this identifier.
pub open spec fn last_approval(items: Seq<EntryView>, id: ApprovalId) -> Option<int>
    decreases items.len(),
{
    if items.len() == 0 {
        None
    } else if items.last() matches EntryView::Approval(found, _) && found == id {
        Some(items.len() - 1)
    } else {
        last_approval(items.drop_last(), id)
    }
}

/// The entries of a thread after an event.
pub open spec fn next_items(items: Seq<EntryView>, event: EventView) -> Seq<EntryView> {
    match event {
        EventView::UserMessage { content, .. } => items.push(EntryView::UserMessage(content)),
        EventView::AssistantCompleted { content, .. } => items.push(
            EntryView::AssistantMessage(content),
        ),
        EventView::ToolStarted { call_id, tool, arguments } => items.push(
            EntryView::ToolCall(call_id, tool, arguments),
        ),
        EventView::ToolProposed { call_id, tool, arguments } => items.push(
            EntryView::ToolCall(call_id, tool, arguments),
        ),
        EventView::ToolCompleted { call_id, output, evidence, .. } => items.push(
            EntryView::ToolResult(call_id, output, evidence),
        ),
        EventView::ApprovalRequired { approval_id, .. } => items.push(
            EntryView::Approval(approval_id, None),
        ),
        EventView::ApprovalResolved { approval_id, approved } => match last_approval(
            items,
            approval_id,
        ) {
            Some(i) => items.update(i, EntryView::Approval(approval_id, Some(approved))),
            None => items,
        },
        EventView::ContextCompacted {
            summary_id,
            covers_seq_start,
            covers_seq_end,
            source_evidence_ids,
            summary,
            ..
        } => items.push(
            EntryView::Summary(
                summary_id,
                covers_seq_start,
                covers_seq_end,
                summary,
                source_evidence_ids,
            ),
        ),
        _ => items,
    }
}

/// The entries that a log adds up to.
pub open spec fn log_items(events: Seq<EnvelopeView>) -> Seq<EntryView>
    decreases events.len(),
{
    if events.len() == 0 {
        Seq::empty()
    } else {
        next_items(log_items(events.drop_last()), events.last().event)
    }
}

/// The status that a log adds up to.
pub open spec fn log_status(events: Seq<EnvelopeView>) -> ThreadStatus
    decreases events.len(),
{
    if events.len() == 0 {
        ThreadStatus::Idle
    } else {
        next_status(log_status(events.drop_last()), events.last().event)
    }
}

/// Where the last request for an approval with this identifier stands.
fn find_approval(items: &Vec<Item>, id: &ApprovalId) -> (r: Option<usize>)
    ensures
        match r {
            Some(i) => last_approval(entry_views(items@), *id) == Some(i as int) && i < items@.len(),
            None => last_approval(entry_views(items@), *id) is None,
        },
{
    let mut n: usize = items.len();
    let ghost entries = entry_views(items@);
    assert(entries.take(n as int) =~= entries);
    while n > 0
        invariant
            n <= items@.len(),
            entries == entry_views(items@),
            last_approval(entries, *id) == last_approval(entries.take(n as int), *id),
        decreases n,
    {
        assert(entries.take(n as int).drop_last() =~= entries.take(n - 1));
        assert(entries.take(n as int).last() == items@[n - 1]@);
        if let Item::Approval { id: found, .. } = &items[n - 1] {
            if *found == *id {
                return Some(n - 1);
            }
        }
        n -= 1;
    }
    None
}

fn apply_event(items: &mut Vec<Item>, status: &mut ThreadStatus, envelope: &EventEnvelope)
    ensures
        entry_views(final(items)@) == next_items(entry_views(old(items)@), envelope.event@),
        *final(status) == next_status(*old(status), envelope.event@),
{
    *status = status_after(*status, &envelope.event);
    let ghost before = entry_views(items@);
    match &envelope.event {
        RuntimeEvent::UserMessage { content, .. } => {
            items.push(Item::UserMessage { content: content.clone() });
        },
        RuntimeEvent::AssistantCompleted { content, .. } => {
            items.push(Item::AssistantMessage { content: content.clone() });
        },
        RuntimeEvent::ToolStarted { call_id, tool, arguments } => {
            items.push(
                Item::ToolCall {
                    call_id: call_id.clone(),
                    name: tool.clone(),
                    arguments: arguments.clone(),
                },
            );
        },
        RuntimeEvent::ToolProposed { call_id, tool, arguments } => {
            items.push(
                Item::ToolCall {
                    call_id: call_id.clone(),
                    name: tool.clone(),
                    arguments: arguments.clone(),
                },
            );
        },
        RuntimeEvent::ToolCompleted { call_id, output, evidence, .. } => {
            items.push(
                Item::ToolResult {
                    call_id: call_id.clone(),
                    output: output.clone(),
                    evidence: evidence.clone(),
                },
            );
        },
        RuntimeEvent::ApprovalRequired { approval_id, .. } => {
            items.push(Item::Approval { id: *approval_id, approved: None });
        },
        RuntimeEvent::ApprovalResolved { approval_id, approved } => {
            if let Some(i) = find_approval(items, approval_id) {
                items[i] = Item::Approval { id: *approval_id, approved: Some(*approved) };
            }
        },
        RuntimeEvent::ContextCompacted {
            summary_id,
            covers_seq_start,
            covers_seq_end,
            source_evidence_ids,
            summary,
            ..
        } => {
            items.push(
                Item::Summary {
                    summary_id: summary_id.clone(),
                    covers_seq_start: *covers_seq_start,
                    covers_seq_end: *covers_seq_end,
                    summary: summary.clone(),
                    source_evidence_ids: source_evidence_ids.clone(),
                },
            );
        },
        _ => {},
    }
    assert(entry_views(items@) =~= next_items(before, envelope.event@));
}

/// What is wrong with a log from which a thread is to be rebuilt.
pub open spec fn thread_error(thread_id: ThreadId, events: Seq<EnvelopeView>) -> Option<ErrorView> {
    if events.len() == 0 {
        Some(ErrorView::Storage("thread "@ + thread_id.text() + " has an empty event log"@))
    } else if !(events[0].event is ThreadCreated) {
        Some(
            ErrorView::Storage(
                "thread "@ + thread_id.text() + " does not start with thread_created"@,
            ),
        )
    } else {
        None
    }
}

/// The thread is what the events add up to.
pub open spec fn is_thread_of(thread: Thread, thread_id: ThreadId, events: Seq<EnvelopeView>) -> bool {
    &&& thread.id == thread_id
    &&& thread.workspace_id@ == events[0].workspace_id
    &&& entry_views(thread.items@) == log_items(events)
    &&& thread.status == log_status(events)
    &&& thread.created_at == events[0].timestamp
    &&& thread.updated_at == events.last().timestamp
    &&& thread.parent_thread_id is None
    &&& thread.forked_at_seq is None
}

fn thread_message(thread_id: &ThreadId, rest: &str) -> (r: String)
    ensures
        r@ == "thread "@ + thread_id.text() + rest@,
{
    let mut message = "thread ".to_owned();
    message.append(thread_id.to_string().as_str());
    message.append(rest);
    message
}

/// Rebuilds a thread from its events.
pub fn reconstruct_thread(thread_id: &ThreadId, events: &Vec<EventEnvelope>) -> (r: OpsResult<
    Thread,
>)
    ensures
        match r {
            Ok(thread) => thread_error(*thread_id, log_view(events@)) is None && is_thread_of(
                thread,
                *thread_id,
                log_view(events@),
            ),
            Err(e) => thread_error(*thread_id, log_view(events@)) == Some(e@),
        },
{
    if events.len() == 0 {
        return Err(
            OpsCodexError::Storage(thread_message(thread_id, " has an empty event log")),
        );
    }
    let ghost log = log_view(events@);
    assert(log[0] == events@[0]@);
    if let RuntimeEvent::ThreadCreated = &events[0].event {
    } else {
        return Err(
            OpsCodexError::Storage(
                thread_message(thread_id, " does not start with thread_created"),
            ),
        );
    }
    let mut items: Vec<Item> = Vec::new();
    let mut status = ThreadStatus::Idle;
    let mut i: usize = 0;
    assert(entry_views(items@) =~= log_items(log.take(0)));
    while i < events.len()
        invariant
            i <= events@.len(),
            log == log_view(events@),
            entry_views(items@) == log_items(log.take(i as int)),
            status == log_status(log.take(i as int)),
        decreases events@.len() - i,
    {
        apply_event(&mut items, &mut status, &events[i]);
        i += 1;
        assert(log.take(i as int).drop_last() =~= log.take(i - 1));
        assert(log.take(i as int).last() == events@[i - 1]@);
    }
    assert(log.take(i as int) =~= log);
    let last: usize = events.len() - 1;
    assert(log.last() == events@[last as int]@);
    Ok(
        Thread {
            id: *thread_id,
            workspace_id: events[0].workspace_id.clone(),
            items,
            status,
            created_at: events[0].timestamp,
            updated_at: events[last].timestamp,
            parent_thread_id: None,
            forked_at_seq: None,
        },
    )
}

// ---------------------------------------------------------------------------
// Summaries
// ---------------------------------------------------------------------------
/// A thread as it appears in a list.
#[derive(Debug)]
pub struct ThreadSummary {
    pub id: ThreadId,
    pub workspace_id: WorkspaceId,
    pub status: ThreadStatus,
    pub title: Option<String>,
    pub created_at: Timestamp,
    pub updated_at: Timestamp,
    pub parent_thread_id: Option<ThreadId>,
    pub forked_at_seq: Option<u64>,
}

/// The title that entries give: the start of the first message of the user.
pub open spec fn items_title(items: Seq<EntryView>) -> Option<Seq<char>>
    decreases items.len(),
{
    if items.len() == 0 {
        None
    } else {
        match items_title(items.drop_last()) {
            Some(title) => Some(title),
            None => match items.last() {
                EntryView::UserMessage(content) => Some(prefix(content, TITLE_CHARS as nat)),
                _ => None,
            },
        }
    }
}

/// The title of a thread.
pub fn thread_title(items: &Vec<Item>) -> (r: Option<String>)
    ensures
        crate::json::string_view(r) == items_title(entry_views(items@)),
{
    let mut i: usize = 0;
    let ghost entries = entry_views(items@);
    while i < items.len()
        invariant
            i <= items@.len(),
            entries == entry_views(items@),
            items_title(entries.take(i as int)) is None,
        decreases items@.len() - i,
    {
        assert(entries.take(i + 1).drop_last() =~= entries.take(i as int));
        assert(entries.take(i + 1).last() == items@[i as int]@);
        if let Item::UserMessage { content } = &items[i] {
            proof {
                lemma_title_stays(entries, i + 1);
            }
            return Some(take_chars(content.as_str(), TITLE_CHARS));
        }
        i += 1;
    }
    assert(entries.take(i as int) =~= entries);
    None
}

proof fn lemma_title_stays(items: Seq<EntryView>, n: int)
    requires
        0 <= n <= items.len(),
        items_title(items.take(n)) is Some,
    ensures
        items_title(items) == items_title(items.take(n)),
    decreases items.len(),
{
    if n < items.len() {
        assert(items.drop_last().take(n) =~= items.take(n));
        lemma_title_stays(items.drop_last(), n);
    } else {
        assert(items.take(n) =~= items);
    }
}

pub fn summary_from_thread(thread: Thread) -> (r: ThreadSummary)
    ensures
        r.id == thread.id,
        r.workspace_id == thread.workspace_id,
        r.status == thread.status,
        crate::json::string_view(r.title) == items_title(entry_views(thread.items@)),
        r.created_at == thread.created_at,
        r.updated_at == thread.updated_at,
        r.parent_thread_id == thread.parent_thread_id,
        r.forked_at_seq == thread.forked_at_seq,
{
    let title = thread_title(&thread.items);
    ThreadSummary {
        id: thread.id,
        workspace_id: thread.workspace_id,
        status: thread.status,
        title,
        created_at: thread.created_at,
        updated_at: thread.updated_at,
        parent_thread_id: thread.parent_thread_id,
        forked_at_seq: thread.forked_at_seq,
    }
}

// ---------------------------------------------------------------------------
// Laws
// ---------------------------------------------------------------------------
/// The title after an event, when it is kept beside the log.
pub open spec fn next_title(title: Option<Seq<char>>, event: EventView) -> Option<Seq<char>> {
    match title {
        Some(title) => Some(title),
        None => event_title(event),
    }
}

/// A status and a title that are kept up to date event by event are those of
/// the thread that is rebuilt from the whole log.
pub proof fn law_projection_is_incremental(events: Seq<EnvelopeView>, envelope: EnvelopeView)
    ensures
        log_status(events.push(envelope)) == next_status(log_status(events), envelope.event),
        log_items(events.push(envelope)) == next_items(log_items(events), envelope.event),
        items_title(log_items(events.push(envelope))) == next_title(
            items_title(log_items(events)),
            envelope.event,
        ),
{
    let longer = events.push(envelope);
    assert(longer.drop_last() =~= events);
    let items = log_items(events);
    let after = next_items(items, envelope.event);
    if let EventView::ApprovalResolved { approval_id, approved } = envelope.event {
        if let Some(i) = last_approval(items, approval_id) {
            lemma_last_approval(items, approval_id);
            lemma_title_ignores_decision(items, i, approval_id, approved);
        }
    } else if after != items {
        assert(after.drop_last() =~= items);
    }
}

proof fn lemma_last_approval(items: Seq<EntryView>, id: ApprovalId)
    ensures
        last_approval(items, id) matches Some(i) ==> 0 <= i < items.len() && (items[i] matches
            EntryView::Approval(found, _) && found == id),
    decreases items.len(),
{
    if items.len() > 0 {
        lemma_last_approval(items.drop_last(), id);
    }
}

proof fn lemma_title_ignores_decision(
    items: Seq<EntryView>,
    i: int,
    id: ApprovalId,
    approved: bool,
)
    requires
        0 <= i < items.len(),
        items[i] is Approval,
    ensures
        items_title(items.update(i, EntryView::Approval(id, Some(approved)))) == items_title(items),
    decreases items.len(),
{
    let changed = items.update(i, EntryView::Approval(id, Some(approved)));
    if i < items.len() - 1 {
        assert(changed.drop_last() =~= items.drop_last().update(
            i,
            EntryView::Approval(id, Some(approved)),
        ));
        lemma_title_ignores_decision(items.drop_last(), i, id, approved);
    } else {
        assert(changed.drop_last() =~= items.drop_last());
    }
}

/// A summary takes the place of the events that it stands for: none of them is
/// shown any more, save other summaries.
pub proof fn law_compacted_events_are_hidden(events: Seq<EnvelopeView>, i: int, j: int)
    requires
        0 <= i < events.len(),
        0 <= j < events.len(),
        covers(events[i].event, events[j].seq),
    ensures
        is_shown(events, events[j]) <==> events[j].event is ContextCompacted,
{
}

/// The pieces in which an answer is delivered leave no trace in the thread.
pub proof fn law_delivery_changes_nothing(events: Seq<EnvelopeView>, envelope: EnvelopeView)
    requires
        envelope.event.stream_kind() is Delivery,
    ensures
        log_items(events.push(envelope)) == log_items(events),
        log_status(events.push(envelope)) == log_status(events),
{
    assert(events.push(envelope).drop_last() =~= events);
}

} // verus!
