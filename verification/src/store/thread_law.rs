//! What a thread holds, told by its log.
use vstd::prelude::*;

use crate::runtime::envelope::{log_view, EnvelopeView, EventEnvelope};
use crate::runtime::event::{EventView, RuntimeEvent};
use crate::runtime::thread::{
    entry_views, ApprovalId, EntryView, Item, Thread, ThreadId, ThreadStatus,
};
use crate::store::continuity::Lease;
use crate::store::lease::{ends, is_held, is_live};
use crate::store::list::{in_order, listed_before};
use crate::store::projection::{
    items_title, is_thread_of, last_approval, log_items, log_status, next_items, next_status,
    thread_error, ThreadSummary,
};
use crate::text::views;
use crate::time::Timestamp;

verus! {

/// The event becomes an entry of its thread.
spec fn enters(event: EventView) -> bool {
    event is UserMessage || event is AssistantCompleted || event is ToolStarted || event
        is ToolProposed || event is ToolCompleted || event is ApprovalRequired || event
        is ContextCompacted
}

/// The entry is that of the event, but for a decision on an approval.
spec fn stands_for(entry: EntryView, event: EventView) -> bool {
    match event {
        EventView::ApprovalRequired { approval_id, .. } => entry matches EntryView::Approval(id, _)
            && id == approval_id,
        _ => !(entry is Approval) && enters(event) && next_items(Seq::empty(), event) == seq![
            entry,
        ],
    }
}

/// The places in a log of the events that become entries.
spec fn entry_places(events: Seq<EnvelopeView>, n: int) -> Seq<int>
    decreases n,
{
    if n <= 0 {
        Seq::empty()
    } else {
        let before = entry_places(events, n - 1);
        if enters(events[n - 1].event) {
            before.push(n - 1)
        } else {
            before
        }
    }
}

proof fn lemma_last_approval(items: Seq<EntryView>, id: ApprovalId)
    ensures
        match last_approval(items, id) {
            Some(i) => {
                &&& 0 <= i < items.len()
                &&& items[i] matches EntryView::Approval(found, _) && found == id
                &&& forall|k: int|
                    i < k < items.len() ==> !(#[trigger] items[k] matches EntryView::Approval(
                        found,
                        _,
                    ) && found == id)
            },
            None => forall|k: int|
                0 <= k < items.len() ==> !(#[trigger] items[k] matches EntryView::Approval(found, _)
                    && found == id),
        },
    decreases items.len(),
{
    if items.len() > 0 {
        let init = items.drop_last();
        lemma_last_approval(init, id);
        assert forall|k: int| 0 <= k < items.len() - 1 implies #[trigger] items[k] == init[k] by {}
    }
}

proof fn lemma_step(items: Seq<EntryView>, event: EventView)
    ensures
        enters(event) ==> next_items(items, event).len() == items.len() + 1 && next_items(
            items,
            event,
        ).drop_last() == items && stands_for(next_items(items, event).last(), event),
        !enters(event) ==> next_items(items, event).len() == items.len(),
        event is ApprovalRequired ==> (next_items(items, event).last() matches EntryView::Approval(
            _,
            decision,
        ) && decision is None),
        !enters(event) && !(event is ApprovalResolved) ==> next_items(items, event) == items,
{
    if enters(event) {
        let next = next_items(items, event);
        assert(next.drop_last() =~= items);
        let alone = next_items(Seq::empty(), event);
        assert(alone =~= seq![next.last()]);
    }
    if let EventView::ApprovalResolved { approval_id, .. } = event {
        lemma_last_approval(items, approval_id);
    }
}

proof fn lemma_entry_places(events: Seq<EnvelopeView>, n: int)
    requires
        0 <= n <= events.len(),
    ensures
        entry_places(events, n).len() == log_items(events.take(n)).len(),
        forall|k: int|
            0 <= k < entry_places(events, n).len() ==> 0 <= #[trigger] entry_places(events, n)[k]
                < n,
        forall|k: int, l: int|
            0 <= k < l < entry_places(events, n).len() ==> #[trigger] entry_places(events, n)[k]
                < #[trigger] entry_places(events, n)[l],
        forall|k: int|
            0 <= k < entry_places(events, n).len() ==> stands_for(
                log_items(events.take(n))[k],
                events[#[trigger] entry_places(events, n)[k]].event,
            ),
        forall|i: int|
            0 <= i < n ==> (entry_places(events, n).contains(i) <==> enters(
                (#[trigger] events[i]).event,
            )),
    decreases n,
{
    if n > 0 {
        lemma_entry_places(events, n - 1);
        let before = entry_places(events, n - 1);
        let after = entry_places(events, n);
        let event = events[n - 1].event;
        let items = log_items(events.take(n - 1));
        let next = log_items(events.take(n));
        assert(events.take(n).drop_last() =~= events.take(n - 1));
        assert(events.take(n).last() == events[n - 1]);
        assert(next == next_items(items, event));
        lemma_step(items, event);
        assert forall|k: int| 0 <= k < after.len() implies stands_for(
            next[k],
            events[#[trigger] after[k]].event,
        ) by {
            if enters(event) {
                if k < before.len() {
                    assert(after[k] == before[k]);
                    assert(next.drop_last()[k] == next[k]);
                }
            } else {
                assert(after[k] == before[k]);
                if let EventView::ApprovalResolved { approval_id, .. } = event {
                    lemma_last_approval(items, approval_id);
                }
            }
        }
        assert forall|i: int| 0 <= i < n implies (after.contains(i) <==> enters(
            (#[trigger] events[i]).event,
        )) by {
            if i < n - 1 {
                if before.contains(i) {
                    let k = before.index_of(i);
                    assert(after[k] == i);
                }
                if after.contains(i) {
                    let k = after.index_of(i);
                    assert(before[k] == i);
                }
            } else {
                if after.contains(i) {
                    let k = after.index_of(i);
                    if k < before.len() {
                        assert(before[k] == i);
                    }
                }
                if enters(event) {
                    assert(after[before.len() as int] == i);
                }
            }
        }
    }
}

/// An entry says what its event says.
proof fn lemma_entry_tells(event: RuntimeEvent, item: Item)
    requires
        stands_for(item@, event@),
    ensures
        match event {
            RuntimeEvent::UserMessage { content, .. } => item matches Item::UserMessage {
                content: kept,
            } && kept@ == content@,
            RuntimeEvent::AssistantCompleted { content, .. } => item matches
                Item::AssistantMessage { content: kept } && kept@ == content@,
            RuntimeEvent::ToolStarted { call_id, tool, arguments } => item matches Item::ToolCall {
                call_id: id,
                name,
                arguments: given,
            } && id@ == call_id@ && name@ == tool@ && given@ == arguments@,
            RuntimeEvent::ToolProposed { call_id, tool, arguments } => item matches
                Item::ToolCall { call_id: id, name, arguments: given } && id@ == call_id@ && name@
                == tool@ && given@ == arguments@,
            RuntimeEvent::ToolCompleted { call_id, output, evidence, .. } => item matches
                Item::ToolResult { call_id: id, output: kept, evidence: found } && id@ == call_id@
                && kept@ == output@ && found == evidence,
            RuntimeEvent::ApprovalRequired { approval_id, .. } => item matches Item::Approval {
                id,
                ..
            } && id == approval_id,
            RuntimeEvent::ContextCompacted {
                summary_id,
                covers_seq_start,
                covers_seq_end,
                source_evidence_ids,
                summary,
                ..
            } => item matches Item::Summary {
                summary_id: id,
                covers_seq_start: start,
                covers_seq_end: end,
                summary: kept,
                source_evidence_ids: sources,
            } && id@ == summary_id@ && start == covers_seq_start && end == covers_seq_end && kept@
                == summary@ && views(sources@) == views(source_evidence_ids@),
            _ => false,
        },
{
    let alone = next_items(Seq::empty(), event@);
    if !(event is ApprovalRequired) {
        assert(alone[0] == item@);
    }
}

/// A thread holds, in order, one entry for everything that was said, called, found,
/// asked for or summed up in its log, with what was said, and nothing else. The places
/// are those of the events that its entries stand for.
pub proof fn law_thread_tells_the_log(
    thread_id: ThreadId,
    events: Seq<EventEnvelope>,
    thread: Thread,
) -> (places: Seq<int>)
    requires
        is_thread_of(thread, thread_id, log_view(events)),
        thread_error(thread_id, log_view(events)) is None,
    ensures
        events.len() > 0,
        events[0].event is ThreadCreated,
        thread.id == thread_id,
        thread.workspace_id@ == events[0].workspace_id@,
        thread.created_at == events[0].timestamp,
        thread.updated_at == events.last().timestamp,
        thread.parent_thread_id is None,
        places.len() == thread.items@.len(),
        forall|k: int| 0 <= k < places.len() ==> 0 <= #[trigger] places[k] < events.len(),
        forall|k: int, l: int|
            0 <= k < l < places.len() ==> #[trigger] places[k] < #[trigger] places[l],
        forall|i: int|
            0 <= i < events.len() ==> (places.contains(i) <==> ((#[trigger] events[i]).event
                is UserMessage || events[i].event is AssistantCompleted || events[i].event
                is ToolStarted || events[i].event is ToolProposed || events[i].event
                is ToolCompleted || events[i].event is ApprovalRequired || events[i].event
                is ContextCompacted)),
        forall|k: int|
            0 <= k < places.len() ==> match (#[trigger] events[places[k]]).event {
                RuntimeEvent::UserMessage { content, .. } => thread.items@[k] matches
                    Item::UserMessage { content: kept } && kept@ == content@,
                RuntimeEvent::AssistantCompleted { content, .. } => thread.items@[k] matches
                    Item::AssistantMessage { content: kept } && kept@ == content@,
                RuntimeEvent::ToolStarted { call_id, tool, arguments } => thread.items@[k] matches
                    Item::ToolCall { call_id: id, name, arguments: given } && id@ == call_id@
                    && name@ == tool@ && given@ == arguments@,
                RuntimeEvent::ToolProposed { call_id, tool, arguments } => thread.items@[k] matches
                    Item::ToolCall { call_id: id, name, arguments: given } && id@ == call_id@
                    && name@ == tool@ && given@ == arguments@,
                RuntimeEvent::ToolCompleted { call_id, output, evidence, .. } => thread.items@[k]
                    matches Item::ToolResult { call_id: id, output: kept, evidence: found } && id@
                    == call_id@ && kept@ == output@ && found == evidence,
                RuntimeEvent::ApprovalRequired { approval_id, .. } => thread.items@[k] matches
                    Item::Approval { id, .. } && id == approval_id,
                RuntimeEvent::ContextCompacted {
                    summary_id,
                    covers_seq_start,
                    covers_seq_end,
                    source_evidence_ids,
                    summary,
                    ..
                } => thread.items@[k] matches Item::Summary {
                    summary_id: id,
                    covers_seq_start: start,
                    covers_seq_end: end,
                    summary: kept,
                    source_evidence_ids: sources,
                } && id@ == summary_id@ && start == covers_seq_start && end == covers_seq_end
                    && kept@ == summary@ && views(sources@) == views(source_evidence_ids@),
                _ => false,
            },
{
    let log = log_view(events);
    let n = events.len() as int;
    lemma_entry_places(log, n);
    assert(log.take(n) =~= log);
    assert(log[0] == events[0]@);
    assert(log.last() == events[n - 1]@);
    let places = entry_places(log, n);
    assert forall|i: int| 0 <= i < n implies (places.contains(i) <==> ((#[trigger] events[i]).event
        is UserMessage || events[i].event is AssistantCompleted || events[i].event is ToolStarted
        || events[i].event is ToolProposed || events[i].event is ToolCompleted || events[i].event
        is ApprovalRequired || events[i].event is ContextCompacted)) by {
        assert(log[i] == events[i]@);
    }
    assert forall|k: int| 0 <= k < places.len() implies stands_for(
        (#[trigger] thread.items@[k])@,
        events[places[k]].event@,
    ) by {
        assert(entry_views(thread.items@)[k] == thread.items@[k]@);
        assert(log[places[k]] == events[places[k]]@);
    }
    assert(entry_views(thread.items@).len() == thread.items@.len());
    assert forall|k: int| 0 <= k < places.len() implies match (#[trigger] events[places[k]]).event {
        RuntimeEvent::UserMessage { content, .. } => thread.items@[k] matches Item::UserMessage {
            content: kept,
        } && kept@ == content@,
        RuntimeEvent::AssistantCompleted { content, .. } => thread.items@[k] matches
            Item::AssistantMessage { content: kept } && kept@ == content@,
        RuntimeEvent::ToolStarted { call_id, tool, arguments } => thread.items@[k] matches
            Item::ToolCall { call_id: id, name, arguments: given } && id@ == call_id@ && name@
            == tool@ && given@ == arguments@,
        RuntimeEvent::ToolProposed { call_id, tool, arguments } => thread.items@[k] matches
            Item::ToolCall { call_id: id, name, arguments: given } && id@ == call_id@ && name@
            == tool@ && given@ == arguments@,
        RuntimeEvent::ToolCompleted { call_id, output, evidence, .. } => thread.items@[k] matches
            Item::ToolResult { call_id: id, output: kept, evidence: found } && id@ == call_id@
            && kept@ == output@ && found == evidence,
        RuntimeEvent::ApprovalRequired { approval_id, .. } => thread.items@[k] matches
            Item::Approval { id, .. } && id == approval_id,
        RuntimeEvent::ContextCompacted {
            summary_id,
            covers_seq_start,
            covers_seq_end,
            source_evidence_ids,
            summary,
            ..
        } => thread.items@[k] matches Item::Summary {
            summary_id: id,
            covers_seq_start: start,
            covers_seq_end: end,
            summary: kept,
            source_evidence_ids: sources,
        } && id@ == summary_id@ && start == covers_seq_start && end == covers_seq_end && kept@
            == summary@ && views(sources@) == views(source_evidence_ids@),
        _ => false,
    } by {
        assert(stands_for(thread.items@[k]@, events[places[k]].event@));
        lemma_entry_tells(events[places[k]].event, thread.items@[k]);
    }
    places
}

/// The event says where its thread stands.
spec fn moves(event: EventView) -> bool {
    event is ApprovalRequired || event is ApprovalResolved || event is TurnStarted || event
        is TurnCompleted || event is TurnCancelled || event is TurnFailed
}

proof fn lemma_status(events: Seq<EnvelopeView>, j: int)
    requires
        -1 <= j < events.len(),
        j >= 0 ==> moves(events[j].event),
        forall|i: int| j < i < events.len() ==> !moves((#[trigger] events[i]).event),
    ensures
        j < 0 ==> log_status(events) is Idle,
        j >= 0 ==> log_status(events) == next_status(ThreadStatus::Idle, events[j].event),
    decreases events.len(),
{
    if events.len() > 0 {
        let n = events.len() - 1;
        let init = events.drop_last();
        assert(events.last() == events[n]);
        if j < n {
            assert(!moves(events[n].event));
            assert forall|i: int| j < i < init.len() implies !moves((#[trigger] init[i]).event) by {
                assert(init[i] == events[i]);
            }
            lemma_status(init, j);
        }
    }
}

/// A thread stands where the last event that moves it left it: running after a turn
/// began or an approval was decided on, waiting after an approval was asked for, failed
/// after a turn failed, and idle after a turn ended or was called off, or where nothing
/// has moved it. The place is that of the last event that moves the thread.
pub proof fn law_thread_stands_where_its_last_turn_left_it(
    thread_id: ThreadId,
    events: Seq<EventEnvelope>,
    thread: Thread,
    place: int,
)
    requires
        is_thread_of(thread, thread_id, log_view(events)),
        -1 <= place < events.len(),
        place >= 0 ==> (events[place].event is ApprovalRequired || events[place].event
            is ApprovalResolved || events[place].event is TurnStarted || events[place].event
            is TurnCompleted || events[place].event is TurnCancelled || events[place].event
            is TurnFailed),
        forall|i: int|
            place < i < events.len() ==> !((#[trigger] events[i]).event is ApprovalRequired
                || events[i].event is ApprovalResolved || events[i].event is TurnStarted
                || events[i].event is TurnCompleted || events[i].event is TurnCancelled
                || events[i].event is TurnFailed),
    ensures
        thread.status is Running <==> place >= 0 && (events[place].event is TurnStarted
            || events[place].event is ApprovalResolved),
        thread.status is WaitingApproval <==> place >= 0 && events[place].event is ApprovalRequired,
        thread.status is Failed <==> place >= 0 && events[place].event is TurnFailed,
        thread.status is Idle <==> place < 0 || events[place].event is TurnCompleted
            || events[place].event is TurnCancelled,
{
    let log = log_view(events);
    if place >= 0 {
        assert(log[place] == events[place]@);
    }
    assert forall|i: int| place < i < log.len() implies !moves((#[trigger] log[i]).event) by {
        assert(log[i] == events[i]@);
    }
    lemma_status(log, place);
}

/// The event decides on the request.
spec fn decides(event: EventView, id: ApprovalId) -> bool {
    event matches EventView::ApprovalResolved { approval_id, .. } && approval_id == id
}

/// The event makes the request.
spec fn asks(event: EventView, id: ApprovalId) -> bool {
    event matches EventView::ApprovalRequired { approval_id, .. } && approval_id == id
}

/// What a request that is made once holds after `n` events: nothing before it is
/// decided on, then the last decision.
proof fn lemma_decision(events: Seq<EnvelopeView>, n: int, k: int, id: ApprovalId, j: int)
    requires
        0 <= n <= events.len(),
        0 <= k < entry_places(events, n).len(),
        asks(events[entry_places(events, n)[k]].event, id),
        forall|i: int|
            entry_places(events, n)[k] < i < n ==> !asks((#[trigger] events[i]).event, id),
        -1 <= j < n,
        j >= 0 ==> entry_places(events, n)[k] < j && decides(events[j].event, id),
        forall|i: int|
            (if j >= 0 {
                j
            } else {
                entry_places(events, n)[k]
            }) < i < n ==> !decides((#[trigger] events[i]).event, id),
    ensures
        log_items(events.take(n))[k] == EntryView::Approval(
            id,
            if j >= 0 {
                Some(events[j].event->approved)
            } else {
                None
            },
        ),
    decreases n,
{
    lemma_entry_places(events, n);
    let places = entry_places(events, n);
    let before = entry_places(events, n - 1);
    let event = events[n - 1].event;
    lemma_entry_places(events, n - 1);
    let items = log_items(events.take(n - 1));
    let next = log_items(events.take(n));
    assert(events.take(n).drop_last() =~= events.take(n - 1));
    assert(events.take(n).last() == events[n - 1]);
    assert(next == next_items(items, event));
    lemma_step(items, event);
    let p = places[k];
    if p == n - 1 {
        assert(k == places.len() - 1) by {
            if k < places.len() - 1 {
                assert(places[k] < places[places.len() - 1]);
            }
        }
    } else {
        assert(k < before.len()) by {
            if enters(event) {
                assert(places[places.len() - 1] == n - 1);
            }
        }
        assert(before[k] == p);
        assert(stands_for(items[k], events[p].event));
        if j == n - 1 {
            lemma_last_approval(items, id);
            let last = last_approval(items, id);
            assert(last is Some);
            let l = last->0;
            assert(l >= k);
            if l > k {
                assert(before[k] < before[l]);
                assert(stands_for(items[l], events[before[l]].event));
                assert(asks(events[before[l]].event, id));
            }
        } else {
            lemma_decision(events, n - 1, k, id, j);
            assert(!decides(event, id));
            if enters(event) {
                assert(next.drop_last()[k] == next[k]);
            }
            if let EventView::ApprovalResolved { approval_id, .. } = event {
                lemma_last_approval(items, approval_id);
            }
        }
    }
}

/// An entry for an approval holds no decision before one was taken, and then the last
/// one that was. The entry is `k`, `asked` is the place of the request, which is made
/// once, and `decided` that of the last decision on it, if there is one.
pub proof fn law_approvals_hold_their_decision(
    thread_id: ThreadId,
    events: Seq<EventEnvelope>,
    thread: Thread,
    asked: int,
    id: ApprovalId,
    decided: int,
) -> (k: int)
    requires
        is_thread_of(thread, thread_id, log_view(events)),
        0 <= asked < events.len(),
        events[asked].event matches RuntimeEvent::ApprovalRequired { approval_id, .. }
            && approval_id == id,
        forall|i: int|
            asked < i < events.len() ==> !((#[trigger] events[i]).event matches
                RuntimeEvent::ApprovalRequired { approval_id, .. } && approval_id == id),
        -1 <= decided < events.len(),
        decided >= 0 ==> asked < decided && (events[decided].event matches
            RuntimeEvent::ApprovalResolved { approval_id, .. } && approval_id == id),
        forall|i: int|
            asked < i < events.len() && decided < i ==> !((#[trigger] events[i]).event matches
                RuntimeEvent::ApprovalResolved { approval_id, .. } && approval_id == id),
    ensures
        0 <= k < thread.items@.len(),
        thread.items@[k] matches Item::Approval { id: kept, approved } && kept == id && approved
            == (if decided >= 0 {
            Some(events[decided].event->approved)
        } else {
            None
        }),
{
    let log = log_view(events);
    let n = events.len() as int;
    lemma_entry_places(log, n);
    assert(log.take(n) =~= log);
    let places = entry_places(log, n);
    assert(log[asked] == events[asked]@);
    assert(places.contains(asked));
    let k = places.index_of(asked);
    assert forall|i: int| asked < i < n implies !asks((#[trigger] log[i]).event, id) by {
        assert(log[i] == events[i]@);
    }
    assert forall|i: int|
        (if decided >= 0 {
            decided
        } else {
            asked
        }) < i < n implies !decides((#[trigger] log[i]).event, id) by {
        assert(log[i] == events[i]@);
    }
    if decided >= 0 {
        assert(log[decided] == events[decided]@);
    }
    lemma_decision(log, n, k, id, decided);
    assert(entry_views(thread.items@)[k] == thread.items@[k]@);
    k
}

proof fn lemma_title(items: Seq<EntryView>, first: int)
    requires
        0 <= first <= items.len(),
        forall|i: int| 0 <= i < first ==> !(#[trigger] items[i] is UserMessage),
        first < items.len() ==> items[first] is UserMessage,
    ensures
        first == items.len() ==> items_title(items) is None,
        first < items.len() ==> items_title(items) == Some(
            if items[first]->UserMessage_0.len() <= 120 {
                items[first]->UserMessage_0
            } else {
                items[first]->UserMessage_0.take(120)
            },
        ),
    decreases items.len(),
{
    if items.len() > 0 {
        let init = items.drop_last();
        assert forall|i: int| 0 <= i < init.len() implies #[trigger] init[i] == items[i] by {}
        if first < items.len() - 1 {
            assert(init[first] == items[first]);
            lemma_title(init, first);
        } else {
            lemma_title(init, items.len() - 1);
        }
    }
}

/// A thread is called by the beginning of the first thing that a user said in it, as
/// far as that goes, and by nothing before a user has said something.
pub proof fn law_threads_are_called_by_their_first_message(
    items: Seq<Item>,
    title: Option<Seq<char>>,
    first: int,
)
    requires
        title == items_title(entry_views(items)),
        0 <= first <= items.len(),
        forall|i: int| 0 <= i < first ==> !(#[trigger] items[i] is UserMessage),
        first < items.len() ==> items[first] is UserMessage,
    ensures
        first == items.len() ==> title is None,
        first < items.len() ==> (items[first] matches Item::UserMessage { content } && title
            matches Some(text) && content@.len() >= text.len() && text == content@.take(
            text.len() as int,
        ) && (text.len() == content@.len() || text.len() == 120) && text.len() <= 120),
{
    let entries = entry_views(items);
    assert forall|i: int| 0 <= i < first implies !(#[trigger] entries[i] is UserMessage) by {
        assert(entries[i] == items[i]@);
    }
    if first < items.len() {
        assert(entries[first] == items[first]@);
        let content = items[first]->UserMessage_content@;
        assert(content.take(content.len() as int) =~= content);
    }
    lemma_title(entries, first);
}

/// Threads are listed by the time of their last event, the latest first.
pub proof fn law_the_latest_threads_are_listed_first(summaries: Seq<ThreadSummary>, i: int, j: int)
    requires
        in_order(summaries),
        0 <= i < j < summaries.len(),
    ensures
        summaries[i].updated_at.whole_seconds() >= summaries[j].updated_at.whole_seconds(),
        summaries[i].updated_at.whole_seconds() == summaries[j].updated_at.whole_seconds()
            ==> summaries[i].updated_at.subsecond() >= summaries[j].updated_at.subsecond(),
{
    assert(!listed_before(summaries[j], summaries[i]));
}

/// A lease that was granted for some seconds lives until they have passed and no
/// longer, and nobody but the one who was told its identifier and its number holds it.
pub proof fn law_leases_live_as_long_as_granted(
    lease: Lease,
    now: Timestamp,
    later: Timestamp,
    ttl: u64,
    lease_id: Seq<char>,
    token: i64,
)
    requires
        ends(lease, now, ttl),
        ttl <= 9_223_372_036_854_775,
    ensures
        later.whole_seconds() < now.whole_seconds() + ttl ==> is_live(lease, later),
        later.whole_seconds() > now.whole_seconds() + ttl ==> !is_live(lease, later),
        later.whole_seconds() == now.whole_seconds() + ttl ==> (is_live(lease, later)
            <==> later.subsecond() < now.subsecond()),
        is_held(Some(lease), lease_id, token) <==> lease_id == lease.lease_id@ && token
            == lease.fencing_token,
        !is_held(None, lease_id, token),
{
}

} // verus!
