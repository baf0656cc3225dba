//! What a model is shown of a log, told event by event.
use vstd::prelude::*;

use crate::model::provider::{item_views, ModelItem};
use crate::runtime::envelope::{log_view, EnvelopeView, EventEnvelope};
use crate::runtime::event::RuntimeEvent;
use crate::store::projection::{covers, history, is_compacted, is_shown, item_of, shown_items};
use crate::text::{decimal, join, views};

verus! {

/// The places in a log of what is shown of its first `n` events.
spec fn shown_places(events: Seq<EnvelopeView>, n: int) -> Seq<int>
    decreases n,
{
    if n <= 0 {
        Seq::empty()
    } else {
        let before = shown_places(events, n - 1);
        if is_shown(events, events[n - 1]) && item_of(events[n - 1].event) is Some {
            before.push(n - 1)
        } else {
            before
        }
    }
}

proof fn lemma_shown_places(events: Seq<EnvelopeView>, n: int)
    requires
        0 <= n <= events.len(),
    ensures
        shown_places(events, n).len() == shown_items(events, n).len(),
        forall|k: int|
            0 <= k < shown_places(events, n).len() ==> 0 <= #[trigger] shown_places(events, n)[k]
                < n,
        forall|k: int, l: int|
            0 <= k < l < shown_places(events, n).len() ==> #[trigger] shown_places(events, n)[k]
                < #[trigger] shown_places(events, n)[l],
        forall|k: int|
            0 <= k < shown_places(events, n).len() ==> item_of(
                events[#[trigger] shown_places(events, n)[k]].event,
            ) == Some(shown_items(events, n)[k]) && is_shown(
                events,
                events[shown_places(events, n)[k]],
            ),
        forall|i: int|
            0 <= i < n && is_shown(events, #[trigger] events[i]) && item_of(events[i].event) is Some
                ==> shown_places(events, n).contains(i),
    decreases n,
{
    if n > 0 {
        lemma_shown_places(events, n - 1);
        let before = shown_places(events, n - 1);
        let after = shown_places(events, n);
        assert forall|i: int|
            0 <= i < n && is_shown(events, #[trigger] events[i]) && item_of(events[i].event)
                is Some implies after.contains(i) by {
            if i < n - 1 {
                let k = before.index_of(i);
                assert(after[k] == i);
            } else {
                assert(after[before.len() as int] == i);
            }
        }
    }
}

/// An item says what its event says.
proof fn lemma_item_tells(event: RuntimeEvent, item: ModelItem)
    requires
        item_of(event@) == Some(item@),
    ensures
        match event {
        RuntimeEvent::UserMessage { content, incident_context } => item matches
            ModelItem::UserMessage { content: shown } && match incident_context {
            Some(context) => shown@ == context.prompt() + "\n\n"@ + content@,
            None => shown@ == content@,
        },
        RuntimeEvent::AssistantCompleted { content, .. } => item matches
            ModelItem::AssistantMessage { content: shown } && shown@ == content@,
        RuntimeEvent::ToolStarted { call_id, tool, arguments } => item matches
            ModelItem::ToolCall { call_id: id, name, arguments: given } && id@ == call_id@
            && name@ == tool@ && given@ == arguments@,
        RuntimeEvent::ToolProposed { call_id, tool, arguments } => item matches
            ModelItem::ToolCall { call_id: id, name, arguments: given } && id@ == call_id@
            && name@ == tool@ && given@ == arguments@,
        RuntimeEvent::ToolCompleted { call_id, output, .. } => item matches
            ModelItem::ToolResult { call_id: id, output: shown } && id@ == call_id@
            && shown@ == output@,
        RuntimeEvent::ContextCompacted {
            covers_seq_start,
            covers_seq_end,
            source_evidence_ids,
            summary,
            ..
        } => item matches ModelItem::UserMessage { content: shown } && shown@
            == "[compacted context seq "@ + decimal(covers_seq_start as nat) + "-"@
            + decimal(covers_seq_end as nat) + "; evidence: "@ + join(
            views(source_evidence_ids@),
            ", "@,
        ) + "]\n"@ + summary@,
        _ => false,
    },
{
}

/// Which events are shown.
proof fn lemma_shown(events: Seq<EventEnvelope>, i: int)
    requires
        0 <= i < events.len(),
    ensures
        is_shown(log_view(events), log_view(events)[i]) <==> {
            ||| events[i].event is ContextCompacted
            ||| forall|j: int|
                0 <= j < events.len() ==> !((#[trigger] events[j]).event matches
                    RuntimeEvent::ContextCompacted { covers_seq_start, covers_seq_end, .. }
                    && covers_seq_start <= events[i].seq <= covers_seq_end)
        },
{
    let log = log_view(events);
    let seq = events[i].seq;
    assert(log[i] == events[i]@);
    if is_compacted(log, seq) {
        let j = choose|j: int| 0 <= j < log.len() && covers((#[trigger] log[j]).event, seq);
        assert(log[j] == events[j]@);
    } else {
        assert forall|j: int| 0 <= j < events.len() implies !((#[trigger] events[j]).event matches
            RuntimeEvent::ContextCompacted { covers_seq_start, covers_seq_end, .. }
            && covers_seq_start <= seq <= covers_seq_end) by {
            assert(log[j] == events[j]@);
            assert(!covers(log[j].event, seq));
        }
    }
}

/// What a model is shown of a log is one item for each message, each tool call, each
/// tool result and each summary of the log, in the order of the log, and nothing
/// else. An item says what its event says: a result shows the output of its call. The
/// events that a summary stands for are left out. The places are those of the events
/// that are shown.
pub proof fn law_history_tells_the_log(
    events: Seq<EventEnvelope>,
    items: Seq<ModelItem>,
) -> (places: Seq<int>)
    requires
        item_views(items) == history(log_view(events)),
    ensures
        places.len() == items.len(),
        forall|k: int| 0 <= k < places.len() ==> 0 <= #[trigger] places[k] < events.len(),
        forall|k: int, l: int|
            0 <= k < l < places.len() ==> #[trigger] places[k] < #[trigger] places[l],
        forall|k: int|
            0 <= k < places.len() ==> match events[#[trigger] places[k]].event {
                RuntimeEvent::UserMessage { content, incident_context } => items[k] matches
                    ModelItem::UserMessage { content: shown } && match incident_context {
                    Some(context) => shown@ == context.prompt() + "\n\n"@ + content@,
                    None => shown@ == content@,
                },
                RuntimeEvent::AssistantCompleted { content, .. } => items[k] matches
                    ModelItem::AssistantMessage { content: shown } && shown@ == content@,
                RuntimeEvent::ToolStarted { call_id, tool, arguments } => items[k] matches
                    ModelItem::ToolCall { call_id: id, name, arguments: given } && id@ == call_id@
                    && name@ == tool@ && given@ == arguments@,
                RuntimeEvent::ToolProposed { call_id, tool, arguments } => items[k] matches
                    ModelItem::ToolCall { call_id: id, name, arguments: given } && id@ == call_id@
                    && name@ == tool@ && given@ == arguments@,
                RuntimeEvent::ToolCompleted { call_id, output, .. } => items[k] matches
                    ModelItem::ToolResult { call_id: id, output: shown } && id@ == call_id@
                    && shown@ == output@,
                RuntimeEvent::ContextCompacted {
                    covers_seq_start,
                    covers_seq_end,
                    source_evidence_ids,
                    summary,
                    ..
                } => items[k] matches ModelItem::UserMessage { content: shown } && shown@
                    == "[compacted context seq "@ + decimal(covers_seq_start as nat) + "-"@
                    + decimal(covers_seq_end as nat) + "; evidence: "@ + join(
                    views(source_evidence_ids@),
                    ", "@,
                ) + "]\n"@ + summary@,
                _ => false,
            },
        forall|i: int|
            0 <= i < events.len() ==> (places.contains(i) <==> {
                ||| (#[trigger] events[i]).event is ContextCompacted
                ||| {
                    &&& events[i].event is UserMessage || events[i].event is AssistantCompleted
                        || events[i].event is ToolStarted || events[i].event is ToolProposed
                        || events[i].event is ToolCompleted
                    &&& forall|j: int|
                        0 <= j < events.len() ==> !((#[trigger] events[j]).event matches
                            RuntimeEvent::ContextCompacted { covers_seq_start, covers_seq_end, .. }
                            && covers_seq_start <= events[i].seq <= covers_seq_end)
                }
            }),
{
    let log = log_view(events);
    let n = events.len() as int;
    let places = shown_places(log, n);
    lemma_shown_places(log, n);
    assert(item_views(items).len() == items.len());
    assert forall|k: int| 0 <= k < places.len() implies match events[#[trigger] places[k]].event {
                RuntimeEvent::UserMessage { content, incident_context } => items[k] matches
                    ModelItem::UserMessage { content: shown } && match incident_context {
                    Some(context) => shown@ == context.prompt() + "\n\n"@ + content@,
                    None => shown@ == content@,
                },
                RuntimeEvent::AssistantCompleted { content, .. } => items[k] matches
                    ModelItem::AssistantMessage { content: shown } && shown@ == content@,
                RuntimeEvent::ToolStarted { call_id, tool, arguments } => items[k] matches
                    ModelItem::ToolCall { call_id: id, name, arguments: given } && id@ == call_id@
                    && name@ == tool@ && given@ == arguments@,
                RuntimeEvent::ToolProposed { call_id, tool, arguments } => items[k] matches
                    ModelItem::ToolCall { call_id: id, name, arguments: given } && id@ == call_id@
                    && name@ == tool@ && given@ == arguments@,
                RuntimeEvent::ToolCompleted { call_id, output, .. } => items[k] matches
                    ModelItem::ToolResult { call_id: id, output: shown } && id@ == call_id@
                    && shown@ == output@,
                RuntimeEvent::ContextCompacted {
                    covers_seq_start,
                    covers_seq_end,
                    source_evidence_ids,
                    summary,
                    ..
                } => items[k] matches ModelItem::UserMessage { content: shown } && shown@
                    == "[compacted context seq "@ + decimal(covers_seq_start as nat) + "-"@
                    + decimal(covers_seq_end as nat) + "; evidence: "@ + join(
                    views(source_evidence_ids@),
                    ", "@,
                ) + "]\n"@ + summary@,
                _ => false,
            } by {
        assert(log[places[k]] == events[places[k]]@);
        assert(item_views(items)[k] == items[k]@);
        lemma_item_tells(events[places[k]].event, items[k]);
    }
    assert forall|i: int| 0 <= i < n implies (places.contains(i) <==> is_shown(log, log[i])
        && item_of((#[trigger] events[i]).event@) is Some) by {
        assert(log[i] == events[i]@);
        if places.contains(i) {
            let k = places.index_of(i);
            assert(places[k] == i);
        }
    }
    assert forall|i: int| 0 <= i < n implies (places.contains(i) <==> {
        ||| (#[trigger] events[i]).event is ContextCompacted
        ||| {
            &&& events[i].event is UserMessage || events[i].event is AssistantCompleted
                || events[i].event is ToolStarted || events[i].event is ToolProposed
                || events[i].event is ToolCompleted
            &&& forall|j: int|
                0 <= j < events.len() ==> !((#[trigger] events[j]).event matches
                    RuntimeEvent::ContextCompacted { covers_seq_start, covers_seq_end, .. }
                    && covers_seq_start <= events[i].seq <= covers_seq_end)
        }
    }) by {
        lemma_shown(events, i);
    }
    places
}

} // verus!
