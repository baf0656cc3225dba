//! What a fork takes over, told event by event.
use vstd::prelude::*;

use crate::json::string_view;
use crate::runtime::envelope::{log_view, EnvelopeView, EventEnvelope};
use crate::runtime::event::RuntimeEvent;
use crate::runtime::thread::{EventId, ThreadId, ThreadStatus};
use crate::store::fork::{
    copied, fork_log, fork_workspace, inherited, is_inherited, status_from, title_from, ForkPlan,
};
use crate::time::Timestamp;

verus! {

/// The places in a log of what a fork takes over of its first `n` events.
spec fn kept_places(events: Seq<EnvelopeView>, at_seq: u64, n: int) -> Seq<int>
    decreases n,
{
    if n <= 0 {
        Seq::empty()
    } else {
        let before = kept_places(events, at_seq, n - 1);
        if events[n - 1].seq <= at_seq && is_inherited(events[n - 1].event) {
            before.push(n - 1)
        } else {
            before
        }
    }
}

proof fn lemma_kept_places(events: Seq<EnvelopeView>, at_seq: u64, n: int)
    requires
        0 <= n <= events.len(),
    ensures
        kept_places(events, at_seq, n).len() == inherited(events.take(n), at_seq).len(),
        forall|k: int|
            0 <= k < kept_places(events, at_seq, n).len() ==> 0 <= #[trigger] kept_places(
                events,
                at_seq,
                n,
            )[k] < n,
        forall|k: int, l: int|
            0 <= k < l < kept_places(events, at_seq, n).len() ==> #[trigger] kept_places(
                events,
                at_seq,
                n,
            )[k] < #[trigger] kept_places(events, at_seq, n)[l],
        forall|k: int|
            0 <= k < kept_places(events, at_seq, n).len() ==> events[#[trigger] kept_places(
                events,
                at_seq,
                n,
            )[k]] == inherited(events.take(n), at_seq)[k],
        forall|i: int|
            0 <= i < n ==> (kept_places(events, at_seq, n).contains(i) <==> (
            #[trigger] events[i]).seq <= at_seq && is_inherited(events[i].event)),
    decreases n,
{
    reveal(Seq::filter);
    if n > 0 {
        lemma_kept_places(events, at_seq, n - 1);
        let before = kept_places(events, at_seq, n - 1);
        let after = kept_places(events, at_seq, n);
        assert(events.take(n).drop_last() =~= events.take(n - 1));
        assert(events.take(n).last() == events[n - 1]);
        assert forall|i: int| 0 <= i < n implies (after.contains(i) <==> (#[trigger] events[i]).seq
            <= at_seq && is_inherited(events[i].event)) by {
            if i < n - 1 {
                if before.contains(i) {
                    let k = before.index_of(i);
                    assert(after[k] == i);
                }
                if after.contains(i) {
                    let k = after.index_of(i);
                    assert(before[k] == i);
                }
            } else {
                if after.contains(i) {
                    let k = after.index_of(i);
                    if k < before.len() {
                        assert(before[k] == i);
                    }
                }
                if events[i].seq <= at_seq && is_inherited(events[i].event) {
                    assert(after[before.len() as int] == i);
                }
            }
        }
    }
}

/// The plan is that of a fork of the log.
pub open spec fn is_fork_plan(
    plan: ForkPlan,
    events: Seq<EventEnvelope>,
    at_seq: u64,
    new_thread_id: ThreadId,
    title: Option<String>,
    ids: Seq<EventId>,
    now: Timestamp,
) -> bool {
    let log = fork_log(inherited(log_view(events), at_seq), new_thread_id, ids, now);
    &&& log_view(plan.events@) == log
    &&& plan.status == status_from(ThreadStatus::Idle, log.skip(1))
    &&& string_view(plan.title) == title_from(string_view(title), log.skip(1))
}

proof fn lemma_idle(events: Seq<EnvelopeView>)
    requires
        forall|i: int| 0 <= i < events.len() ==> is_inherited((#[trigger] events[i]).event),
    ensures
        status_from(ThreadStatus::Idle, events) is Idle,
    decreases events.len(),
{
    if events.len() > 0 {
        let init = events.drop_last();
        assert forall|i: int| 0 <= i < init.len() implies is_inherited((#[trigger] init[i]).event) by {
            assert(init[i] == events[i]);
        }
        lemma_idle(init);
        assert(is_inherited(events[events.len() - 1].event));
    }
}

/// What a fork takes over, by the variants of events.
proof fn lemma_inherited(event: RuntimeEvent)
    ensures
        is_inherited(event@) <==> event is ThreadCreated || event is UserMessage || event
            is AssistantCompleted || event is ToolStarted || event is ToolProposed || event
            is ToolCompleted || event is ContextCompacted,
        event is ApprovalRequired || event is ApprovalResolved || event is ToolAuthorized || event
            is ToolExecutionStarted || event is AssistantDelta || event is TurnStarted || event
            is TurnCompleted || event is TurnFailed || event is TurnCancelled
            ==> !is_inherited(event@),
{
}

/// A fork of a thread begins with its own creation. Behind it stands, in order and
/// under new numbers, everything that was said, proposed, found or summed up in the
/// thread up to the number of the fork, and nothing else: no request for an approval
/// and no decision on one, no permission, nothing that was under way, and nothing of a
/// turn. So a fork is idle. The places are those of the events that it takes over.
pub proof fn law_fork_takes_history_without_authority(
    plan: ForkPlan,
    events: Seq<EventEnvelope>,
    at_seq: u64,
    new_thread_id: ThreadId,
    title: Option<String>,
    ids: Seq<EventId>,
    now: Timestamp,
) -> (places: Seq<int>)
    requires
        is_fork_plan(plan, events, at_seq, new_thread_id, title, ids, now),
        events.len() > 0,
        events[0].event is ThreadCreated,
        events[0].seq <= at_seq,
        events.len() < u64::MAX,
    ensures
        plan.status is Idle,
        plan.events@.len() == places.len() + 1,
        plan.events@[0].event is ThreadCreated,
        forall|k: int|
            0 <= k < plan.events@.len() ==> {
                &&& (#[trigger] plan.events@[k]).seq == k + 1
                &&& plan.events@[k].thread_id == new_thread_id
                &&& plan.events@[k].turn_id is None
                &&& plan.events@[k].workspace_id@ == events[0].workspace_id@
                &&& !(plan.events@[k].event is ApprovalRequired)
                &&& !(plan.events@[k].event is ApprovalResolved)
                &&& !(plan.events@[k].event is ToolAuthorized)
                &&& !(plan.events@[k].event is ToolExecutionStarted)
                &&& !(plan.events@[k].event is AssistantDelta)
                &&& !(plan.events@[k].event is TurnStarted)
                &&& !(plan.events@[k].event is TurnCompleted)
                &&& !(plan.events@[k].event is TurnFailed)
                &&& !(plan.events@[k].event is TurnCancelled)
            },
        forall|k: int| 0 <= k < places.len() ==> 0 < #[trigger] places[k] < events.len(),
        forall|k: int, l: int|
            0 <= k < l < places.len() ==> #[trigger] places[k] < #[trigger] places[l],
        forall|k: int|
            0 <= k < places.len() ==> plan.events@[k + 1].event@ == events[#[trigger] places[k]].event@
                && plan.events@[k + 1].item_id == events[places[k]].item_id,
        forall|i: int|
            0 < i < events.len() ==> (places.contains(i) <==> (#[trigger] events[i]).seq <= at_seq
                && (events[i].event is ThreadCreated || events[i].event is UserMessage
                || events[i].event is AssistantCompleted || events[i].event is ToolStarted
                || events[i].event is ToolProposed || events[i].event is ToolCompleted
                || events[i].event is ContextCompacted)),
        title matches Some(given) ==> string_view(plan.title) == Some(given@),
{
    let log = log_view(events);
    let n = events.len() as int;
    let kept = inherited(log, at_seq);
    let made = fork_log(kept, new_thread_id, ids, now);
    lemma_kept_places(log, at_seq, n);
    assert(log.take(n) =~= log);
    let all = kept_places(log, at_seq, n);
    assert(log[0] == events[0]@);
    assert(all.contains(0));
    assert(all[0] == 0) by {
        let k = all.index_of(0);
        if k > 0 {
            assert(all[0] < all[k]);
        }
    }
    let places = all.skip(1);
    assert forall|k: int| 0 <= k < plan.events@.len() implies made[k] == (
    #[trigger] plan.events@[k])@ by {
        assert(log_view(plan.events@)[k] == plan.events@[k]@);
    }
    assert(log_view(plan.events@).len() == plan.events@.len());
    assert(kept.len() <= n) by {
        assert(all.no_duplicates());
        if all.len() > n {
            lemma_increasing(all, n);
        }
    }
    assert forall|k: int| 0 < k < plan.events@.len() implies (#[trigger] made[k]).event
        == events[all[k]].event@ && made[k].item_id == events[all[k]].item_id && is_inherited(
        made[k].event,
    ) && events[all[k]].seq <= at_seq by {
        assert(made[k] == copied(
            kept.skip(1)[k - 1],
            k - 1,
            new_thread_id,
            fork_workspace(kept),
            ids[k],
            now,
        ));
        assert(log[all[k]] == events[all[k]]@);
        assert(all.contains(all[k]));
    }
    assert(kept[0] == log[0]);
    assert forall|k: int| 0 <= k < made.skip(1).len() implies is_inherited(
        (#[trigger] made.skip(1)[k]).event,
    ) by {
        assert(made.skip(1)[k] == made[k + 1]);
        assert(plan.events@[k + 1]@ == made[k + 1]);
    }
    lemma_idle(made.skip(1));
    assert forall|k: int| 0 <= k < plan.events@.len() implies {
        &&& (#[trigger] plan.events@[k]).seq == k + 1
        &&& plan.events@[k].thread_id == new_thread_id
        &&& plan.events@[k].turn_id is None
        &&& plan.events@[k].workspace_id@ == events[0].workspace_id@
        &&& is_inherited(plan.events@[k].event@)
    } by {
        assert(made[k] == plan.events@[k]@);
        if k > 0 {
            assert(is_inherited(made[k].event));
        }
    }
    assert forall|k: int| 0 <= k < plan.events@.len() implies {
        &&& !((#[trigger] plan.events@[k]).event is ApprovalRequired)
        &&& !(plan.events@[k].event is ApprovalResolved)
        &&& !(plan.events@[k].event is ToolAuthorized)
        &&& !(plan.events@[k].event is ToolExecutionStarted)
        &&& !(plan.events@[k].event is AssistantDelta)
        &&& !(plan.events@[k].event is TurnStarted)
        &&& !(plan.events@[k].event is TurnCompleted)
        &&& !(plan.events@[k].event is TurnFailed)
        &&& !(plan.events@[k].event is TurnCancelled)
    } by {
        lemma_inherited(plan.events@[k].event);
    }
    assert forall|k: int| 0 <= k < places.len() implies plan.events@[k + 1].event@
        == events[#[trigger] places[k]].event@ && plan.events@[k + 1].item_id
        == events[places[k]].item_id by {
        assert(places[k] == all[k + 1]);
        assert(made[k + 1] == plan.events@[k + 1]@);
    }
    assert forall|i: int| 0 < i < n implies (places.contains(i) <==> (#[trigger] events[i]).seq
        <= at_seq && (events[i].event is ThreadCreated || events[i].event is UserMessage
        || events[i].event is AssistantCompleted || events[i].event is ToolStarted
        || events[i].event is ToolProposed || events[i].event is ToolCompleted || events[i].event
        is ContextCompacted)) by {
        assert(log[i] == events[i]@);
        lemma_inherited(events[i].event);
        if places.contains(i) {
            let k = places.index_of(i);
            assert(all[k + 1] == i);
            assert(all.contains(i));
        }
        if all.contains(i) {
            let k = all.index_of(i);
            assert(k > 0);
            assert(places[k - 1] == i);
        }
    }
    assert(plan.events@[0]@ == made[0]);
    lemma_title_given(string_view(title), made.skip(1));
    places
}

proof fn lemma_title_given(title: Option<Seq<char>>, events: Seq<EnvelopeView>)
    ensures
        title is Some ==> title_from(title, events) == title,
    decreases events.len(),
{
    if events.len() > 0 {
        lemma_title_given(title, events.drop_last());
    }
}

proof fn lemma_increasing(places: Seq<int>, n: int)
    requires
        forall|k: int| 0 <= k < places.len() ==> 0 <= #[trigger] places[k] < n,
        forall|k: int, l: int|
            0 <= k < l < places.len() ==> #[trigger] places[k] < #[trigger] places[l],
    ensures
        places.len() <= n || places.len() == 0,
    decreases places.len(),
{
    if places.len() > 0 {
        let init = places.drop_last();
        assert forall|k: int| 0 <= k < init.len() implies 0 <= #[trigger] init[k] < places.last() by {
            assert(init[k] == places[k]);
            assert(places[k] < places[places.len() - 1]);
        }
        assert forall|k: int, l: int| 0 <= k < l < init.len() implies #[trigger] init[k]
            < #[trigger] init[l] by {
            assert(places[k] < places[l]);
        }
        lemma_increasing(init, places.last());
    }
}

} // verus!
