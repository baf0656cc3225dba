//! What a log holds, told line by line and event by event.
use vstd::prelude::*;

use crate::error::ErrorView;
use crate::evidence::EvidenceMeta;
use crate::json::bytes_of;
use crate::runtime::envelope::{log_view, EnvelopeView, EventEnvelope};
use crate::runtime::event::RuntimeEvent;
use crate::runtime::thread::{EventId, EvidenceId, ThreadId, ThreadStatus, TurnStatus};
use crate::store::continuity::{CheckpointPhase, DurableApproval};
use crate::store::fork::{fork_error, import_error, title_from};
use crate::store::log::{
    beyond, events_of, evidence_of, expected_seq, find_evidence, line_of, log_after, log_of,
    log_workspace, AppendEvent, LogTail,
};
use crate::store::sqlite::{event_bytes, is_preferred, status_of_turn};
use crate::time::Timestamp;

verus! {

proof fn lemma_events_of(
    path: Seq<char>,
    thread_id: ThreadId,
    lines: Seq<Result<EnvelopeView, Seq<char>>>,
)
    requires
        lines.len() < u64::MAX,
    ensures
        events_of(path, thread_id, lines) is Ok <==> forall|i: int|
            0 <= i < lines.len() ==> {
                &&& #[trigger] lines[i] is Ok
                &&& lines[i]->Ok_0.thread_id == thread_id
                &&& lines[i]->Ok_0.seq == i + 1
                &&& lines[i]->Ok_0.workspace_id == lines[0]->Ok_0.workspace_id
            },
        events_of(path, thread_id, lines) matches Ok(events) ==> events.len() == lines.len()
            && forall|i: int| 0 <= i < lines.len() ==> #[trigger] events[i] == lines[i]->Ok_0,
    decreases lines.len(),
{
    if lines.len() > 0 {
        let init = lines.drop_last();
        let n = lines.len() - 1;
        lemma_events_of(path, thread_id, init);
        assert forall|i: int| 0 <= i < init.len() implies #[trigger] init[i] == lines[i] by {}
        assert(lines.last() == lines[n]);
        if forall|i: int|
            0 <= i < lines.len() ==> {
                &&& #[trigger] lines[i] is Ok
                &&& lines[i]->Ok_0.thread_id == thread_id
                &&& lines[i]->Ok_0.seq == i + 1
                &&& lines[i]->Ok_0.workspace_id == lines[0]->Ok_0.workspace_id
            } {
            assert forall|i: int| 0 <= i < init.len() implies {
                &&& #[trigger] init[i] is Ok
                &&& init[i]->Ok_0.thread_id == thread_id
                &&& init[i]->Ok_0.seq == i + 1
                &&& init[i]->Ok_0.workspace_id == init[0]->Ok_0.workspace_id
            } by {
                assert(lines[i] is Ok);
            }
            let previous = events_of(path, thread_id, init)->Ok_0;
            assert(lines[n] is Ok);
            if n > 0 {
                assert(previous.last() == previous[n - 1]);
                assert(previous[n - 1] == init[n - 1]->Ok_0);
                assert(lines[n - 1] is Ok);
                assert(previous[0] == init[0]->Ok_0);
            }
        }
        if events_of(path, thread_id, lines) is Ok {
            let previous = events_of(path, thread_id, init)->Ok_0;
            if n > 0 {
                assert(previous.last() == previous[n - 1]);
                assert(previous[n - 1] == init[n - 1]->Ok_0);
                assert(init[n - 1] is Ok);
                assert(previous[0] == init[0]->Ok_0);
            }
            assert forall|i: int| 0 <= i < lines.len() implies {
                &&& #[trigger] lines[i] is Ok
                &&& lines[i]->Ok_0.thread_id == thread_id
                &&& lines[i]->Ok_0.seq == i + 1
                &&& lines[i]->Ok_0.workspace_id == lines[0]->Ok_0.workspace_id
            } by {
                if i < n {
                    assert(init[i] is Ok);
                }
            }
        }
    }
}

/// A log of whole lines is accepted exactly where every line can be read, belongs to
/// the thread and to one workspace, and the numbers run from one without a gap. It then
/// holds what its lines hold, in order.
pub proof fn law_logs_are_read_line_by_line(
    path: Seq<char>,
    thread_id: ThreadId,
    lines: Seq<Result<EnvelopeView, Seq<char>>>,
    complete_bytes: usize,
)
    requires
        lines.len() < u64::MAX,
    ensures
        log_of(path, thread_id, lines, None, complete_bytes) is Ok <==> forall|i: int|
            0 <= i < lines.len() ==> {
                &&& #[trigger] lines[i] is Ok
                &&& lines[i]->Ok_0.thread_id == thread_id
                &&& lines[i]->Ok_0.seq == i + 1
                &&& lines[i]->Ok_0.workspace_id == lines[0]->Ok_0.workspace_id
            },
        log_of(path, thread_id, lines, None, complete_bytes) matches Ok((events, tail)) ==> tail
            is Clean && events.len() == lines.len() && forall|i: int|
            0 <= i < lines.len() ==> #[trigger] events[i] == lines[i]->Ok_0,
        log_of(path, thread_id, lines, None, complete_bytes) matches Err(e) ==> e is Storage,
{
    lemma_events_of(path, thread_id, lines);
    lemma_storage(path, thread_id, lines);
}

proof fn lemma_storage(
    path: Seq<char>,
    thread_id: ThreadId,
    lines: Seq<Result<EnvelopeView, Seq<char>>>,
)
    ensures
        events_of(path, thread_id, lines) matches Err(e) ==> e is Storage,
    decreases lines.len(),
{
    if lines.len() > 0 {
        lemma_storage(path, thread_id, lines.drop_last());
    }
}

/// What is left behind the last whole line of a log belongs to it where it can be read,
/// and is cut off where it cannot.
pub proof fn law_unfinished_lines_are_told(
    path: Seq<char>,
    thread_id: ThreadId,
    lines: Seq<Result<EnvelopeView, Seq<char>>>,
    rest: Result<EnvelopeView, Seq<char>>,
    complete_bytes: usize,
)
    requires
        log_of(path, thread_id, lines, None, complete_bytes) is Ok,
    ensures
        ({
            let events = log_of(path, thread_id, lines, None, complete_bytes)->Ok_0.0;
            &&& rest is Err ==> log_of(path, thread_id, lines, Some(rest), complete_bytes) == Ok::<
                (Seq<EnvelopeView>, LogTail),
                ErrorView,
            >((events, LogTail::Partial { valid_bytes: complete_bytes }))
            &&& rest matches Ok(envelope) ==> (envelope.thread_id == thread_id && envelope.seq == (
            if events.len() == 0 {
                1
            } else {
                events.last().seq + 1
            }) && (events.len() > 0 ==> envelope.workspace_id == events[0].workspace_id) ==> log_of(
                path,
                thread_id,
                lines,
                Some(rest),
                complete_bytes,
            ) == Ok::<(Seq<EnvelopeView>, LogTail), ErrorView>(
                (events.push(envelope), LogTail::ValidWithoutNewline),
            ))
        }),
{
}

/// An event that is appended gets the next number, the thread and the workspace of the
/// log, and keeps what it says, what caused it and the turn that it belongs to. Pieces
/// of an answer are for delivery, unless it is said otherwise.
pub proof fn law_events_are_appended(
    events: Seq<EventEnvelope>,
    command: AppendEvent,
    event_id: EventId,
    now: Timestamp,
    envelope: EventEnvelope,
)
    requires
        expected_seq(log_view(events)) <= u64::MAX,
        envelope@ == command.envelope(
            expected_seq(log_view(events)) as u64,
            log_workspace(log_view(events)),
            event_id,
            now,
        ),
    ensures
        events.len() == 0 ==> envelope.seq == 1 && envelope.workspace_id@ == "default"@,
        events.len() > 0 ==> envelope.seq == events.last().seq + 1 && envelope.workspace_id@
            == events[0].workspace_id@,
        envelope.thread_id == command.thread_id,
        envelope.turn_id == command.turn_id,
        envelope.item_id == command.item_id,
        envelope.causation_id == command.causation_id,
        envelope.event@ == command.event@,
        envelope.event_id == event_id,
        envelope.timestamp == now,
        envelope.schema_version == 2,
        command.stream_kind matches Some(kind) ==> envelope.stream_kind == kind,
        command.stream_kind is None ==> (envelope.stream_kind is Delivery <==> command.event
            is AssistantDelta),
{
    let log = log_view(events);
    assert(log.len() == events.len());
    if events.len() > 0 {
        assert(log[0] == events[0]@);
        assert(log.last() == events.last()@);
    }
}

/// A line is a document and the end of the line. It is put behind what can be read of a
/// log, on a line of its own.
pub proof fn law_lines_are_put_behind(bytes: Seq<u8>, tail: LogTail, envelope: EnvelopeView)
    ensures
        line_of(envelope) == bytes_of(envelope.json()).push(10u8),
        tail is Clean ==> log_after(bytes, tail, line_of(envelope)) == bytes + bytes_of(
            envelope.json(),
        ).push(10u8),
        tail is ValidWithoutNewline ==> log_after(bytes, tail, line_of(envelope)) == bytes.push(
            10u8,
        ) + bytes_of(envelope.json()).push(10u8),
        tail matches LogTail::Partial { valid_bytes } ==> log_after(bytes, tail, line_of(envelope))
            == bytes.take(valid_bytes as int) + bytes_of(envelope.json()).push(10u8),
{
    let line = bytes_of(envelope.json()).push(10u8);
    assert(bytes + (seq![10u8] + line) =~= bytes.push(10u8) + line);
}

/// What is read again of a log is, in order, what is numbered behind the given number.
pub proof fn law_events_behind_a_number_are_read(events: Seq<EnvelopeView>, after: u64)
    requires
        forall|i: int| 0 <= i < events.len() ==> (#[trigger] events[i]).seq == i + 1,
    ensures
        after >= events.len() ==> beyond(events, after).len() == 0,
        after < events.len() ==> beyond(events, after) == events.skip(after as int),
    decreases events.len(),
{
    reveal(Seq::filter);
    if events.len() > 0 {
        let init = events.drop_last();
        assert forall|i: int| 0 <= i < init.len() implies (#[trigger] init[i]).seq == i + 1 by {
            assert(init[i] == events[i]);
        }
        law_events_behind_a_number_are_read(init, after);
        assert(events.last() == events[events.len() - 1]);
        if after < events.len() {
            if after == events.len() - 1 {
                assert(events.skip(after as int) =~= seq![events.last()]);
                assert(beyond(init, after) =~= Seq::empty());
                assert(beyond(events, after) =~= seq![events.last()]);
            } else {
                assert(events.skip(after as int) =~= init.skip(after as int).push(events.last()));
            }
        }
    }
}

/// Evidence is found in a log exactly where a tool that succeeded left it, under the
/// identifier that it has there.
pub proof fn law_evidence_is_found_where_it_was_left(
    thread_id: ThreadId,
    events: Seq<EventEnvelope>,
    id: EvidenceId,
    i: int,
    found: Option<EvidenceMeta>,
)
    requires
        found == find_evidence(thread_id, log_view(events), id),
    ensures
        0 <= i < events.len() ==> (events[i].event matches RuntimeEvent::ToolCompleted {
            evidence,
            success,
            ..
        } && success && evidence.evidence_id == Some(id)) ==> found is Some,
        found matches Some(evidence) ==> evidence.evidence_id == Some(id),
        (forall|k: int|
            0 <= k < events.len() ==> !((#[trigger] events[k]).event matches
                RuntimeEvent::ToolCompleted { success, .. } && success)) ==> found is None,
{
    let log = log_view(events);
    lemma_evidence(thread_id, log, id, i);
    if 0 <= i < events.len() {
        assert(log[i] == events[i]@);
    }
    if forall|k: int|
        0 <= k < events.len() ==> !((#[trigger] events[k]).event matches
            RuntimeEvent::ToolCompleted { success, .. } && success) {
        assert forall|k: int| 0 <= k < log.len() implies evidence_of(
            thread_id,
            #[trigger] log[k],
        ) is None by {
            assert(log[k] == events[k]@);
        }
    }
}

proof fn lemma_evidence(thread_id: ThreadId, log: Seq<EnvelopeView>, id: EvidenceId, i: int)
    ensures
        find_evidence(thread_id, log, id) matches Some(evidence) ==> evidence.evidence_id == Some(
            id,
        ),
        0 <= i < log.len() && (evidence_of(thread_id, log[i]) matches Some(evidence)
            && evidence.evidence_id == Some(id)) ==> find_evidence(thread_id, log, id) is Some,
        (forall|k: int| 0 <= k < log.len() ==> evidence_of(thread_id, #[trigger] log[k]) is None)
            ==> find_evidence(thread_id, log, id) is None,
    decreases log.len(),
{
    if log.len() > 0 {
        let init = log.drop_last();
        lemma_evidence(thread_id, init, id, i);
        if 0 <= i < init.len() {
            assert(init[i] == log[i]);
        }
        if forall|k: int| 0 <= k < log.len() ==> evidence_of(thread_id, #[trigger] log[k]) is None {
            assert forall|k: int| 0 <= k < init.len() implies evidence_of(
                thread_id,
                #[trigger] init[k],
            ) is None by {
                assert(init[k] == log[k]);
            }
            assert(evidence_of(thread_id, log[log.len() - 1]) is None);
        }
    }
}

/// A thread is forked exactly at a number that it has.
pub proof fn law_threads_are_forked_at_their_events(
    thread_id: ThreadId,
    events: Seq<EnvelopeView>,
    at_seq: u64,
)
    requires
        forall|i: int| 0 <= i < events.len() ==> (#[trigger] events[i]).seq == i + 1,
    ensures
        fork_error(thread_id, events, at_seq) is None <==> 1 <= at_seq <= events.len(),
{
    if events.len() > 0 {
        assert(events[events.len() - 1].seq == events.len());
    }
}

/// A log is taken in where it is that of a thread and there is none under its name, and
/// is left alone where the same is there; it is never taken in over another.
pub proof fn law_logs_are_taken_in_once(
    events: Seq<EnvelopeView>,
    current: Option<Seq<EnvelopeView>>,
)
    ensures
        events.len() == 0 ==> import_error(events, current) is Some,
        events.len() > 0 && current is None ==> (import_error(events, current) is None
            <==> events[0].event is ThreadCreated),
        events.len() > 0 && current == Some(events) ==> import_error(events, current) is None,
        import_error(events, current) matches Some(e) ==> e is Storage,
{
}

/// The bytes by which logs are held against one another cover the number, the
/// identifier and what every event says.
pub proof fn law_compared_bytes_cover_events(a: EnvelopeView, b: EnvelopeView)
    requires
        a.seq == b.seq,
        a.event_id == b.event_id,
        event_bytes(a) == event_bytes(b),
    ensures
        bytes_of(a.event.json()) == bytes_of(b.event.json()),
{
    let head = vstd::utf8::encode_utf8(crate::text::decimal(a.seq as nat))
        + vstd::utf8::encode_utf8(a.event_id.text());
    let x = bytes_of(a.event.json());
    let y = bytes_of(b.event.json());
    assert((head + x).skip(head.len() as int) =~= x);
    assert((head + y).skip(head.len() as int) =~= y);
}

/// A thread waits, is interrupted or needs people where its turn does; other turns say
/// nothing of it. A turn is over where it ended, failed, was called off or needs people.
pub proof fn law_turns_tell_of_their_threads(status: TurnStatus, phase: CheckpointPhase)
    ensures
        status_of_turn(status) == Some(ThreadStatus::WaitingApproval) <==> status
            is WaitingApproval,
        status_of_turn(status) == Some(ThreadStatus::NeedsReconciliation) <==> status
            is NeedsReconciliation,
        status_of_turn(status) == Some(ThreadStatus::Interrupted) <==> status is Interrupted,
        status_of_turn(status) is None <==> status is Running || status is Completed || status
            is Failed || status is Cancelled,
        phase.ends_turn() <==> phase is Completed || phase is Failed || phase is Cancelled || phase
            is NeedsReconciliation,
{
}

/// Of the approvals of a turn the one that is still pending comes first, then one that
/// was given, then one that was refused.
pub proof fn law_pending_approvals_come_first(
    approvals: Seq<DurableApproval>,
    i: int,
    k: int,
)
    requires
        is_preferred(approvals, i),
        0 <= k < approvals.len(),
    ensures
        approvals[k].status is Pending ==> approvals[i].status is Pending && i <= k,
        approvals[k].status is Approved ==> approvals[i].status is Pending || approvals[i].status
            is Approved,
        approvals[k].status is Rejected ==> !(approvals[i].status is Expired),
{
}

proof fn lemma_no_title(events: Seq<EnvelopeView>)
    requires
        forall|i: int| 0 <= i < events.len() ==> !((#[trigger] events[i]).event is UserMessage),
    ensures
        title_from(None, events) is None,
    decreases events.len(),
{
    if events.len() > 0 {
        let init = events.drop_last();
        assert forall|i: int| 0 <= i < init.len() implies !((#[trigger] init[i]).event
            is UserMessage) by {
            assert(init[i] == events[i]);
        }
        lemma_no_title(init);
        assert(!(events[events.len() - 1].event is UserMessage));
    }
}

/// Without a title of its own a fork is called by the beginning of the first thing that
/// a user said in it.
pub proof fn law_forks_are_called_by_their_first_message(events: Seq<EnvelopeView>, first: int)
    requires
        0 <= first < events.len(),
        events[first].event is UserMessage,
        forall|i: int| 0 <= i < first ==> !((#[trigger] events[i]).event is UserMessage),
    ensures
        title_from(None, events) == Some(
            if events[first].event->UserMessage_content.len() <= 120 {
                events[first].event->UserMessage_content
            } else {
                events[first].event->UserMessage_content.take(120)
            },
        ),
    decreases events.len(),
{
    let init = events.drop_last();
    assert forall|i: int| 0 <= i < init.len() implies #[trigger] init[i] == events[i] by {}
    if first < events.len() - 1 {
        law_forks_are_called_by_their_first_message(init, first);
    } else {
        lemma_no_title(init);
    }
}

} // verus!
