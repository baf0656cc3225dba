//! What callers of the server are told, case by case.
use vstd::prelude::*;
use vstd::utf8::encode_utf8;

use crate::error::OpsCodexError;
use crate::json::{optional_text, JsonView};
use crate::json_law::law_the_first_entry_is_read;
use crate::runtime::envelope::EnvelopeView;
use crate::runtime::event::StreamKind;
use crate::runtime::incident::IncidentContext;
use crate::runtime::thread::{ApprovalId, ThreadId, TurnId};
use crate::server::routes::{
    answered, approval_resolved_entries, bad_id, error_body, not_ready_entries, ready_entries,
    remediation_entries, thread_created_entries, thread_forked_entries, threads_of, turn_error,
    turn_started_entries, ApiView,
};
use crate::server::sse::{seen_before, wanted_of, EventStream};
use crate::store::projection::ThreadSummary;
use crate::text::{decimal, law_numerals_are_read_back, number_named, trim};

verus! {

/// How an error is answered: what is not there is not found, what is under way or needs
/// people is a conflict, what was asked wrongly is a bad request, what is refused is
/// forbidden, and anything else is a failure of the server.
pub proof fn law_errors_have_their_status(error: OpsCodexError)
    ensures
        match error {
            OpsCodexError::NotFound(message) => answered(error@).status == 404 && answered(
                error@,
            ).code == "not_found"@ && answered(error@).message == message@,
            OpsCodexError::TurnAlreadyRunning => answered(error@).status == 409 && answered(
                error@,
            ).code == "conflict"@,
            OpsCodexError::NeedsReconciliation(message) => answered(error@).status == 409
                && answered(error@).code == "conflict"@ && answered(error@).message == message@,
            OpsCodexError::Protocol(message) => answered(error@).status == 400 && answered(
                error@,
            ).code == "bad_request"@ && answered(error@).message == message@,
            OpsCodexError::Policy(message) => answered(error@).status == 403 && answered(
                error@,
            ).code == "forbidden"@ && answered(error@).message == message@,
            _ => answered(error@).status == 500 && answered(error@).code == "internal_error"@
                && answered(error@).message == error@.text(),
        },
        bad_id("thread"@).status == 400,
{
}

/// The body of an error holds its code and its message.
pub proof fn law_errors_are_shown(error: ApiView)
    ensures
        ({
            let body = JsonView::Object(error_body(error));
            &&& body.get_in("error"@, "code"@) == Some(JsonView::Text(error.code))
            &&& body.get_in("error"@, "message"@) == Some(JsonView::Text(error.message))
        }),
{
    reveal_strlit("code");
    reveal_strlit("message");
    assert("code"@.len() == 4 && "message"@.len() == 7);
    law_the_first_entry_is_read(error_body(error), "error"@, 0);
    let inner = error_body(error)[0].1->Object_0;
    law_the_first_entry_is_read(inner, "code"@, 0);
    law_the_first_entry_is_read(inner, "message"@, 1);
}

/// A turn is started exactly where something is said, in at most 32768 bytes, and the
/// context that comes with it is in order.
pub proof fn law_turns_are_started(input: Seq<char>, context: Option<IncidentContext>)
    ensures
        turn_error(input, context) is None <==> {
            &&& trim(input).len() > 0
            &&& encode_utf8(trim(input)).len() <= 32768
            &&& context matches Some(context) ==> context.error() is None
        },
        (trim(input).len() == 0 || encode_utf8(trim(input)).len() > 32768) ==> turn_error(
            input,
            context,
        )->0.status == 400,
{
}

/// A workspace sees its own threads, in order, and no others.
pub proof fn law_threads_are_told_apart(threads: Seq<ThreadSummary>, workspace_id: Seq<char>)
    ensures
        forall|k: int|
            0 <= k < threads_of(threads, workspace_id).len() ==> (#[trigger] threads_of(
                threads,
                workspace_id,
            )[k]).workspace_id@ == workspace_id,
        forall|i: int|
            0 <= i < threads.len() && (#[trigger] threads[i]).workspace_id@ == workspace_id
                ==> threads_of(threads, workspace_id).contains(threads[i]),
    decreases threads.len(),
{
    reveal(Seq::filter);
    if threads.len() > 0 {
        let init = threads.drop_last();
        law_threads_are_told_apart(init, workspace_id);
        let before = threads_of(init, workspace_id);
        let after = threads_of(threads, workspace_id);
        assert forall|i: int|
            0 <= i < threads.len() && (#[trigger] threads[i]).workspace_id@
                == workspace_id implies after.contains(threads[i]) by {
            if i < init.len() {
                assert(init[i] == threads[i]);
                let k = before.index_of(threads[i]);
                assert(after[k] == threads[i]);
            } else {
                assert(after[before.len() as int] == threads[i]);
            }
        }
    }
}

/// What is answered on a thread, on a turn and on a decision names it.
pub proof fn law_answers_name_what_they_are_about(
    id: ThreadId,
    parent: ThreadId,
    at_seq: u64,
    title: Option<Seq<char>>,
    workspace_id: Seq<char>,
    turn_id: TurnId,
    approval_id: ApprovalId,
    approved: bool,
)
    ensures
        JsonView::Object(thread_created_entries(id, workspace_id)).text_at("id"@) == Some(
            id.text(),
        ),
        JsonView::Object(thread_created_entries(id, workspace_id)).text_at("workspace_id"@) == Some(
            workspace_id,
        ),
        JsonView::Object(thread_forked_entries(id, parent, at_seq, title)).text_at("id"@) == Some(
            id.text(),
        ),
        JsonView::Object(thread_forked_entries(id, parent, at_seq, title)).text_at(
            "parent_thread_id"@,
        ) == Some(parent.text()),
        JsonView::Object(thread_forked_entries(id, parent, at_seq, title)).u64_at("forked_at_seq"@)
            == Some(at_seq),
        JsonView::Object(thread_forked_entries(id, parent, at_seq, title)).get("title"@) == Some(
            optional_text(title),
        ),
        JsonView::Object(turn_started_entries(turn_id)).text_at("turn_id"@) == Some(turn_id.text()),
        JsonView::Object(turn_started_entries(turn_id)).text_at("status"@) == Some("running"@),
        JsonView::Object(approval_resolved_entries(approval_id, approved)).text_at("approval_id"@)
            == Some(approval_id.text()),
        JsonView::Object(approval_resolved_entries(approval_id, approved)).text_at("status"@)
            == Some(
            if approved {
                "approved"@
            } else {
                "rejected"@
            },
        ),
{
    reveal_strlit("id");
    reveal_strlit("workspace_id");
    reveal_strlit("forked_at_seq");
    reveal_strlit("parent_thread_id");
    reveal_strlit("title");
    reveal_strlit("turn_id");
    reveal_strlit("status");
    reveal_strlit("approval_id");
    assert("id"@.len() == 2 && "workspace_id"@.len() == 12 && "forked_at_seq"@.len() == 13);
    assert("parent_thread_id"@.len() == 16 && "title"@.len() == 5 && "turn_id"@.len() == 7);
    assert("status"@.len() == 6 && "approval_id"@.len() == 11);
    let created = thread_created_entries(id, workspace_id);
    law_the_first_entry_is_read(created, "id"@, 0);
    law_the_first_entry_is_read(created, "workspace_id"@, 1);
    let forked = thread_forked_entries(id, parent, at_seq, title);
    law_the_first_entry_is_read(forked, "forked_at_seq"@, 0);
    law_the_first_entry_is_read(forked, "id"@, 1);
    law_the_first_entry_is_read(forked, "parent_thread_id"@, 2);
    law_the_first_entry_is_read(forked, "title"@, 3);
    let started = turn_started_entries(turn_id);
    law_the_first_entry_is_read(started, "turn_id"@, 0);
    law_the_first_entry_is_read(started, "status"@, 1);
    let resolved = approval_resolved_entries(approval_id, approved);
    law_the_first_entry_is_read(resolved, "approval_id"@, 0);
    law_the_first_entry_is_read(resolved, "status"@, 1);
}

/// What is answered on the state of the server says how it stands.
pub proof fn law_the_state_is_told(
    threads: u64,
    workspaces: u64,
    message: Seq<char>,
    enabled: bool,
    kill_switch: bool,
    mutations: u64,
)
    ensures
        JsonView::Object(ready_entries(threads, workspaces)).text_at("status"@) == Some("ready"@),
        JsonView::Object(ready_entries(threads, workspaces)).u64_at("threads"@) == Some(threads),
        JsonView::Object(ready_entries(threads, workspaces)).u64_at("workspaces"@) == Some(
            workspaces,
        ),
        JsonView::Object(not_ready_entries(message)).text_at("status"@) == Some("not_ready"@),
        JsonView::Object(not_ready_entries(message)).get_in("error"@, "message"@) == Some(
            JsonView::Text(message),
        ),
        JsonView::Object(remediation_entries(enabled, kill_switch, mutations)).get("enabled"@)
            == Some(JsonView::Bool(enabled)),
        JsonView::Object(remediation_entries(enabled, kill_switch, mutations)).get("kill_switch"@)
            == Some(JsonView::Bool(kill_switch)),
        JsonView::Object(remediation_entries(enabled, kill_switch, mutations)).u64_at("mutations"@)
            == Some(mutations),
{
    reveal_strlit("status");
    reveal_strlit("store");
    reveal_strlit("threads");
    reveal_strlit("workspaces");
    reveal_strlit("error");
    reveal_strlit("code");
    reveal_strlit("message");
    reveal_strlit("enabled");
    reveal_strlit("kill_switch");
    reveal_strlit("mutations");
    assert("status"@.len() == 6 && "store"@.len() == 5 && "threads"@.len() == 7);
    assert("workspaces"@.len() == 10 && "error"@.len() == 5 && "code"@.len() == 4);
    assert("message"@.len() == 7 && "enabled"@.len() == 7 && "kill_switch"@.len() == 11);
    assert("mutations"@.len() == 9);
    let ready = ready_entries(threads, workspaces);
    law_the_first_entry_is_read(ready, "status"@, 0);
    law_the_first_entry_is_read(ready, "threads"@, 2);
    law_the_first_entry_is_read(ready, "workspaces"@, 3);
    let not_ready = not_ready_entries(message);
    law_the_first_entry_is_read(not_ready, "error"@, 0);
    law_the_first_entry_is_read(not_ready, "status"@, 1);
    let inner = not_ready[0].1->Object_0;
    law_the_first_entry_is_read(inner, "message"@, 1);
    let remediation = remediation_entries(enabled, kill_switch, mutations);
    law_the_first_entry_is_read(remediation, "enabled"@, 0);
    law_the_first_entry_is_read(remediation, "kill_switch"@, 1);
    law_the_first_entry_is_read(remediation, "mutations"@, 2);
}

/// A reader goes on behind the later of what it asked for and what it says that it has
/// seen.
pub proof fn law_readers_go_on(query: u64, seen: u64, text: Seq<char>)
    ensures
        seen_before(query, None) == query,
        seen_before(query, Some(decimal(seen as nat))) == (if seen > query {
            seen
        } else {
            query
        }),
        number_named(text, u64::MAX) is None ==> seen_before(query, Some(text)) == query,
{
    law_numerals_are_read_back(seen, u64::MAX);
}

/// A stream sends an event exactly where it is of the kind that is asked for, or any
/// where none is, and is later than what was sent before it.
pub proof fn law_streams_send_what_is_new(stream: EventStream, envelope: EnvelopeView)
    ensures
        stream.sends(envelope) <==> envelope.seq > stream.last_seq && (stream.kind is None
            || stream.kind == Some(envelope.stream_kind)),
        !stream.after_live(envelope).sends(envelope),
        stream.after_live(envelope).last_seq >= stream.last_seq,
        stream.after_live(envelope).last_seq >= envelope.seq,
        stream.after_live(envelope).last_seq == stream.last_seq || stream.after_live(
            envelope,
        ).last_seq == envelope.seq,
        stream.after_live(envelope).kind == stream.kind,
{
}

/// What is sent again of a log is, in order, what is of the kind that is asked for.
pub proof fn law_replays_are_of_the_kind(kind: Option<StreamKind>, events: Seq<EnvelopeView>)
    ensures
        wanted_of(kind, events) == events.filter(
            |envelope: EnvelopeView| kind is None || kind == Some(envelope.stream_kind),
        ),
    decreases events.len(),
{
    reveal(Seq::filter);
    if events.len() > 0 {
        law_replays_are_of_the_kind(kind, events.drop_last());
    }
}

} // verus!
