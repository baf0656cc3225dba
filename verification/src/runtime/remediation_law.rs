//! From what was asked for to what is carried out.
use vstd::prelude::*;

use crate::action::runner::{metadata, OutcomeView};
use crate::action::{
    action_preimage, ActionPolicyInput, ActionRecord, DEMO_FAULT_TOOL, K8S_SCALE_TOOL,
};
use crate::digest::sha256_text;
use crate::error::ErrorView;
use crate::extensions::capability::CapabilityEffect;
use crate::json::{lookup, string_view, JsonView, NumberView};
use crate::json_law::law_the_first_entry_is_read;
use crate::runtime::remediation::{
    after_prefix, awaits_approval, can_claim, has_expired, is_broken, is_denied, is_finished,
    is_plan_of, is_proposed, observed, proposal, refusal, rollback, run_error, scale_parameters,
    still_as_seen, Finished, Proposal, RunPlan,
};
use crate::runtime::thread::{ActionId, ApprovalId, PlanId, ThreadId};
use crate::text::{decimal, starts_with, views};
use crate::time::Timestamp;

verus! {

proof fn lemma_kinds()
    ensures
        K8S_SCALE_TOOL@ != DEMO_FAULT_TOOL@,
{
    reveal_strlit("k8s_scale");
    reveal_strlit("demo_fault_reset");
    assert(K8S_SCALE_TOOL@.len() == 9);
    assert(DEMO_FAULT_TOOL@.len() == 16);
}

proof fn lemma_scale_parameters(
    kind: Seq<char>,
    namespace: Seq<char>,
    name: Seq<char>,
    replicas: u64,
)
    ensures
        ({
            let document = JsonView::Object(scale_parameters(kind, namespace, name, replicas));
            &&& document.text_at("kind"@) == Some(kind)
            &&& document.text_at("namespace"@) == Some(namespace)
            &&& document.text_at("name"@) == Some(name)
            &&& document.u64_at("replicas"@) == Some(replicas)
        }),
{
    reveal_strlit("kind");
    reveal_strlit("name");
    reveal_strlit("namespace");
    reveal_strlit("replicas");
    assert("kind"@.len() == 4 && "name"@.len() == 4);
    assert("kind"@[0] == 'k' && "name"@[0] == 'n');
    assert("namespace"@.len() == 9 && "replicas"@.len() == 8);
    let entries = scale_parameters(kind, namespace, name, replicas);
    reveal_with_fuel(lookup, 5);
    assert(entries.skip(1)[0] == entries[1]);
    assert(entries.skip(1).skip(1)[0] == entries[2]);
    assert(entries.skip(1).skip(1).skip(1)[0] == entries[3]);
}

/// The plan under which an action is first recorded: what was asked for is what it is
/// to do, and nothing has been decided on it.
pub proof fn law_scale_does_what_was_asked_for(
    workspace: Seq<char>,
    parameters: JsonView,
    action: ActionRecord,
    proposed: Proposal,
    thread_id: ThreadId,
    ttl: u64,
    now: Timestamp,
    action_id: ActionId,
    plan_id: PlanId,
)
    requires
        proposal(workspace, K8S_SCALE_TOOL@, parameters) == Ok::<Proposal, ErrorView>(proposed),
        is_proposed(
            action,
            proposed,
            thread_id,
            workspace,
            K8S_SCALE_TOOL@,
            ttl,
            now,
            action_id,
            plan_id,
        ),
    ensures
        ({
            let planned = action.normalized_parameters@;
            &&& parameters.text_at("kind"@) is Some && planned.text_at("kind"@)
                == parameters.text_at("kind"@)
            &&& parameters.text_at("namespace"@) is Some && planned.text_at("namespace"@)
                == parameters.text_at("namespace"@)
            &&& parameters.text_at("name"@) is Some && planned.text_at("name"@)
                == parameters.text_at("name"@)
            &&& parameters.u64_at("replicas"@) is Some && planned.u64_at("replicas"@)
                == parameters.u64_at("replicas"@)
            &&& action.normalized_target@ == "k8s:"@ + parameters.text_at("namespace"@)->0 + "/"@
                + parameters.text_at("kind"@)->0 + "/"@ + parameters.text_at("name"@)->0
            &&& action.expected_effect@ == "Scale "@ + parameters.text_at("kind"@)->0 + "/"@
                + parameters.text_at("name"@)->0 + " to "@ + decimal(
                parameters.u64_at("replicas"@)->0 as nat,
            )
        }),
        action.status is Proposed,
        action.approval_id is None,
        !action.consumed_approval,
        action.workspace_id@ == workspace,
        action.thread_id == thread_id,
{
    lemma_kinds();
    lemma_scale_parameters(
        parameters.text_at("kind"@)->0,
        parameters.text_at("namespace"@)->0,
        parameters.text_at("name"@)->0,
        parameters.u64_at("replicas"@)->0,
    );
}

/// A scale is proposed exactly where the workload is named in full, is of a kind that
/// can be scaled, and is to have between one and sixteen replicas.
pub proof fn law_scales_are_proposed(workspace: Seq<char>, parameters: JsonView)
    ensures
        proposal(workspace, K8S_SCALE_TOOL@, parameters) is Ok <==> {
            &&& parameters.text_at("kind"@) == Some("Deployment"@) || parameters.text_at("kind"@)
                == Some("StatefulSet"@)
            &&& parameters.text_at("namespace"@) is Some
            &&& parameters.text_at("name"@) is Some
            &&& parameters.u64_at("replicas"@) matches Some(n) && 1 <= n <= 16
        },
{
    lemma_kinds();
}

/// The reset of the demo fault is proposed in the workspace of the demo alone, and
/// there unless another service or another mode is asked for. Other kinds of change
/// are never proposed.
pub proof fn law_other_changes_are_proposed(
    workspace: Seq<char>,
    kind: Seq<char>,
    parameters: JsonView,
)
    ensures
        proposal(workspace, DEMO_FAULT_TOOL@, parameters) is Ok <==> {
            &&& workspace == "local-demo"@
            &&& parameters.text_at("service"@) is None || parameters.text_at("service"@) == Some(
                "order-service"@,
            )
            &&& parameters.text_at("mode"@) is None || parameters.text_at("mode"@) == Some(
                "normal"@,
            )
        },
        proposal(workspace, DEMO_FAULT_TOOL@, parameters) matches Ok(proposed) ==> {
            &&& proposed.parameters.text_at("mode"@) == Some("normal"@)
            &&& proposed.parameters.text_at("service"@) == Some("order-service"@)
        },
        kind != "demo_fault_reset"@ && kind != "k8s_scale"@ ==> proposal(workspace, kind, parameters)
            is Err,
{
    lemma_kinds();
    reveal_strlit("mode");
    reveal_strlit("service");
    assert("mode"@.len() == 4);
    assert("service"@.len() == 7);
    reveal_with_fuel(lookup, 3);
    if let Ok(proposed) = proposal(workspace, DEMO_FAULT_TOOL@, parameters) {
        let entries = proposed.parameters->Object_0;
        assert(entries.skip(1)[0] == entries[1]);
    }
}

proof fn lemma_seen(before: JsonView)
    ensures
        after_prefix(observed(K8S_SCALE_TOOL@, before), "uid="@) == Some(metadata(before, "uid"@)),
        after_prefix(observed(K8S_SCALE_TOOL@, before), "resourceVersion="@) == Some(
            metadata(before, "resourceVersion"@),
        ),
{
    reveal_strlit("uid=");
    reveal_strlit("resourceVersion=");
    let texts = observed(K8S_SCALE_TOOL@, before);
    let uid = metadata(before, "uid"@);
    let version = metadata(before, "resourceVersion"@);
    reveal_with_fuel(after_prefix, 3);
    assert(texts[0].take(4) =~= "uid="@);
    assert(texts[0].skip(4) =~= uid);
    assert(texts[0][0] == 'u');
    assert("resourceVersion="@[0] == 'r');
    assert(!starts_with(texts[0], "resourceVersion="@)) by {
        if starts_with(texts[0], "resourceVersion="@) {
            assert(texts[0].take(16)[0] == texts[0][0]);
        }
    }
    assert(texts.skip(1)[0] == texts[1]);
    assert(texts[1].take(16) =~= "resourceVersion="@);
    assert(texts[1].skip(16) =~= version);
}

proof fn lemma_nothing_before(first: Seq<Seq<char>>, more: Seq<Seq<char>>, prefix: Seq<char>)
    requires
        first.len() == 0,
    ensures
        after_prefix(first + more, prefix) == after_prefix(more, prefix),
{
    assert(first + more =~= more);
}

/// From the proposal of a scale to its run: the workload that is scaled, and how far,
/// is what was asked for; the workload has to be the very one that the dry run saw;
/// and the patch carries the operation of the action.
pub proof fn law_scale_runs_as_it_was_proposed(
    workspace: Seq<char>,
    parameters: JsonView,
    action: ActionRecord,
    proposed: Proposal,
    thread_id: ThreadId,
    ttl: u64,
    now: Timestamp,
    action_id: ActionId,
    plan_id: PlanId,
    outcome: OutcomeView,
    approval_id: ApprovalId,
    waiting: ActionRecord,
    plan: RunPlan,
)
    requires
        proposal(workspace, K8S_SCALE_TOOL@, parameters) == Ok::<Proposal, ErrorView>(proposed),
        is_proposed(
            action,
            proposed,
            thread_id,
            workspace,
            K8S_SCALE_TOOL@,
            ttl,
            now,
            action_id,
            plan_id,
        ),
        awaits_approval(waiting, action, outcome, approval_id),
        is_plan_of(plan, waiting),
    ensures
        plan matches RunPlan::Scale { request } && {
            &&& parameters.text_at("kind"@) == Some(request.kind@)
            &&& parameters.text_at("namespace"@) == Some(request.namespace@)
            &&& parameters.text_at("name"@) == Some(request.name@)
            &&& parameters.u64_at("replicas"@) == Some(request.replicas as u64)
            &&& request.uid@ == metadata(outcome.before, "uid"@)
            &&& request.resource_version@ == metadata(outcome.before, "resourceVersion"@)
            &&& request.operation_id@ == action_id.text() + ":1"@
        },
        waiting.status is AwaitingApproval,
        waiting.approval_id == Some(approval_id),
        waiting.normalized_parameters == action.normalized_parameters,
{
    law_scale_does_what_was_asked_for(
        workspace,
        parameters,
        action,
        proposed,
        thread_id,
        ttl,
        now,
        action_id,
        plan_id,
    );
    law_scales_are_proposed(workspace, parameters);
    lemma_kinds();
    lemma_seen(outcome.before);
    assert(proposed.preconditions.len() == 0);
    lemma_nothing_before(
        proposed.preconditions,
        observed(K8S_SCALE_TOOL@, outcome.before),
        "uid="@,
    );
    lemma_nothing_before(
        proposed.preconditions,
        observed(K8S_SCALE_TOOL@, outcome.before),
        "resourceVersion="@,
    );
}

/// An action that was proposed as a scale can be run in a workspace with a cluster,
/// and one that was proposed as the reset of the demo fault anywhere; nothing else can
/// be run.
pub proof fn law_only_structured_changes_run(action: ActionRecord, cluster: bool)
    ensures
        action.tool_id@ == "demo_fault_reset"@ ==> run_error(action, cluster) is None,
        action.tool_id@ != "demo_fault_reset"@ && action.tool_id@ != "k8s_scale"@ ==> run_error(
            action,
            cluster,
        ) is Some,
        action.tool_id@ == "k8s_scale"@ && !cluster ==> run_error(action, cluster) is Some,
        action.tool_id@ == "k8s_scale"@ && cluster ==> (run_error(action, cluster) is None <==> {
            &&& action.normalized_parameters@.text_at("kind"@) is Some
            &&& action.normalized_parameters@.text_at("namespace"@) is Some
            &&& action.normalized_parameters@.text_at("name"@) is Some
            &&& action.normalized_parameters@.u64_at("replicas"@) is Some
        }),
{
    lemma_kinds();
}

/// A decision on an action is taken exactly where the action awaits one, has time left,
/// was not decided on before, and is the very request under whose hash it is taken.
pub proof fn law_decisions_are_taken_in_time_on_what_was_asked(
    action: ActionRecord,
    request_hash: Seq<char>,
    now: Timestamp,
)
    ensures
        refusal(action, request_hash, now) is None <==> {
            &&& action.status is AwaitingApproval
            &&& now.whole_seconds() < action.expires_at.whole_seconds() || (now.whole_seconds()
                == action.expires_at.whole_seconds() && now.subsecond()
                < action.expires_at.subsecond())
            &&& !action.consumed_approval
            &&& request_hash == action.request_hash@
            &&& action.request_hash@ == sha256_text(action_preimage(&action))
        },
        refusal(action, request_hash, now) matches Some(e) ==> e is Policy,
        has_expired(action, now) <==> action.status is AwaitingApproval && (
        action.expires_at.whole_seconds() < now.whole_seconds() || (
        action.expires_at.whole_seconds() == now.whole_seconds() && action.expires_at.subsecond()
            <= now.subsecond())),
{
}

/// An action is claimed exactly where it was authorized and has time left.
pub proof fn law_authorized_actions_are_claimed_in_time(action: ActionRecord, now: Timestamp)
    ensures
        can_claim(action, now) <==> action.status is Authorized && (now.whole_seconds()
            < action.expires_at.whole_seconds() || (now.whole_seconds()
            == action.expires_at.whole_seconds() && now.subsecond()
            < action.expires_at.subsecond())),
{
}

/// A scale is carried out on the workload that its dry run saw, in the version in which
/// it saw it, and on no other.
pub proof fn law_scales_are_held_to_their_dry_run(
    action: ActionRecord,
    waiting: ActionRecord,
    outcome: OutcomeView,
    approval_id: ApprovalId,
    snapshot: JsonView,
)
    requires
        action.tool_id@ == "k8s_scale"@,
        action.preconditions@.len() == 0,
        awaits_approval(waiting, action, outcome, approval_id),
    ensures
        still_as_seen(waiting, snapshot) <==> metadata(snapshot, "uid"@) == metadata(
            outcome.before,
            "uid"@,
        ) && metadata(snapshot, "resourceVersion"@) == metadata(
            outcome.before,
            "resourceVersion"@,
        ),
        waiting.status is AwaitingApproval,
        waiting.approval_id == Some(approval_id),
        string_view(waiting.dry_run_result) == Some(outcome.message),
{
    lemma_seen(outcome.before);
    lemma_nothing_before(
        views(action.preconditions@),
        observed(K8S_SCALE_TOOL@, outcome.before),
        "uid="@,
    );
    lemma_nothing_before(
        views(action.preconditions@),
        observed(K8S_SCALE_TOOL@, outcome.before),
        "resourceVersion="@,
    );
}

/// The number of replicas that a scale is taken back to is the one that the dry run
/// saw.
pub proof fn law_scales_are_taken_back_to_what_was_there(
    action: ActionRecord,
    waiting: ActionRecord,
    outcome: OutcomeView,
    approval_id: ApprovalId,
    replicas: u64,
)
    requires
        action.tool_id@ == "k8s_scale"@,
        action.preconditions@.len() == 0,
        awaits_approval(waiting, action, outcome, approval_id),
        outcome.before.get_in("spec"@, "replicas"@) == Some(
            JsonView::Number(NumberView::PosInt(replicas)),
        ),
    ensures
        rollback(waiting) == "propose a new scale action back to "@ + decimal(replicas as nat)
            + " replicas; do not auto-execute"@,
{
    let texts = observed(K8S_SCALE_TOOL@, outcome.before);
    lemma_nothing_before(views(action.preconditions@), texts, "previousReplicas="@);
    reveal_strlit("uid=");
    reveal_strlit("resourceVersion=");
    reveal_strlit("previousReplicas=");
    let prefix = "previousReplicas="@;
    reveal_with_fuel(after_prefix, 4);
    assert(prefix.len() == 17 && prefix[0] == 'p');
    assert(texts[0][0] == 'u' && texts[1][0] == 'r');
    assert(!starts_with(texts[0], prefix)) by {
        if starts_with(texts[0], prefix) {
            assert(texts[0].take(17)[0] == texts[0][0]);
        }
    }
    assert(!starts_with(texts[1], prefix)) by {
        if starts_with(texts[1], prefix) {
            assert(texts[1].take(17)[0] == texts[1][0]);
        }
    }
    assert(texts.skip(1)[0] == texts[1]);
    assert(texts.skip(1).skip(1)[0] == texts[2]);
    assert(texts[2].take(17) =~= prefix);
    assert(texts[2].skip(17) =~= decimal(replicas as nat));
}

/// An action that was carried out has succeeded exactly where its effect is known and
/// was verified, leaves a rollback to be proposed exactly where it is known and was
/// not, and is left to people where it is not known, or where the runner failed.
/// Whether anything was changed is told as it was reported.
pub proof fn law_actions_end_as_their_run_did(
    r: Finished,
    action: ActionRecord,
    outcome: OutcomeView,
    now: Timestamp,
)
    requires
        is_finished(r, action, outcome, now),
    ensures
        r.action.status is Succeeded <==> outcome.verified && !outcome.uncertain,
        r.action.status is RollbackProposed <==> !outcome.verified && !outcome.uncertain,
        r.action.status is NeedsReconciliation <==> outcome.uncertain,
        r.action.status is RollbackProposed ==> r.action.rollback_spec is Some,
        r.result is Ok <==> !outcome.uncertain,
        r.mutated == outcome.committed,
        r.action.action_id == action.action_id,
        r.action.request_hash == action.request_hash,
        r.action.consumed_approval == action.consumed_approval,
        r.summary@.text_at("action_id"@) == Some(action.action_id.text()),
        r.summary@.get("committed"@) == Some(JsonView::Bool(outcome.committed)),
        r.summary@.text_at("message"@) == Some(outcome.message),
        r.summary@.text_at("request_hash"@) == Some(action.request_hash@),
        outcome.verified && !outcome.uncertain ==> r.summary@.text_at("status"@) == Some(
            "succeeded"@,
        ) && r.operation@ == "action."@ + "succeeded"@,
        outcome.uncertain ==> r.summary@.text_at("status"@) == Some("needs_reconciliation"@),
{
    lemma_audit(r.summary@->Object_0);
}

/// Where the runner failed after it had begun, nothing is claimed of what was changed.
pub proof fn law_broken_runs_are_left_to_people(
    r: Finished,
    action: ActionRecord,
    error: ErrorView,
    now: Timestamp,
)
    requires
        is_broken(r, action, error, now),
    ensures
        r.action.status is NeedsReconciliation,
        r.result matches Err(e) && e is NeedsReconciliation,
        r.action.action_id == action.action_id,
        r.action.request_hash == action.request_hash,
        r.action.consumed_approval == action.consumed_approval,
        r.summary@.get("committed"@) == Some(JsonView::Null),
        r.summary@.text_at("action_id"@) == Some(action.action_id.text()),
        r.operation@ == "action.needs_reconciliation"@,
{
    lemma_audit(r.summary@->Object_0);
}

proof fn lemma_audit(entries: Seq<(Seq<char>, JsonView)>)
    requires
        entries.len() == 5,
        entries[0].0 == "action_id"@,
        entries[1].0 == "committed"@,
        entries[2].0 == "message"@,
        entries[3].0 == "request_hash"@,
        entries[4].0 == "status"@,
    ensures
        JsonView::Object(entries).get("action_id"@) == Some(entries[0].1),
        JsonView::Object(entries).get("committed"@) == Some(entries[1].1),
        JsonView::Object(entries).get("message"@) == Some(entries[2].1),
        JsonView::Object(entries).get("request_hash"@) == Some(entries[3].1),
        JsonView::Object(entries).get("status"@) == Some(entries[4].1),
{
    reveal_strlit("action_id");
    reveal_strlit("committed");
    reveal_strlit("message");
    reveal_strlit("request_hash");
    reveal_strlit("status");
    assert("action_id"@.len() == 9 && "action_id"@[0] == 'a');
    assert("committed"@.len() == 9 && "committed"@[0] == 'c');
    assert("message"@.len() == 7 && "request_hash"@.len() == 12 && "status"@.len() == 6);
    law_the_first_entry_is_read(entries, "action_id"@, 0);
    law_the_first_entry_is_read(entries, "committed"@, 1);
    law_the_first_entry_is_read(entries, "message"@, 2);
    law_the_first_entry_is_read(entries, "request_hash"@, 3);
    law_the_first_entry_is_read(entries, "status"@, 4);
}

/// A change is denied exactly where a switch or the workspace is against it, where its
/// tool is an extension's or the command runner, or where its effect is none that can
/// be undone.
pub proof fn law_changes_are_denied_by_policy(action: ActionRecord, input: &ActionPolicyInput<'_>)
    requires
        input.tool_id@ == action.tool_id@,
    ensures
        is_denied(action, input) <==> {
            ||| input.kill_switch
            ||| !input.remediation_enabled
            ||| !input.allow_remediation
            ||| starts_with(action.tool_id@, "mcp/"@)
            ||| starts_with(action.tool_id@, "custom/"@)
            ||| action.tool_id@ == "exec"@
            ||| input.max_effect == Some(CapabilityEffect::Observe) && !(input.effect is Observe)
            ||| input.effect is ChangeIrreversible
            ||| input.effect is ExternalSideEffect
        },
{
}

/// An action can be decided on for as many seconds as it was given, is a change that can
/// be undone, and carries an operation of its own and the hash of what it asks for.
pub proof fn law_actions_wait_as_long_as_allowed(
    action: ActionRecord,
    proposed: Proposal,
    thread_id: ThreadId,
    workspace: Seq<char>,
    kind: Seq<char>,
    ttl: u64,
    now: Timestamp,
    action_id: ActionId,
    plan_id: PlanId,
)
    requires
        is_proposed(
            action,
            proposed,
            thread_id,
            workspace,
            kind,
            ttl,
            now,
            action_id,
            plan_id,
        ),
    ensures
        ttl <= 9_223_372_036_854_775 ==> action.expires_at.whole_seconds() == now.whole_seconds()
            + ttl,
        ttl > 9_223_372_036_854_775 ==> action.expires_at.whole_seconds() == now.whole_seconds()
            + 1800,
        action.expires_at.subsecond() == now.subsecond(),
        action.updated_at == now,
        action.tool_id@ == kind,
        action.tool_version@ == "1.0.0"@,
        action.effect@ == "change_reversible"@,
        action.operation_id@ == action_id.text() + ":1"@,
        action.action_id == action_id,
        action.plan_id == plan_id,
        action.request_hash@ == sha256_text(action_preimage(&action)),
        action.status is Proposed,
        !action.consumed_approval,
{
}

} // verus!
