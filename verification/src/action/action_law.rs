//! What may become of an action, and who decides it, told case by case.
use vstd::prelude::*;

use crate::action::runner::{
    demo_stepped, endpoint, metadata, replied, scale_stepped, DemoAction, DemoPhase, Reply,
    ScaleAction, ScalePhase, ScaleRequest,
};
use crate::action::{
    action_decision, chain_error, chained, ActionPolicyInput, ActionStatus, AuditRecord,
};
use crate::error::ErrorView;
use crate::extensions::capability::{CapabilityDescriptor, CapabilityEffect};
use crate::json::JsonView;
use crate::policy::{capability_decision, is_builtin_exec, risk_decision, PolicyDecision};
use crate::text::starts_with;
use crate::tools::ToolRisk;
use crate::url_text::UrlView;

verus! {

/// How each status is reached. Nothing becomes a proposal, what runs was checked, what
/// was checked was authorized, what was authorized awaited approval, what awaited
/// approval was dry-run, and what was dry-run was proposed.
pub proof fn law_how_each_status_is_reached(from: ActionStatus, to: ActionStatus)
    ensures
        to is Proposed ==> !from.leads_to(to),
        to is PolicyDenied || to is DryRun ==> (from.leads_to(to) <==> from is Proposed),
        to is Invalid || to is AwaitingApproval ==> (from.leads_to(to) <==> from is DryRun),
        to is Rejected || to is Authorized ==> (from.leads_to(to) <==> from is AwaitingApproval),
        to is Expired ==> (from.leads_to(to) <==> from is AwaitingApproval || from is Authorized),
        to is PreconditionCheck ==> (from.leads_to(to) <==> from is Authorized),
        to is Stale || to is Executing ==> (from.leads_to(to) <==> from is PreconditionCheck),
        to is Verifying ==> (from.leads_to(to) <==> from is Executing),
        to is Succeeded || to is VerificationFailed ==> (from.leads_to(to) <==> from is Verifying),
        to is RollbackProposed ==> (from.leads_to(to) <==> from is VerificationFailed),
        to is NeedsReconciliation ==> (from.leads_to(to) <==> from is PreconditionCheck || from
            is Executing || from is Verifying),
        to.terminal() ==> !to.leads_to(from),
        from is Proposed || from is DryRun || from is AwaitingApproval || from is Authorized || from
            is PreconditionCheck || from is Executing || from is Verifying || from
            is VerificationFailed <==> !from.terminal(),
{
}

/// A tool runs freely exactly where it is safe, after a question exactly where it is
/// to be asked for, and otherwise not at all.
pub proof fn law_risks_are_decided(risk: ToolRisk)
    ensures
        risk_decision(risk) is Allow <==> risk is Safe,
        risk_decision(risk) is Ask <==> risk is Ask,
        risk_decision(risk) is Deny <==> risk is Forbidden,
{
}

/// A capability runs freely exactly where it is enabled and only observes. It is asked
/// for exactly where it is enabled, acts outside, and is either trusted or the command
/// runner that is built in.
pub proof fn law_capabilities_are_decided(
    descriptor: CapabilityDescriptor,
    decision: PolicyDecision,
)
    requires
        decision == capability_decision(
            descriptor.enabled,
            descriptor.effect,
            is_builtin_exec(&descriptor),
            descriptor.trusted_local,
        ),
    ensures
        decision is Allow <==> descriptor.enabled && descriptor.effect is Observe,
        decision is Ask <==> descriptor.enabled && descriptor.effect is ExternalSideEffect && (
        descriptor.trusted_local || (descriptor.source is Builtin && descriptor.name@ == "exec"@)),
        decision is Deny <==> !descriptor.enabled || descriptor.effect is ChangeReversible
            || descriptor.effect is ChangeIrreversible || (descriptor.effect is ExternalSideEffect
            && !descriptor.trusted_local && !(descriptor.source is Builtin && descriptor.name@
            == "exec"@)),
{
}

/// A change is asked for exactly where it can be undone, no switch is against it, the
/// workspace takes changes, and the tool is neither an extension's nor the command
/// runner. Nothing but observation is ever allowed without a question.
pub proof fn law_actions_are_decided(input: &ActionPolicyInput<'_>)
    ensures
        action_decision(input) is Ask <==> {
            &&& !input.kill_switch
            &&& input.remediation_enabled
            &&& input.allow_remediation
            &&& input.max_effect != Some(CapabilityEffect::Observe)
            &&& input.effect is ChangeReversible
            &&& !starts_with(input.tool_id@, "mcp/"@)
            &&& !starts_with(input.tool_id@, "custom/"@)
            &&& input.tool_id@ != "exec"@
        },
        action_decision(input) is Allow <==> {
            &&& !input.kill_switch
            &&& input.remediation_enabled
            &&& input.allow_remediation
            &&& input.effect is Observe
            &&& !starts_with(input.tool_id@, "mcp/"@)
            &&& !starts_with(input.tool_id@, "custom/"@)
            &&& input.tool_id@ != "exec"@
        },
{
}

/// A log is a chain exactly where its first record follows the beginning, every other
/// record follows the one before it, and every record carries its own hash.
pub proof fn law_chain_is_linked(records: Seq<AuditRecord>)
    ensures
        chained(records) <==> {
            &&& forall|i: int|
                0 <= i < records.len() ==> (#[trigger] records[i]).record_hash@
                    == records[i].expected_hash()
            &&& forall|i: int|
                0 < i < records.len() ==> (#[trigger] records[i]).previous_hash@ == records[i
                    - 1].record_hash@
            &&& records.len() > 0 ==> records[0].previous_hash@ == "genesis"@
        },
{
    lemma_linked(records, "genesis"@);
}

proof fn lemma_linked(records: Seq<AuditRecord>, previous: Seq<char>)
    ensures
        chain_error(records, previous) is None <==> {
            &&& forall|i: int|
                0 <= i < records.len() ==> (#[trigger] records[i]).record_hash@
                    == records[i].expected_hash()
            &&& forall|i: int|
                0 < i < records.len() ==> (#[trigger] records[i]).previous_hash@ == records[i
                    - 1].record_hash@
            &&& records.len() > 0 ==> records[0].previous_hash@ == previous
        },
    decreases records.len(),
{
    if records.len() > 0 {
        let rest = records.skip(1);
        lemma_linked(rest, records[0].record_hash@);
        if chain_error(records, previous) is None {
            assert forall|i: int| 0 <= i < records.len() implies (
            #[trigger] records[i]).record_hash@ == records[i].expected_hash() by {
                if i > 0 {
                    assert(rest[i - 1] == records[i]);
                }
            }
            assert forall|i: int| 0 < i < records.len() implies (
            #[trigger] records[i]).previous_hash@ == records[i - 1].record_hash@ by {
                assert(rest[i - 1] == records[i]);
                if i > 1 {
                    assert(rest[i - 2] == records[i - 1]);
                }
            }
        }
        if (forall|i: int|
            0 <= i < records.len() ==> (#[trigger] records[i]).record_hash@
                == records[i].expected_hash()) && (forall|i: int|
            0 < i < records.len() ==> (#[trigger] records[i]).previous_hash@ == records[i
                - 1].record_hash@) && records[0].previous_hash@ == previous {
            assert forall|i: int| 0 <= i < rest.len() implies (#[trigger] rest[i]).record_hash@
                == rest[i].expected_hash() by {
                assert(rest[i] == records[i + 1]);
            }
            assert forall|i: int| 0 < i < rest.len() implies (#[trigger] rest[i]).previous_hash@
                == rest[i - 1].record_hash@ by {
                assert(rest[i] == records[i + 1]);
                assert(rest[i - 1] == records[i]);
            }
            if rest.len() > 0 {
                assert(rest[0] == records[1]);
            }
        }
    }
}

/// What came of a step towards the reset of the demo fault. The fault is reset only
/// after the health was read and not in a dry run; success is claimed only where the
/// health read last is that of a healthy service in its normal mode; a reset without a
/// known end is told as such; and other failures end the run as they are.
pub proof fn law_demo_fault_is_reset(
    base: UrlView,
    phase: DemoPhase,
    reply: Reply,
    dry_run: bool,
    r: (DemoPhase, DemoAction),
)
    requires
        demo_stepped(base, phase, reply, dry_run, r),
    ensures
        r.1 matches DemoAction::PostReset { url } ==> phase is Checking && reply is Value && !dry_run
            && endpoint(base, "debug/fault/normal"@) == Ok::<Seq<char>, ErrorView>(url@),
        r.1 matches DemoAction::GetHealth { url } ==> phase is Resetting && reply is Value
            && endpoint(base, "health"@) == Ok::<Seq<char>, ErrorView>(url@),
        phase is Checking && reply is Value && dry_run ==> r.1 is Finish,
        phase is Checking && reply is Value && !dry_run && endpoint(base, "debug/fault/normal"@)
            is Ok ==> r.1 is PostReset && r.0 is Resetting,
        phase is Resetting && reply is Value && endpoint(base, "health"@) is Ok ==> r.1 is GetHealth
            && r.0 is Verifying,
        r.1 matches DemoAction::Finish { outcome } ==> {
            &&& outcome.committed <==> phase is Verifying && reply is Value
            &&& outcome.uncertain <==> phase is Resetting && reply is Failed
            &&& outcome.verified <==> phase is Verifying && (reply matches Reply::Value { value }
                && value@.text_at("status"@) == Some("ok"@) && value@.text_at("mode"@) == Some(
                "normal"@,
            ))
        },
        reply matches Reply::Failed { error } ==> if phase is Resetting && (error@ is Timeout
            || error@ is Cancelled) {
            r.1 is Finish
        } else {
            r.1 matches DemoAction::Abort { error: e } && e@ == error@
        },
        phase matches DemoPhase::Verifying { before, .. } ==> (reply is Value ==> (r.1 matches
            DemoAction::Finish { outcome } && outcome.before@ == before@)),
{
    assert(crate::action::runner::RESET@ == "debug/fault/normal"@);
    assert(crate::action::runner::HEALTH@ == "health"@);
}

/// What came of a step towards a scale. The workload is patched only after it was
/// read, and outside a dry run only where it is still the one that was approved; the
/// patch names the version that was approved and the operation; success is claimed
/// only where the workload wants and has as many replicas as were approved; a patch
/// without a known end is told as such.
pub proof fn law_workload_is_scaled(
    request: ScaleRequest,
    phase: ScalePhase,
    reply: Reply,
    dry_run: bool,
    r: (ScalePhase, ScaleAction),
)
    requires
        scale_stepped(request, phase, reply, dry_run, r),
    ensures
        r.1 matches ScaleAction::Patch { resource_version, operation_id } ==> {
            &&& phase is Reading
            &&& operation_id == request.operation_id
            &&& reply matches Reply::Value { value } && {
                &&& !dry_run ==> metadata(value@, "uid"@) == request.uid@ && metadata(
                    value@,
                    "resourceVersion"@,
                ) == request.resource_version@
                &&& resource_version@ == (if request.resource_version@.len() == 0 {
                    metadata(value@, "resourceVersion"@)
                } else {
                    request.resource_version@
                })
            }
        },
        phase is Reading ==> (reply matches Reply::Value { value } ==> (r.1 is Patch <==> dry_run
            || (metadata(value@, "uid"@) == request.uid@ && metadata(value@, "resourceVersion"@)
            == request.resource_version@))),
        phase is Patching && reply is Value && !dry_run ==> r.1 is GetWorkload && r.0 is Verifying,
        phase is Patching && reply is Value && dry_run ==> r.1 is Finish,
        phase is Verifying && reply is Value ==> r.1 is Finish,
        r.1 is GetWorkload ==> phase is Patching && reply is Value && !dry_run,
        r.1 matches ScaleAction::Finish { outcome } ==> {
            &&& outcome.committed <==> phase is Verifying && reply is Value
            &&& outcome.uncertain <==> phase is Patching && reply is Failed
            &&& outcome.verified <==> phase is Verifying && (reply matches Reply::Value { value }
                && reads(value@, "spec"@, "replicas"@, request.replicas) && reads(
                value@,
                "status"@,
                "availableReplicas"@,
                request.replicas,
            ))
        },
        reply matches Reply::Failed { error } ==> if phase is Patching && (error@ is Timeout
            || error@ is Cancelled) {
            r.1 is Finish
        } else {
            r.1 matches ScaleAction::Abort { error: e } && e@ == error@
        },
{
}

/// The member `inner` of the member `outer` is this number, where no number there
/// stands for zero.
pub open spec fn reads(object: JsonView, outer: Seq<char>, inner: Seq<char>, n: u32) -> bool {
    match object.get_in(outer, inner) {
        Some(value) => value.as_u64() == Some(n as u64) || (value.as_u64() is None && n == 0),
        None => n == 0,
    }
}

/// An answer is taken exactly where it is a success and can be read.
pub proof fn law_answers_are_taken(
    success: bool,
    status: Seq<char>,
    read: Result<JsonView, Seq<char>>,
)
    ensures
        replied(success, status, read) is Ok <==> success && read is Ok,
        replied(success, status, read) is Ok ==> replied(success, status, read)->Ok_0 == read->Ok_0,
        !success ==> replied(success, status, read)->Err_0 is Tool,
        success && read is Err ==> replied(success, status, read)->Err_0 is Connector,
{
}

} // verus!
