//! Carrying out an action: it is allowed, claimed, checked, run once and put on
//! record, in this order.
use vstd::prelude::*;

use crate::action::runner::ExecutionOutcome;
use crate::action::{ActionRecord, ActionStatus, K8S_SCALE_TOOL};
use crate::error::{fails, ErrorView, OpsCodexError, OpsResult};
use crate::json::Json;
use crate::runtime::remediation::{
    after_check, after_execution, can_claim, check_preconditions, claim_action, is_broken,
    is_finished, is_plan_of, is_target_of, may_change, not_executable, plan_run, run_error,
    still_as_seen, target_error, target_of, Finished, RunPlan, Workload,
};
use crate::runtime::thread::ActionId;
use crate::text::same;
use crate::time::Timestamp;

verus! {

// ---------------------------------------------------------------------------
// The machine
// ---------------------------------------------------------------------------
/// How far an execution has got.
#[derive(Debug)]
pub enum ExecutionPhase {
    /// The record is being read.
    Claiming { action_id: ActionId },
    /// The claim is being saved.
    SavingClaim { action: ActionRecord, cluster: bool },
    /// The workload is being looked up.
    Looking { action: ActionRecord, cluster: bool },
    /// It is being saved that the action is stale.
    SavingStale { error: OpsCodexError },
    /// It is being saved that the action starts.
    SavingStart { action: ActionRecord, cluster: bool },
    /// The action runs.
    Running { action: ActionRecord },
    /// What came of it is being put on record.
    Recording { action: ActionRecord, result: OpsResult<()> },
    Done,
}

/// What happened.
#[derive(Debug)]
pub enum ExecutionEvent {
    /// The store failed.
    Failed { error: OpsCodexError },
    /// The record was read, and nobody else gets it until it is saved; `cluster` tells
    /// whether its workspace has a cluster.
    Loaded { action: Option<ActionRecord>, cluster: bool },
    /// What was to be saved is saved.
    Saved,
    /// The workload as it is now, or why it could not be read.
    Looked { snapshot: OpsResult<Json> },
    /// What came of the run.
    Ran { outcome: OpsResult<ExecutionOutcome> },
}

/// What is to be done next.
#[derive(Debug)]
pub enum ExecutionAction {
    /// Read the record, and keep it from others until it is saved.
    Load,
    Save { action: ActionRecord },
    Look { workload: Workload },
    Run { plan: RunPlan },
    /// Save the record, count the change where there was one, and tell the audit log.
    Record { action: ActionRecord, mutated: bool, operation: String, summary: Json },
    End { result: OpsResult<ActionRecord> },
}

/// The event is one that the phase waits for.
pub open spec fn expected(phase: ExecutionPhase, event: ExecutionEvent) -> bool {
    match phase {
        ExecutionPhase::Claiming { .. } => event is Failed || event is Loaded,
        ExecutionPhase::Looking { .. } => event is Looked,
        ExecutionPhase::Running { .. } => event is Ran,
        ExecutionPhase::Done => false,
        _ => event is Failed || event is Saved,
    }
}

/// The execution ends with the error.
pub open spec fn ends_with(r: (ExecutionPhase, ExecutionAction), error: ErrorView) -> bool {
    r.0 is Done && (r.1 matches ExecutionAction::End { result } && fails(result, error))
}

/// The claimed action.
pub open spec fn claimed(action: ActionRecord, now: Timestamp) -> ActionRecord {
    ActionRecord { status: ActionStatus::PreconditionCheck, updated_at: now, ..action }
}

/// The action that starts.
pub open spec fn started(action: ActionRecord, now: Timestamp) -> ActionRecord {
    ActionRecord { status: ActionStatus::Executing, updated_at: now, ..action }
}

/// The action that is not carried out, because something is not as it was approved.
pub open spec fn stale(action: ActionRecord, now: Timestamp) -> ActionRecord {
    ActionRecord { status: ActionStatus::Stale, updated_at: now, ..action }
}

/// The record is saved.
pub open spec fn saves(action: ExecutionAction, record: ActionRecord) -> bool {
    action matches ExecutionAction::Save { action } && action.same_as(&record)
}

/// The check was passed: the start is saved.
pub open spec fn starts(
    action: ActionRecord,
    cluster: bool,
    now: Timestamp,
    r: (ExecutionPhase, ExecutionAction),
) -> bool {
    r.0 == (ExecutionPhase::SavingStart { action: started(action, now), cluster }) && saves(
        r.1,
        started(action, now),
    )
}

/// The check was not passed: that the action is stale is saved.
pub open spec fn goes_stale(
    action: ActionRecord,
    error: ErrorView,
    now: Timestamp,
    r: (ExecutionPhase, ExecutionAction),
) -> bool {
    (r.0 matches ExecutionPhase::SavingStale { error: kept } && kept@ == error) && saves(
        r.1,
        stale(action, now),
    )
}

/// The workload is not the one that was approved.
pub open spec fn changed_target() -> ErrorView {
    ErrorView::Policy("kubernetes target changed; refusing to execute stale approval"@)
}

/// What goes on record, and what the execution will end with.
pub open spec fn told_by(r: (ExecutionPhase, ExecutionAction), finished: Finished) -> bool {
    &&& r.0 == (ExecutionPhase::Recording { action: finished.action, result: finished.result })
    &&& r.1 matches ExecutionAction::Record { action, mutated, operation, summary }
        && action.same_as(&finished.action) && mutated == finished.mutated && operation
        == finished.operation && summary == finished.summary
}

/// What comes after the claim was saved.
pub open spec fn after_claim(
    action: ActionRecord,
    cluster: bool,
    now: Timestamp,
    r: (ExecutionPhase, ExecutionAction),
) -> bool {
    if action.tool_id@ != K8S_SCALE_TOOL@ {
        starts(action, cluster, now, r)
    } else {
        match target_error(action, cluster) {
            Some(e) => goes_stale(action, e, now, r),
            None => r.0 == (ExecutionPhase::Looking { action, cluster }) && (r.1
                matches ExecutionAction::Look { workload } && is_target_of(workload, action)),
        }
    }
}

/// What comes after the workload was looked up.
pub open spec fn after_look(
    action: ActionRecord,
    cluster: bool,
    snapshot: OpsResult<Json>,
    now: Timestamp,
    r: (ExecutionPhase, ExecutionAction),
) -> bool {
    match snapshot {
        Err(e) => goes_stale(action, e@, now, r),
        Ok(snapshot) => if action.tool_id@ != K8S_SCALE_TOOL@ || still_as_seen(
            action,
            snapshot@,
        ) {
            starts(action, cluster, now, r)
        } else {
            goes_stale(action, changed_target(), now, r)
        },
    }
}

/// What comes after the start was saved.
pub open spec fn after_start(
    action: ActionRecord,
    cluster: bool,
    now: Timestamp,
    r: (ExecutionPhase, ExecutionAction),
) -> bool {
    match run_error(action, cluster) {
        None => r.0 == (ExecutionPhase::Running { action }) && (r.1 matches ExecutionAction::Run {
            plan,
        } && is_plan_of(plan, action)),
        Some(e) => exists|finished: Finished|
            is_broken(finished, action, e, now) && #[trigger] told_by(r, finished),
    }
}

/// What comes after the run.
pub open spec fn after_run(
    action: ActionRecord,
    outcome: OpsResult<ExecutionOutcome>,
    now: Timestamp,
    r: (ExecutionPhase, ExecutionAction),
) -> bool {
    exists|finished: Finished| #[trigger]
        told_by(r, finished) && match outcome {
            Ok(outcome) => is_finished(finished, action, outcome@, now),
            Err(e) => is_broken(finished, action, e@, now),
        }
}

/// What comes after an event.
pub open spec fn execution_stepped(
    phase: ExecutionPhase,
    event: ExecutionEvent,
    now: Timestamp,
    r: (ExecutionPhase, ExecutionAction),
) -> bool {
    match event {
        ExecutionEvent::Failed { error } => ends_with(r, error@),
        ExecutionEvent::Loaded { action, cluster } => match phase {
            ExecutionPhase::Claiming { action_id } => match action {
                None => ends_with(r, ErrorView::NotFound("action "@ + action_id.text())),
                Some(action) => if can_claim(action, now) {
                    r.0 == (ExecutionPhase::SavingClaim { action: claimed(action, now), cluster })
                        && saves(r.1, claimed(action, now))
                } else {
                    ends_with(r, not_executable(action))
                },
            },
            _ => false,
        },
        ExecutionEvent::Saved => match phase {
            ExecutionPhase::SavingClaim { action, cluster } => after_claim(action, cluster, now, r),
            ExecutionPhase::SavingStale { error } => ends_with(r, error@),
            ExecutionPhase::SavingStart { action, cluster } => after_start(action, cluster, now, r),
            ExecutionPhase::Recording { action, result } => match result {
                Ok(_) => r.0 is Done && r.1 == (ExecutionAction::End {
                    result: Ok::<ActionRecord, OpsCodexError>(action),
                }),
                Err(e) => ends_with(r, e@),
            },
            _ => false,
        },
        ExecutionEvent::Looked { snapshot } => match phase {
            ExecutionPhase::Looking { action, cluster } => after_look(
                action,
                cluster,
                snapshot,
                now,
                r,
            ),
            _ => false,
        },
        ExecutionEvent::Ran { outcome } => match phase {
            ExecutionPhase::Running { action } => after_run(action, outcome, now, r),
            _ => false,
        },
    }
}

/// An action that is claimed has the status of one, and so on.
pub open spec fn in_order(phase: ExecutionPhase) -> bool {
    match phase {
        ExecutionPhase::SavingClaim { action, .. } => action.status is PreconditionCheck,
        ExecutionPhase::Looking { action, .. } => action.status is PreconditionCheck,
        ExecutionPhase::SavingStart { action, .. } => action.status is Executing,
        ExecutionPhase::Running { action } => action.status is Executing,
        _ => true,
    }
}

fn end(error: OpsCodexError) -> (r: (ExecutionPhase, ExecutionAction))
    ensures
        ends_with(r, error@),
{
    (ExecutionPhase::Done, ExecutionAction::End { result: Err(error) })
}

fn check(action: ActionRecord, cluster: bool, checked: OpsResult<()>, now: Timestamp) -> (r: (
    ExecutionPhase,
    ExecutionAction,
))
    requires
        action.status is PreconditionCheck,
    ensures
        match checked {
            Ok(_) => starts(action, cluster, now, r),
            Err(e) => goes_stale(action, e@, now, r),
        },
{
    let (action, result) = after_check(action, checked, now);
    let saved = ExecutionAction::Save { action: action.clone() };
    match result {
        Ok(_) => (ExecutionPhase::SavingStart { action, cluster }, saved),
        Err(error) => (ExecutionPhase::SavingStale { error }, saved),
    }
}

fn record(finished: Finished) -> (r: (ExecutionPhase, ExecutionAction))
    ensures
        told_by(r, finished),
{
    let action = ExecutionAction::Record {
        action: finished.action.clone(),
        mutated: finished.mutated,
        operation: finished.operation,
        summary: finished.summary,
    };
    (ExecutionPhase::Recording { action: finished.action, result: finished.result }, action)
}

/// Begins an execution, unless changes are blocked.
pub fn start_execution(action_id: ActionId, kill_switch: bool, enabled: bool) -> (r: (
    ExecutionPhase,
    ExecutionAction,
))
    ensures
        in_order(r.0),
        if !kill_switch && enabled {
            r == (ExecutionPhase::Claiming { action_id }, ExecutionAction::Load)
        } else {
            ends_with(r, ErrorView::Policy("kill switch is blocking change operations"@))
        },
{
    match may_change(kill_switch, enabled) {
        Ok(_) => (ExecutionPhase::Claiming { action_id }, ExecutionAction::Load),
        Err(error) => end(error),
    }
}

/// Whether an event fits.
pub fn can_execute(phase: &ExecutionPhase, event: &ExecutionEvent) -> (r: bool)
    ensures
        r == expected(*phase, *event),
{
    let failed = matches!(event, ExecutionEvent::Failed { .. });
    match phase {
        ExecutionPhase::Claiming { .. } => failed || matches!(event, ExecutionEvent::Loaded { .. }),
        ExecutionPhase::Looking { .. } => matches!(event, ExecutionEvent::Looked { .. }),
        ExecutionPhase::Running { .. } => matches!(event, ExecutionEvent::Ran { .. }),
        ExecutionPhase::Done => false,
        _ => failed || matches!(event, ExecutionEvent::Saved),
    }
}

/// Takes an execution a step on.
pub fn execute_action(phase: ExecutionPhase, event: ExecutionEvent, now: Timestamp) -> (r: (
    ExecutionPhase,
    ExecutionAction,
))
    requires
        in_order(phase),
        expected(phase, event),
    ensures
        in_order(r.0),
        execution_stepped(phase, event, now, r),
{
    let event = match event {
        ExecutionEvent::Failed { error } => return end(error),
        event => event,
    };
    match phase {
        ExecutionPhase::Claiming { action_id } => {
            if let ExecutionEvent::Loaded { action, cluster } = event {
                match action {
                    Some(action) => {
                        let (action, result) = claim_action(action, now);
                        match result {
                            Ok(_) => {
                                let saved = ExecutionAction::Save { action: action.clone() };
                                return (ExecutionPhase::SavingClaim { action, cluster }, saved);
                            },
                            Err(error) => return end(error),
                        }
                    },
                    None => {
                        let mut message = "action ".to_owned();
                        message.append(action_id.to_string().as_str());
                        return end(OpsCodexError::NotFound(message));
                    },
                }
            }
        },
        ExecutionPhase::SavingClaim { action, cluster } => {
            if !same(action.tool_id.as_str(), K8S_SCALE_TOOL) {
                return check(action, cluster, Ok(()), now);
            }
            match target_of(&action, cluster) {
                Ok(workload) => {
                    return (
                        ExecutionPhase::Looking { action, cluster },
                        ExecutionAction::Look { workload },
                    );
                },
                Err(error) => return check(action, cluster, Err(error), now),
            }
        },
        ExecutionPhase::Looking { action, cluster } => {
            if let ExecutionEvent::Looked { snapshot } = event {
                let checked = match snapshot {
                    Ok(snapshot) => check_preconditions(&action, &snapshot),
                    Err(error) => Err(error),
                };
                return check(action, cluster, checked, now);
            }
        },
        ExecutionPhase::SavingStale { error } => return end(error),
        ExecutionPhase::SavingStart { action, cluster } => {
            match plan_run(&action, cluster) {
                Ok(plan) => {
                    return (ExecutionPhase::Running { action }, ExecutionAction::Run { plan });
                },
                Err(error) => return record(after_execution(action, Err(error), now)),
            }
        },
        ExecutionPhase::Running { action } => {
            if let ExecutionEvent::Ran { outcome } = event {
                return record(after_execution(action, outcome, now));
            }
        },
        ExecutionPhase::Recording { action, result } => {
            match result {
                Ok(_) => {
                    return (ExecutionPhase::Done, ExecutionAction::End { result: Ok(action) });
                },
                Err(error) => return end(error),
            }
        },
        ExecutionPhase::Done => {},
    }
    (ExecutionPhase::Done, ExecutionAction::Load)
}

// ---------------------------------------------------------------------------
// Whole executions
// ---------------------------------------------------------------------------
/// A step of an execution.
pub struct ExecutionStep {
    pub before: ExecutionPhase,
    pub event: ExecutionEvent,
    pub now: Timestamp,
    pub after: (ExecutionPhase, ExecutionAction),
}

/// The steps follow from one another, from where `start_execution` begins.
pub open spec fn is_execution(
    steps: Seq<ExecutionStep>,
    action_id: ActionId,
    kill_switch: bool,
    enabled: bool,
) -> bool {
    &&& forall|k: int|
        0 <= k < steps.len() ==> expected((#[trigger] steps[k]).before, steps[k].event)
            && execution_stepped(steps[k].before, steps[k].event, steps[k].now, steps[k].after)
    &&& forall|k: int| 0 < k < steps.len() ==> (#[trigger] steps[k]).before == steps[k - 1].after.0
    &&& steps.len() > 0 ==> steps[0].before == if !kill_switch && enabled {
        ExecutionPhase::Claiming { action_id }
    } else {
        ExecutionPhase::Done
    }
}

/// How many phases an execution has behind it at least.
spec fn rank(phase: ExecutionPhase) -> int {
    match phase {
        ExecutionPhase::Claiming { .. } => 0,
        ExecutionPhase::SavingClaim { .. } => 1,
        ExecutionPhase::Looking { .. } => 2,
        ExecutionPhase::SavingStale { .. } => 3,
        ExecutionPhase::SavingStart { .. } => 3,
        ExecutionPhase::Running { .. } => 4,
        ExecutionPhase::Recording { .. } => 5,
        ExecutionPhase::Done => 6,
    }
}

proof fn lemma_phases_advance(
    steps: Seq<ExecutionStep>,
    action_id: ActionId,
    kill_switch: bool,
    enabled: bool,
    i: int,
    j: int,
)
    requires
        is_execution(steps, action_id, kill_switch, enabled),
        0 <= i < j < steps.len(),
    ensures
        rank(steps[i].before) < rank(steps[j].before),
    decreases j - i,
{
    let last = steps[j - 1];
    assert(steps[j].before == last.after.0);
    assert(rank(last.before) < rank(last.after.0));
    if i < j - 1 {
        lemma_phases_advance(steps, action_id, kill_switch, enabled, i, j - 1);
    }
}

/// The claim on the action was taken at the step, and the action was free to be
/// claimed: authorized, and not expired.
pub open spec fn claims(step: ExecutionStep, action: ActionRecord) -> bool {
    &&& step.event matches ExecutionEvent::Loaded { action: Some(loaded), .. } && can_claim(
        loaded,
        step.now,
    ) && action == (ActionRecord {
        status: action.status,
        updated_at: action.updated_at,
        ..loaded
    })
    &&& saves(step.after.1, claimed(action, step.now))
}

/// The workload was found at the step to be the one that was approved.
pub open spec fn confirms(step: ExecutionStep, action: ActionRecord) -> bool {
    step.event matches ExecutionEvent::Looked { snapshot: Ok(snapshot) } && still_as_seen(
        action,
        snapshot@,
    )
}

/// Nothing runs unless changes are allowed, and the action was claimed and checked
/// before: it was authorized and not expired when it was claimed, and where it
/// scales a workload, the workload was then found to be the one that was approved.
pub proof fn law_run_follows_claim_and_check(
    steps: Seq<ExecutionStep>,
    action_id: ActionId,
    kill_switch: bool,
    enabled: bool,
    k: int,
)
    requires
        is_execution(steps, action_id, kill_switch, enabled),
        0 <= k < steps.len(),
        steps[k].after.1 is Run,
    ensures
        !kill_switch,
        enabled,
        steps[k].after.0 matches ExecutionPhase::Running { action } && {
            &&& steps[k].after.1 matches ExecutionAction::Run { plan } && is_plan_of(plan, action)
            &&& exists|c: int| 0 <= c < k && claims(#[trigger] steps[c], action)
            &&& action.tool_id@ == K8S_SCALE_TOOL@ ==> exists|l: int|
                0 < l < k && confirms(#[trigger] steps[l], action)
        },
{
    let action = steps[k].before->SavingStart_action;
    assert(steps[k].before is SavingStart);
    assert(k > 0);
    let checked = steps[k - 1];
    assert(checked.after.0 == steps[k].before);
    assert(checked.before is SavingClaim || checked.before is Looking);
    assert(k > 1);
    if checked.before is SavingClaim {
        let taken = steps[k - 2];
        assert(taken.after.0 == checked.before);
        assert(taken.before is Claiming);
        lemma_first_phase(steps, action_id, kill_switch, enabled, k - 2);
        assert(claims(steps[k - 2], action));
    } else {
        let looked = steps[k - 2];
        assert(looked.after.0 == checked.before);
        assert(looked.before is SavingClaim);
        assert(k > 2);
        let taken = steps[k - 3];
        assert(taken.after.0 == looked.before);
        assert(taken.before is Claiming);
        lemma_first_phase(steps, action_id, kill_switch, enabled, k - 3);
        assert(claims(steps[k - 3], action));
        assert(action.tool_id@ == K8S_SCALE_TOOL@);
        assert(confirms(steps[k - 1], action));
    }
}

proof fn lemma_first_phase(
    steps: Seq<ExecutionStep>,
    action_id: ActionId,
    kill_switch: bool,
    enabled: bool,
    k: int,
)
    requires
        is_execution(steps, action_id, kill_switch, enabled),
        0 <= k < steps.len(),
        steps[k].before is Claiming,
    ensures
        k == 0,
        !kill_switch && enabled,
{
    if k > 0 {
        lemma_phases_advance(steps, action_id, kill_switch, enabled, 0, k);
    }
}

/// An execution runs its action at most once.
pub proof fn law_action_runs_once(
    steps: Seq<ExecutionStep>,
    action_id: ActionId,
    kill_switch: bool,
    enabled: bool,
    i: int,
    j: int,
)
    requires
        is_execution(steps, action_id, kill_switch, enabled),
        0 <= i < steps.len(),
        0 <= j < steps.len(),
        steps[i].after.1 is Run,
        steps[j].after.1 is Run,
    ensures
        i == j,
{
    assert(steps[i].before is SavingStart);
    assert(steps[j].before is SavingStart);
    if i < j {
        lemma_phases_advance(steps, action_id, kill_switch, enabled, i, j);
    } else if j < i {
        lemma_phases_advance(steps, action_id, kill_switch, enabled, j, i);
    }
}

/// While changes are blocked, an execution does nothing at all.
pub proof fn law_kill_switch_blocks(
    steps: Seq<ExecutionStep>,
    action_id: ActionId,
    kill_switch: bool,
    enabled: bool,
)
    requires
        is_execution(steps, action_id, kill_switch, enabled),
        kill_switch || !enabled,
    ensures
        steps.len() == 0,
{
    if steps.len() > 0 {
        assert(expected(steps[0].before, steps[0].event));
    }
}

} // verus!
