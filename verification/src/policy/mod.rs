//! What may run, what needs an approval, and who is asked.
use std::collections::HashMap;
use vstd::prelude::*;
use vstd::std_specs::iter::IteratorSpec;

use crate::error::{ErrorView, OpsCodexError, OpsResult};
use crate::extensions::capability::{CapabilityDescriptor, CapabilityEffect, CapabilitySource};
use crate::json::{string_view, Json, JsonView};
use crate::runtime::thread::ApprovalId;
use crate::text::{lemma_text_before, same, str_before, text_before};
use crate::tools::ToolRisk;

verus! {

broadcast use vstd::std_specs::hash::group_hash_axioms;

#[derive(Clone, Copy, Debug, PartialEq, Eq, Structural)]
pub enum PolicyDecision {
    Allow,
    Ask,
    Deny,
}

/// A request that waits for a decision.
#[derive(Debug)]
pub struct PendingApproval {
    pub id: ApprovalId,
    pub tool: String,
    pub arguments: Json,
    pub schema_hash: Option<String>,
}

/// What a request asks for.
pub struct RequestView {
    pub id: ApprovalId,
    pub tool: Seq<char>,
    pub arguments: JsonView,
    pub schema_hash: Option<Seq<char>>,
}

impl PendingApproval {
    pub open spec fn view(&self) -> RequestView {
        RequestView {
            id: self.id,
            tool: self.tool@,
            arguments: self.arguments@,
            schema_hash: string_view(self.schema_hash),
        }
    }
}

impl Clone for PendingApproval {
    fn clone(&self) -> (r: Self)
        ensures
            r@ == self@,
    {
        PendingApproval {
            id: self.id,
            tool: self.tool.clone(),
            arguments: self.arguments.clone(),
            schema_hash: self.schema_hash.clone(),
        }
    }
}

pub open spec fn request_views(requests: Seq<PendingApproval>) -> Seq<RequestView> {
    requests.map_values(|request: PendingApproval| request@)
}

/// The requests stand in the order of the texts of their identifiers, each
/// identifier once.
pub open spec fn by_identifier(requests: Seq<RequestView>) -> bool {
    forall|i: int, j: int|
        0 <= i < j < requests.len() ==> text_before(
            (#[trigger] requests[i]).id.text(),
            (#[trigger] requests[j]).id.text(),
        )
}

/// The requests by their identifiers.
pub open spec fn request_map(requests: Seq<RequestView>) -> Map<ApprovalId, RequestView> {
    Map::new(
        |id: ApprovalId|
            exists|i: int| 0 <= i < requests.len() && (#[trigger] requests[i]).id == id,
        |id: ApprovalId|
            requests[choose|i: int| 0 <= i < requests.len() && (#[trigger] requests[i]).id == id],
    )
}

/// The requests that wait for a decision.
#[derive(Debug)]
pub struct ApprovalBroker {
    requests: HashMap<u128, PendingApproval>,
}

impl ApprovalBroker {
    closed spec fn held(&self) -> Map<u128, PendingApproval> {
        self.requests@
    }

    /// Every request is kept under its identifier.
    pub closed spec fn well_formed(&self) -> bool {
        forall|key: u128| #[trigger]
            self.held().contains_key(key) ==> self.held()[key].id.value == key
    }

    pub closed spec fn view(&self) -> Map<ApprovalId, RequestView> {
        Map::new(
            |id: ApprovalId| self.held().contains_key(id.value),
            |id: ApprovalId| self.held()[id.value]@,
        )
    }

    pub fn new() -> (r: Self)
        ensures
            r.well_formed(),
            r@ == Map::<ApprovalId, RequestView>::empty(),
    {
        let r = ApprovalBroker { requests: HashMap::new() };
        assert(r@ =~= Map::<ApprovalId, RequestView>::empty());
        r
    }

    /// Asks for a decision. The identifier is the caller's.
    pub fn request(&mut self, id: ApprovalId, tool: String, arguments: Json)
        requires
            old(self).well_formed(),
        ensures
            final(self).well_formed(),
            final(self)@ == old(self)@.insert(
                id,
                (RequestView { id, tool: tool@, arguments: arguments@, schema_hash: None }),
            ),
    {
        self.restore(PendingApproval { id, tool, arguments, schema_hash: None });
    }

    /// Asks for a decision that is bound to the schema of the tool.
    pub fn request_with_hash(
        &mut self,
        id: ApprovalId,
        tool: String,
        arguments: Json,
        schema_hash: String,
    )
        requires
            old(self).well_formed(),
        ensures
            final(self).well_formed(),
            final(self)@ == old(self)@.insert(
                id,
                (RequestView {
                    id,
                    tool: tool@,
                    arguments: arguments@,
                    schema_hash: Some(schema_hash@),
                }),
            ),
    {
        self.restore(PendingApproval { id, tool, arguments, schema_hash: Some(schema_hash) });
    }

    /// Puts a request in, in place of one with the same identifier.
    pub fn restore(&mut self, request: PendingApproval)
        requires
            old(self).well_formed(),
        ensures
            final(self).well_formed(),
            final(self)@ == old(self)@.insert(request.id, request@),
    {
        let ghost view = request@;
        let ghost id = request.id;
        self.requests.insert(request.id.value, request);
        assert(self@ =~= old(self)@.insert(id, view));
    }

    /// Takes a decision: the request is no longer pending. `heard` tells whether
    /// whoever asked still waits for it.
    pub fn resolve(&mut self, id: &ApprovalId, heard: bool) -> (r: OpsResult<PendingApproval>)
        requires
            old(self).well_formed(),
        ensures
            final(self).well_formed(),
            final(self)@ == old(self)@.remove(*id),
            match r {
                Ok(request) => heard && old(self)@.contains_key(*id) && request@ == old(self)@[*id],
                Err(e) => if old(self)@.contains_key(*id) {
                    !heard && e@ == ErrorView::Policy(
                        "approval "@ + id.text() + " is no longer waiting"@,
                    )
                } else {
                    e@ == ErrorView::NotFound("approval "@ + id.text())
                },
            },
    {
        let found = self.requests.remove(&id.value);
        assert(self@ =~= old(self)@.remove(*id));
        let mut message = "approval ".to_owned();
        message.append(id.to_string().as_str());
        match found {
            Some(request) => if heard {
                Ok(request)
            } else {
                message.append(" is no longer waiting");
                Err(OpsCodexError::Policy(message))
            },
            None => Err(OpsCodexError::NotFound(message)),
        }
    }

    /// The requests in the order of their identifiers. Those for which nobody waits
    /// any more are dropped first.
    pub fn pending(&mut self, abandoned: &Vec<ApprovalId>) -> (r: Vec<PendingApproval>)
        requires
            old(self).well_formed(),
        ensures
            final(self).well_formed(),
            final(self)@ == old(self)@.remove_keys(abandoned@.to_set()),
            by_identifier(request_views(r@)),
            request_map(request_views(r@)) == final(self)@,
    {
        let mut i: usize = 0;
        assert(self@ =~= old(self)@.remove_keys(abandoned@.take(0).to_set()));
        while i < abandoned.len()
            invariant
                i <= abandoned@.len(),
                self.well_formed(),
                self@ == old(self)@.remove_keys(abandoned@.take(i as int).to_set()),
            decreases abandoned@.len() - i,
        {
            let ghost before = self@;
            self.requests.remove(&abandoned[i].value);
            proof {
                assert(self@ =~= before.remove(abandoned@[i as int]));
                let seen = abandoned@.take(i as int);
                let next = abandoned@.take(i + 1);
                assert(next =~= seen.push(abandoned@[i as int]));
                assert forall|id: ApprovalId| next.to_set().contains(id) == (seen.to_set().contains(
                    id,
                ) || id == abandoned@[i as int]) by {
                    if seen.contains(id) {
                        let k = choose|k: int| 0 <= k < seen.len() && seen[k] == id;
                        assert(next[k] == id);
                    }
                    if id == abandoned@[i as int] {
                        assert(next[i as int] == id);
                    }
                }
                assert(self@ =~= old(self)@.remove_keys(next.to_set()));
            }
            i += 1;
        }
        assert(abandoned@.take(i as int) =~= abandoned@);
        self.listed()
    }

    fn listed(&self) -> (r: Vec<PendingApproval>)
        requires
            self.well_formed(),
        ensures
            by_identifier(request_views(r@)),
            request_map(request_views(r@)) == self@,
    {
        let mut r: Vec<PendingApproval> = Vec::new();
        assert(request_views(r@) =~= Seq::empty());
        for (key, request) in it: self.requests.iter()
            invariant
                self.well_formed(),
                it.seq() == vstd::std_specs::hash::spec_hash_map_iter(&self.requests).remaining(),
                it.seq().no_duplicates(),
                by_identifier(request_views(r@)),
                forall|id: ApprovalId| #[trigger]
                    request_map(request_views(r@)).contains_key(id) ==> self@.contains_key(id)
                        && request_map(request_views(r@))[id] == self@[id],
                forall|j: int|
                    0 <= j < it.index() ==> request_map(request_views(r@)).contains_key(
                        ApprovalId { value: *(#[trigger] it.seq()[j]).0 },
                    ),
                forall|id: ApprovalId| #[trigger]
                    request_map(request_views(r@)).contains_key(id) ==> exists|j: int|
                        0 <= j < it.index() && *(#[trigger] it.seq()[j]).0 == id.value,
        {
            let ghost before = request_map(request_views(r@));
            proof {
                let at = it.index() as int;
                assert(self.held().contains_key(*it.seq()[at].0));
                assert(self.held()[*it.seq()[at].0] == *it.seq()[at].1);
                if before.contains_key(request.id) {
                    let j = choose|j: int|
                        0 <= j < at && *(#[trigger] it.seq()[j]).0 == request.id.value;
                    assert(self.held()[*it.seq()[j].0] == *it.seq()[j].1);
                    assert(it.seq()[j] == it.seq()[at]);
                }
            }
            put_in_order(&mut r, request.clone());
            assert(request_map(request_views(r@)) == before.insert(request.id, request@));
        }
        proof {
            assert forall|id: ApprovalId| self@.contains_key(id) implies request_map(
                request_views(r@),
            ).contains_key(id) by {
                let all = vstd::std_specs::hash::spec_hash_map_iter(&self.requests).remaining();
                assert(self.held().contains_key(id.value));
                assert(all.contains((&id.value, &self.held()[id.value])));
                let j = choose|j: int|
                    0 <= j < all.len() && all[j] == (&id.value, &self.held()[id.value]);
                assert(*all[j].0 == id.value);
            }
            assert(request_map(request_views(r@)) =~= self@);
        }
        r
    }
}

/// Puts a request among others, before the first that comes behind it.
fn put_in_order(requests: &mut Vec<PendingApproval>, request: PendingApproval)
    requires
        by_identifier(request_views(old(requests)@)),
        !request_map(request_views(old(requests)@)).contains_key(request.id),
    ensures
        by_identifier(request_views(final(requests)@)),
        request_map(request_views(final(requests)@)) == request_map(
            request_views(old(requests)@),
        ).insert(request.id, request@),
{
    let ghost listed = request_views(requests@);
    let ghost view = request@;
    let id = request.id;
    let wanted = id.to_string();
    let mut i: usize = 0;
    while i < requests.len() && str_before(requests[i].id.to_string().as_str(), wanted.as_str())
        invariant
            i <= requests@.len(),
            listed == request_views(requests@),
            wanted@ == id.text(),
            forall|k: int| 0 <= k < i ==> text_before((#[trigger] listed[k]).id.text(), id.text()),
        decreases requests@.len() - i,
    {
        assert(listed[i as int] == requests@[i as int]@);
        i += 1;
    }
    proof {
        assert forall|k: int| i <= k < listed.len() implies text_before(
            id.text(),
            (#[trigger] listed[k]).id.text(),
        ) by {
            assert(listed[i as int] == requests@[i as int]@);
            let first = listed[i as int].id;
            lemma_text_before(id.text(), first.text(), listed[k].id.text());
            if id.text() == first.text() {
                crate::uuid_text::law_uuid_text_injective(id.value, first.value);
                lemma_listed(listed, i as int);
            }
            if k > i {
                assert(text_before(first.text(), listed[k].id.text()));
            }
        }
        lemma_insert(listed, i as int, view);
    }
    requests.insert(i, request);
    assert(request_views(requests@) =~= listed.insert(i as int, view));
}

/// The identifier belongs before the request at `at` and behind those before.
pub open spec fn splits(requests: Seq<RequestView>, at: int, id: ApprovalId) -> bool {
    &&& 0 <= at <= requests.len()
    &&& forall|k: int| 0 <= k < at ==> text_before((#[trigger] requests[k]).id.text(), id.text())
    &&& forall|k: int|
        at <= k < requests.len() ==> text_before(id.text(), (#[trigger] requests[k]).id.text())
}

proof fn lemma_unique(requests: Seq<RequestView>, i: int, j: int)
    requires
        by_identifier(requests),
        0 <= i < requests.len(),
        0 <= j < requests.len(),
        requests[i].id == requests[j].id,
    ensures
        i == j,
{
    lemma_text_before(requests[i].id.text(), requests[i].id.text(), requests[i].id.text());
    if i < j {
        assert(text_before(requests[i].id.text(), requests[j].id.text()));
    } else if j < i {
        assert(text_before(requests[j].id.text(), requests[i].id.text()));
    }
}

/// What the map holds under the identifier of a request is the request.
proof fn lemma_listed(requests: Seq<RequestView>, i: int)
    requires
        by_identifier(requests),
        0 <= i < requests.len(),
    ensures
        request_map(requests).contains_key(requests[i].id),
        request_map(requests)[requests[i].id] == requests[i],
{
    let id = requests[i].id;
    let j = choose|j: int| 0 <= j < requests.len() && (#[trigger] requests[j]).id == id;
    assert(requests[i].id == id);
    lemma_unique(requests, i, j);
}

proof fn lemma_insert(requests: Seq<RequestView>, at: int, request: RequestView)
    requires
        by_identifier(requests),
        splits(requests, at, request.id),
    ensures
        by_identifier(requests.insert(at, request)),
        request_map(requests.insert(at, request)) == request_map(requests).insert(
            request.id,
            request,
        ),
{
    let after = requests.insert(at, request);
    assert forall|i: int, j: int| 0 <= i < j < after.len() implies text_before(
        (#[trigger] after[i]).id.text(),
        (#[trigger] after[j]).id.text(),
    ) by {
        if i != at && j != at {
            let p = if i < at {
                i
            } else {
                i - 1
            };
            let q = if j < at {
                j
            } else {
                j - 1
            };
            assert(text_before(requests[p].id.text(), requests[q].id.text()));
        } else if i == at {
            assert(after[j] == requests[j - 1]);
        } else {
            assert(after[i] == requests[i]);
        }
    }
    assert(after[at] == request);
    lemma_same_map(
        after,
        requests,
        request,
        |k: int|
            if k < at {
                k
            } else {
                k + 1
            },
    );
    lemma_listed(after, at);
}

/// Two lists hold the same requests, but for one that is put in.
proof fn lemma_same_map(
    after: Seq<RequestView>,
    before: Seq<RequestView>,
    request: RequestView,
    place: spec_fn(int) -> int,
)
    requires
        by_identifier(after),
        by_identifier(before),
        exists|i: int| 0 <= i < after.len() && after[i] == request,
        forall|k: int|
            0 <= k < before.len() && (#[trigger] before[k]).id != request.id ==> 0 <= place(k)
                < after.len() && after[place(k)] == before[k],
        forall|j: int|
            0 <= j < after.len() && (#[trigger] after[j]).id != request.id ==> before.contains(
                after[j],
            ),
    ensures
        request_map(after) == request_map(before).insert(request.id, request),
{
    let expected = request_map(before).insert(request.id, request);
    let at = choose|i: int| 0 <= i < after.len() && after[i] == request;
    lemma_listed(after, at);
    assert forall|id: ApprovalId| request_map(after).contains_key(id) == expected.contains_key(
        id,
    ) by {
        if id != request.id {
            if request_map(after).contains_key(id) {
                let j = choose|j: int| 0 <= j < after.len() && (#[trigger] after[j]).id == id;
                let k = choose|k: int| 0 <= k < before.len() && before[k] == after[j];
                lemma_listed(before, k);
            }
            if request_map(before).contains_key(id) {
                let k = choose|k: int| 0 <= k < before.len() && (#[trigger] before[k]).id == id;
                lemma_listed(after, place(k));
            }
        }
    }
    assert forall|id: ApprovalId| request_map(after).contains_key(id) implies request_map(after)[id]
        == expected[id] by {
        if id != request.id {
            let j = choose|j: int| 0 <= j < after.len() && (#[trigger] after[j]).id == id;
            lemma_listed(after, j);
            let k = choose|k: int| 0 <= k < before.len() && before[k] == after[j];
            lemma_listed(before, k);
        }
    }
    assert(request_map(after) =~= expected);
}

// ---------------------------------------------------------------------------
// Decisions
// ---------------------------------------------------------------------------
/// The decision on a tool of this risk.
pub open spec fn risk_decision(risk: ToolRisk) -> PolicyDecision {
    match risk {
        ToolRisk::Safe => PolicyDecision::Allow,
        ToolRisk::Ask => PolicyDecision::Ask,
        ToolRisk::Forbidden => PolicyDecision::Deny,
    }
}

/// The decision on a capability with these properties.
pub open spec fn capability_decision(
    enabled: bool,
    effect: CapabilityEffect,
    builtin_exec: bool,
    trusted_local: bool,
) -> PolicyDecision {
    if !enabled {
        PolicyDecision::Deny
    } else {
        match effect {
            CapabilityEffect::Observe => PolicyDecision::Allow,
            CapabilityEffect::ExternalSideEffect => if builtin_exec || trusted_local {
                PolicyDecision::Ask
            } else {
                PolicyDecision::Deny
            },
            _ => PolicyDecision::Deny,
        }
    }
}

/// The capability is the tool that runs commands.
pub open spec fn is_builtin_exec(descriptor: &CapabilityDescriptor) -> bool {
    descriptor.source is Builtin && descriptor.name@ == "exec"@
}

/// Decides about tools, and keeps the requests for approvals.
#[derive(Debug)]
pub struct PolicyEngine {
    pub broker: ApprovalBroker,
}

impl PolicyEngine {
    pub fn new(broker: ApprovalBroker) -> (r: Self)
        ensures
            r.broker == broker,
    {
        PolicyEngine { broker }
    }

    pub fn decision_for(&self, risk: ToolRisk) -> (r: PolicyDecision)
        ensures
            r == risk_decision(risk),
    {
        match risk {
            ToolRisk::Safe => PolicyDecision::Allow,
            ToolRisk::Ask => PolicyDecision::Ask,
            ToolRisk::Forbidden => PolicyDecision::Deny,
        }
    }

    pub fn evaluate(&self, risk: ToolRisk) -> (r: PolicyDecision)
        ensures
            r == risk_decision(risk),
    {
        self.decision_for(risk)
    }

    pub fn evaluate_capability(&self, descriptor: &CapabilityDescriptor) -> (r: PolicyDecision)
        ensures
            r == capability_decision(
                descriptor.enabled,
                descriptor.effect,
                is_builtin_exec(descriptor),
                descriptor.trusted_local,
            ),
    {
        if !descriptor.enabled {
            return PolicyDecision::Deny;
        }
        match descriptor.effect {
            CapabilityEffect::Observe => PolicyDecision::Allow,
            CapabilityEffect::ChangeReversible | CapabilityEffect::ChangeIrreversible => {
                PolicyDecision::Deny
            },
            CapabilityEffect::ExternalSideEffect => {
                if (matches!(descriptor.source, CapabilitySource::Builtin) && same(
                    descriptor.name.as_str(),
                    "exec",
                )) || descriptor.trusted_local {
                    PolicyDecision::Ask
                } else {
                    PolicyDecision::Deny
                }
            },
        }
    }

    pub fn broker(&self) -> (r: &ApprovalBroker)
        ensures
            *r == self.broker,
    {
        &self.broker
    }
}

/// Only observation is allowed without a question.
pub proof fn law_only_observation_is_allowed(
    enabled: bool,
    effect: CapabilityEffect,
    builtin_exec: bool,
    trusted_local: bool,
)
    requires
        capability_decision(enabled, effect, builtin_exec, trusted_local) is Allow,
    ensures
        enabled,
        effect is Observe,
{
}

/// A capability that changes something does not run through this policy at
/// all, whatever else is true of it.
pub proof fn law_changes_are_denied(
    enabled: bool,
    effect: CapabilityEffect,
    builtin_exec: bool,
    trusted_local: bool,
)
    requires
        effect is ChangeReversible || effect is ChangeIrreversible,
    ensures
        capability_decision(enabled, effect, builtin_exec, trusted_local) is Deny,
{
}

} // verus!
