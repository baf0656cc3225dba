//! What a diagnosis may say, told by the log of its thread.
use vstd::prelude::*;

use crate::evidence::diagnosis::{
    citation_errors, is_limited, known, sourced, sourced_claims, Claim, Diagnosis,
};
use crate::runtime::agent::gathered_evidence;
use crate::runtime::envelope::{log_view, EnvelopeView, EventEnvelope};
use crate::runtime::event::{EventView, RuntimeEvent};
use crate::runtime::thread::EvidenceId;
use crate::text::decimal;

verus! {

proof fn lemma_gathered(events: Seq<EnvelopeView>, id: EvidenceId)
    ensures
        known(gathered_evidence(events), id) <==> exists|j: int|
            0 <= j < events.len() && ((#[trigger] events[j]).event matches
                EventView::ToolCompleted { evidence, success, .. } && success
                && evidence.evidence_id == Some(id)),
    decreases events.len(),
{
    if events.len() > 0 {
        let init = events.drop_last();
        let n = init.len() as int;
        let before = gathered_evidence(init);
        let after = gathered_evidence(events);
        lemma_gathered(init, id);
        if known(after, id) {
            let k = choose|k: int|
                0 <= k < after.len() && (#[trigger] after[k]).evidence_id == Some(id);
            if k < before.len() {
                assert(before[k] == after[k]);
                let j = choose|j: int|
                    0 <= j < init.len() && ((#[trigger] init[j]).event matches
                        EventView::ToolCompleted { evidence, success, .. } && success
                        && evidence.evidence_id == Some(id));
                assert(events[j] == init[j]);
            } else {
                assert(events[n].event matches EventView::ToolCompleted { evidence, success, .. }
                    && success && evidence.evidence_id == Some(id));
            }
        }
        if exists|j: int|
            0 <= j < events.len() && ((#[trigger] events[j]).event matches
                EventView::ToolCompleted { evidence, success, .. } && success
                && evidence.evidence_id == Some(id)) {
            let j = choose|j: int|
                0 <= j < events.len() && ((#[trigger] events[j]).event matches
                    EventView::ToolCompleted { evidence, success, .. } && success
                    && evidence.evidence_id == Some(id));
            if j < n {
                assert(init[j] == events[j]);
                let k = choose|k: int|
                    0 <= k < before.len() && (#[trigger] before[k]).evidence_id == Some(id);
                assert(after[k] == before[k]);
            } else {
                assert(after[before.len() as int].evidence_id == Some(id));
            }
        }
    }
}

/// The log holds a successful call of a tool whose evidence carries the identifier.
pub open spec fn citable(events: Seq<EventEnvelope>, id: EvidenceId) -> bool {
    exists|j: int|
        0 <= j < events.len() && ((#[trigger] events[j]).event matches RuntimeEvent::ToolCompleted {
            evidence,
            success,
            ..
        } && success && evidence.evidence_id == Some(id))
}

/// The claim is a recommendation, or it cites something, and nothing that no
/// successful tool returned.
pub open spec fn stands(events: Seq<EventEnvelope>, claim: Claim) -> bool {
    claim.kind is Recommended || (claim.evidence_ids@.len() > 0 && forall|i: int|
        0 <= i < claim.evidence_ids@.len() ==> citable(events, #[trigger] claim.evidence_ids@[i]))
}

proof fn lemma_citable(events: Seq<EventEnvelope>, id: EvidenceId)
    ensures
        known(gathered_evidence(log_view(events)), id) <==> citable(events, id),
{
    let log = log_view(events);
    lemma_gathered(log, id);
    if known(gathered_evidence(log), id) {
        let j = choose|j: int|
            0 <= j < log.len() && ((#[trigger] log[j]).event matches EventView::ToolCompleted {
                evidence,
                success,
                ..
            } && success && evidence.evidence_id == Some(id));
        assert(log[j] == events[j]@);
    }
    if citable(events, id) {
        let j = choose|j: int|
            0 <= j < events.len() && ((#[trigger] events[j]).event matches
                RuntimeEvent::ToolCompleted { evidence, success, .. } && success
                && evidence.evidence_id == Some(id));
        assert(log[j] == events[j]@);
    }
}

proof fn lemma_stands(events: Seq<EventEnvelope>, claim: Claim)
    ensures
        sourced(claim, gathered_evidence(log_view(events))) <==> stands(events, claim),
{
    let evidence = gathered_evidence(log_view(events));
    assert forall|i: int| 0 <= i < claim.evidence_ids@.len() implies (known(
        evidence,
        #[trigger] claim.evidence_ids@[i],
    ) <==> citable(events, claim.evidence_ids@[i])) by {
        lemma_citable(events, claim.evidence_ids@[i]);
    }
}

/// An evidence identifier may be cited in a thread exactly where the log holds a
/// successful call of a tool whose evidence carries it. The evidence of calls that
/// failed counts for nothing.
pub proof fn law_only_successful_tools_are_cited(events: Seq<EventEnvelope>, id: EvidenceId)
    ensures
        known(gathered_evidence(log_view(events)), id) <==> exists|j: int|
            0 <= j < events.len() && ((#[trigger] events[j]).event matches
                RuntimeEvent::ToolCompleted { evidence, success, .. } && success
                && evidence.evidence_id == Some(id)),
{
    lemma_citable(events, id);
}

proof fn lemma_same_filter(claims: Seq<Claim>, a: spec_fn(Claim) -> bool, b: spec_fn(Claim) -> bool)
    requires
        forall|i: int| 0 <= i < claims.len() ==> a(#[trigger] claims[i]) == b(claims[i]),
    ensures
        claims.filter(a) == claims.filter(b),
    decreases claims.len(),
{
    reveal(Seq::filter);
    if claims.len() > 0 {
        let init = claims.drop_last();
        assert forall|i: int| 0 <= i < init.len() implies a(#[trigger] init[i]) == b(init[i]) by {
            assert(init[i] == claims[i]);
        }
        lemma_same_filter(init, a, b);
        assert(a(claims[claims.len() - 1]) == b(claims[claims.len() - 1]));
    }
}

proof fn lemma_filter_all(claims: Seq<Claim>, keep: spec_fn(Claim) -> bool)
    requires
        forall|i: int| 0 <= i < claims.len() ==> keep(#[trigger] claims[i]),
    ensures
        claims.filter(keep) == claims,
    decreases claims.len(),
{
    reveal(Seq::filter);
    if claims.len() > 0 {
        let init = claims.drop_last();
        assert forall|i: int| 0 <= i < init.len() implies keep(#[trigger] init[i]) by {
            assert(init[i] == claims[i]);
        }
        lemma_filter_all(init, keep);
        assert(keep(claims[claims.len() - 1]));
        assert(init.push(claims.last()) =~= claims);
    } else {
        assert(claims.filter(keep) =~= claims);
    }
}

/// A diagnosis keeps the claims that are recommendations or cite only what successful
/// tools of its thread returned, in their order, and loses all others. One that loses
/// none is recorded as it is; one that loses some says so in one more limitation.
pub proof fn law_diagnosis_is_held_to_the_log(
    diagnosis: Diagnosis,
    events: Seq<EventEnvelope>,
    kept: Diagnosis,
)
    requires
        is_limited(kept, diagnosis, gathered_evidence(log_view(events))),
    ensures
        kept.summary == diagnosis.summary,
        kept.recommended_actions == diagnosis.recommended_actions,
        kept.claims@ == diagnosis.claims@.filter(|claim: Claim| stands(events, claim)),
        (forall|i: int|
            0 <= i < diagnosis.claims@.len() ==> stands(
                events,
                #[trigger] diagnosis.claims@[i],
            )) ==> kept == diagnosis,
        (exists|i: int|
            0 <= i < diagnosis.claims@.len() && !stands(
                events,
                #[trigger] diagnosis.claims@[i],
            )) ==> {
            &&& kept.limitations@.len() == diagnosis.limitations@.len() + 1
            &&& kept.limitations@.drop_last() == diagnosis.limitations@
            &&& exists|n: nat|
                n > 0 && kept.limitations@.last()@ == "Evidence is insufficient; abstained from "@
                    + #[trigger] decimal(n) + " unsourced claim(s)."@
        },
{
    let claims = diagnosis.claims@;
    let evidence = gathered_evidence(log_view(events));
    let keep = |claim: Claim| stands(events, claim);
    let source = |claim: Claim| sourced(claim, evidence);
    assert forall|i: int| 0 <= i < claims.len() implies source(#[trigger] claims[i]) == keep(
        claims[i],
    ) by {
        lemma_stands(events, claims[i]);
    }
    lemma_same_filter(claims, source, keep);
    crate::evidence::diagnosis::lemma_no_errors(claims, evidence, claims.len() as int);
    let errors = citation_errors(claims, evidence, claims.len() as int).len();
    if errors == 0 {
        assert forall|i: int| 0 <= i < claims.len() implies keep(#[trigger] claims[i]) by {
            assert(sourced(claims[i], evidence));
            assert(source(claims[i]));
        }
        lemma_filter_all(claims, keep);
    } else {
        assert(kept.claims@ == sourced_claims(claims, evidence));
        assert(decimal(errors) == decimal(errors));
    }
    assert forall|i: int| 0 <= i < claims.len() implies (stands(events, #[trigger] claims[i])
        <==> sourced(claims[i], evidence)) by {
        lemma_stands(events, claims[i]);
    }
}

} // verus!
