//! Diagnoses and the evidence that their claims must cite.
use vstd::prelude::*;

use crate::evidence::EvidenceMeta;
use crate::json::{
    entries_view, items_view, push_entry, push_item, texts_view, Json, JsonEntry, JsonView,
};
use crate::runtime::thread::{ClaimId, EvidenceId};
use crate::text::{
    chars_of, decimal, decimal_of, find_chars, find_from, lemma_find_from, lower, lower_str, prefix,
    rfind, rfind_char, same, substring, take_chars, trim, trim_str, views,
};

verus! {

#[derive(Clone, Copy, Debug, PartialEq, Eq, Structural)]
pub enum ClaimKind {
    Observed,
    Inferred,
    Recommended,
}

impl ClaimKind {
    /// The name of the kind in messages.
    pub open spec fn label(self) -> Seq<char> {
        match self {
            ClaimKind::Observed => "Observed"@,
            ClaimKind::Inferred => "Inferred"@,
            ClaimKind::Recommended => "Recommended"@,
        }
    }

    fn label_str(self) -> (r: &'static str)
        ensures
            r@ == self.label(),
    {
        match self {
            ClaimKind::Observed => "Observed",
            ClaimKind::Inferred => "Inferred",
            ClaimKind::Recommended => "Recommended",
        }
    }
}

#[derive(Clone, Copy, Debug, PartialEq, Eq, Structural)]
pub enum Confidence {
    Low,
    Medium,
    High,
}

#[derive(Debug)]
pub struct Claim {
    pub claim_id: ClaimId,
    pub kind: ClaimKind,
    pub statement: String,
    pub evidence_ids: Vec<EvidenceId>,
    pub confidence: Confidence,
}

#[derive(Debug)]
pub struct Diagnosis {
    pub summary: String,
    pub claims: Vec<Claim>,
    pub recommended_actions: Vec<String>,
    pub limitations: Vec<String>,
}

#[derive(Debug)]
pub struct CitationError {
    pub claim_id: ClaimId,
    pub message: String,
}

/// A confidence as a model writes it.
#[derive(Debug)]
pub enum LooseConfidence {
    Level(Confidence),
    Text(String),
}

/// A claim as a model writes it.
#[derive(Debug)]
pub struct LooseClaim {
    pub claim_id: ClaimId,
    pub kind: ClaimKind,
    pub statement: String,
    pub evidence_ids: Vec<EvidenceId>,
    pub confidence: Option<LooseConfidence>,
}

/// A diagnosis as a model writes it.
#[derive(Debug)]
pub struct LooseDiagnosis {
    pub summary: Option<String>,
    pub claims: Vec<LooseClaim>,
    pub recommended_actions: Vec<String>,
    pub limitations: Vec<String>,
}

// ---------------------------------------------------------------------------
// JSON forms
// ---------------------------------------------------------------------------
impl ClaimKind {
    /// The name under which the kind is written.
    pub open spec fn name(self) -> Seq<char> {
        match self {
            ClaimKind::Observed => "observed"@,
            ClaimKind::Inferred => "inferred"@,
            ClaimKind::Recommended => "recommended"@,
        }
    }

    pub fn as_str(self) -> (r: &'static str)
        ensures
            r@ == self.name(),
    {
        match self {
            ClaimKind::Observed => "observed",
            ClaimKind::Inferred => "inferred",
            ClaimKind::Recommended => "recommended",
        }
    }
}

impl Confidence {
    /// The name under which the confidence is written.
    pub open spec fn name(self) -> Seq<char> {
        match self {
            Confidence::Low => "low"@,
            Confidence::Medium => "medium"@,
            Confidence::High => "high"@,
        }
    }

    pub fn as_str(self) -> (r: &'static str)
        ensures
            r@ == self.name(),
    {
        match self {
            Confidence::Low => "low",
            Confidence::Medium => "medium",
            Confidence::High => "high",
        }
    }
}

/// The texts of a list of identifiers.
pub open spec fn id_texts(ids: Seq<EvidenceId>) -> Seq<JsonView> {
    ids.map_values(|id: EvidenceId| JsonView::Text(id.text()))
}

impl Claim {
    pub open spec fn entries(&self) -> Seq<(Seq<char>, JsonView)> {
        seq![
            ("claim_id"@, JsonView::Text(self.claim_id.text())),
            ("kind"@, JsonView::Text(self.kind.name())),
            ("statement"@, JsonView::Text(self.statement@)),
            ("evidence_ids"@, JsonView::Array(id_texts(self.evidence_ids@))),
            ("confidence"@, JsonView::Text(self.confidence.name())),
        ]
    }

    pub fn to_json(&self) -> (r: Json)
        ensures
            r@ == JsonView::Object(self.entries()),
    {
        let mut ids: Vec<Json> = Vec::new();
        let mut i: usize = 0;
        assert(id_texts(self.evidence_ids@.take(0)) =~= Seq::empty());
        while i < self.evidence_ids.len()
            invariant
                i <= self.evidence_ids@.len(),
                items_view(ids@) == id_texts(self.evidence_ids@.take(i as int)),
            decreases self.evidence_ids@.len() - i,
        {
            push_item(&mut ids, Json::Text(self.evidence_ids[i].to_string()));
            i += 1;
            assert(items_view(ids@) =~= id_texts(self.evidence_ids@.take(i as int)));
        }
        assert(self.evidence_ids@.take(i as int) =~= self.evidence_ids@);
        let mut entries: Vec<JsonEntry> = Vec::new();
        push_entry(&mut entries, "claim_id", Json::Text(self.claim_id.to_string()));
        push_entry(&mut entries, "kind", Json::text(self.kind.as_str()));
        push_entry(&mut entries, "statement", Json::text(self.statement.as_str()));
        push_entry(&mut entries, "evidence_ids", Json::Array(ids));
        push_entry(&mut entries, "confidence", Json::text(self.confidence.as_str()));
        assert(entries_view(entries@) =~= self.entries());
        Json::Object(entries)
    }
}

impl Clone for Claim {
    fn clone(&self) -> (r: Self)
        ensures
            r.claim_id == self.claim_id,
            r.kind == self.kind,
            r.statement == self.statement,
            r.evidence_ids@ == self.evidence_ids@,
            r.confidence == self.confidence,
    {
        Claim {
            claim_id: self.claim_id,
            kind: self.kind,
            statement: self.statement.clone(),
            evidence_ids: self.evidence_ids.clone(),
            confidence: self.confidence,
        }
    }
}

/// The JSON forms of claims.
pub open spec fn claim_values(claims: Seq<Claim>) -> Seq<JsonView> {
    claims.map_values(|claim: Claim| JsonView::Object(claim.entries()))
}

impl Diagnosis {
    pub open spec fn entries(&self) -> Seq<(Seq<char>, JsonView)> {
        seq![
            ("summary"@, JsonView::Text(self.summary@)),
            ("claims"@, JsonView::Array(claim_values(self.claims@))),
            ("recommended_actions"@, texts_view(views(self.recommended_actions@))),
            ("limitations"@, texts_view(views(self.limitations@))),
        ]
    }

    /// The JSON form.
    pub open spec fn json(&self) -> JsonView {
        JsonView::Object(self.entries())
    }

    pub fn to_json(&self) -> (r: Json)
        ensures
            r@ == self.json(),
    {
        let mut claims: Vec<Json> = Vec::new();
        let mut i: usize = 0;
        assert(claim_values(self.claims@.take(0)) =~= Seq::empty());
        while i < self.claims.len()
            invariant
                i <= self.claims@.len(),
                items_view(claims@) == claim_values(self.claims@.take(i as int)),
            decreases self.claims@.len() - i,
        {
            push_item(&mut claims, self.claims[i].to_json());
            i += 1;
            assert(items_view(claims@) =~= claim_values(self.claims@.take(i as int)));
        }
        assert(self.claims@.take(i as int) =~= self.claims@);
        let mut entries: Vec<JsonEntry> = Vec::new();
        push_entry(&mut entries, "summary", Json::text(self.summary.as_str()));
        push_entry(&mut entries, "claims", Json::Array(claims));
        push_entry(&mut entries, "recommended_actions", Json::texts(&self.recommended_actions));
        push_entry(&mut entries, "limitations", Json::texts(&self.limitations));
        assert(entries_view(entries@) =~= self.entries());
        Json::Object(entries)
    }
}

impl Clone for Diagnosis {
    fn clone(&self) -> (r: Self)
        ensures
            r.json() == self.json(),
    {
        let mut claims: Vec<Claim> = Vec::new();
        let mut i: usize = 0;
        while i < self.claims.len()
            invariant
                i <= self.claims@.len(),
                claims@.len() == i,
                claim_values(claims@) == claim_values(self.claims@.take(i as int)),
            decreases self.claims@.len() - i,
        {
            claims.push(self.claims[i].clone());
            i += 1;
            let ghost before = claims@.drop_last();
            assert(claims@ =~= before.push(claims@.last()));
            assert(self.claims@.take(i as int) =~= self.claims@.take(i - 1).push(
                self.claims@[i - 1],
            ));
            assert(claim_values(claims@) =~= claim_values(before).push(
                JsonView::Object(claims@.last().entries()),
            ));
            assert(claims@.last().entries() =~= self.claims@[i - 1].entries());
            assert(claim_values(self.claims@.take(i as int)) =~= claim_values(
                self.claims@.take(i - 1),
            ).push(JsonView::Object(self.claims@[i - 1].entries())));
        }
        assert(self.claims@.take(i as int) =~= self.claims@);
        let r = Diagnosis {
            summary: self.summary.clone(),
            claims,
            recommended_actions: self.recommended_actions.clone(),
            limitations: self.limitations.clone(),
        };
        assert(r.entries() =~= self.entries());
        r
    }
}

// ---------------------------------------------------------------------------
// Reading a diagnosis
// ---------------------------------------------------------------------------
/// The part of a model's answer that should hold a JSON object: the whole of
/// it, or what stands between the first brace and the last one from its first
/// code fence on.
pub open spec fn json_candidate(content: Seq<char>) -> Option<Seq<char>> {
    let trimmed = trim(content);
    if trimmed.len() > 0 && trimmed[0] == '{' {
        Some(trimmed)
    } else {
        let fence = match find_from(trimmed, "```json"@, 0) {
            Some(at) => Some(at),
            None => find_from(trimmed, "```"@, 0),
        };
        match fence {
            None => None,
            Some(at) => {
                let after = trimmed.skip(at);
                match (find_from(after, seq!['{'], 0), rfind_char(after, '}')) {
                    (Some(start), Some(end)) => if end <= start {
                        None
                    } else {
                        Some(after.subrange(start, end + 1))
                    },
                    _ => None,
                }
            },
        }
    }
}

proof fn lemma_rfind_in_range(s: Seq<char>, c: char)
    ensures
        rfind_char(s, c) matches Some(at) ==> 0 <= at < s.len(),
    decreases s.len(),
{
    if s.len() > 0 && s.last() != c {
        lemma_rfind_in_range(s.drop_last(), c);
    }
}

pub fn extract_json_object(content: &str) -> (r: Option<String>)
    ensures
        match r {
            Some(text) => json_candidate(content@) == Some(text@),
            None => json_candidate(content@) is None,
        },
{
    let text = trim_str(content);
    let trimmed = chars_of(text.as_str());
    if trimmed.len() > 0 && trimmed[0] == '{' {
        return Some(text);
    }
    let json_fence = chars_of("```json");
    let plain_fence = chars_of("```");
    let fence = match find_chars(&trimmed, &json_fence, 0) {
        Some(at) => at,
        None => match find_chars(&trimmed, &plain_fence, 0) {
            Some(at) => at,
            None => {
                return None;
            },
        },
    };
    proof {
        lemma_find_from(trimmed@, "```json"@, 0);
        lemma_find_from(trimmed@, "```"@, 0);
    }
    let end: usize = trimmed.len();
    let after = chars_of(substring(&trimmed, fence, end).as_str());
    assert(after@ =~= trimmed@.skip(fence as int));
    let mut brace: Vec<char> = Vec::new();
    brace.push('{');
    assert(brace@ =~= seq!['{']);
    let start = match find_chars(&after, &brace, 0) {
        Some(start) => start,
        None => {
            return None;
        },
    };
    let end = match rfind(&after, '}') {
        Some(end) => end,
        None => {
            return None;
        },
    };
    if end <= start {
        return None;
    }
    proof {
        lemma_rfind_in_range(after@, '}');
    }
    let n: usize = after.len();
    assert(end < n);
    Some(substring(&after, start, end + 1))
}

/// The confidence that a model meant.
pub open spec fn confidence_of(value: Option<LooseConfidence>) -> Confidence {
    match value {
        None => Confidence::Low,
        Some(LooseConfidence::Level(level)) => level,
        Some(LooseConfidence::Text(text)) => if lower(text@) == "high"@ {
            Confidence::High
        } else if lower(text@) == "medium"@ || lower(text@) == "med"@ {
            Confidence::Medium
        } else {
            Confidence::Low
        },
    }
}

pub fn read_confidence(value: &Option<LooseConfidence>) -> (r: Confidence)
    ensures
        r == confidence_of(*value),
{
    match value {
        None => Confidence::Low,
        Some(LooseConfidence::Level(level)) => *level,
        Some(LooseConfidence::Text(text)) => {
            let lowered = lower_str(text.as_str());
            if same(lowered.as_str(), "high") {
                Confidence::High
            } else if same(lowered.as_str(), "medium") || same(lowered.as_str(), "med") {
                Confidence::Medium
            } else {
                Confidence::Low
            }
        },
    }
}

/// `claim` is what `loose` says, with its confidence read.
pub open spec fn claim_read(claim: Claim, loose: LooseClaim) -> bool {
    &&& claim.claim_id == loose.claim_id
    &&& claim.kind == loose.kind
    &&& claim.statement == loose.statement
    &&& claim.evidence_ids == loose.evidence_ids
    &&& claim.confidence == confidence_of(loose.confidence)
}

fn read_claims(loose: Vec<LooseClaim>) -> (r: Vec<Claim>)
    ensures
        r@.len() == loose@.len(),
        forall|i: int| 0 <= i < r@.len() ==> claim_read(#[trigger] r@[i], loose@[i]),
{
    let ghost all = loose@;
    let mut rest = loose;
    let mut reversed: Vec<Claim> = Vec::new();
    while rest.len() > 0
        invariant
            reversed@.len() + rest@.len() == all.len(),
            rest@ == all.take(rest@.len() as int),
            forall|i: int|
                0 <= i < reversed@.len() ==> claim_read(
                    #[trigger] reversed@[i],
                    all[all.len() - 1 - i],
                ),
        decreases rest@.len(),
    {
        let ghost before = rest@;
        match rest.pop() {
            Some(claim) => {
                assert(claim == all[before.len() - 1]);
                assert(rest@ =~= all.take(rest@.len() as int));
                let confidence = read_confidence(&claim.confidence);
                reversed.push(
                    Claim {
                        claim_id: claim.claim_id,
                        kind: claim.kind,
                        statement: claim.statement,
                        evidence_ids: claim.evidence_ids,
                        confidence,
                    },
                );
            },
            None => {},
        }
    }
    let out = crate::seqs::reversed(reversed);
    assert forall|i: int| 0 <= i < out@.len() implies claim_read(#[trigger] out@[i], all[i]) by {
        assert(out@[i] == reversed@[all.len() - 1 - i]);
    }
    out
}

/// What an answer is when it holds no diagnosis.
pub open spec fn unstructured(content: Seq<char>, diagnosis: Diagnosis) -> bool {
    &&& diagnosis.summary@ == prefix(content, 280)
    &&& diagnosis.claims@.len() == 0
    &&& diagnosis.recommended_actions@.len() == 0
    &&& diagnosis.limitations@.len() == 1
    &&& diagnosis.limitations@[0]@
        == "Model output was not a structured diagnosis; content is unverified."@
}

/// What an answer is when `loose` was read from it.
pub open spec fn structured(content: Seq<char>, loose: LooseDiagnosis, diagnosis: Diagnosis) -> bool {
    &&& diagnosis.summary@ == (match loose.summary {
        Some(summary) => summary@,
        None => prefix(content, 280),
    })
    &&& diagnosis.claims@.len() == loose.claims@.len()
    &&& forall|i: int|
        0 <= i < diagnosis.claims@.len() ==> claim_read(
            #[trigger] diagnosis.claims@[i],
            loose.claims@[i],
        )
    &&& diagnosis.recommended_actions == loose.recommended_actions
    &&& diagnosis.limitations == loose.limitations
}

/// The diagnosis is that of an answer from which `parsed` could be read.
pub open spec fn is_parsed(
    diagnosis: Diagnosis,
    content: Seq<char>,
    parsed: Option<LooseDiagnosis>,
) -> bool {
    match parsed {
        Some(loose) => structured(content, loose, diagnosis),
        None => unstructured(content, diagnosis),
    }
}

/// The diagnosis of an answer, given what could be read from the JSON object in
/// it.
pub fn parse_diagnosis(content: &str, parsed: Option<LooseDiagnosis>) -> (r: Diagnosis)
    ensures
        is_parsed(r, content@, parsed),
{
    match parsed {
        Some(loose) => {
            let summary = match loose.summary {
                Some(summary) => summary,
                None => take_chars(content, 280),
            };
            Diagnosis {
                summary,
                claims: read_claims(loose.claims),
                recommended_actions: loose.recommended_actions,
                limitations: loose.limitations,
            }
        },
        None => {
            let mut limitations: Vec<String> = Vec::new();
            limitations.push(
                "Model output was not a structured diagnosis; content is unverified.".to_owned(),
            );
            Diagnosis {
                summary: take_chars(content, 280),
                claims: Vec::new(),
                recommended_actions: Vec::new(),
                limitations,
            }
        },
    }
}

// ---------------------------------------------------------------------------
// Citations
// ---------------------------------------------------------------------------
/// The evidence carries this identifier.
pub open spec fn known(evidence: Seq<EvidenceMeta>, id: EvidenceId) -> bool {
    exists|i: int| 0 <= i < evidence.len() && (#[trigger] evidence[i]).evidence_id == Some(id)
}

/// The errors of the citations of one claim from its `i`th on.
pub open spec fn unknown_citations(
    claim: Claim,
    evidence: Seq<EvidenceMeta>,
    i: int,
) -> Seq<(ClaimId, Seq<char>)>
    decreases claim.evidence_ids@.len() - i,
{
    if i >= claim.evidence_ids@.len() {
        Seq::empty()
    } else {
        let rest = unknown_citations(claim, evidence, i + 1);
        let id = claim.evidence_ids@[i];
        if known(evidence, id) {
            rest
        } else {
            seq![(claim.claim_id, "unknown evidence id "@ + id.text())] + rest
        }
    }
}

/// The citation errors of one claim.
pub open spec fn claim_errors(claim: Claim, evidence: Seq<EvidenceMeta>) -> Seq<
    (ClaimId, Seq<char>),
> {
    if claim.kind is Recommended {
        Seq::empty()
    } else if claim.evidence_ids@.len() == 0 {
        seq![(claim.claim_id, claim.kind.label() + " claim has no evidence ids"@)]
    } else {
        unknown_citations(claim, evidence, 0)
    }
}

/// The citation errors of the first `n` claims, in order.
pub open spec fn citation_errors(
    claims: Seq<Claim>,
    evidence: Seq<EvidenceMeta>,
    n: int,
) -> Seq<(ClaimId, Seq<char>)>
    decreases n,
{
    if n <= 0 {
        Seq::empty()
    } else {
        citation_errors(claims, evidence, n - 1) + claim_errors(claims[n - 1], evidence)
    }
}

/// The views of a list of errors.
pub open spec fn error_views(errors: Seq<CitationError>) -> Seq<(ClaimId, Seq<char>)> {
    errors.map_values(|e: CitationError| (e.claim_id, e.message@))
}

fn is_known(evidence: &Vec<EvidenceMeta>, id: EvidenceId) -> (r: bool)
    ensures
        r == known(evidence@, id),
{
    let mut i: usize = 0;
    while i < evidence.len()
        invariant
            i <= evidence@.len(),
            forall|j: int| 0 <= j < i ==> (#[trigger] evidence@[j]).evidence_id != Some(id),
        decreases evidence@.len() - i,
    {
        if let Some(own) = evidence[i].evidence_id {
            if own == id {
                assert(evidence@[i as int].evidence_id == Some(id));
                return true;
            }
        }
        i += 1;
    }
    false
}

fn push_error(errors: &mut Vec<CitationError>, claim_id: ClaimId, message: String)
    ensures
        error_views(final(errors)@) == error_views(old(errors)@).push((claim_id, message@)),
{
    errors.push(CitationError { claim_id, message });
    assert(error_views(errors@) =~= error_views(old(errors)@).push((claim_id, message@)));
}

fn check_claim(claim: &Claim, evidence: &Vec<EvidenceMeta>, errors: &mut Vec<CitationError>)
    ensures
        error_views(final(errors)@) == error_views(old(errors)@) + claim_errors(*claim, evidence@),
{
    let ghost start = error_views(errors@);
    match claim.kind {
        ClaimKind::Recommended => {
            assert(start + claim_errors(*claim, evidence@) =~= start);
        },
        ClaimKind::Observed | ClaimKind::Inferred => {
            if claim.evidence_ids.len() == 0 {
                let mut message = claim.kind.label_str().to_owned();
                message.append(" claim has no evidence ids");
                push_error(errors, claim.claim_id, message);
                assert(error_views(errors@) =~= start + claim_errors(*claim, evidence@));
            } else {
                let mut i: usize = 0;
                while i < claim.evidence_ids.len()
                    invariant
                        i <= claim.evidence_ids@.len(),
                        start + unknown_citations(*claim, evidence@, 0) == error_views(errors@)
                            + unknown_citations(*claim, evidence@, i as int),
                    decreases claim.evidence_ids@.len() - i,
                {
                    let id = claim.evidence_ids[i];
                    let ghost before = error_views(errors@);
                    if !is_known(evidence, id) {
                        let mut message = "unknown evidence id ".to_owned();
                        message.append(id.to_string().as_str());
                        push_error(errors, claim.claim_id, message);
                        assert(error_views(errors@) + unknown_citations(*claim, evidence@, i + 1)
                            =~= before + unknown_citations(*claim, evidence@, i as int));
                    }
                    i += 1;
                }
                assert(error_views(errors@) + unknown_citations(*claim, evidence@, i as int)
                    =~= error_views(errors@));
            }
        },
    }
}

pub fn validate_diagnosis(diagnosis: &Diagnosis, evidence: &Vec<EvidenceMeta>) -> (r: Vec<
    CitationError,
>)
    ensures
        error_views(r@) == citation_errors(
            diagnosis.claims@,
            evidence@,
            diagnosis.claims@.len() as int,
        ),
{
    let mut errors: Vec<CitationError> = Vec::new();
    let mut i: usize = 0;
    assert(error_views(errors@) =~= Seq::empty());
    while i < diagnosis.claims.len()
        invariant
            i <= diagnosis.claims@.len(),
            error_views(errors@) == citation_errors(diagnosis.claims@, evidence@, i as int),
        decreases diagnosis.claims@.len() - i,
    {
        check_claim(&diagnosis.claims[i], evidence, &mut errors);
        i += 1;
    }
    errors
}

/// The claim may stand: it is a recommendation, or it cites evidence, all of it
/// known.
pub open spec fn sourced(claim: Claim, evidence: Seq<EvidenceMeta>) -> bool {
    claim.kind is Recommended || (claim.evidence_ids@.len() > 0 && forall|i: int|
        0 <= i < claim.evidence_ids@.len() ==> known(
            evidence,
            #[trigger] claim.evidence_ids@[i],
        ))
}

/// The claims that may stand, in order.
pub open spec fn sourced_claims(claims: Seq<Claim>, evidence: Seq<EvidenceMeta>) -> Seq<Claim> {
    claims.filter(|claim: Claim| sourced(claim, evidence))
}

proof fn lemma_unknown_citations(claim: Claim, evidence: Seq<EvidenceMeta>, i: int)
    requires
        0 <= i <= claim.evidence_ids@.len(),
    ensures
        unknown_citations(claim, evidence, i).len() == 0 <==> forall|j: int|
            i <= j < claim.evidence_ids@.len() ==> known(
                evidence,
                #[trigger] claim.evidence_ids@[j],
            ),
    decreases claim.evidence_ids@.len() - i,
{
    if i < claim.evidence_ids@.len() {
        lemma_unknown_citations(claim, evidence, i + 1);
        let id = claim.evidence_ids@[i];
        if known(evidence, id) {
            assert forall|j: int| i <= j < claim.evidence_ids@.len() && (forall|k: int|
                i + 1 <= k < claim.evidence_ids@.len() ==> known(
                    evidence,
                    #[trigger] claim.evidence_ids@[k],
                )) implies known(evidence, #[trigger] claim.evidence_ids@[j]) by {}
        }
    }
}

/// A claim may stand exactly when it has no citation error.
pub proof fn law_claim_stands_without_errors(claim: Claim, evidence: Seq<EvidenceMeta>)
    ensures
        sourced(claim, evidence) <==> claim_errors(claim, evidence).len() == 0,
{
    if !(claim.kind is Recommended) && claim.evidence_ids@.len() > 0 {
        lemma_unknown_citations(claim, evidence, 0);
    }
}

fn is_sourced(claim: &Claim, evidence: &Vec<EvidenceMeta>) -> (r: bool)
    ensures
        r == sourced(*claim, evidence@),
{
    match claim.kind {
        ClaimKind::Recommended => true,
        ClaimKind::Observed | ClaimKind::Inferred => {
            if claim.evidence_ids.len() == 0 {
                return false;
            }
            let mut i: usize = 0;
            while i < claim.evidence_ids.len()
                invariant
                    i <= claim.evidence_ids@.len(),
                    !(claim.kind is Recommended),
                    forall|j: int|
                        0 <= j < i ==> known(evidence@, #[trigger] claim.evidence_ids@[j]),
                decreases claim.evidence_ids@.len() - i,
            {
                if !is_known(evidence, claim.evidence_ids[i]) {
                    assert(!known(evidence@, claim.evidence_ids@[i as int]));
                    return false;
                }
                i += 1;
            }
            true
        },
    }
}

/// The claims that may stand, in order.
fn retain_sourced(claims: Vec<Claim>, evidence: &Vec<EvidenceMeta>) -> (r: Vec<Claim>)
    ensures
        r@ == sourced_claims(claims@, evidence@),
{
    let ghost all = claims@;
    let mut rest = claims;
    let mut reversed: Vec<Claim> = Vec::new();
    let ghost keep = |claim: Claim| sourced(claim, evidence@);
    while rest.len() > 0
        invariant
            rest@.len() <= all.len(),
            rest@ == all.take(rest@.len() as int),
            keep == (|claim: Claim| sourced(claim, evidence@)),
            reversed@.reverse() == all.skip(rest@.len() as int).filter(keep),
        decreases rest@.len(),
    {
        let ghost before = rest@;
        let ghost done = reversed@;
        match rest.pop() {
            Some(claim) => {
                proof {
                    let n = rest@.len() as int;
                    assert(claim == all[n]);
                    assert(rest@ =~= all.take(n));
                    assert(all.skip(n) =~= seq![claim] + all.skip(n + 1));
                    crate::seqs::lemma_filter_front(claim, all.skip(n + 1), keep);
                }
                if is_sourced(&claim, evidence) {
                    reversed.push(claim);
                    assert(reversed@.reverse() =~= seq![claim] + done.reverse());
                }
            },
            None => {},
        }
    }
    assert(all.skip(0) =~= all);
    crate::seqs::reversed(reversed)
}

/// The first diagnosis is the second without the claims that do not cite known
/// evidence; if any are withdrawn, its limitations end with the number of
/// citation errors.
pub open spec fn is_limited(r: Diagnosis, diagnosis: Diagnosis, evidence: Seq<EvidenceMeta>) -> bool {
    let errors = citation_errors(
        diagnosis.claims@,
        evidence,
        diagnosis.claims@.len() as int,
    ).len();
    &&& r.summary == diagnosis.summary
    &&& r.recommended_actions == diagnosis.recommended_actions
    &&& if errors == 0 {
        r == diagnosis
    } else {
        &&& r.claims@ == sourced_claims(diagnosis.claims@, evidence)
        &&& r.limitations@.len() == diagnosis.limitations@.len() + 1
        &&& r.limitations@.drop_last() == diagnosis.limitations@
        &&& r.limitations@.last()@ == "Evidence is insufficient; abstained from "@ + decimal(errors)
            + " unsourced claim(s)."@
    }
}

/// Withdraws claims that do not cite known evidence, and says how many citation
/// errors there were.
pub fn apply_citation_limitations(diagnosis: Diagnosis, evidence: &Vec<EvidenceMeta>) -> (r:
    Diagnosis)
    ensures
        is_limited(r, diagnosis, evidence@),
{
    let errors = validate_diagnosis(&diagnosis, evidence);
    let count: usize = errors.len();
    proof {
        assert(error_views(errors@).len() == count);
    }
    if count == 0 {
        return diagnosis;
    }
    let mut limitations = diagnosis.limitations;
    let mut message = "Evidence is insufficient; abstained from ".to_owned();
    message.append(decimal_of(count as u64).as_str());
    message.append(" unsourced claim(s).");
    limitations.push(message);
    assert(limitations@.drop_last() =~= diagnosis.limitations@);
    Diagnosis {
        summary: diagnosis.summary,
        claims: retain_sourced(diagnosis.claims, evidence),
        recommended_actions: diagnosis.recommended_actions,
        limitations,
    }
}

pub(crate) proof fn lemma_no_errors(claims: Seq<Claim>, evidence: Seq<EvidenceMeta>, n: int)
    requires
        0 <= n <= claims.len(),
    ensures
        citation_errors(claims, evidence, n).len() == 0 <==> forall|i: int|
            0 <= i < n ==> sourced(#[trigger] claims[i], evidence),
    decreases n,
{
    if n > 0 {
        lemma_no_errors(claims, evidence, n - 1);
        law_claim_stands_without_errors(claims[n - 1], evidence);
    }
}

/// The claims that are left after citation errors were dealt with.
pub open spec fn claims_left(claims: Seq<Claim>, evidence: Seq<EvidenceMeta>) -> Seq<Claim> {
    if citation_errors(claims, evidence, claims.len() as int).len() == 0 {
        claims
    } else {
        sourced_claims(claims, evidence)
    }
}

/// Whatever a model claimed, the claims that are left are recommendations or
/// cite known evidence; and every claim that does so is left.
pub proof fn law_only_sourced_claims_are_left(claims: Seq<Claim>, evidence: Seq<EvidenceMeta>)
    ensures
        forall|i: int|
            0 <= i < claims_left(claims, evidence).len() ==> sourced(
                #[trigger] claims_left(claims, evidence)[i],
                evidence,
            ),
        forall|i: int|
            0 <= i < claims.len() && sourced(#[trigger] claims[i], evidence) ==> claims_left(
                claims,
                evidence,
            ).contains(claims[i]),
{
    lemma_no_errors(claims, evidence, claims.len() as int);
    let keep = |claim: Claim| sourced(claim, evidence);
    if citation_errors(claims, evidence, claims.len() as int).len() != 0 {
        let left = sourced_claims(claims, evidence);
        assert forall|i: int| 0 <= i < left.len() implies sourced(#[trigger] left[i], evidence) by {
            claims.lemma_filter_pred(keep, i);
        }
    }
    assert forall|i: int| 0 <= i < claims.len() && sourced(#[trigger] claims[i], evidence) implies claims_left(
        claims,
        evidence,
    ).contains(claims[i]) by {
        assert(keep(claims[i]));
        claims.lemma_filter_contains(keep, i);
        assert(claims.contains(claims[i]));
    }
}

} // verus!
