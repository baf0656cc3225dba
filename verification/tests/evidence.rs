use opscodex::evidence::artifact::{
    artifact_path, is_sha256, read_prefix, scoped_key, ArtifactStore,
};
use opscodex::evidence::diagnosis::{
    apply_citation_limitations, extract_json_object, parse_diagnosis, read_confidence,
    validate_diagnosis, Claim, ClaimKind, Confidence, Diagnosis, LooseConfidence, LooseDiagnosis,
};
use opscodex::evidence::redact::{
    is_json_redactable, is_redactable, is_sensitive_key, redact_json, redact_text,
};
use opscodex::evidence::{
    can_summarize, finalize_evidence, model_tool_output, summarize_value, synthesize_evidence_id,
    EvidenceIds, EvidenceMeta, Sensitivity, TimeRange,
};
use opscodex::json::{Json, JsonEntry};
use opscodex::runtime::thread::{ClaimId, EvidenceId, ThreadId, TurnId, WorkspaceId};
use opscodex::time::Timestamp;

fn object(entries: Vec<(&str, Json)>) -> Json {
    Json::Object(
        entries
            .into_iter()
            .map(|(key, value)| JsonEntry { key: key.to_owned(), value })
            .collect(),
    )
}

fn now() -> Timestamp {
    Timestamp::new(1_700_000_000, 0).unwrap()
}

#[test]
fn artifacts_are_given_back_by_their_hash() {
    let mut store = ArtifactStore::memory();
    let key = store.put(b"abc");
    assert_eq!(
        key,
        "ba7816bf8f01cfea414140de5dae2223b00361a396177a9cb410ff61f20015ad"
    );
    assert_eq!(store.get(&key, 10).unwrap(), b"abc");
    assert_eq!(store.get(&key, 2).unwrap(), b"ab");
    assert!(store.get(&"0".repeat(64), 10).is_err());
    let scoped = store.put_in("team", b"abc");
    assert_eq!(store.get_in("team", &scoped, 10).unwrap(), b"abc");
    assert!(store.get_in("other", &scoped, 10).is_err());
}

#[test]
fn artifact_reads_are_bounded() {
    let mut store = ArtifactStore::memory().with_max_bytes(2);
    let key = store.put(b"abc");
    assert_eq!(store.get(&key, 100).unwrap(), b"ab");
    assert_eq!(read_prefix(&b"abcdef".to_vec(), 4, 3), b"abc");
}

#[test]
fn hashes_are_recognised() {
    assert!(is_sha256(&"a".repeat(64)));
    assert!(!is_sha256(&"g".repeat(64)));
    assert!(!is_sha256("abc"));
    let (first, _, _) = artifact_path("team", &"a".repeat(64));
    assert!(!first.is_empty());
    assert_ne!(scoped_key("a", "b"), scoped_key("b", "a"));
}

#[test]
fn secrets_are_taken_out_of_texts() {
    let text = "password=SECRET-REDACTED next";
    assert!(is_redactable(text));
    let (clean, any) = redact_text(text);
    assert!(any);
    assert!(!clean.contains("SECRET-REDACTED"));
    assert!(clean.contains("next"));
    let (twice, again) = redact_text("nothing to see");
    assert_eq!(twice, "nothing to see");
    assert!(!again);
}

#[test]
fn secrets_are_taken_out_of_documents() {
    assert!(is_sensitive_key("Authorization"));
    assert!(!is_sensitive_key("service"));
    let document = object(vec![
        ("password", Json::text("x")),
        ("service", Json::text("orders")),
    ]);
    assert!(is_json_redactable(&document));
    let (clean, any) = redact_json(&document);
    assert!(any);
    assert_eq!(clean.str_at("service"), Some("orders"));
    assert_ne!(clean.str_at("password"), Some("x"));
}

#[test]
fn summaries_are_cut() {
    let long = Json::text(&"x".repeat(100));
    assert!(can_summarize(&long, 20));
    let short = summarize_value(&long, 20);
    assert!(short.len() < 40);
    assert!(short.starts_with("xxxx"));
    assert_eq!(summarize_value(&Json::text("ok"), 20), "ok");
    assert_eq!(summarize_value(&object(vec![("a", Json::number(1))]), 20), "{\"a\":1}");
}

#[test]
fn evidence_identifiers_follow_their_place() {
    let thread = ThreadId::from_uuid(1);
    let meta = EvidenceMeta::new("promql".to_owned(), now());
    let id = meta.evidence_id_or_synthesize(&thread, 4);
    assert_eq!(id, synthesize_evidence_id(&thread, 4, "promql"));
    assert_ne!(id, synthesize_evidence_id(&thread, 5, "promql"));
    assert_ne!(id, synthesize_evidence_id(&thread, 4, "loki"));
}

#[test]
fn finished_evidence_has_a_hash_and_an_identifier() {
    let content = object(vec![("value", Json::number(3))]);
    let ids = EvidenceIds {
        workspace_id: WorkspaceId::new("w"),
        thread_id: ThreadId::from_uuid(1),
        turn_id: TurnId::from_uuid(2),
        tool_call_id: "call".to_owned(),
    };
    let done = finalize_evidence(
        EvidenceMeta::new("promql".to_owned(), now()),
        &content,
        None,
        &ids,
        EvidenceId::from_uuid(9),
    );
    assert_eq!(done.evidence_id, Some(EvidenceId::from_uuid(9)));
    assert_eq!(done.sha256.len(), 64);
    assert_eq!(done.byte_size, content.to_bytes().len() as u64);
    assert_eq!(done.sensitivity, Sensitivity::Internal);
    let output = model_tool_output(true, &done, &content);
    assert!(output.to_text().contains(&EvidenceId::from_uuid(9).to_string()));
}

fn claim(kind: ClaimKind, cited: Vec<EvidenceId>) -> Claim {
    Claim {
        claim_id: ClaimId::from_uuid(1),
        kind,
        statement: "s".to_owned(),
        evidence_ids: cited,
        confidence: Confidence::High,
    }
}

fn diagnosis(claims: Vec<Claim>) -> Diagnosis {
    Diagnosis {
        summary: "sum".to_owned(),
        claims,
        recommended_actions: vec![],
        limitations: vec![],
    }
}

#[test]
fn observed_claims_must_cite_what_was_seen() {
    let mut seen = EvidenceMeta::new("promql".to_owned(), now());
    seen.evidence_id = Some(EvidenceId::from_uuid(5));
    let evidence = vec![seen];
    let good = diagnosis(vec![claim(ClaimKind::Observed, vec![EvidenceId::from_uuid(5)])]);
    assert!(validate_diagnosis(&good, &evidence).is_empty());
    let uncited = diagnosis(vec![claim(ClaimKind::Observed, vec![])]);
    assert_eq!(validate_diagnosis(&uncited, &evidence).len(), 1);
    let unknown = diagnosis(vec![claim(ClaimKind::Inferred, vec![EvidenceId::from_uuid(6)])]);
    assert_eq!(validate_diagnosis(&unknown, &evidence).len(), 1);
    let advice = diagnosis(vec![claim(ClaimKind::Recommended, vec![])]);
    assert!(validate_diagnosis(&advice, &evidence).is_empty());
    let limited = apply_citation_limitations(unknown, &evidence);
    assert!(!limited.limitations.is_empty());
}

#[test]
fn answers_without_a_document_are_kept_as_text() {
    assert_eq!(
        extract_json_object("so:\n```json\n{\"a\": {\"b\": 1}}\n```\nend").as_deref(),
        Some("{\"a\": {\"b\": 1}}")
    );
    assert_eq!(extract_json_object(" {\"a\": 1} x ").as_deref(), Some("{\"a\": 1} x"));
    assert!(extract_json_object("no document").is_none());
    let plain = parse_diagnosis("it is fine", None);
    assert_eq!(plain.summary, "it is fine");
    assert!(plain.claims.is_empty());
    let loose = LooseDiagnosis {
        summary: Some("s".to_owned()),
        claims: vec![],
        recommended_actions: vec!["look".to_owned()],
        limitations: vec![],
    };
    let read = parse_diagnosis("{}", Some(loose));
    assert_eq!(read.summary, "s");
    assert_eq!(read.recommended_actions, vec!["look".to_owned()]);
}

#[test]
fn confidence_is_read_loosely() {
    assert_eq!(
        read_confidence(&Some(LooseConfidence::Level(Confidence::High))),
        Confidence::High
    );
    assert_eq!(
        read_confidence(&Some(LooseConfidence::Text("HIGH".to_owned()))),
        Confidence::High
    );
    assert_eq!(
        read_confidence(&Some(LooseConfidence::Text("med".to_owned()))),
        Confidence::Medium
    );
    assert_eq!(
        read_confidence(&Some(LooseConfidence::Text("sure".to_owned()))),
        Confidence::Low
    );
    assert_eq!(read_confidence(&None), Confidence::Low);
}

#[test]
fn evidence_tells_its_range_and_its_type() {
    let meta = EvidenceMeta::new("loki".to_owned(), now())
        .with_time_range(TimeRange { start: now(), end: now() })
        .with_content_type("text/plain".to_owned());
    assert_eq!(meta.time_range.map(|range| range.start), Some(now()));
    assert_eq!(meta.content_type, "text/plain");
    assert_eq!(meta.source, "loki");
}
