//! Evidence that tools return, and what may be said of it.
pub mod artifact;
pub mod diagnosis;
pub mod evidence_law;
pub mod redact;
pub mod redact_law;

use vstd::prelude::*;
use vstd::utf8::encode_utf8;

use vstd::utf8::{decode_utf8, is_char_boundary};

use crate::digest::{sha256_hex, sha256_text};
use crate::evidence::redact::{json_redacted, redact_json, redactable};
use crate::json::{
    entries_view, optional_entry, optional_text, push_entry, push_optional, string_view, text_json,
    text_value, Json, JsonEntry, JsonView, NumberView,
};
use crate::json_map::{map_bytes, map_text};
use crate::runtime::thread::{EvidenceId, ThreadId, TurnId, WorkspaceId};
use crate::text::{byte_len, decimal, decimal_of};
use crate::time::Timestamp;
use crate::uuid_text::{name_uuid, uuid_v5};

verus! {

#[derive(Clone, Copy, Debug, PartialEq, Eq, Structural)]
pub enum Sensitivity {
    Public,
    Internal,
    Confidential,
    Secret,
}

#[derive(Clone, Copy, Debug, PartialEq, Eq, Structural)]
pub struct TimeRange {
    pub start: Timestamp,
    pub end: Timestamp,
}

#[derive(Debug)]
pub struct EvidenceMeta {
    pub source: String,
    pub query: Option<String>,
    pub timestamp: Timestamp,
    pub duration_ms: u64,
    pub truncated: bool,
    pub evidence_id: Option<EvidenceId>,
    pub source_kind: Option<String>,
    pub source_ref: Option<String>,
    pub query_or_operation: Option<String>,
    pub observed_at: Option<Timestamp>,
    pub time_range: Option<TimeRange>,
    pub summary: String,
    pub artifact_ref: Option<String>,
    pub content_type: String,
    pub byte_size: u64,
    pub sensitivity: Sensitivity,
    pub sha256: String,
}

impl Clone for EvidenceMeta {
    fn clone(&self) -> (r: Self)
        ensures
            r == *self,
    {
        EvidenceMeta {
            source: self.source.clone(),
            query: self.query.clone(),
            timestamp: self.timestamp,
            duration_ms: self.duration_ms,
            truncated: self.truncated,
            evidence_id: self.evidence_id,
            source_kind: self.source_kind.clone(),
            source_ref: self.source_ref.clone(),
            query_or_operation: self.query_or_operation.clone(),
            observed_at: self.observed_at,
            time_range: self.time_range,
            summary: self.summary.clone(),
            artifact_ref: self.artifact_ref.clone(),
            content_type: self.content_type.clone(),
            byte_size: self.byte_size,
            sensitivity: self.sensitivity,
            sha256: self.sha256.clone(),
        }
    }
}

/// Nothing is known of the evidence but where and when it was observed.
pub open spec fn is_new(r: EvidenceMeta, source: String, now: Timestamp) -> bool {
    &&& r.source == source
    &&& r.query is None
    &&& r.timestamp == now
    &&& r.duration_ms == 0
    &&& !r.truncated
    &&& r.evidence_id is None
    &&& r.source_kind == Some(source)
    &&& r.source_ref == Some(source)
    &&& r.query_or_operation is None
    &&& r.observed_at == Some(now)
    &&& r.time_range is None
    &&& r.summary@.len() == 0
    &&& r.artifact_ref is None
    &&& r.content_type@ == "application/json"@
    &&& r.byte_size == 0
    &&& r.sensitivity == Sensitivity::Internal
    &&& r.sha256@.len() == 0
}

impl EvidenceMeta {
    /// Evidence from `source`, observed at `now`, of which nothing else is known.
    pub fn new(source: String, now: Timestamp) -> (r: Self)
        ensures
            is_new(r, source, now),
    {
        EvidenceMeta {
            source_kind: Some(source.clone()),
            source_ref: Some(source.clone()),
            query_or_operation: None,
            observed_at: Some(now),
            time_range: None,
            summary: String::new(),
            artifact_ref: None,
            content_type: "application/json".to_owned(),
            byte_size: 0,
            truncated: false,
            sensitivity: Sensitivity::Internal,
            sha256: String::new(),
            evidence_id: None,
            source,
            query: None,
            timestamp: now,
            duration_ms: 0,
        }
    }

    pub fn with_query(self, query: String) -> (r: Self)
        ensures
            r == (EvidenceMeta {
                query: Some(query),
                query_or_operation: Some(query),
                ..self
            }),
    {
        let mut r = self;
        r.query = Some(query.clone());
        r.query_or_operation = Some(query);
        r
    }

    pub fn with_duration_ms(self, duration_ms: u64) -> (r: Self)
        ensures
            r == (EvidenceMeta { duration_ms, ..self }),
    {
        let mut r = self;
        r.duration_ms = duration_ms;
        r
    }

    pub fn with_truncated(self, truncated: bool) -> (r: Self)
        ensures
            r == (EvidenceMeta { truncated, ..self }),
    {
        let mut r = self;
        r.truncated = truncated;
        r
    }

    pub fn with_summary(self, summary: String) -> (r: Self)
        ensures
            r == (EvidenceMeta { summary, ..self }),
    {
        let mut r = self;
        r.summary = summary;
        r
    }

    pub fn with_time_range(self, time_range: TimeRange) -> (r: Self)
        ensures
            r == (EvidenceMeta { time_range: Some(time_range), ..self }),
    {
        let mut r = self;
        r.time_range = Some(time_range);
        r
    }

    pub fn with_content_type(self, content_type: String) -> (r: Self)
        ensures
            r == (EvidenceMeta { content_type, ..self }),
    {
        let mut r = self;
        r.content_type = content_type;
        r
    }

    /// The identifier of the evidence in event `seq` of a thread: its own, or
    /// the one that its place gives it.
    pub open spec fn id_at(&self, thread_id: ThreadId, seq: u64) -> EvidenceId {
        match self.evidence_id {
            Some(id) => id,
            None => synthesized_id(thread_id, seq, self.source@),
        }
    }

    pub fn evidence_id_or_synthesize(&self, thread_id: &ThreadId, seq: u64) -> (r: EvidenceId)
        ensures
            r == self.id_at(*thread_id, seq),
    {
        match self.evidence_id {
            Some(id) => id,
            None => synthesize_evidence_id(thread_id, seq, self.source.as_str()),
        }
    }
}

/// The name of a piece of evidence that carries no identifier: its thread, its
/// sequence number and its source.
pub open spec fn evidence_name(thread_id: ThreadId, seq: u64, source: Seq<char>) -> Seq<char> {
    thread_id.text() + ":"@ + decimal(seq as nat) + ":"@ + source
}

/// The namespace of synthesized evidence identifiers.
pub const EVIDENCE_NAMESPACE: u128 = 0xb41c9e20_7d3a_5f18_9c6b_2e4f0a1d8c57;

pub open spec fn synthesized_id(thread_id: ThreadId, seq: u64, source: Seq<char>) -> EvidenceId {
    EvidenceId {
        value: uuid_v5(
            EVIDENCE_NAMESPACE,
            encode_utf8(evidence_name(thread_id, seq, source)),
        ),
    }
}

pub fn synthesize_evidence_id(thread_id: &ThreadId, seq: u64, source: &str) -> (r: EvidenceId)
    ensures
        r == synthesized_id(*thread_id, seq, source@),
{
    let mut name = thread_id.to_string();
    name.append(":");
    name.append(decimal_of(seq).as_str());
    name.append(":");
    name.append(source);
    EvidenceId::from_uuid(name_uuid(EVIDENCE_NAMESPACE, name.as_str().as_bytes()))
}

impl Sensitivity {
    /// The name under which the sensitivity is written.
    pub open spec fn name(self) -> Seq<char> {
        match self {
            Sensitivity::Public => "public"@,
            Sensitivity::Internal => "internal"@,
            Sensitivity::Confidential => "confidential"@,
            Sensitivity::Secret => "secret"@,
        }
    }

    pub fn as_str(self) -> (r: &'static str)
        ensures
            r@ == self.name(),
    {
        match self {
            Sensitivity::Public => "public",
            Sensitivity::Internal => "internal",
            Sensitivity::Confidential => "confidential",
            Sensitivity::Secret => "secret",
        }
    }
}

/// The identifier as an optional value.
pub open spec fn id_value(id: Option<EvidenceId>) -> Option<JsonView> {
    match id {
        Some(id) => Some(JsonView::Text(id.text())),
        None => None,
    }
}

/// The time as an optional value.
pub open spec fn time_value(time: Option<Timestamp>) -> Option<JsonView> {
    match time {
        Some(time) => Some(JsonView::Text(time.zulu())),
        None => None,
    }
}

pub open spec fn range_value(range: Option<TimeRange>) -> Option<JsonView> {
    match range {
        Some(range) => Some(
            JsonView::Object(
                seq![
                    ("start"@, JsonView::Text(range.start.zulu())),
                    ("end"@, JsonView::Text(range.end.zulu())),
                ],
            ),
        ),
        None => None,
    }
}

/// A text that is written only where it is not empty.
pub open spec fn nonempty_value(text: Seq<char>) -> Option<JsonView> {
    if text.len() == 0 {
        None
    } else {
        Some(JsonView::Text(text))
    }
}

/// A content type that goes without saying.
pub open spec fn default_content_type(text: Seq<char>) -> bool {
    text.len() == 0 || text == "application/json"@
}

impl EvidenceMeta {
    /// The entries of the JSON form: the fields in order, without those that
    /// hold nothing of note.
    pub open spec fn entries(&self) -> Seq<(Seq<char>, JsonView)> {
        seq![
            ("source"@, JsonView::Text(self.source@)),
            ("query"@, optional_text(string_view(self.query))),
            ("timestamp"@, JsonView::Text(self.timestamp.zulu())),
            ("duration_ms"@, JsonView::Number(NumberView::PosInt(self.duration_ms))),
        ] + optional_entry(
            "truncated"@,
            if self.truncated {
                Some(JsonView::Bool(true))
            } else {
                None
            },
        ) + optional_entry("evidence_id"@, id_value(self.evidence_id)) + optional_entry(
            "source_kind"@,
            text_value(string_view(self.source_kind)),
        ) + optional_entry("source_ref"@, text_value(string_view(self.source_ref)))
            + optional_entry(
            "query_or_operation"@,
            text_value(string_view(self.query_or_operation)),
        ) + optional_entry("observed_at"@, time_value(self.observed_at)) + optional_entry(
            "time_range"@,
            range_value(self.time_range),
        ) + optional_entry("summary"@, nonempty_value(self.summary@)) + optional_entry(
            "artifact_ref"@,
            text_value(string_view(self.artifact_ref)),
        ) + optional_entry(
            "content_type"@,
            if default_content_type(self.content_type@) {
                None
            } else {
                Some(JsonView::Text(self.content_type@))
            },
        ) + optional_entry(
            "byte_size"@,
            if self.byte_size == 0 {
                None
            } else {
                Some(JsonView::Number(NumberView::PosInt(self.byte_size)))
            },
        ) + optional_entry(
            "sensitivity"@,
            if self.sensitivity is Internal {
                None
            } else {
                Some(JsonView::Text(self.sensitivity.name()))
            },
        ) + optional_entry("sha256"@, nonempty_value(self.sha256@))
    }

    /// The JSON form.
    pub open spec fn json(&self) -> JsonView {
        JsonView::Object(self.entries())
    }

    pub fn to_json(&self) -> (r: Json)
        ensures
            r@ == self.json(),
    {
        let mut entries: Vec<JsonEntry> = Vec::new();
        push_entry(&mut entries, "source", Json::text(self.source.as_str()));
        push_entry(&mut entries, "query", Json::optional_text(&self.query));
        push_entry(&mut entries, "timestamp", Json::Text(self.timestamp.to_zulu()));
        push_entry(&mut entries, "duration_ms", Json::number(self.duration_ms));
        assert(entries_view(entries@) =~= seq![
            ("source"@, JsonView::Text(self.source@)),
            ("query"@, optional_text(string_view(self.query))),
            ("timestamp"@, JsonView::Text(self.timestamp.zulu())),
            ("duration_ms"@, JsonView::Number(NumberView::PosInt(self.duration_ms))),
        ]);
        let truncated = if self.truncated {
            Some(Json::Bool(true))
        } else {
            None
        };
        push_optional(&mut entries, "truncated", truncated);
        let evidence_id = match self.evidence_id {
            Some(id) => Some(Json::Text(id.to_string())),
            None => None,
        };
        push_optional(&mut entries, "evidence_id", evidence_id);
        push_optional(&mut entries, "source_kind", text_json(&self.source_kind));
        push_optional(&mut entries, "source_ref", text_json(&self.source_ref));
        push_optional(&mut entries, "query_or_operation", text_json(&self.query_or_operation));
        let observed_at = match self.observed_at {
            Some(time) => Some(Json::Text(time.to_zulu())),
            None => None,
        };
        push_optional(&mut entries, "observed_at", observed_at);
        push_optional(&mut entries, "time_range", range_json(self.time_range));
        push_optional(&mut entries, "summary", nonempty_json(&self.summary));
        push_optional(&mut entries, "artifact_ref", text_json(&self.artifact_ref));
        let content_type = if is_default_content_type(self.content_type.as_str()) {
            None
        } else {
            Some(Json::text(self.content_type.as_str()))
        };
        push_optional(&mut entries, "content_type", content_type);
        let byte_size = if is_zero(self.byte_size) {
            None
        } else {
            Some(Json::number(self.byte_size))
        };
        push_optional(&mut entries, "byte_size", byte_size);
        let sensitivity = if is_default_sensitivity(self.sensitivity) {
            None
        } else {
            Some(Json::text(self.sensitivity.as_str()))
        };
        push_optional(&mut entries, "sensitivity", sensitivity);
        push_optional(&mut entries, "sha256", nonempty_json(&self.sha256));
        Json::Object(entries)
    }
}

fn is_zero(value: u64) -> (r: bool)
    ensures
        r == (value == 0),
{
    value == 0
}

fn is_default_content_type(value: &str) -> (r: bool)
    ensures
        r == default_content_type(value@),
{
    value.is_empty() || crate::text::same(value, "application/json")
}

fn is_default_sensitivity(value: Sensitivity) -> (r: bool)
    ensures
        r == (value is Internal),
{
    matches!(value, Sensitivity::Internal)
}

fn nonempty_json(text: &String) -> (r: Option<Json>)
    ensures
        crate::json::owned_view(r) == nonempty_value(text@),
{
    if text.as_str().is_empty() {
        None
    } else {
        Some(Json::text(text.as_str()))
    }
}

fn range_json(range: Option<TimeRange>) -> (r: Option<Json>)
    ensures
        crate::json::owned_view(r) == range_value(range),
{
    match range {
        Some(range) => {
            let mut entries: Vec<JsonEntry> = Vec::new();
            push_entry(&mut entries, "start", Json::Text(range.start.to_zulu()));
            push_entry(&mut entries, "end", Json::Text(range.end.to_zulu()));
            assert(entries_view(entries@) =~= seq![
                ("start"@, JsonView::Text(range.start.zulu())),
                ("end"@, JsonView::Text(range.end.zulu())),
            ]);
            Some(Json::Object(entries))
        },
        None => None,
    }
}

// ---------------------------------------------------------------------------
// Summaries
// ---------------------------------------------------------------------------
/// The text of a document: a text itself, anything else in compact form.
pub open spec fn plain_text_of(value: JsonView) -> Seq<char> {
    match value {
        JsonView::Text(text) => text,
        other => map_text(other),
    }
}

/// The last character boundary at or before `n`.
pub open spec fn floor_boundary(bytes: Seq<u8>, n: int) -> int
    decreases n,
{
    if n <= 0 || is_char_boundary(bytes, n) {
        n
    } else {
        floor_boundary(bytes, n - 1)
    }
}

/// Where a text that is too long is cut: one byte before the last boundary
/// within the limit, but not at the start.
pub open spec fn summary_cut(bytes: Seq<u8>, max: int) -> int {
    let end = floor_boundary(bytes, max);
    if end <= 1 {
        1
    } else {
        end - 1
    }
}

/// The text fits, or it can be cut: the cut is between two characters.
pub open spec fn summarizable(value: JsonView, max: int) -> bool {
    let bytes = encode_utf8(plain_text_of(value));
    bytes.len() <= max || is_char_boundary(bytes, summary_cut(bytes, max))
}

/// The text of a document, cut to about `max` bytes.
pub open spec fn summary_of(value: JsonView, max: int) -> Seq<char> {
    let text = plain_text_of(value);
    let bytes = encode_utf8(text);
    if bytes.len() <= max {
        text
    } else {
        decode_utf8(bytes.take(summary_cut(bytes, max))).push('\u{2026}')
    }
}

fn plain_text(value: &Json) -> (r: String)
    ensures
        r@ == plain_text_of(value@),
{
    match value {
        Json::Text(text) => text.clone(),
        _ => value.to_map_text(),
    }
}

/// The cut of `summary_of`, for a text longer than `max` bytes.
fn find_cut(text: &str, max: usize) -> (r: usize)
    requires
        encode_utf8(text@).len() > max,
    ensures
        r == summary_cut(encode_utf8(text@), max as int),
        r <= encode_utf8(text@).len(),
{
    let mut end: usize = max;
    let ghost bytes = encode_utf8(text@);
    while end > 0 && !text.is_char_boundary(end)
        invariant
            end <= max,
            bytes == encode_utf8(text@),
            floor_boundary(bytes, max as int) == floor_boundary(bytes, end as int),
        decreases end,
    {
        end -= 1;
    }
    if end <= 1 {
        1
    } else {
        end - 1
    }
}

/// Whether a document can be summarized.
pub fn can_summarize(value: &Json, max: usize) -> (r: bool)
    ensures
        r == summarizable(value@, max as int),
{
    let text = plain_text(value);
    if byte_len(text.as_str()) <= max {
        return true;
    }
    let cut = find_cut(text.as_str(), max);
    text.as_str().is_char_boundary(cut)
}

pub fn summarize_value(value: &Json, max_chars: usize) -> (r: String)
    requires
        summarizable(value@, max_chars as int),
    ensures
        r@ == summary_of(value@, max_chars as int),
{
    let text = plain_text(value);
    if byte_len(text.as_str()) <= max_chars {
        return text;
    }
    let cut = find_cut(text.as_str(), max_chars);
    let (head, _rest) = text.as_str().split_at(cut);
    let mut r = head.to_owned();
    r.push('\u{2026}');
    proof {
        let bytes = encode_utf8(text@);
        vstd::utf8::encode_utf8_decode_utf8(head@);
        assert(bytes.subrange(0, cut as int) =~= bytes.take(cut as int));
    }
    r
}

// ---------------------------------------------------------------------------
// Finished evidence
// ---------------------------------------------------------------------------
/// Where a piece of evidence was gathered.
#[derive(Debug)]
pub struct EvidenceIds {
    pub workspace_id: WorkspaceId,
    pub thread_id: ThreadId,
    pub turn_id: TurnId,
    pub tool_call_id: String,
}

/// The first of two optional values that is there.
pub open spec fn first_of<T>(a: Option<T>, b: Option<T>) -> Option<T> {
    match a {
        Some(_) => a,
        None => b,
    }
}

/// The evidence is complete: it tells the size and the hash of the redacted
/// content, a summary, where the content is kept, and what was left open.
pub open spec fn is_finalized(
    r: EvidenceMeta,
    meta: EvidenceMeta,
    content: JsonView,
    artifact_ref: Option<String>,
    evidence_id: EvidenceId,
) -> bool {
    &&& r.summary@ == (if meta.summary@.len() == 0 {
        summary_of(json_redacted(content).0, 280)
    } else {
        meta.summary@
    })
    &&& r.byte_size == map_bytes(json_redacted(content).0).len()
    &&& r.sha256@ == sha256_text(map_bytes(json_redacted(content).0))
    &&& r.artifact_ref == artifact_ref
    &&& r.evidence_id == Some(evidence_id)
    &&& r.source_kind == first_of(meta.source_kind, Some(meta.source))
    &&& r.source_ref == first_of(meta.source_ref, Some(meta.source))
    &&& r.query_or_operation == first_of(meta.query_or_operation, meta.query)
    &&& r.observed_at == first_of(meta.observed_at, Some(meta.timestamp))
    &&& r.source == meta.source
    &&& r.query == meta.query
    &&& r.timestamp == meta.timestamp
    &&& r.duration_ms == meta.duration_ms
    &&& r.truncated == meta.truncated
    &&& r.time_range == meta.time_range
    &&& r.content_type == meta.content_type
    &&& r.sensitivity == meta.sensitivity
}

/// Completes the evidence of a tool result: its identifier, the size and hash
/// of the redacted content, a summary, and what was left open.
pub fn finalize_evidence(
    meta: EvidenceMeta,
    content: &Json,
    artifact_ref: Option<String>,
    _ids: &EvidenceIds,
    evidence_id: EvidenceId,
) -> (r: EvidenceMeta)
    requires
        redactable(content@),
        meta.summary@.len() == 0 ==> summarizable(json_redacted(content@).0, 280),
    ensures
        is_finalized(r, meta, content@, artifact_ref, evidence_id),
{
    let (redacted, _changed) = redact_json(content);
    let bytes = redacted.to_map_bytes();
    let mut meta = meta;
    if meta.summary.as_str().is_empty() {
        meta.summary = summarize_value(&redacted, 280);
    }
    meta.byte_size = bytes.len() as u64;
    meta.sha256 = sha256_hex(bytes.as_slice());
    meta.artifact_ref = artifact_ref;
    meta.evidence_id = Some(evidence_id);
    if meta.source_kind.is_none() {
        meta.source_kind = Some(meta.source.clone());
    }
    if meta.source_ref.is_none() {
        meta.source_ref = Some(meta.source.clone());
    }
    if meta.query_or_operation.is_none() {
        meta.query_or_operation = meta.query.clone();
    }
    if meta.observed_at.is_none() {
        meta.observed_at = Some(meta.timestamp);
    }
    meta
}

/// The entries of a successful tool output for a model: the content, or where it
/// is kept, and what identifies it.
pub open spec fn output_entries(evidence: &EvidenceMeta, content: JsonView) -> Seq<
    (Seq<char>, JsonView),
> {
    seq![
        match evidence.artifact_ref {
            Some(reference) => ("artifact_ref"@, JsonView::Text(reference@)),
            None => ("content"@, content),
        },
        (
            "evidence_id"@,
            match evidence.evidence_id {
                Some(id) => JsonView::Text(id.text()),
                None => JsonView::Null,
            },
        ),
        ("sha256"@, JsonView::Text(evidence.sha256@)),
        ("success"@, JsonView::Bool(true)),
        ("summary"@, JsonView::Text(evidence.summary@)),
        ("truncated"@, JsonView::Bool(evidence.truncated)),
    ]
}

pub fn model_tool_output(success: bool, evidence: &EvidenceMeta, content: &Json) -> (r: Json)
    ensures
        r@ == (if success {
            JsonView::Object(output_entries(evidence, content@))
        } else {
            content@
        }),
{
    if !success {
        return content.clone();
    }
    let mut entries: Vec<JsonEntry> = Vec::new();
    match &evidence.artifact_ref {
        Some(reference) => {
            push_entry(&mut entries, "artifact_ref", Json::text(reference.as_str()));
        },
        None => {
            push_entry(&mut entries, "content", content.clone());
        },
    }
    let id = match evidence.evidence_id {
        Some(id) => Json::Text(id.to_string()),
        None => Json::Null,
    };
    push_entry(&mut entries, "evidence_id", id);
    push_entry(&mut entries, "sha256", Json::text(evidence.sha256.as_str()));
    push_entry(&mut entries, "success", Json::Bool(true));
    push_entry(&mut entries, "summary", Json::text(evidence.summary.as_str()));
    push_entry(&mut entries, "truncated", Json::Bool(evidence.truncated));
    assert(entries_view(entries@) =~= output_entries(evidence, content@));
    Json::Object(entries)
}

} // verus!
