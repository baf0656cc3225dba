//! The alert that a turn starts from: a hint, never evidence.
use vstd::prelude::*;
use vstd::utf8::encode_utf8;

use crate::error::{ErrorView, OpsCodexError, OpsResult};
use crate::json::{
    bytes_of, entries_view, push_entry, string_view, text_of, Json, JsonEntry, JsonView,
};
use crate::json_map::{keys_in_order, lemma_put_at, lemma_put_keeps_order, put};
use crate::text::{byte_len, join, join_strings, same, str_before, text_before, views};
use crate::time::Timestamp;

verus! {

pub const MAX_CONTEXT_BYTES: usize = 16384;

pub const MAX_LABELS: usize = 32;

pub const MAX_FIELD_CHARS: usize = 512;

#[derive(Debug)]
pub struct IncidentSource {
    pub kind: String,
    pub fingerprint: Option<String>,
}

/// A label or an annotation.
#[derive(Debug)]
pub struct Label {
    pub key: String,
    pub value: String,
}

/// Labels or annotations, in the order of their keys, each key once.
#[derive(Debug)]
pub struct LabelMap {
    labels: Vec<Label>,
}

/// The labels are in the order of their keys, each key once.
pub open spec fn labels_in_order(labels: Seq<Label>) -> bool {
    keys_in_order(label_entries(labels))
}

impl LabelMap {
    #[verifier::type_invariant]
    spec fn in_order(self) -> bool {
        labels_in_order(self.labels@)
    }

    pub closed spec fn view(&self) -> Seq<Label> {
        self.labels@
    }

    pub fn new() -> (r: Self)
        ensures
            r@.len() == 0,
    {
        LabelMap { labels: Vec::new() }
    }

    pub fn len(&self) -> (r: usize)
        ensures
            r == self@.len(),
    {
        self.labels.len()
    }

    /// The labels.
    pub fn labels(&self) -> (r: &Vec<Label>)
        ensures
            r@ == self@,
            labels_in_order(r@),
    {
        proof {
            use_type_invariant(self);
        }
        &self.labels
    }

    /// Puts a label in, in the place of one with the same key.
    pub fn insert(&mut self, key: String, value: String)
        ensures
            label_entries(final(self)@) == put(
                label_entries(old(self)@),
                key@,
                JsonView::Text(value@),
            ),
            labels_in_order(final(self)@),
    {
        proof {
            use_type_invariant(&*self);
        }
        let mut labels = clone_labels(&self.labels);
        let ghost before = label_entries(labels@);
        let mut at: usize = 0;
        while at < labels.len() && str_before(labels[at].key.as_str(), key.as_str())
            invariant
                at <= labels@.len(),
                before == label_entries(labels@),
                forall|i: int| 0 <= i < at ==> text_before((#[trigger] before[i]).0, key@),
            decreases labels@.len() - at,
        {
            assert(before[at as int].0 == labels@[at as int].key@);
            at += 1;
        }
        let ghost entry = (key@, JsonView::Text(value@));
        proof {
            lemma_put_at(before, key@, entry.1, at as int);
            lemma_put_keeps_order(before, key@, entry.1);
            if at < labels@.len() {
                assert(before[at as int].0 == labels@[at as int].key@);
            }
        }
        let taken = at < labels.len() && same(labels[at].key.as_str(), key.as_str());
        let label = Label { key, value };
        if taken {
            labels[at] = label;
            assert(label_entries(labels@) =~= before.update(at as int, entry));
        } else {
            labels.insert(at, label);
            assert(label_entries(labels@) =~= before.insert(at as int, entry));
        }
        self.labels = labels;
    }
}

impl Clone for LabelMap {
    fn clone(&self) -> (r: Self)
        ensures
            r@ == self@,
    {
        proof {
            use_type_invariant(self);
        }
        LabelMap { labels: clone_labels(&self.labels) }
    }
}

/// Alert data.
#[derive(Debug)]
pub struct IncidentContext {
    pub service: Option<String>,
    pub environment: Option<String>,
    pub starts_at: Option<Timestamp>,
    pub ends_at: Option<Timestamp>,
    pub labels: LabelMap,
    pub annotations: LabelMap,
    pub source: Option<IncidentSource>,
}

impl Default for IncidentContext {
    fn default() -> (r: Self)
        ensures
            r.is_blank(),
    {
        IncidentContext {
            service: None,
            environment: None,
            starts_at: None,
            ends_at: None,
            labels: LabelMap::new(),
            annotations: LabelMap::new(),
            source: None,
        }
    }
}

impl Clone for Label {
    fn clone(&self) -> (r: Self)
        ensures
            r == *self,
    {
        Label { key: self.key.clone(), value: self.value.clone() }
    }
}

impl Clone for IncidentSource {
    fn clone(&self) -> (r: Self)
        ensures
            r == *self,
    {
        IncidentSource { kind: self.kind.clone(), fingerprint: self.fingerprint.clone() }
    }
}

fn clone_labels(labels: &Vec<Label>) -> (r: Vec<Label>)
    ensures
        r@ == labels@,
{
    let mut r: Vec<Label> = Vec::new();
    let mut i: usize = 0;
    while i < labels.len()
        invariant
            i <= labels@.len(),
            r@ == labels@.take(i as int),
        decreases labels@.len() - i,
    {
        r.push(labels[i].clone());
        i += 1;
        assert(r@ =~= labels@.take(i as int));
    }
    assert(labels@.take(i as int) =~= labels@);
    r
}

impl Clone for IncidentContext {
    fn clone(&self) -> (r: Self)
        ensures
            r@ == self@,
            r.is_blank() == self.is_blank(),
    {
        IncidentContext {
            service: self.service.clone(),
            environment: self.environment.clone(),
            starts_at: self.starts_at,
            ends_at: self.ends_at,
            labels: self.labels.clone(),
            annotations: self.annotations.clone(),
            source: match &self.source {
                Some(source) => Some(source.clone()),
                None => None,
            },
        }
    }
}

/// What a context shows: its JSON form, and the text that a model is shown.
pub struct IncidentView {
    pub json: JsonView,
    pub prompt: Seq<char>,
}

/// Labels as the entries of an object.
pub open spec fn label_entries(labels: Seq<Label>) -> Seq<(Seq<char>, JsonView)> {
    labels.map_values(|label: Label| (label.key@, JsonView::Text(label.value@)))
}

/// An optional text as an entry, or no entry.
pub open spec fn text_entry(key: Seq<char>, text: Option<Seq<char>>) -> Seq<(Seq<char>, JsonView)> {
    match text {
        Some(text) => seq![(key, JsonView::Text(text))],
        None => Seq::empty(),
    }
}

/// The text of an optional time.
pub open spec fn time_view(time: Option<Timestamp>) -> Option<Seq<char>> {
    match time {
        Some(time) => Some(time.zulu()),
        None => None,
    }
}

/// Labels as an entry, or no entry where there are none.
pub open spec fn labels_entry(key: Seq<char>, labels: Seq<Label>) -> Seq<(Seq<char>, JsonView)> {
    if labels.len() == 0 {
        Seq::empty()
    } else {
        seq![(key, JsonView::Object(label_entries(labels)))]
    }
}

/// The source as an entry, or no entry where there is none.
pub open spec fn source_entry(source: Option<IncidentSource>) -> Seq<(Seq<char>, JsonView)> {
    match source {
        Some(source) => seq![
            (
                "source"@,
                JsonView::Object(
                    seq![("kind"@, JsonView::Text(source.kind@))] + text_entry(
                        "fingerprint"@,
                        string_view(source.fingerprint),
                    ),
                ),
            ),
        ],
        None => Seq::empty(),
    }
}

impl IncidentContext {
    pub open spec fn view(&self) -> IncidentView {
        IncidentView { json: self.json(), prompt: self.prompt() }
    }

    /// Nothing is known.
    pub open spec fn is_blank(&self) -> bool {
        self.service is None && self.environment is None && self.starts_at is None && self.ends_at
            is None && self.labels@.len() == 0 && self.annotations@.len() == 0 && self.source
            is None
    }

    /// The entries of the JSON form: what is known, in the order of the fields.
    pub open spec fn entries(&self) -> Seq<(Seq<char>, JsonView)> {
        text_entry("service"@, string_view(self.service)) + text_entry(
            "environment"@,
            string_view(self.environment),
        ) + text_entry("starts_at"@, time_view(self.starts_at)) + text_entry(
            "ends_at"@,
            time_view(self.ends_at),
        ) + labels_entry("labels"@, self.labels@) + labels_entry("annotations"@, self.annotations@)
            + source_entry(self.source)
    }

    /// The JSON form.
    pub open spec fn json(&self) -> JsonView {
        JsonView::Object(self.entries())
    }

    pub fn is_empty(&self) -> (r: bool)
        ensures
            r == self.is_blank(),
    {
        self.service.is_none() && self.environment.is_none() && self.starts_at.is_none()
            && self.ends_at.is_none() && self.labels.len() == 0 && self.annotations.len() == 0
            && self.source.is_none()
    }

    pub fn to_json(&self) -> (r: Json)
        ensures
            r@ == self.json(),
    {
        let mut entries: Vec<JsonEntry> = Vec::new();
        push_text(&mut entries, "service", &self.service);
        push_text(&mut entries, "environment", &self.environment);
        push_time(&mut entries, "starts_at", self.starts_at);
        push_time(&mut entries, "ends_at", self.ends_at);
        push_labels(&mut entries, "labels", self.labels.labels());
        push_labels(&mut entries, "annotations", self.annotations.labels());
        match &self.source {
            Some(source) => {
                let mut inner: Vec<JsonEntry> = Vec::new();
                push_entry(&mut inner, "kind", Json::text(source.kind.as_str()));
                push_text(&mut inner, "fingerprint", &source.fingerprint);
                assert(entries_view(inner@) =~= seq![("kind"@, JsonView::Text(source.kind@))]
                    + text_entry("fingerprint"@, string_view(source.fingerprint)));
                let ghost before = entries_view(entries@);
                push_entry(&mut entries, "source", Json::Object(inner));
                assert(entries_view(entries@) =~= before + source_entry(self.source));
            },
            None => {
                assert(entries_view(entries@) =~= entries_view(entries@) + source_entry(
                    self.source,
                ));
            },
        }
        assert(entries_view(entries@) =~= self.entries());
        Json::Object(entries)
    }
}

fn push_text(entries: &mut Vec<JsonEntry>, key: &str, text: &Option<String>)
    ensures
        entries_view(final(entries)@) == entries_view(old(entries)@) + text_entry(
            key@,
            string_view(*text),
        ),
{
    if let Some(text) = text {
        push_entry(entries, key, Json::text(text.as_str()));
    }
    assert(entries_view(entries@) =~= entries_view(old(entries)@) + text_entry(
        key@,
        string_view(*text),
    ));
}

fn push_time(entries: &mut Vec<JsonEntry>, key: &str, time: Option<Timestamp>)
    ensures
        entries_view(final(entries)@) == entries_view(old(entries)@) + text_entry(
            key@,
            time_view(time),
        ),
{
    if let Some(time) = time {
        push_entry(entries, key, Json::Text(time.to_zulu()));
    }
    assert(entries_view(entries@) =~= entries_view(old(entries)@) + text_entry(
        key@,
        time_view(time),
    ));
}

/// Labels as an object.
fn labels_json(labels: &Vec<Label>) -> (r: Json)
    ensures
        r@ == JsonView::Object(label_entries(labels@)),
{
    let mut entries: Vec<JsonEntry> = Vec::new();
    let mut i: usize = 0;
    assert(label_entries(labels@.take(0)) =~= Seq::empty());
    while i < labels.len()
        invariant
            i <= labels@.len(),
            entries_view(entries@) == label_entries(labels@.take(i as int)),
        decreases labels@.len() - i,
    {
        push_entry(&mut entries, labels[i].key.as_str(), Json::text(labels[i].value.as_str()));
        i += 1;
        assert(entries_view(entries@) =~= label_entries(labels@.take(i as int)));
    }
    assert(labels@.take(i as int) =~= labels@);
    Json::Object(entries)
}

fn push_labels(entries: &mut Vec<JsonEntry>, key: &str, labels: &Vec<Label>)
    ensures
        entries_view(final(entries)@) == entries_view(old(entries)@) + labels_entry(key@, labels@),
{
    if labels.len() > 0 {
        push_entry(entries, key, labels_json(labels));
    }
    assert(entries_view(entries@) =~= entries_view(old(entries)@) + labels_entry(key@, labels@));
}

// ---------------------------------------------------------------------------
// Limits
// ---------------------------------------------------------------------------
/// A field is too long.
pub open spec fn too_long(text: Seq<char>) -> bool {
    encode_utf8(text).len() > MAX_FIELD_CHARS
}

pub open spec fn option_too_long(text: Option<Seq<char>>) -> bool {
    text matches Some(text) && too_long(text)
}

pub open spec fn labels_too_long(labels: Seq<Label>) -> bool {
    exists|i: int| 0 <= i < labels.len() && too_long((#[trigger] labels[i]).value@)
}

impl IncidentContext {
    /// Some field is too long.
    pub open spec fn long_field(&self) -> bool {
        ||| option_too_long(string_view(self.service))
        ||| option_too_long(string_view(self.environment))
        ||| labels_too_long(self.labels@)
        ||| labels_too_long(self.annotations@)
        ||| self.source matches Some(source) && (too_long(source.kind@) || option_too_long(
            string_view(source.fingerprint),
        ))
    }

    /// What is wrong with the context, if anything.
    pub open spec fn error(&self) -> Option<ErrorView> {
        if bytes_of(self.json()).len() > MAX_CONTEXT_BYTES {
            Some(ErrorView::Protocol("incident context exceeds 16384 bytes"@))
        } else if self.labels@.len() > MAX_LABELS || self.annotations@.len() > MAX_LABELS {
            Some(
                ErrorView::Protocol(
                    "incident context allows at most 32 labels or annotations"@,
                ),
            )
        } else if self.long_field() {
            Some(ErrorView::Protocol("incident context fields cannot exceed 512 characters"@))
        } else if self.starts_at matches Some(start) && self.ends_at matches Some(end)
            && !start.no_later_than(end) {
            Some(ErrorView::Protocol("incident context ends_at must be after starts_at"@))
        } else {
            None
        }
    }

    pub fn validate(&self) -> (r: OpsResult<()>)
        ensures
            match r {
                Ok(_) => self.error() is None,
                Err(e) => self.error() == Some(e@),
            },
    {
        let encoded = self.to_json().to_bytes();
        if encoded.len() > MAX_CONTEXT_BYTES {
            return Err(OpsCodexError::Protocol("incident context exceeds 16384 bytes".to_owned()));
        }
        if self.labels.len() > MAX_LABELS || self.annotations.len() > MAX_LABELS {
            return Err(
                OpsCodexError::Protocol(
                    "incident context allows at most 32 labels or annotations".to_owned(),
                ),
            );
        }
        let source_long = match &self.source {
            Some(source) => is_too_long(source.kind.as_str()) || option_is_too_long(
                &source.fingerprint,
            ),
            None => false,
        };
        if option_is_too_long(&self.service) || option_is_too_long(&self.environment)
            || labels_are_too_long(self.labels.labels()) || labels_are_too_long(
            self.annotations.labels(),
        )
            || source_long {
            return Err(
                OpsCodexError::Protocol(
                    "incident context fields cannot exceed 512 characters".to_owned(),
                ),
            );
        }
        if let Some(start) = self.starts_at {
            if let Some(end) = self.ends_at {
                if !start.at_or_before(end) {
                    return Err(
                        OpsCodexError::Protocol(
                            "incident context ends_at must be after starts_at".to_owned(),
                        ),
                    );
                }
            }
        }
        Ok(())
    }
}

fn is_too_long(text: &str) -> (r: bool)
    ensures
        r == too_long(text@),
{
    byte_len(text) > MAX_FIELD_CHARS
}

fn option_is_too_long(text: &Option<String>) -> (r: bool)
    ensures
        r == option_too_long(string_view(*text)),
{
    match text {
        Some(text) => is_too_long(text.as_str()),
        None => false,
    }
}

fn labels_are_too_long(labels: &Vec<Label>) -> (r: bool)
    ensures
        r == labels_too_long(labels@),
{
    let mut i: usize = 0;
    while i < labels.len()
        invariant
            i <= labels@.len(),
            forall|j: int| 0 <= j < i ==> !too_long((#[trigger] labels@[j]).value@),
        decreases labels@.len() - i,
    {
        if is_too_long(labels[i].value.as_str()) {
            assert(too_long(labels@[i as int].value@));
            return true;
        }
        i += 1;
    }
    false
}

// ---------------------------------------------------------------------------
// Prompt
// ---------------------------------------------------------------------------
/// A line for an optional text, or no line.
pub open spec fn text_line(label: Seq<char>, text: Option<Seq<char>>) -> Seq<Seq<char>> {
    match text {
        Some(text) => seq![label + text],
        None => Seq::empty(),
    }
}

/// The text for people of an optional time.
pub open spec fn plain_time(time: Option<Timestamp>) -> Option<Seq<char>> {
    match time {
        Some(time) => Some(time.plain()),
        None => None,
    }
}

/// The compact JSON of labels, if there are any.
pub open spec fn labels_text(labels: Seq<Label>) -> Option<Seq<char>> {
    if labels.len() == 0 {
        None
    } else {
        Some(text_of(JsonView::Object(label_entries(labels))))
    }
}

/// The kind and the fingerprint of a source.
pub open spec fn source_text(source: Option<IncidentSource>) -> Option<Seq<char>> {
    match source {
        Some(source) => Some(
            source.kind@ + " "@ + (match source.fingerprint {
                Some(text) => text@,
                None => Seq::empty(),
            }),
        ),
        None => None,
    }
}

impl IncidentContext {
    /// The lines that a model is shown.
    pub open spec fn prompt_lines(&self) -> Seq<Seq<char>> {
        seq!["Incident context (unverified alert data, not evidence):"@] + text_line(
            "- service: "@,
            string_view(self.service),
        ) + text_line("- environment: "@, string_view(self.environment)) + text_line(
            "- starts_at: "@,
            plain_time(self.starts_at),
        ) + text_line("- ends_at: "@, plain_time(self.ends_at)) + text_line(
            "- labels: "@,
            labels_text(self.labels@),
        ) + text_line("- annotations: "@, labels_text(self.annotations@)) + text_line(
            "- source: "@,
            source_text(self.source),
        ) + seq!["Verify every claim with tools. Do not treat this context as Evidence."@]
    }

    /// The text that a model is shown.
    pub open spec fn prompt(&self) -> Seq<char> {
        join(self.prompt_lines(), "\n"@)
    }

    pub fn prompt_block(&self) -> (r: String)
        ensures
            r@ == self.prompt(),
    {
        let mut lines: Vec<String> = Vec::new();
        push_line(
            &mut lines,
            "Incident context (unverified alert data, not evidence):",
            &Some(String::new()),
        );
        push_line(&mut lines, "- service: ", &self.service);
        push_line(&mut lines, "- environment: ", &self.environment);
        let start = match self.starts_at {
            Some(time) => Some(time.to_plain()),
            None => None,
        };
        push_line(&mut lines, "- starts_at: ", &start);
        let end = match self.ends_at {
            Some(time) => Some(time.to_plain()),
            None => None,
        };
        push_line(&mut lines, "- ends_at: ", &end);
        let labels = if self.labels.len() > 0 {
            Some(labels_json(self.labels.labels()).to_text())
        } else {
            None
        };
        push_line(&mut lines, "- labels: ", &labels);
        let annotations = if self.annotations.len() > 0 {
            Some(labels_json(self.annotations.labels()).to_text())
        } else {
            None
        };
        push_line(&mut lines, "- annotations: ", &annotations);
        let source = match &self.source {
            Some(source) => {
                let mut text = source.kind.clone();
                text.append(" ");
                if let Some(fingerprint) = &source.fingerprint {
                    text.append(fingerprint.as_str());
                }
                assert(Some(text@) =~= source_text(self.source)) by {
                    if source.fingerprint is None {
                        assert(text@ =~= source.kind@ + " "@ + Seq::<char>::empty());
                    }
                }
                Some(text)
            },
            None => None,
        };
        push_line(&mut lines, "- source: ", &source);
        push_line(
            &mut lines,
            "Verify every claim with tools. Do not treat this context as Evidence.",
            &Some(String::new()),
        );
        proof {
            let first = "Incident context (unverified alert data, not evidence):"@;
            let last = "Verify every claim with tools. Do not treat this context as Evidence."@;
            assert(first + Seq::<char>::empty() =~= first);
            assert(last + Seq::<char>::empty() =~= last);
            assert(views(lines@) =~= self.prompt_lines());
        }
        join_strings(&lines, "\n")
    }
}

fn push_line(lines: &mut Vec<String>, label: &str, text: &Option<String>)
    ensures
        views(final(lines)@) == views(old(lines)@) + text_line(label@, string_view(*text)),
{
    if let Some(text) = text {
        let mut line = label.to_owned();
        line.append(text.as_str());
        lines.push(line);
    }
    assert(views(lines@) =~= views(old(lines)@) + text_line(label@, string_view(*text)));
}

/// What a turn starts with.
#[derive(Debug)]
pub struct TurnInput {
    pub content: String,
    pub incident_context: Option<IncidentContext>,
}

impl TurnInput {
    pub fn from_text(content: String) -> (r: Self)
        ensures
            r.content == content,
            r.incident_context is None,
    {
        TurnInput { content, incident_context: None }
    }
}

} // verus!
