//! The envelope in which an event is kept and delivered, and its JSON form.
use vstd::prelude::*;

use crate::json::{
    entries_view, lemma_entries_view, lookup, option_view, optional_entry, push_entry,
    push_optional, text_of,
    Json, JsonEntry, JsonView, NumberView,
};
use crate::runtime::event::{
    one_entry, put, stream_kind_for, EventView, RuntimeEvent, StreamKind,
};
use crate::runtime::thread::{EventId, ItemId, ThreadId, TurnId, WorkspaceId};
use crate::text::{decimal, decimal_of, same};
use crate::time::{lemma_timestamp_parts, ordinary, time_from_json, timestamp_at, Timestamp};
use crate::uuid_text::{name_uuid, read_json_uuid, uuid_from_json, uuid_text, uuid_v5};
use vstd::utf8::encode_utf8;

verus! {

pub const EVENT_SCHEMA_VERSION: u32 = 2;

/// The namespace of the identifiers of events that were written without one.
pub const V1_EVENT_NAMESPACE: u128 = 0x7c3d2e91_5a4b_4f6c_8d1e_0a9b8c7d6e5f;

#[derive(Debug)]
pub struct EventEnvelope {
    pub schema_version: u32,
    pub stream_kind: StreamKind,
    pub event_id: EventId,
    pub seq: u64,
    pub workspace_id: WorkspaceId,
    pub thread_id: ThreadId,
    pub turn_id: Option<TurnId>,
    pub item_id: Option<ItemId>,
    pub causation_id: Option<EventId>,
    pub timestamp: Timestamp,
    pub event: RuntimeEvent,
}

/// What an envelope says.
pub struct EnvelopeView {
    pub schema_version: u32,
    pub stream_kind: StreamKind,
    pub event_id: EventId,
    pub seq: u64,
    pub workspace_id: Seq<char>,
    pub thread_id: ThreadId,
    pub turn_id: Option<TurnId>,
    pub item_id: Option<ItemId>,
    pub causation_id: Option<EventId>,
    pub timestamp: Timestamp,
    pub event: EventView,
}

impl EventEnvelope {
    pub open spec fn view(&self) -> EnvelopeView {
        EnvelopeView {
            schema_version: self.schema_version,
            stream_kind: self.stream_kind,
            event_id: self.event_id,
            seq: self.seq,
            workspace_id: self.workspace_id@,
            thread_id: self.thread_id,
            turn_id: self.turn_id,
            item_id: self.item_id,
            causation_id: self.causation_id,
            timestamp: self.timestamp,
            event: self.event@,
        }
    }
}

/// What the envelopes of a log say.
pub open spec fn log_view(events: Seq<EventEnvelope>) -> Seq<EnvelopeView> {
    events.map_values(|envelope: EventEnvelope| envelope@)
}

impl Clone for EventEnvelope {
    fn clone(&self) -> (r: Self)
        ensures
            r@ == self@,
    {
        EventEnvelope {
            schema_version: self.schema_version,
            stream_kind: self.stream_kind,
            event_id: self.event_id,
            seq: self.seq,
            workspace_id: self.workspace_id.clone(),
            thread_id: self.thread_id,
            turn_id: self.turn_id,
            item_id: self.item_id,
            causation_id: self.causation_id,
            timestamp: self.timestamp,
            event: self.event.clone(),
        }
    }
}

/// The envelope of a new event: it is of the current schema and in the default
/// workspace, and its stream follows from the event.
pub open spec fn fresh_envelope(
    seq: u64,
    thread_id: ThreadId,
    turn_id: Option<TurnId>,
    item_id: Option<ItemId>,
    causation_id: Option<EventId>,
    event: EventView,
    event_id: EventId,
    now: Timestamp,
) -> EnvelopeView {
    EnvelopeView {
        schema_version: EVENT_SCHEMA_VERSION,
        stream_kind: event.stream_kind(),
        event_id,
        seq,
        workspace_id: "default"@,
        thread_id,
        turn_id,
        item_id,
        causation_id,
        timestamp: now,
        event,
    }
}

impl EventEnvelope {
    /// Wraps an event. The identifier and the time are the caller's.
    pub fn new(
        seq: u64,
        thread_id: ThreadId,
        turn_id: Option<TurnId>,
        event: RuntimeEvent,
        event_id: EventId,
        now: Timestamp,
    ) -> (r: Self)
        ensures
            r@ == fresh_envelope(seq, thread_id, turn_id, None, None, event@, event_id, now),
    {
        Self::with_causation(seq, thread_id, turn_id, None, None, event, event_id, now)
    }

    pub fn with_causation(
        seq: u64,
        thread_id: ThreadId,
        turn_id: Option<TurnId>,
        item_id: Option<ItemId>,
        causation_id: Option<EventId>,
        event: RuntimeEvent,
        event_id: EventId,
        now: Timestamp,
    ) -> (r: Self)
        ensures
            r@ == fresh_envelope(
                seq,
                thread_id,
                turn_id,
                item_id,
                causation_id,
                event@,
                event_id,
                now,
            ),
    {
        EventEnvelope {
            schema_version: EVENT_SCHEMA_VERSION,
            stream_kind: stream_kind_for(&event),
            event_id,
            seq,
            workspace_id: WorkspaceId::default(),
            thread_id,
            turn_id,
            item_id,
            causation_id,
            timestamp: now,
            event,
        }
    }

    pub fn with_workspace(self, workspace_id: WorkspaceId) -> (r: Self)
        ensures
            r@ == (EnvelopeView { workspace_id: workspace_id@, ..self@ }),
    {
        EventEnvelope { workspace_id, ..self }
    }
}

// ---------------------------------------------------------------------------
// Writing
// ---------------------------------------------------------------------------
/// An optional identifier as an optional value.
pub open spec fn optional_id(value: Option<u128>) -> Option<JsonView> {
    match value {
        Some(value) => Some(JsonView::Text(uuid_text(value))),
        None => None,
    }
}

pub open spec fn turn_value(id: Option<TurnId>) -> Option<u128> {
    match id {
        Some(id) => Some(id.value),
        None => None,
    }
}

pub open spec fn item_value(id: Option<ItemId>) -> Option<u128> {
    match id {
        Some(id) => Some(id.value),
        None => None,
    }
}

pub open spec fn event_value(id: Option<EventId>) -> Option<u128> {
    match id {
        Some(id) => Some(id.value),
        None => None,
    }
}

impl EnvelopeView {
    /// The entries of the JSON form. The name of the event stands beside the
    /// event, and identifiers that are not there are left out.
    pub open spec fn entries(self) -> Seq<(Seq<char>, JsonView)> {
        one_entry("schema_version"@, JsonView::Number(NumberView::PosInt(self.schema_version as u64)))
            + one_entry("stream_kind"@, JsonView::Text(self.stream_kind.name()))
            + one_entry("event_id"@, JsonView::Text(self.event_id.text()))
            + one_entry("seq"@, JsonView::Number(NumberView::PosInt(self.seq)))
            + one_entry("workspace_id"@, JsonView::Text(self.workspace_id))
            + one_entry("thread_id"@, JsonView::Text(self.thread_id.text()))
            + optional_entry("turn_id"@, optional_id(turn_value(self.turn_id)))
            + optional_entry("item_id"@, optional_id(item_value(self.item_id)))
            + optional_entry("causation_id"@, optional_id(event_value(self.causation_id)))
            + one_entry("timestamp"@, JsonView::Text(self.timestamp.zulu()))
            + one_entry("type"@, JsonView::Text(self.event.name()))
            + one_entry("event"@, self.event.json())
    }

    /// The JSON form.
    pub open spec fn json(self) -> JsonView {
        JsonView::Object(self.entries())
    }
}

impl EventEnvelope {
    /// The envelope as a JSON object.
    pub fn to_json(&self) -> (r: Json)
        ensures
            r@ == self@.json(),
    {
        let mut entries: Vec<JsonEntry> = Vec::new();
        push_entry(&mut entries, "schema_version", Json::number(self.schema_version as u64));
        assert(entries_view(entries@) =~= one_entry(
            "schema_version"@,
            JsonView::Number(NumberView::PosInt(self.schema_version as u64)),
        ));
        put(&mut entries, "stream_kind", Json::text(self.stream_kind.as_str()));
        put(&mut entries, "event_id", Json::Text(self.event_id.to_string()));
        put(&mut entries, "seq", Json::number(self.seq));
        put(&mut entries, "workspace_id", Json::text(self.workspace_id.as_str()));
        put(&mut entries, "thread_id", Json::Text(self.thread_id.to_string()));
        let turn_id = match self.turn_id {
            Some(id) => Some(Json::Text(id.to_string())),
            None => None,
        };
        push_optional(&mut entries, "turn_id", turn_id);
        let item_id = match self.item_id {
            Some(id) => Some(Json::Text(id.to_string())),
            None => None,
        };
        push_optional(&mut entries, "item_id", item_id);
        let causation_id = match self.causation_id {
            Some(id) => Some(Json::Text(id.to_string())),
            None => None,
        };
        push_optional(&mut entries, "causation_id", causation_id);
        put(&mut entries, "timestamp", Json::Text(self.timestamp.to_zulu()));
        put(&mut entries, "type", Json::text(self.event.event_name()));
        put(&mut entries, "event", self.event.to_json());
        Json::Object(entries)
    }
}

// ---------------------------------------------------------------------------
// Reading
// ---------------------------------------------------------------------------
/// The key belongs to the envelope, not to the event.
pub open spec fn envelope_key(key: Seq<char>) -> bool {
    ||| key == "schema_version"@
    ||| key == "stream_kind"@
    ||| key == "event_id"@
    ||| key == "seq"@
    ||| key == "workspace_id"@
    ||| key == "thread_id"@
    ||| key == "turn_id"@
    ||| key == "item_id"@
    ||| key == "causation_id"@
    ||| key == "timestamp"@
    ||| key == "event"@
}

fn is_envelope_key(key: &str) -> (r: bool)
    ensures
        r == envelope_key(key@),
{
    same(key, "schema_version") || same(key, "stream_kind") || same(key, "event_id") || same(key, "seq") || same(key, "workspace_id") || same(key, "thread_id") || same(key, "turn_id") || same(key, "item_id") || same(key, "causation_id") || same(key, "timestamp") || same(key, "event")
}

/// The document that holds the event: the object under `event`, or, in an older
/// log, the other entries of the envelope.
pub open spec fn payload(value: JsonView) -> JsonView {
    match value.get("event"@) {
        Some(JsonView::Object(entries)) => JsonView::Object(entries),
        _ => JsonView::Object(
            match value {
                JsonView::Object(entries) => entries.filter(
                    |entry: (Seq<char>, JsonView)| !envelope_key(entry.0),
                ),
                _ => Seq::empty(),
            },
        ),
    }
}

/// The document to read the event from.
pub fn event_payload(value: &Json) -> (r: Json)
    ensures
        r@ == payload(value@),
{
    if let Some(found) = value.get("event") {
        if let Json::Object(_) = found {
            return found.clone();
        }
    }
    let mut kept: Vec<JsonEntry> = Vec::new();
    if let Json::Object(entries) = value {
        let ghost keep = |entry: (Seq<char>, JsonView)| !envelope_key(entry.0);
        let ghost whole = entries_view(entries@);
        proof {
            lemma_entries_view(entries@);
        }
        let mut i: usize = 0;
        assert(whole.take(0).filter(keep) =~= Seq::empty()) by {
            reveal(Seq::filter);
        }
        while i < entries.len()
            invariant
                i <= entries@.len(),
                whole == entries_view(entries@),
                whole.len() == entries@.len(),
                forall|k: int|
                    0 <= k < entries@.len() ==> #[trigger] whole[k] == (
                        entries@[k].key@,
                        entries@[k].value@,
                    ),
                keep == |entry: (Seq<char>, JsonView)| !envelope_key(entry.0),
                entries_view(kept@) == whole.take(i as int).filter(keep),
            decreases entries@.len() - i,
        {
            proof {
                reveal(Seq::filter);
                assert(whole.take(i + 1).drop_last() =~= whole.take(i as int));
                assert(whole.take(i + 1).last() == whole[i as int]);
            }
            if !is_envelope_key(entries[i].key.as_str()) {
                push_entry(&mut kept, entries[i].key.as_str(), entries[i].value.clone());
            }
            i += 1;
        }
        assert(whole.take(i as int) =~= whole);
    }
    Json::Object(kept)
}

/// What is read of an identifier that may stand there.
pub open spec fn named_id(found: Option<JsonView>) -> Option<Result<u128, Seq<char>>> {
    match found {
        None => None,
        Some(value) => Some(uuid_from_json(text_of(value))),
    }
}

/// What is read of an identifier that may stand there, or that may be null.
pub open spec fn nullable_id(found: Option<JsonView>) -> Option<Result<u128, Seq<char>>> {
    match found {
        None => None,
        Some(JsonView::Null) => None,
        Some(value) => Some(uuid_from_json(text_of(value))),
    }
}

/// What is read of a time that may stand there.
pub open spec fn named_time(found: Option<JsonView>) -> Option<Result<Timestamp, Seq<char>>> {
    match found {
        None => None,
        Some(value) => Some(
            match time_from_json(text_of(value)) {
                Ok(parts) => Ok(timestamp_at(parts.0, parts.1)),
                Err(e) => Err(e),
            },
        ),
    }
}

/// The identifiers and the time of an envelope, as they were read.
pub struct FieldsView {
    pub thread: Option<Result<u128, Seq<char>>>,
    pub turn: Option<Result<u128, Seq<char>>>,
    pub item: Option<Result<u128, Seq<char>>>,
    pub cause: Option<Result<u128, Seq<char>>>,
    pub event: Option<Result<u128, Seq<char>>>,
    pub time: Option<Result<Timestamp, Seq<char>>>,
}

/// The identifiers and the time that a document holds.
pub open spec fn fields_of(value: JsonView) -> FieldsView {
    FieldsView {
        thread: named_id(value.get("thread_id"@)),
        turn: nullable_id(value.get("turn_id"@)),
        item: nullable_id(value.get("item_id"@)),
        cause: nullable_id(value.get("causation_id"@)),
        event: named_id(value.get("event_id"@)),
        time: named_time(value.get("timestamp"@)),
    }
}

/// The identifiers and the time of an envelope, as they were read.
#[derive(Debug)]
pub struct EnvelopeFields {
    pub thread: Option<Result<u128, String>>,
    pub turn: Option<Result<u128, String>>,
    pub item: Option<Result<u128, String>>,
    pub cause: Option<Result<u128, String>>,
    pub event: Option<Result<u128, String>>,
    pub time: Option<Result<Timestamp, String>>,
}

pub open spec fn read_view<T>(r: Option<Result<T, String>>) -> Option<Result<T, Seq<char>>> {
    match r {
        None => None,
        Some(Ok(value)) => Some(Ok(value)),
        Some(Err(e)) => Some(Err(e@)),
    }
}

impl EnvelopeFields {
    pub open spec fn view(&self) -> FieldsView {
        FieldsView {
            thread: read_view(self.thread),
            turn: read_view(self.turn),
            item: read_view(self.item),
            cause: read_view(self.cause),
            event: read_view(self.event),
            time: read_view(self.time),
        }
    }
}

/// The identifier of an event that was written without one.
pub open spec fn v1_id(thread_id: ThreadId, seq: u64) -> EventId {
    EventId {
        value: uuid_v5(
            V1_EVENT_NAMESPACE,
            encode_utf8(thread_id.text() + ":"@ + decimal(seq as nat)),
        ),
    }
}

pub fn v1_event_id(thread_id: &ThreadId, seq: u64) -> (r: EventId)
    ensures
        r == v1_id(*thread_id, seq),
{
    let mut name = thread_id.to_string();
    name.append(":");
    name.append(decimal_of(seq).as_str());
    EventId::from_uuid(name_uuid(V1_EVENT_NAMESPACE, name.as_str().as_bytes()))
}

/// The identifiers that an envelope may do without: those of the turn, of the
/// item and of the cause.
pub open spec fn optional_ids(fields: FieldsView) -> Result<
    (Option<TurnId>, Option<ItemId>, Option<EventId>),
    Seq<char>,
> {
    match fields.turn {
        Some(Err(e)) => Err(e),
        turn => match fields.item {
            Some(Err(e)) => Err(e),
            item => match fields.cause {
                Some(Err(e)) => Err(e),
                cause => Ok(
                    (
                        match turn {
                            Some(Ok(value)) => Some(TurnId { value }),
                            _ => None,
                        },
                        match item {
                            Some(Ok(value)) => Some(ItemId { value }),
                            _ => None,
                        },
                        match cause {
                            Some(Ok(value)) => Some(EventId { value }),
                            _ => None,
                        },
                    ),
                ),
            },
        },
    }
}

/// The time of an envelope: the present where none is written.
pub open spec fn time_field(fields: FieldsView, now: Timestamp) -> Result<Timestamp, Seq<char>> {
    match fields.time {
        None => Ok(now),
        Some(time) => time,
    }
}

/// The thread of an envelope.
pub open spec fn thread_field(fields: FieldsView) -> Result<ThreadId, Seq<char>> {
    match fields.thread {
        None => Err("event envelope missing thread_id"@),
        Some(Ok(value)) => Ok(ThreadId { value }),
        Some(Err(e)) => Err(e),
    }
}

/// The identifier of an envelope: one that follows from its place in the
/// thread where none is written.
pub open spec fn event_id_field(fields: FieldsView, thread_id: ThreadId, seq: u64) -> Result<
    EventId,
    Seq<char>,
> {
    match fields.event {
        None => Ok(v1_id(thread_id, seq)),
        Some(Ok(value)) => Ok(EventId { value }),
        Some(Err(e)) => Err(e),
    }
}

/// The version of the schema: the first where none is written.
pub open spec fn version_field(value: JsonView) -> u32 {
    match value.u64_at("schema_version"@) {
        Some(n) => n as u32,
        None => 1,
    }
}

/// The workspace: the default one where none is written.
pub open spec fn workspace_field(value: JsonView) -> Seq<char> {
    match value.text_at("workspace_id"@) {
        Some(name) => name,
        None => "default"@,
    }
}

/// The stream: that of the event where none is written.
pub open spec fn kind_field(
    value: JsonView,
    written: Result<StreamKind, Seq<char>>,
    event: EventView,
) -> Result<StreamKind, Seq<char>> {
    if value.get("stream_kind"@) is Some {
        written
    } else {
        Ok(event.stream_kind())
    }
}

/// What a document says as an envelope, or the first thing wrong with it.
/// `event` is what the payload holds, and `written` what stands under
/// `stream_kind`.
pub open spec fn envelope_of(
    value: JsonView,
    event: Result<EventView, Seq<char>>,
    written: Result<StreamKind, Seq<char>>,
    now: Timestamp,
) -> Result<EnvelopeView, Seq<char>> {
    assembled(value, fields_of(value), event, written, now)
}

/// What a document says as an envelope, when `fields` is what was read of its
/// identifiers and its time.
pub open spec fn assembled(
    value: JsonView,
    fields: FieldsView,
    event: Result<EventView, Seq<char>>,
    written: Result<StreamKind, Seq<char>>,
    now: Timestamp,
) -> Result<EnvelopeView, Seq<char>> {
    if !(value is Object) {
        Err("event envelope must be an object"@)
    } else {
        match value.u64_at("seq"@) {
            None => Err("event envelope missing seq"@),
            Some(seq) => match thread_field(fields) {
                Err(e) => Err(e),
                Ok(thread_id) => match optional_ids(fields) {
                    Err(e) => Err(e),
                    Ok(ids) => match time_field(fields, now) {
                        Err(e) => Err(e),
                        Ok(timestamp) => match event {
                            Err(e) => Err(e),
                            Ok(event) => match kind_field(value, written, event) {
                                Err(e) => Err(e),
                                Ok(stream_kind) => match event_id_field(fields, thread_id, seq) {
                                    Err(e) => Err(e),
                                    Ok(event_id) => Ok(
                                        EnvelopeView {
                                            schema_version: version_field(value),
                                            stream_kind,
                                            event_id,
                                            seq,
                                            workspace_id: workspace_field(value),
                                            thread_id,
                                            turn_id: ids.0,
                                            item_id: ids.1,
                                            causation_id: ids.2,
                                            timestamp,
                                            event,
                                        },
                                    ),
                                },
                            },
                        },
                    },
                },
            },
        }
    }
}

pub open spec fn event_result(r: Result<RuntimeEvent, String>) -> Result<EventView, Seq<char>> {
    match r {
        Ok(event) => Ok(event@),
        Err(e) => Err(e@),
    }
}

pub open spec fn kind_result(r: Result<StreamKind, String>) -> Result<StreamKind, Seq<char>> {
    match r {
        Ok(kind) => Ok(kind),
        Err(e) => Err(e@),
    }
}

/// A document that an envelope writes, read with the event and the stream that
/// it holds, gives the envelope back.
pub open spec fn gives_back(
    value: JsonView,
    event: Result<EventView, Seq<char>>,
    written: Result<StreamKind, Seq<char>>,
    r: Result<EventEnvelope, String>,
) -> bool {
    forall|e: EnvelopeView|
        value == #[trigger] e.json() && ordinary(
            e.timestamp.whole_seconds(),
            e.timestamp.subsecond(),
        ) && event == Ok::<EventView, Seq<char>>(e.event) && written == Ok::<
            StreamKind,
            Seq<char>,
        >(e.stream_kind) ==> r is Ok && r->Ok_0@ == e
}

fn read_id(found: Option<&Json>) -> (r: Option<Result<u128, String>>)
    ensures
        read_view(r) == named_id(option_view(found)),
        forall|id: u128|
            option_view(found) == Some(JsonView::Text(#[trigger] uuid_text(id))) ==> r == Some(
                Ok::<u128, String>(id),
            ),
{
    match found {
        None => None,
        Some(value) => Some(read_json_uuid(value.to_text().as_str())),
    }
}

fn read_nullable_id(found: Option<&Json>) -> (r: Option<Result<u128, String>>)
    ensures
        read_view(r) == nullable_id(option_view(found)),
        forall|id: u128|
            option_view(found) == Some(JsonView::Text(#[trigger] uuid_text(id))) ==> r == Some(
                Ok::<u128, String>(id),
            ),
{
    match found {
        None => None,
        Some(Json::Null) => None,
        Some(value) => Some(read_json_uuid(value.to_text().as_str())),
    }
}

fn read_time(found: Option<&Json>) -> (r: Option<Result<Timestamp, String>>)
    ensures
        read_view(r) == named_time(option_view(found)),
        forall|time: Timestamp|
            ordinary(time.whole_seconds(), time.subsecond()) && option_view(found) == Some(
                JsonView::Text(#[trigger] time.zulu()),
            ) ==> r == Some(Ok::<Timestamp, String>(time)),
{
    match found {
        None => None,
        Some(value) => match Timestamp::from_json_text(value.to_text().as_str()) {
            Ok(time) => {
                proof {
                    lemma_timestamp_parts(time);
                }
                Some(Ok(time))
            },
            Err(e) => Some(Err(e)),
        },
    }
}

/// The fields are those that an envelope writes.
pub open spec fn fields_written(fields: FieldsView, e: EnvelopeView) -> bool {
    &&& fields.thread == Some(Ok::<u128, Seq<char>>(e.thread_id.value))
    &&& fields.turn == (match e.turn_id {
        Some(id) => Some(Ok::<u128, Seq<char>>(id.value)),
        None => None,
    })
    &&& fields.item == (match e.item_id {
        Some(id) => Some(Ok::<u128, Seq<char>>(id.value)),
        None => None,
    })
    &&& fields.cause == (match e.causation_id {
        Some(id) => Some(Ok::<u128, Seq<char>>(id.value)),
        None => None,
    })
    &&& fields.event == Some(Ok::<u128, Seq<char>>(e.event_id.value))
    &&& fields.time == Some(Ok::<Timestamp, Seq<char>>(e.timestamp))
}

/// Reads the identifiers and the time of an envelope.
pub fn read_fields(value: &Json) -> (r: EnvelopeFields)
    ensures
        r@ == fields_of(value@),
        forall|e: EnvelopeView| #[trigger]
            written_by(value@, e) && ordinary(
                e.timestamp.whole_seconds(),
                e.timestamp.subsecond(),
            ) ==> fields_written(r@, e),
{
    let fields = EnvelopeFields {
        thread: read_id(value.get("thread_id")),
        turn: read_nullable_id(value.get("turn_id")),
        item: read_nullable_id(value.get("item_id")),
        cause: read_nullable_id(value.get("causation_id")),
        event: read_id(value.get("event_id")),
        time: read_time(value.get("timestamp")),
    };
    proof {
        assert forall|e: EnvelopeView| #[trigger]
            written_by(value@, e) && ordinary(
                e.timestamp.whole_seconds(),
                e.timestamp.subsecond(),
            ) implies fields_written(fields@, e) by {
            assert(e.thread_id.text() == uuid_text(e.thread_id.value));
            assert(e.event_id.text() == uuid_text(e.event_id.value));
            if let Some(id) = e.turn_id {
                assert(id.text() == uuid_text(id.value));
            }
            if let Some(id) = e.item_id {
                assert(id.text() == uuid_text(id.value));
            }
            if let Some(id) = e.causation_id {
                assert(id.text() == uuid_text(id.value));
            }
        }
    }
    fields
}

pub open spec fn either<T>(a: Option<T>, b: Option<T>) -> Option<T> {
    match a {
        Some(a) => Some(a),
        None => b,
    }
}

proof fn lemma_lookup_joined(
    a: Seq<(Seq<char>, JsonView)>,
    b: Seq<(Seq<char>, JsonView)>,
    key: Seq<char>,
)
    ensures
        lookup(a + b, key) == either(lookup(a, key), lookup(b, key)),
    decreases a.len(),
{
    if a.len() == 0 {
        assert(a + b =~= b);
    } else {
        assert((a + b).skip(1) =~= a.skip(1) + b);
        lemma_lookup_joined(a.skip(1), b, key);
    }
}

proof fn lemma_lookup_single(name: Seq<char>, value: Option<JsonView>, key: Seq<char>)
    ensures
        lookup(optional_entry(name, value), key) == (if name == key {
            value
        } else {
            None
        }),
{
    reveal_with_fuel(lookup, 2);
}

/// The value that an envelope writes under a key.
proof fn lemma_member(e: EnvelopeView, key: Seq<char>)
    requires
        keys_differ(),
    ensures
        key == "schema_version"@ ==> lookup(e.entries(), key) == Some(JsonView::Number(NumberView::PosInt(e.schema_version as u64))),
        key == "stream_kind"@ ==> lookup(e.entries(), key) == Some(JsonView::Text(e.stream_kind.name())),
        key == "event_id"@ ==> lookup(e.entries(), key) == Some(JsonView::Text(e.event_id.text())),
        key == "seq"@ ==> lookup(e.entries(), key) == Some(JsonView::Number(NumberView::PosInt(e.seq))),
        key == "workspace_id"@ ==> lookup(e.entries(), key) == Some(JsonView::Text(e.workspace_id)),
        key == "thread_id"@ ==> lookup(e.entries(), key) == Some(JsonView::Text(e.thread_id.text())),
        key == "turn_id"@ ==> lookup(e.entries(), key) == optional_id(turn_value(e.turn_id)),
        key == "item_id"@ ==> lookup(e.entries(), key) == optional_id(item_value(e.item_id)),
        key == "causation_id"@ ==> lookup(e.entries(), key) == optional_id(event_value(e.causation_id)),
        key == "timestamp"@ ==> lookup(e.entries(), key) == Some(JsonView::Text(e.timestamp.zulu())),
        key == "type"@ ==> lookup(e.entries(), key) == Some(JsonView::Text(e.event.name())),
        key == "event"@ ==> lookup(e.entries(), key) == Some(e.event.json()),
{
    let p0 = optional_entry("schema_version"@, Some(JsonView::Number(NumberView::PosInt(e.schema_version as u64))));
    lemma_lookup_single("schema_version"@, Some(JsonView::Number(NumberView::PosInt(e.schema_version as u64))), key);
    let p1 = optional_entry("stream_kind"@, Some(JsonView::Text(e.stream_kind.name())));
    lemma_lookup_single("stream_kind"@, Some(JsonView::Text(e.stream_kind.name())), key);
    let p2 = optional_entry("event_id"@, Some(JsonView::Text(e.event_id.text())));
    lemma_lookup_single("event_id"@, Some(JsonView::Text(e.event_id.text())), key);
    let p3 = optional_entry("seq"@, Some(JsonView::Number(NumberView::PosInt(e.seq))));
    lemma_lookup_single("seq"@, Some(JsonView::Number(NumberView::PosInt(e.seq))), key);
    let p4 = optional_entry("workspace_id"@, Some(JsonView::Text(e.workspace_id)));
    lemma_lookup_single("workspace_id"@, Some(JsonView::Text(e.workspace_id)), key);
    let p5 = optional_entry("thread_id"@, Some(JsonView::Text(e.thread_id.text())));
    lemma_lookup_single("thread_id"@, Some(JsonView::Text(e.thread_id.text())), key);
    let p6 = optional_entry("turn_id"@, optional_id(turn_value(e.turn_id)));
    lemma_lookup_single("turn_id"@, optional_id(turn_value(e.turn_id)), key);
    let p7 = optional_entry("item_id"@, optional_id(item_value(e.item_id)));
    lemma_lookup_single("item_id"@, optional_id(item_value(e.item_id)), key);
    let p8 = optional_entry("causation_id"@, optional_id(event_value(e.causation_id)));
    lemma_lookup_single("causation_id"@, optional_id(event_value(e.causation_id)), key);
    let p9 = optional_entry("timestamp"@, Some(JsonView::Text(e.timestamp.zulu())));
    lemma_lookup_single("timestamp"@, Some(JsonView::Text(e.timestamp.zulu())), key);
    let p10 = optional_entry("type"@, Some(JsonView::Text(e.event.name())));
    lemma_lookup_single("type"@, Some(JsonView::Text(e.event.name())), key);
    let p11 = optional_entry("event"@, Some(e.event.json()));
    lemma_lookup_single("event"@, Some(e.event.json()), key);
    assert(e.entries() =~= p0 + p1 + p2 + p3 + p4 + p5 + p6 + p7 + p8 + p9 + p10 + p11);
    lemma_lookup_joined(p0, p1, key);
    lemma_lookup_joined(p0 + p1, p2, key);
    lemma_lookup_joined(p0 + p1 + p2, p3, key);
    lemma_lookup_joined(p0 + p1 + p2 + p3, p4, key);
    lemma_lookup_joined(p0 + p1 + p2 + p3 + p4, p5, key);
    lemma_lookup_joined(p0 + p1 + p2 + p3 + p4 + p5, p6, key);
    lemma_lookup_joined(p0 + p1 + p2 + p3 + p4 + p5 + p6, p7, key);
    lemma_lookup_joined(p0 + p1 + p2 + p3 + p4 + p5 + p6 + p7, p8, key);
    lemma_lookup_joined(p0 + p1 + p2 + p3 + p4 + p5 + p6 + p7 + p8, p9, key);
    lemma_lookup_joined(p0 + p1 + p2 + p3 + p4 + p5 + p6 + p7 + p8 + p9, p10, key);
    lemma_lookup_joined(p0 + p1 + p2 + p3 + p4 + p5 + p6 + p7 + p8 + p9 + p10, p11, key);
}

/// The keys of an envelope are different.
pub open spec fn keys_differ() -> bool {
    &&& "schema_version"@ != "stream_kind"@
    &&& "schema_version"@ != "event_id"@
    &&& "schema_version"@ != "seq"@
    &&& "schema_version"@ != "workspace_id"@
    &&& "schema_version"@ != "thread_id"@
    &&& "schema_version"@ != "turn_id"@
    &&& "schema_version"@ != "item_id"@
    &&& "schema_version"@ != "causation_id"@
    &&& "schema_version"@ != "timestamp"@
    &&& "schema_version"@ != "type"@
    &&& "schema_version"@ != "event"@
    &&& "stream_kind"@ != "event_id"@
    &&& "stream_kind"@ != "seq"@
    &&& "stream_kind"@ != "workspace_id"@
    &&& "stream_kind"@ != "thread_id"@
    &&& "stream_kind"@ != "turn_id"@
    &&& "stream_kind"@ != "item_id"@
    &&& "stream_kind"@ != "causation_id"@
    &&& "stream_kind"@ != "timestamp"@
    &&& "stream_kind"@ != "type"@
    &&& "stream_kind"@ != "event"@
    &&& "event_id"@ != "seq"@
    &&& "event_id"@ != "workspace_id"@
    &&& "event_id"@ != "thread_id"@
    &&& "event_id"@ != "turn_id"@
    &&& "event_id"@ != "item_id"@
    &&& "event_id"@ != "causation_id"@
    &&& "event_id"@ != "timestamp"@
    &&& "event_id"@ != "type"@
    &&& "event_id"@ != "event"@
    &&& "seq"@ != "workspace_id"@
    &&& "seq"@ != "thread_id"@
    &&& "seq"@ != "turn_id"@
    &&& "seq"@ != "item_id"@
    &&& "seq"@ != "causation_id"@
    &&& "seq"@ != "timestamp"@
    &&& "seq"@ != "type"@
    &&& "seq"@ != "event"@
    &&& "workspace_id"@ != "thread_id"@
    &&& "workspace_id"@ != "turn_id"@
    &&& "workspace_id"@ != "item_id"@
    &&& "workspace_id"@ != "causation_id"@
    &&& "workspace_id"@ != "timestamp"@
    &&& "workspace_id"@ != "type"@
    &&& "workspace_id"@ != "event"@
    &&& "thread_id"@ != "turn_id"@
    &&& "thread_id"@ != "item_id"@
    &&& "thread_id"@ != "causation_id"@
    &&& "thread_id"@ != "timestamp"@
    &&& "thread_id"@ != "type"@
    &&& "thread_id"@ != "event"@
    &&& "turn_id"@ != "item_id"@
    &&& "turn_id"@ != "causation_id"@
    &&& "turn_id"@ != "timestamp"@
    &&& "turn_id"@ != "type"@
    &&& "turn_id"@ != "event"@
    &&& "item_id"@ != "causation_id"@
    &&& "item_id"@ != "timestamp"@
    &&& "item_id"@ != "type"@
    &&& "item_id"@ != "event"@
    &&& "causation_id"@ != "timestamp"@
    &&& "causation_id"@ != "type"@
    &&& "causation_id"@ != "event"@
    &&& "timestamp"@ != "type"@
    &&& "timestamp"@ != "event"@
    &&& "type"@ != "event"@
}

proof fn lemma_keys_differ()
    ensures
        keys_differ(),
{
    reveal_strlit("schema_version");
    assert("schema_version"@.len() == 14);
    reveal_strlit("stream_kind");
    assert("stream_kind"@.len() == 11);
    reveal_strlit("event_id");
    assert("event_id"@.len() == 8);
    reveal_strlit("seq");
    assert("seq"@.len() == 3);
    reveal_strlit("workspace_id");
    assert("workspace_id"@.len() == 12);
    reveal_strlit("thread_id");
    assert("thread_id"@.len() == 9);
    reveal_strlit("turn_id");
    assert("turn_id"@.len() == 7);
    reveal_strlit("item_id");
    assert("item_id"@.len() == 7);
    reveal_strlit("causation_id");
    assert("causation_id"@.len() == 12);
    reveal_strlit("timestamp");
    assert("timestamp"@.len() == 9);
    reveal_strlit("type");
    assert("type"@.len() == 4);
    reveal_strlit("event");
    assert("event"@.len() == 5);
    assert("workspace_id"@[0] != "causation_id"@[0]);
    assert("thread_id"@[1] != "timestamp"@[1]);
    assert("turn_id"@[0] != "item_id"@[0]);
}

/// The document has what the envelope writes.
pub open spec fn written_by(value: JsonView, e: EnvelopeView) -> bool {
    &&& value is Object
    &&& value.u64_at("schema_version"@) == Some(e.schema_version as u64)
    &&& value.get("stream_kind"@) is Some
    &&& value.get("event_id"@) == Some(JsonView::Text(e.event_id.text()))
    &&& value.u64_at("seq"@) == Some(e.seq)
    &&& value.text_at("workspace_id"@) == Some(e.workspace_id)
    &&& value.get("thread_id"@) == Some(JsonView::Text(e.thread_id.text()))
    &&& value.get("turn_id"@) == optional_id(turn_value(e.turn_id))
    &&& value.get("item_id"@) == optional_id(item_value(e.item_id))
    &&& value.get("causation_id"@) == optional_id(event_value(e.causation_id))
    &&& value.get("timestamp"@) == Some(JsonView::Text(e.timestamp.zulu()))
}

/// An envelope that is written can be read.
pub(crate) proof fn lemma_read_back(e: EnvelopeView)
    ensures
        written_by(e.json(), e),
        payload(e.json()) == e.event.json(),
{
    lemma_keys_differ();
    lemma_member(e, "schema_version"@);
    lemma_member(e, "stream_kind"@);
    lemma_member(e, "event_id"@);
    lemma_member(e, "seq"@);
    lemma_member(e, "workspace_id"@);
    lemma_member(e, "thread_id"@);
    lemma_member(e, "turn_id"@);
    lemma_member(e, "item_id"@);
    lemma_member(e, "causation_id"@);
    lemma_member(e, "timestamp"@);
    lemma_member(e, "event"@);
}

/// The payload of an envelope that is written is the event that it holds.
pub proof fn law_payload_is_the_event(e: EnvelopeView)
    ensures
        payload(e.json()) == e.event.json(),
{
    lemma_read_back(e);
}

/// Puts an envelope together from a document and from what was read of it:
/// `fields`, `event` from the payload, and `written` from what stands under
/// `stream_kind`. Without a time of its own the envelope is of the present.
pub fn assemble(
    value: &Json,
    fields: EnvelopeFields,
    event: Result<RuntimeEvent, String>,
    written: Result<StreamKind, String>,
    now: Timestamp,
) -> (r: Result<EventEnvelope, String>)
    ensures
        match r {
            Ok(envelope) => assembled(
                value@,
                fields@,
                event_result(event),
                kind_result(written),
                now,
            ) == Ok::<EnvelopeView, Seq<char>>(envelope@),
            Err(e) => assembled(
                value@,
                fields@,
                event_result(event),
                kind_result(written),
                now,
            ) == Err::<EnvelopeView, Seq<char>>(e@),
        },
{
    if let Json::Object(_) = value {
    } else {
        return Err("event envelope must be an object".to_owned());
    }
    let schema_version = match value.u64_at("schema_version") {
        Some(n) => n as u32,
        None => 1,
    };
    let seq = match value.u64_at("seq") {
        Some(seq) => seq,
        None => return Err("event envelope missing seq".to_owned()),
    };
    let thread_id = match fields.thread {
        None => return Err("event envelope missing thread_id".to_owned()),
        Some(Ok(value)) => ThreadId { value },
        Some(Err(e)) => return Err(e),
    };
    let turn_id = match fields.turn {
        Some(Ok(value)) => Some(TurnId { value }),
        Some(Err(e)) => return Err(e),
        None => None,
    };
    let item_id = match fields.item {
        Some(Ok(value)) => Some(ItemId { value }),
        Some(Err(e)) => return Err(e),
        None => None,
    };
    let causation_id = match fields.cause {
        Some(Ok(value)) => Some(EventId { value }),
        Some(Err(e)) => return Err(e),
        None => None,
    };
    let timestamp = match fields.time {
        Some(Ok(time)) => time,
        Some(Err(e)) => return Err(e),
        None => now,
    };
    let workspace_id = match value.str_at("workspace_id") {
        Some(name) => WorkspaceId::new(name),
        None => WorkspaceId::default(),
    };
    let event = match event {
        Ok(event) => event,
        Err(e) => return Err(e),
    };
    let stream_kind = match value.get("stream_kind") {
        Some(_) => match written {
            Ok(kind) => kind,
            Err(e) => return Err(e),
        },
        None => stream_kind_for(&event),
    };
    let event_id = match fields.event {
        Some(Ok(value)) => EventId { value },
        Some(Err(e)) => return Err(e),
        None => v1_event_id(&thread_id, seq),
    };
    Ok(
        EventEnvelope {
            schema_version,
            stream_kind,
            event_id,
            seq,
            workspace_id,
            thread_id,
            turn_id,
            item_id,
            causation_id,
            timestamp,
            event,
        },
    )
}

/// Reads an envelope. The event has been read from the payload, and the stream
/// from what stands under `stream_kind`; without a time of its own the
/// envelope is of the present.
pub fn from_value(
    value: &Json,
    event: Result<RuntimeEvent, String>,
    written: Result<StreamKind, String>,
    now: Timestamp,
) -> (r: Result<EventEnvelope, String>)
    ensures
        match r {
            Ok(envelope) => envelope_of(value@, event_result(event), kind_result(written), now)
                == Ok::<EnvelopeView, Seq<char>>(envelope@),
            Err(e) => envelope_of(value@, event_result(event), kind_result(written), now) == Err::<
                EnvelopeView,
                Seq<char>,
            >(e@),
        },
        gives_back(value@, event_result(event), kind_result(written), r),
{
    proof {
        assert forall|e: EnvelopeView| value@ == #[trigger] e.json() implies written_by(value@, e) by {
            lemma_read_back(e);
        }
    }
    let fields = read_fields(value);
    assemble(value, fields, event, written, now)
}

} // verus!
