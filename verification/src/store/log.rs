//! A thread as lines of JSON, one event to a line, appended and never changed.
use vstd::prelude::*;

use crate::error::{ErrorView, OpsCodexError, OpsResult};
use crate::evidence::EvidenceMeta;
use crate::json::bytes_of;
use crate::json_law::valid;
use crate::json_line::law_document_is_one_line;
use crate::runtime::envelope::{
    fresh_envelope, log_view, EnvelopeView, EventEnvelope,
};
use crate::runtime::event::{EventView, RuntimeEvent, StreamKind};
use crate::runtime::thread::{EventId, EvidenceId, ItemId, Thread, ThreadId, TurnId, WorkspaceId};
use crate::text::{decimal, decimal_of, same};
use crate::time::Timestamp;

verus! {

pub const NEWLINE: u8 = 10;

pub const CARRIAGE_RETURN: u8 = 13;

// ---------------------------------------------------------------------------
// Lines
// ---------------------------------------------------------------------------
/// The line of an envelope.
pub open spec fn line_of(envelope: EnvelopeView) -> Seq<u8> {
    bytes_of(envelope.json()).push(NEWLINE)
}

pub fn encode_line(envelope: &EventEnvelope) -> (r: Vec<u8>)
    ensures
        r@ == line_of(envelope@),
{
    let mut bytes = envelope.to_json().to_bytes();
    bytes.push(NEWLINE);
    bytes
}

/// Lines one after the other, each with its end.
pub open spec fn unlines(lines: Seq<Seq<u8>>) -> Seq<u8>
    decreases lines.len(),
{
    if lines.len() == 0 {
        Seq::empty()
    } else {
        unlines(lines.drop_last()) + lines.last().push(NEWLINE)
    }
}

/// The bytes stand on one line.
pub open spec fn one_line(bytes: Seq<u8>) -> bool {
    !bytes.contains(NEWLINE)
}

/// The bytes are these lines, followed by bytes that no line end closes.
pub open spec fn is_frame(bytes: Seq<u8>, lines: Seq<Seq<u8>>, trailing: Seq<u8>) -> bool {
    &&& bytes == unlines(lines) + trailing
    &&& forall|i: int| 0 <= i < lines.len() ==> one_line(#[trigger] lines[i])
    &&& one_line(trailing)
}

pub open spec fn line_views(lines: Seq<Vec<u8>>) -> Seq<Seq<u8>> {
    lines.map_values(|line: Vec<u8>| line@)
}

/// A log, cut into lines.
#[derive(Debug)]
pub struct Frame {
    pub lines: Vec<Vec<u8>>,
    pub trailing: Vec<u8>,
    /// How many bytes the lines take.
    pub complete_bytes: usize,
}

/// Cuts a log into lines.
pub fn frame_log(bytes: &Vec<u8>) -> (r: Frame)
    ensures
        is_frame(bytes@, line_views(r.lines@), r.trailing@),
        r.complete_bytes == unlines(line_views(r.lines@)).len(),
{
    let mut lines: Vec<Vec<u8>> = Vec::new();
    let mut current: Vec<u8> = Vec::new();
    let mut complete_bytes: usize = 0;
    let mut i: usize = 0;
    assert(bytes@.take(0) =~= unlines(line_views(lines@)) + current@);
    while i < bytes.len()
        invariant
            i <= bytes@.len(),
            is_frame(bytes@.take(i as int), line_views(lines@), current@),
            complete_bytes == unlines(line_views(lines@)).len(),
            complete_bytes + current@.len() == i,
        decreases bytes@.len() - i,
    {
        let byte = bytes[i];
        let ghost before = line_views(lines@);
        let ghost shorter = current@;
        assert(bytes@.take(i + 1) =~= bytes@.take(i as int).push(byte));
        if byte == NEWLINE {
            complete_bytes = i + 1;
            lines.push(current);
            current = Vec::new();
            proof {
                let after = line_views(lines@);
                assert(after =~= before.push(shorter));
                assert(after.drop_last() =~= before);
                assert(unlines(after) =~= unlines(before) + shorter.push(NEWLINE));
                assert(bytes@.take(i + 1) =~= unlines(after) + current@);
                assert forall|k: int| 0 <= k < after.len() implies one_line(
                    #[trigger] after[k],
                ) by {
                    if k < before.len() {
                        assert(after[k] == before[k]);
                    }
                }
            }
        } else {
            current.push(byte);
            proof {
                assert(bytes@.take(i + 1) =~= unlines(before) + current@);
                assert(one_line(current@)) by {
                    if current@.contains(NEWLINE) {
                        let k = choose|k: int| 0 <= k < current@.len() && current@[k] == NEWLINE;
                        assert(shorter[k] == NEWLINE);
                    }
                }
            }
        }
        i += 1;
    }
    assert(bytes@.take(i as int) =~= bytes@);
    Frame { lines, trailing: current, complete_bytes }
}

/// A line without the carriage return at its end.
pub open spec fn without_return(line: Seq<u8>) -> Seq<u8> {
    if line.len() > 0 && line.last() == CARRIAGE_RETURN {
        line.drop_last()
    } else {
        line
    }
}

pub fn strip_return(line: Vec<u8>) -> (r: Vec<u8>)
    ensures
        r@ == without_return(line@),
{
    let mut line = line;
    let n: usize = line.len();
    if n > 0 && line[n - 1] == CARRIAGE_RETURN {
        line.pop();
    }
    line
}

// ---------------------------------------------------------------------------
// Reading
// ---------------------------------------------------------------------------
/// What is wrong with an envelope that follows others in a log.
pub open spec fn envelope_error(
    path: Seq<char>,
    thread_id: ThreadId,
    previous: Seq<EnvelopeView>,
    envelope: EnvelopeView,
) -> Option<ErrorView> {
    if envelope.thread_id != thread_id {
        Some(
            ErrorView::Storage(
                "thread ID mismatch in "@ + path + " at sequence "@ + decimal(envelope.seq as nat),
            ),
        )
    } else if previous.len() > 0 && previous.last().seq == u64::MAX {
        Some(ErrorView::Storage("sequence overflow while reading "@ + path))
    } else if envelope.seq != expected_seq(previous) {
        Some(
            ErrorView::Storage(
                "non-monotonic sequence in "@ + path + ": expected "@ + decimal(
                    expected_seq(previous) as nat,
                ) + ", found "@ + decimal(envelope.seq as nat),
            ),
        )
    } else if previous.len() > 0 && previous[0].workspace_id != envelope.workspace_id {
        Some(
            ErrorView::Storage(
                "workspace mismatch in "@ + path + " at sequence "@ + decimal(envelope.seq as nat),
            ),
        )
    } else {
        None
    }
}

/// The number of the event that follows.
pub open spec fn expected_seq(previous: Seq<EnvelopeView>) -> int {
    if previous.len() > 0 {
        previous.last().seq + 1
    } else {
        1
    }
}

fn at_sequence(what: &str, path: &str, seq: u64) -> (r: OpsCodexError)
    ensures
        r@ == ErrorView::Storage(
            what@ + path@ + " at sequence "@ + decimal(seq as nat),
        ),
{
    let mut message = what.to_owned();
    message.append(path);
    message.append(" at sequence ");
    message.append(decimal_of(seq).as_str());
    OpsCodexError::Storage(message)
}

fn validate_envelope(
    path: &str,
    thread_id: &ThreadId,
    previous: &Vec<EventEnvelope>,
    envelope: &EventEnvelope,
) -> (r: OpsResult<()>)
    ensures
        match r {
            Ok(_) => envelope_error(path@, *thread_id, log_view(previous@), envelope@) is None,
            Err(e) => envelope_error(path@, *thread_id, log_view(previous@), envelope@) == Some(e@),
        },
{
    if envelope.thread_id != *thread_id {
        return Err(at_sequence("thread ID mismatch in ", path, envelope.seq));
    }
    let n: usize = previous.len();
    let mut expected: u64 = 1;
    if n > 0 {
        assert(log_view(previous@).last() == previous@[n - 1]@);
        if previous[n - 1].seq == u64::MAX {
            let mut message = "sequence overflow while reading ".to_owned();
            message.append(path);
            return Err(OpsCodexError::Storage(message));
        }
        expected = previous[n - 1].seq + 1;
    }
    if envelope.seq != expected {
        let mut message = "non-monotonic sequence in ".to_owned();
        message.append(path);
        message.append(": expected ");
        message.append(decimal_of(expected).as_str());
        message.append(", found ");
        message.append(decimal_of(envelope.seq).as_str());
        return Err(OpsCodexError::Storage(message));
    }
    if n > 0 {
        assert(log_view(previous@)[0] == previous@[0]@);
        if !same(previous[0].workspace_id.as_str(), envelope.workspace_id.as_str()) {
            return Err(at_sequence("workspace mismatch in ", path, envelope.seq));
        }
    }
    Ok(())
}

/// How a log ends.
#[derive(Clone, Copy, Debug, PartialEq, Eq, Structural)]
pub enum LogTail {
    Clean,
    ValidWithoutNewline,
    Partial { valid_bytes: usize },
}

#[derive(Debug)]
pub struct ParsedLog {
    pub events: Vec<EventEnvelope>,
    pub tail: LogTail,
}

/// What a line holds.
pub open spec fn decoded(r: Result<EventEnvelope, String>) -> Result<EnvelopeView, Seq<char>> {
    match r {
        Ok(envelope) => Ok(envelope@),
        Err(e) => Err(e@),
    }
}

pub open spec fn decoded_lines(lines: Seq<Result<EventEnvelope, String>>) -> Seq<
    Result<EnvelopeView, Seq<char>>,
> {
    lines.map_values(|line: Result<EventEnvelope, String>| decoded(line))
}

/// The events of lines, or the first thing wrong with them.
pub open spec fn events_of(
    path: Seq<char>,
    thread_id: ThreadId,
    lines: Seq<Result<EnvelopeView, Seq<char>>>,
) -> Result<Seq<EnvelopeView>, ErrorView>
    decreases lines.len(),
{
    if lines.len() == 0 {
        Ok(Seq::empty())
    } else {
        match events_of(path, thread_id, lines.drop_last()) {
            Err(e) => Err(e),
            Ok(previous) => match lines.last() {
                Err(e) => Err(
                    ErrorView::Storage(
                        "malformed JSONL record at "@ + path + ":"@ + decimal(lines.len()) + ": "@
                            + e,
                    ),
                ),
                Ok(envelope) => match envelope_error(path, thread_id, previous, envelope) {
                    Some(e) => Err(e),
                    None => Ok(previous.push(envelope)),
                },
            },
        }
    }
}

/// The events of a log and how it ends, or the first thing wrong with it. What
/// stands after the last line end counts where it is an event; where it is
/// not, a write was cut short.
pub open spec fn log_of(
    path: Seq<char>,
    thread_id: ThreadId,
    lines: Seq<Result<EnvelopeView, Seq<char>>>,
    trailing: Option<Result<EnvelopeView, Seq<char>>>,
    complete_bytes: usize,
) -> Result<(Seq<EnvelopeView>, LogTail), ErrorView> {
    match events_of(path, thread_id, lines) {
        Err(e) => Err(e),
        Ok(events) => match trailing {
            None => Ok((events, LogTail::Clean)),
            Some(Err(_)) => Ok((events, LogTail::Partial { valid_bytes: complete_bytes })),
            Some(Ok(envelope)) => match envelope_error(path, thread_id, events, envelope) {
                Some(e) => Err(e),
                None => Ok((events.push(envelope), LogTail::ValidWithoutNewline)),
            },
        },
    }
}

pub open spec fn decoded_trailing(r: Option<Result<EventEnvelope, String>>) -> Option<
    Result<EnvelopeView, Seq<char>>,
> {
    match r {
        Some(r) => Some(decoded(r)),
        None => None,
    }
}

/// Checks what the lines of a log hold, and puts it together. `trailing` is
/// what stands after the last line end, if anything.
pub fn parse_log(
    path: &str,
    thread_id: &ThreadId,
    lines: Vec<Result<EventEnvelope, String>>,
    trailing: Option<Result<EventEnvelope, String>>,
    complete_bytes: usize,
) -> (r: OpsResult<ParsedLog>)
    ensures
        match r {
            Ok(log) => log_of(
                path@,
                *thread_id,
                decoded_lines(lines@),
                decoded_trailing(trailing),
                complete_bytes,
            ) == Ok::<(Seq<EnvelopeView>, LogTail), ErrorView>((log_view(log.events@), log.tail)),
            Err(e) => log_of(
                path@,
                *thread_id,
                decoded_lines(lines@),
                decoded_trailing(trailing),
                complete_bytes,
            ) == Err::<(Seq<EnvelopeView>, LogTail), ErrorView>(e@),
        },
{
    let ghost whole = decoded_lines(lines@);
    let mut events: Vec<EventEnvelope> = Vec::new();
    let mut i: usize = 0;
    assert(log_view(events@) =~= Seq::empty());
    while i < lines.len()
        invariant
            i <= lines@.len(),
            whole == decoded_lines(lines@),
            events_of(path@, *thread_id, whole.take(i as int)) == Ok::<
                Seq<EnvelopeView>,
                ErrorView,
            >(log_view(events@)),
        decreases lines@.len() - i,
    {
        assert(whole.take(i + 1).drop_last() =~= whole.take(i as int));
        assert(whole.take(i + 1).last() == decoded(lines@[i as int]));
        match &lines[i] {
            Ok(envelope) => {
                match validate_envelope(path, thread_id, &events, envelope) {
                    Ok(_) => {},
                    Err(e) => {
                        proof {
                            lemma_error_stays(path@, *thread_id, whole, i + 1);
                        }
                        return Err(e);
                    },
                }
                let ghost before = events@;
                events.push(envelope.clone());
                assert(log_view(events@) =~= log_view(before).push(envelope@));
            },
            Err(error) => {
                let mut message = "malformed JSONL record at ".to_owned();
                message.append(path);
                message.append(":");
                message.append(decimal_of(i as u64 + 1).as_str());
                message.append(": ");
                message.append(error.as_str());
                proof {
                    lemma_error_stays(path@, *thread_id, whole, i + 1);
                }
                return Err(OpsCodexError::Storage(message));
            },
        }
        i += 1;
    }
    assert(whole.take(i as int) =~= whole);
    match trailing {
        None => Ok(ParsedLog { events, tail: LogTail::Clean }),
        Some(Err(_)) => Ok(
            ParsedLog { events, tail: LogTail::Partial { valid_bytes: complete_bytes } },
        ),
        Some(Ok(envelope)) => {
            match validate_envelope(path, thread_id, &events, &envelope) {
                Ok(_) => {},
                Err(e) => return Err(e),
            }
            let ghost before = events@;
            events.push(envelope);
            assert(log_view(events@) =~= log_view(before).push(envelope@));
            Ok(ParsedLog { events, tail: LogTail::ValidWithoutNewline })
        },
    }
}

proof fn lemma_error_stays(
    path: Seq<char>,
    thread_id: ThreadId,
    lines: Seq<Result<EnvelopeView, Seq<char>>>,
    n: int,
)
    requires
        0 <= n <= lines.len(),
        events_of(path, thread_id, lines.take(n)) is Err,
    ensures
        events_of(path, thread_id, lines) == events_of(path, thread_id, lines.take(n)),
    decreases lines.len(),
{
    if n < lines.len() {
        assert(lines.drop_last().take(n) =~= lines.take(n));
        lemma_error_stays(path, thread_id, lines.drop_last(), n);
    } else {
        assert(lines.take(n) =~= lines);
    }
}

/// The events are those of one thread in one workspace, numbered from one
/// without a gap.
pub open spec fn well_numbered(thread_id: ThreadId, events: Seq<EnvelopeView>) -> bool {
    forall|i: int|
        0 <= i < events.len() ==> numbered(thread_id, events[0].workspace_id, #[trigger] events[i], i)
}

pub open spec fn numbered(
    thread_id: ThreadId,
    workspace_id: Seq<char>,
    envelope: EnvelopeView,
    i: int,
) -> bool {
    envelope.seq == i + 1 && envelope.thread_id == thread_id && envelope.workspace_id
        == workspace_id
}

proof fn lemma_events_numbered(
    path: Seq<char>,
    thread_id: ThreadId,
    lines: Seq<Result<EnvelopeView, Seq<char>>>,
)
    ensures
        events_of(path, thread_id, lines) matches Ok(events) ==> well_numbered(thread_id, events),
    decreases lines.len(),
{
    if lines.len() > 0 {
        lemma_events_numbered(path, thread_id, lines.drop_last());
        if let Ok(previous) = events_of(path, thread_id, lines.drop_last()) {
            if let Ok(envelope) = lines.last() {
                if envelope_error(path, thread_id, previous, envelope) is None {
                    lemma_push_numbered(path, thread_id, previous, envelope);
                }
            }
        }
    }
}

proof fn lemma_push_numbered(
    path: Seq<char>,
    thread_id: ThreadId,
    previous: Seq<EnvelopeView>,
    envelope: EnvelopeView,
)
    requires
        well_numbered(thread_id, previous),
        envelope_error(path, thread_id, previous, envelope) is None,
    ensures
        well_numbered(thread_id, previous.push(envelope)),
{
    let events = previous.push(envelope);
    assert forall|i: int| 0 <= i < events.len() implies numbered(
        thread_id,
        events[0].workspace_id,
        #[trigger] events[i],
        i,
    ) by {
        if previous.len() > 0 {
            assert(events[0] == previous[0]);
            assert(numbered(
                thread_id,
                previous[0].workspace_id,
                previous[previous.len() - 1],
                previous.len() - 1,
            ));
        }
        if i < previous.len() {
            assert(events[i] == previous[i]);
        }
    }
}

/// A log that is accepted is well numbered.
pub proof fn law_accepted_logs_are_well_numbered(
    path: Seq<char>,
    thread_id: ThreadId,
    lines: Seq<Result<EnvelopeView, Seq<char>>>,
    trailing: Option<Result<EnvelopeView, Seq<char>>>,
    complete_bytes: usize,
)
    ensures
        log_of(path, thread_id, lines, trailing, complete_bytes) matches Ok(log) ==> well_numbered(
            thread_id,
            log.0,
        ),
{
    lemma_events_numbered(path, thread_id, lines);
    if let Ok(events) = events_of(path, thread_id, lines) {
        if let Some(Ok(envelope)) = trailing {
            if envelope_error(path, thread_id, events, envelope) is None {
                lemma_push_numbered(path, thread_id, events, envelope);
            }
        }
    }
}

// ---------------------------------------------------------------------------
// Appending
// ---------------------------------------------------------------------------
/// An event to be appended.
#[derive(Debug)]
pub struct AppendEvent {
    pub thread_id: ThreadId,
    pub turn_id: Option<TurnId>,
    pub item_id: Option<ItemId>,
    pub causation_id: Option<EventId>,
    pub stream_kind: Option<StreamKind>,
    pub event: RuntimeEvent,
}

impl AppendEvent {
    pub fn new(thread_id: ThreadId, turn_id: Option<TurnId>, event: RuntimeEvent) -> (r: Self)
        ensures
            r.thread_id == thread_id,
            r.turn_id == turn_id,
            r.item_id is None,
            r.causation_id is None,
            r.stream_kind is None,
            r.event == event,
    {
        AppendEvent {
            thread_id,
            turn_id,
            item_id: None,
            causation_id: None,
            stream_kind: None,
            event,
        }
    }

    /// The envelope under which the event is appended.
    pub open spec fn envelope(
        &self,
        seq: u64,
        workspace_id: Seq<char>,
        event_id: EventId,
        now: Timestamp,
    ) -> EnvelopeView {
        let fresh = fresh_envelope(
            seq,
            self.thread_id,
            self.turn_id,
            self.item_id,
            self.causation_id,
            self.event@,
            event_id,
            now,
        );
        EnvelopeView {
            stream_kind: match self.stream_kind {
                Some(kind) => kind,
                None => fresh.stream_kind,
            },
            workspace_id,
            ..fresh
        }
    }

    fn into_envelope(
        self,
        seq: u64,
        workspace_id: WorkspaceId,
        event_id: EventId,
        now: Timestamp,
    ) -> (r: EventEnvelope)
        ensures
            r@ == self.envelope(seq, workspace_id@, event_id, now),
    {
        let stream_kind = self.stream_kind;
        let envelope = EventEnvelope::with_causation(
            seq,
            self.thread_id,
            self.turn_id,
            self.item_id,
            self.causation_id,
            self.event,
            event_id,
            now,
        );
        let envelope = envelope.with_workspace(workspace_id);
        match stream_kind {
            Some(kind) => EventEnvelope { stream_kind: kind, ..envelope },
            None => envelope,
        }
    }
}

/// No number is left for another event.
pub open spec fn exhausted(thread_id: ThreadId) -> ErrorView {
    ErrorView::Storage("thread "@ + thread_id.text() + " sequence is exhausted"@)
}

fn exhausted_error(thread_id: &ThreadId) -> (r: OpsCodexError)
    ensures
        r@ == exhausted(*thread_id),
{
    let mut message = "thread ".to_owned();
    message.append(thread_id.to_string().as_str());
    message.append(" sequence is exhausted");
    OpsCodexError::Storage(message)
}

/// The workspace of a log: that of its first event.
pub open spec fn log_workspace(events: Seq<EnvelopeView>) -> Seq<char> {
    if events.len() > 0 {
        events[0].workspace_id
    } else {
        "default"@
    }
}

/// The envelope under which an event follows those of a log.
pub fn next_envelope(
    events: &Vec<EventEnvelope>,
    command: AppendEvent,
    event_id: EventId,
    now: Timestamp,
) -> (r: OpsResult<EventEnvelope>)
    ensures
        match r {
            Ok(envelope) => expected_seq(log_view(events@)) <= u64::MAX && envelope@
                == command.envelope(
                expected_seq(log_view(events@)) as u64,
                log_workspace(log_view(events@)),
                event_id,
                now,
            ),
            Err(e) => expected_seq(log_view(events@)) > u64::MAX && e@ == exhausted(
                command.thread_id,
            ),
        },
{
    let n: usize = events.len();
    let mut seq: u64 = 1;
    let mut workspace_id = WorkspaceId::default();
    if n > 0 {
        assert(log_view(events@).last() == events@[n - 1]@);
        assert(log_view(events@)[0] == events@[0]@);
        if events[n - 1].seq == u64::MAX {
            return Err(exhausted_error(&command.thread_id));
        }
        seq = events[n - 1].seq + 1;
        workspace_id = events[0].workspace_id.clone();
    }
    Ok(command.into_envelope(seq, workspace_id, event_id, now))
}

/// The envelope under which an event follows the one with the number
/// `last_seq`, a negative number counting as none.
pub fn envelope_after(
    last_seq: i64,
    workspace_id: WorkspaceId,
    command: AppendEvent,
    event_id: EventId,
    now: Timestamp,
) -> (r: EventEnvelope)
    ensures
        r@ == command.envelope(
            (if last_seq < 0 {
                1
            } else {
                last_seq + 1
            }) as u64,
            workspace_id@,
            event_id,
            now,
        ),
{
    let seq = if last_seq < 0 {
        1
    } else {
        last_seq as u64 + 1
    };
    command.into_envelope(seq, workspace_id, event_id, now)
}

/// What is written to a log to append a line, once a write that was cut short
/// has been cut off: a line end is supplied where the last event has none.
pub open spec fn appended(tail: LogTail, line: Seq<u8>) -> Seq<u8> {
    if tail is ValidWithoutNewline {
        seq![NEWLINE] + line
    } else {
        line
    }
}

pub fn append_bytes(tail: LogTail, envelope: &EventEnvelope) -> (r: Vec<u8>)
    ensures
        r@ == appended(tail, line_of(envelope@)),
{
    let mut bytes: Vec<u8> = Vec::new();
    if let LogTail::ValidWithoutNewline = tail {
        bytes.push(NEWLINE);
    }
    let mut line = encode_line(envelope);
    bytes.append(&mut line);
    assert(bytes@ =~= appended(tail, line_of(envelope@)));
    bytes
}

/// The bytes of a log after an append.
pub open spec fn log_after(bytes: Seq<u8>, tail: LogTail, line: Seq<u8>) -> Seq<u8> {
    (match tail {
        LogTail::Partial { valid_bytes } => bytes.take(valid_bytes as int),
        _ => bytes,
    }) + appended(tail, line)
}

/// The tail is how a log with these lines and these trailing bytes ends.
pub open spec fn is_tail(tail: LogTail, lines: Seq<Seq<u8>>, trailing: Seq<u8>) -> bool {
    match tail {
        LogTail::Clean => trailing.len() == 0,
        LogTail::ValidWithoutNewline => trailing.len() > 0,
        LogTail::Partial { valid_bytes } => trailing.len() > 0 && valid_bytes == unlines(
            lines,
        ).len(),
    }
}

/// The lines of a log after an append: those that were there, the event that
/// had no line end, and the new one. A write that was cut short is gone.
pub open spec fn lines_after(
    lines: Seq<Seq<u8>>,
    trailing: Seq<u8>,
    tail: LogTail,
    document: Seq<u8>,
) -> Seq<Seq<u8>> {
    if tail is ValidWithoutNewline {
        lines.push(trailing).push(document)
    } else {
        lines.push(document)
    }
}

/// An event that is appended is the last line of the log, whatever a crash had
/// left at its end, and every complete line before it stays as it was.
pub proof fn law_append_adds_a_line(
    bytes: Seq<u8>,
    lines: Seq<Seq<u8>>,
    trailing: Seq<u8>,
    tail: LogTail,
    envelope: EnvelopeView,
)
    requires
        is_frame(bytes, lines, trailing),
        is_tail(tail, lines, trailing),
        valid(envelope.json()),
    ensures
        is_frame(
            log_after(bytes, tail, line_of(envelope)),
            lines_after(lines, trailing, tail, bytes_of(envelope.json())),
            Seq::empty(),
        ),
{
    let document = bytes_of(envelope.json());
    law_document_is_one_line(envelope.json());
    assert(one_line(document)) by {
        if document.contains(NEWLINE) {
            let k = choose|k: int| 0 <= k < document.len() && document[k] == NEWLINE;
            assert(document[k] >= 0x20);
        }
    }
    let after = lines_after(lines, trailing, tail, document);
    if tail is ValidWithoutNewline {
        let middle = lines.push(trailing);
        assert(middle.drop_last() =~= lines);
        assert(after.drop_last() =~= middle);
        assert(unlines(middle) =~= unlines(lines) + trailing.push(NEWLINE));
        assert(unlines(after) =~= unlines(lines) + trailing.push(NEWLINE) + document.push(NEWLINE));
    } else {
        assert(after.drop_last() =~= lines);
        assert(unlines(after) =~= unlines(lines) + document.push(NEWLINE));
    }
    assert(log_after(bytes, tail, line_of(envelope)) =~= unlines(after) + Seq::<u8>::empty());
    assert forall|i: int| 0 <= i < after.len() implies one_line(#[trigger] after[i]) by {
        if i < lines.len() {
            assert(after[i] == lines[i]);
        }
    }
}

/// A log has one set of lines.
pub proof fn law_frame_is_unique(
    bytes: Seq<u8>,
    a: Seq<Seq<u8>>,
    x: Seq<u8>,
    b: Seq<Seq<u8>>,
    y: Seq<u8>,
)
    requires
        is_frame(bytes, a, x),
        is_frame(bytes, b, y),
    ensures
        a == b,
        x == y,
    decreases a.len() + b.len(),
{
    if a.len() == 0 && b.len() == 0 {
        assert(x =~= y);
        assert(a =~= b);
    } else if a.len() == 0 {
        lemma_has_newline(b);
        assert(bytes =~= x);
        let k = choose|k: int| 0 <= k < unlines(b).len() && unlines(b)[k] == NEWLINE;
        assert(x[k] == NEWLINE);
    } else if b.len() == 0 {
        lemma_has_newline(a);
        assert(bytes =~= y);
        let k = choose|k: int| 0 <= k < unlines(a).len() && unlines(a)[k] == NEWLINE;
        assert(y[k] == NEWLINE);
    } else {
        let m = unlines(a.drop_last());
        let n = unlines(b.drop_last());
        let s = a.last();
        let t = b.last();
        assert(one_line(s) && one_line(t)) by {
            assert(one_line(a[a.len() - 1]));
            assert(one_line(b[b.len() - 1]));
        }
        let i: int = (m.len() + s.len()) as int;
        let j: int = (n.len() + t.len()) as int;
        let p = m + s.push(NEWLINE);
        let q = n + t.push(NEWLINE);
        assert(unlines(a) == p && unlines(b) == q);
        assert(p.len() == i + 1 && q.len() == j + 1);
        assert(p[i] == NEWLINE && q[j] == NEWLINE);
        assert(bytes == p + x && bytes == q + y);
        assert(bytes[i] == NEWLINE);
        assert(bytes[j] == NEWLINE);
        if i < j {
            assert(bytes[j] == x[j - p.len()]);
            assert(x.contains(NEWLINE));
        } else if j < i {
            assert(bytes[i] == y[i - q.len()]);
            assert(y.contains(NEWLINE));
        }
        assert(x =~= bytes.subrange(i + 1, bytes.len() as int));
        assert(y =~= bytes.subrange(j + 1, bytes.len() as int));
        let rest = bytes.take(i);
        assert(rest =~= m + s);
        assert(rest =~= n + t);
        assert forall|k: int| 0 <= k < a.drop_last().len() implies one_line(
            #[trigger] a.drop_last()[k],
        ) by {
            assert(one_line(a[k]));
        }
        assert forall|k: int| 0 <= k < b.drop_last().len() implies one_line(
            #[trigger] b.drop_last()[k],
        ) by {
            assert(one_line(b[k]));
        }
        law_frame_is_unique(rest, a.drop_last(), s, b.drop_last(), t);
        assert(a =~= a.drop_last().push(s));
        assert(b =~= b.drop_last().push(t));
    }
}

proof fn lemma_has_newline(lines: Seq<Seq<u8>>)
    requires
        lines.len() > 0,
    ensures
        unlines(lines).contains(NEWLINE),
{
    let all = unlines(lines);
    assert(all.last() == NEWLINE);
    assert(all[all.len() - 1] == NEWLINE);
}

/// An event that is appended to a well-numbered log keeps it so, and is the
/// last and the latest of its numbers.
pub proof fn law_append_keeps_numbering(
    events: Seq<EnvelopeView>,
    command: AppendEvent,
    event_id: EventId,
    now: Timestamp,
)
    requires
        events.len() > 0,
        well_numbered(command.thread_id, events),
        expected_seq(events) <= u64::MAX,
    ensures
        well_numbered(
            command.thread_id,
            events.push(
                command.envelope(
                    expected_seq(events) as u64,
                    log_workspace(events),
                    event_id,
                    now,
                ),
            ),
        ),
{
    let envelope = command.envelope(
        expected_seq(events) as u64,
        log_workspace(events),
        event_id,
        now,
    );
    assert(numbered(
        command.thread_id,
        events[0].workspace_id,
        events[events.len() - 1],
        events.len() - 1,
    ));
    lemma_push_numbered(""@, command.thread_id, events, envelope);
}

// ---------------------------------------------------------------------------
// Replaying
// ---------------------------------------------------------------------------
/// The events with a number beyond `after`.
pub open spec fn beyond(events: Seq<EnvelopeView>, after: u64) -> Seq<EnvelopeView> {
    events.filter(|envelope: EnvelopeView| envelope.seq > after)
}

/// The events that a listener who has seen those up to `after` is sent.
pub fn events_after(events: Vec<EventEnvelope>, after: u64) -> (r: Vec<EventEnvelope>)
    ensures
        log_view(r@) == beyond(log_view(events@), after),
{
    let ghost log = log_view(events@);
    let ghost keep = |envelope: EnvelopeView| envelope.seq > after;
    let mut kept: Vec<EventEnvelope> = Vec::new();
    let mut i: usize = 0;
    proof {
        reveal(Seq::filter);
        assert(log_view(kept@) =~= log.take(0).filter(keep));
    }
    while i < events.len()
        invariant
            i <= events@.len(),
            log == log_view(events@),
            keep == |envelope: EnvelopeView| envelope.seq > after,
            log_view(kept@) == log.take(i as int).filter(keep),
        decreases events@.len() - i,
    {
        proof {
            reveal(Seq::filter);
            assert(log.take(i + 1).drop_last() =~= log.take(i as int));
            assert(log.take(i + 1).last() == events@[i as int]@);
        }
        if events[i].seq > after {
            let ghost before = kept@;
            kept.push(events[i].clone());
            assert(log_view(kept@) =~= log_view(before).push(events@[i as int]@));
        }
        i += 1;
    }
    assert(log.take(i as int) =~= log);
    kept
}

/// A replay from `after` is the rest of the log: every later event once, in
/// order, and nothing else.
pub proof fn law_replay_is_the_rest(thread_id: ThreadId, events: Seq<EnvelopeView>, after: u64)
    requires
        well_numbered(thread_id, events),
    ensures
        beyond(events, after) == (if after < events.len() {
            events.skip(after as int)
        } else {
            Seq::empty()
        }),
    decreases events.len(),
{
    reveal(Seq::filter);
    if events.len() > 0 {
        let n = events.len() - 1;
        let shorter = events.drop_last();
        assert forall|i: int| 0 <= i < shorter.len() implies numbered(
            thread_id,
            shorter[0].workspace_id,
            #[trigger] shorter[i],
            i,
        ) by {
            assert(numbered(thread_id, events[0].workspace_id, events[i], i));
        }
        law_replay_is_the_rest(thread_id, shorter, after);
        assert(numbered(thread_id, events[0].workspace_id, events[n], n));
        if after < n {
            assert(events.skip(after as int) =~= shorter.skip(after as int).push(events.last()));
        } else if after == n {
            assert(events.skip(after as int) =~= seq![events.last()]);
            assert(beyond(events, after) =~= seq![events.last()]);
        }
    }
}

/// What was replayed up to some number, followed by a replay from there, is
/// the whole log.
pub proof fn law_replays_join(thread_id: ThreadId, events: Seq<EnvelopeView>, after: u64)
    requires
        well_numbered(thread_id, events),
        after <= events.len(),
    ensures
        events.take(after as int) + beyond(events, after) == events,
{
    law_replay_is_the_rest(thread_id, events, after);
    assert(events.take(after as int) + beyond(events, after) =~= events);
}

/// The number of the last event, or zero.
pub fn last_seq(events: &Vec<EventEnvelope>) -> (r: u64)
    ensures
        r == (if events@.len() == 0 {
            0
        } else {
            log_view(events@).last().seq
        }),
{
    let n: usize = events.len();
    if n == 0 {
        0
    } else {
        assert(log_view(events@).last() == events@[n - 1]@);
        events[n - 1].seq
    }
}

// ---------------------------------------------------------------------------
// Evidence
// ---------------------------------------------------------------------------
/// The evidence that a successful tool gives, under its identifier.
pub open spec fn evidence_of(thread_id: ThreadId, envelope: EnvelopeView) -> Option<EvidenceMeta> {
    match envelope.event {
        EventView::ToolCompleted { evidence, success, .. } => if success {
            Some(
                EvidenceMeta {
                    evidence_id: Some(evidence.id_at(thread_id, envelope.seq)),
                    ..evidence
                },
            )
        } else {
            None
        },
        _ => None,
    }
}

/// The first evidence of a log with this identifier.
pub open spec fn find_evidence(
    thread_id: ThreadId,
    events: Seq<EnvelopeView>,
    id: EvidenceId,
) -> Option<EvidenceMeta>
    decreases events.len(),
{
    if events.len() == 0 {
        None
    } else {
        match find_evidence(thread_id, events.drop_last(), id) {
            Some(evidence) => Some(evidence),
            None => match evidence_of(thread_id, events.last()) {
                Some(evidence) => if evidence.evidence_id == Some(id) {
                    Some(evidence)
                } else {
                    None
                },
                None => None,
            },
        }
    }
}

proof fn lemma_evidence_stays(
    thread_id: ThreadId,
    events: Seq<EnvelopeView>,
    id: EvidenceId,
    n: int,
)
    requires
        0 <= n <= events.len(),
        find_evidence(thread_id, events.take(n), id) is Some,
    ensures
        find_evidence(thread_id, events, id) == find_evidence(thread_id, events.take(n), id),
    decreases events.len(),
{
    if n < events.len() {
        assert(events.drop_last().take(n) =~= events.take(n));
        lemma_evidence_stays(thread_id, events.drop_last(), id, n);
    } else {
        assert(events.take(n) =~= events);
    }
}

/// Looks up evidence in a log.
pub fn get_evidence(thread_id: &ThreadId, events: &Vec<EventEnvelope>, evidence_id: &EvidenceId)
    -> (r: OpsResult<EvidenceMeta>)
    ensures
        match r {
            Ok(evidence) => find_evidence(*thread_id, log_view(events@), *evidence_id) == Some(
                evidence,
            ),
            Err(e) => find_evidence(*thread_id, log_view(events@), *evidence_id) is None && e@
                == ErrorView::NotFound("evidence "@ + evidence_id.text()),
        },
{
    let ghost log = log_view(events@);
    let mut i: usize = 0;
    while i < events.len()
        invariant
            i <= events@.len(),
            log == log_view(events@),
            find_evidence(*thread_id, log.take(i as int), *evidence_id) is None,
        decreases events@.len() - i,
    {
        let envelope = &events[i];
        assert(log.take(i + 1).drop_last() =~= log.take(i as int));
        assert(log.take(i + 1).last() == envelope@);
        if let RuntimeEvent::ToolCompleted { evidence, success, .. } = &envelope.event {
            if *success {
                let id = evidence.evidence_id_or_synthesize(thread_id, envelope.seq);
                if id == *evidence_id {
                    proof {
                        lemma_evidence_stays(*thread_id, log, *evidence_id, i + 1);
                    }
                    return Ok(EvidenceMeta { evidence_id: Some(id), ..evidence.clone() });
                }
            }
        }
        i += 1;
    }
    assert(log.take(i as int) =~= log);
    let mut message = "evidence ".to_owned();
    message.append(evidence_id.to_string().as_str());
    Err(OpsCodexError::NotFound(message))
}

/// A thread that was looked up for a workspace; `allowed` is what the check found
/// that the thread belongs to the workspace.
pub fn get_thread_in(thread: OpsResult<Thread>, allowed: OpsResult<()>) -> (r: OpsResult<Thread>)
    ensures
        match (thread, allowed) {
            (Ok(thread), Ok(_)) => r == Ok::<Thread, OpsCodexError>(thread),
            (Ok(_), Err(e)) => r == Err::<Thread, OpsCodexError>(e),
            (Err(e), _) => r == Err::<Thread, OpsCodexError>(e),
        },
{
    match thread {
        Ok(thread) => match allowed {
            Ok(_) => Ok(thread),
            Err(e) => Err(e),
        },
        Err(e) => Err(e),
    }
}

/// Looks up evidence in the log of a thread that was looked up for a workspace.
pub fn get_evidence_in(
    thread: OpsResult<Thread>,
    allowed: OpsResult<()>,
    thread_id: &ThreadId,
    events: &Vec<EventEnvelope>,
    evidence_id: &EvidenceId,
) -> (r: OpsResult<EvidenceMeta>)
    ensures
        match (thread, allowed) {
            (Ok(_), Ok(_)) => match find_evidence(*thread_id, log_view(events@), *evidence_id) {
                Some(evidence) => r == Ok::<EvidenceMeta, OpsCodexError>(evidence),
                None => r matches Err(e) && e@ == ErrorView::NotFound(
                    "evidence "@ + evidence_id.text(),
                ),
            },
            (Ok(_), Err(e)) => r == Err::<EvidenceMeta, OpsCodexError>(e),
            (Err(e), _) => r == Err::<EvidenceMeta, OpsCodexError>(e),
        },
{
    match get_thread_in(thread, allowed) {
        Ok(_) => get_evidence(thread_id, events, evidence_id),
        Err(e) => Err(e),
    }
}

} // verus!
