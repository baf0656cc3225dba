//! A listener's stream of events: first what was missed, then what comes, every
//! event once and in order.
use vstd::prelude::*;

use crate::json::{str_view, text_of};
use crate::runtime::envelope::{log_view, EnvelopeView, EventEnvelope};
use crate::runtime::event::StreamKind;
use crate::text::{decimal, decimal_of, number_named, parse_number};

verus! {

/// An event that a listener asked for.
pub open spec fn wanted(kind: Option<StreamKind>, envelope: EnvelopeView) -> bool {
    match kind {
        Some(kind) => envelope.stream_kind == kind,
        None => true,
    }
}

/// The events that a listener asked for.
pub open spec fn wanted_of(kind: Option<StreamKind>, events: Seq<EnvelopeView>) -> Seq<
    EnvelopeView,
> {
    events.filter(|envelope: EnvelopeView| wanted(kind, envelope))
}

fn is_wanted(kind: Option<StreamKind>, envelope: &EventEnvelope) -> (r: bool)
    ensures
        r == wanted(kind, envelope@),
{
    match kind {
        Some(kind) => envelope.stream_kind == kind,
        None => true,
    }
}

/// Keeps the events that a listener asked for.
pub fn retain_kind(events: Vec<EventEnvelope>, kind: Option<StreamKind>) -> (r: Vec<EventEnvelope>)
    ensures
        log_view(r@) == wanted_of(kind, log_view(events@)),
{
    let ghost log = log_view(events@);
    let ghost keep = |envelope: EnvelopeView| wanted(kind, envelope);
    let mut kept: Vec<EventEnvelope> = Vec::new();
    let mut i: usize = 0;
    proof {
        reveal(Seq::filter);
        assert(log_view(kept@) =~= log.take(0).filter(keep));
    }
    while i < events.len()
        invariant
            i <= events@.len(),
            log == log_view(events@),
            keep == |envelope: EnvelopeView| wanted(kind, envelope),
            log_view(kept@) == log.take(i as int).filter(keep),
        decreases events@.len() - i,
    {
        proof {
            reveal(Seq::filter);
            assert(log.take(i + 1).drop_last() =~= log.take(i as int));
            assert(log.take(i + 1).last() == events@[i as int]@);
        }
        if is_wanted(kind, &events[i]) {
            let ghost before = kept@;
            kept.push(events[i].clone());
            assert(log_view(kept@) =~= log_view(before).push(events@[i as int]@));
        }
        i += 1;
    }
    assert(log.take(i as int) =~= log);
    kept
}

/// The larger of two numbers.
pub open spec fn larger(a: u64, b: u64) -> u64 {
    if a < b {
        b
    } else {
        a
    }
}

/// The number up to which a listener has seen events: that of the query or that
/// of the header, whichever is larger. A header that holds no number says nothing.
pub open spec fn seen_before(query: u64, header: Option<Seq<char>>) -> u64 {
    match header {
        Some(text) => match number_named(text, u64::MAX) {
            Some(n) => larger(query, n),
            None => query,
        },
        None => query,
    }
}

pub fn resume_after(query: u64, header: Option<&str>) -> (r: u64)
    ensures
        r == seen_before(query, str_view(header)),
{
    let named: u64 = match header {
        Some(text) => match parse_number(text, u64::MAX) {
            Some(n) => n,
            None => 0,
        },
        None => 0,
    };
    if query < named {
        named
    } else {
        query
    }
}

/// The largest number in the events, or `last`.
pub open spec fn last_of(last: u64, events: Seq<EnvelopeView>) -> u64
    decreases events.len(),
{
    if events.len() == 0 {
        last
    } else {
        larger(last_of(last, events.drop_last()), events.last().seq)
    }
}

/// How far a listener is.
#[derive(Clone, Copy, Debug, PartialEq, Eq, Structural)]
pub struct EventStream {
    pub kind: Option<StreamKind>,
    pub last_seq: u64,
}

impl EventStream {
    /// The stream of a listener who has seen the events up to `after`.
    pub fn new(kind: Option<StreamKind>, after: u64) -> (r: Self)
        ensures
            r == (EventStream { kind, last_seq: after }),
    {
        EventStream { kind, last_seq: after }
    }

    /// The stream after stored events were sent.
    pub open spec fn after_replay(self, events: Seq<EnvelopeView>) -> EventStream {
        EventStream { last_seq: last_of(self.last_seq, wanted_of(self.kind, events)), ..self }
    }

    /// The stream after an event that was published.
    pub open spec fn after_live(self, envelope: EnvelopeView) -> EventStream {
        if envelope.seq > self.last_seq {
            EventStream { last_seq: envelope.seq, ..self }
        } else {
            self
        }
    }

    /// An event that was published is sent.
    pub open spec fn sends(self, envelope: EnvelopeView) -> bool {
        envelope.seq > self.last_seq && wanted(self.kind, envelope)
    }

    /// Takes events out of the store: those that come first, or those that were
    /// missed. Gives what is sent of them.
    pub fn replay(&mut self, events: Vec<EventEnvelope>) -> (r: Vec<EventEnvelope>)
        ensures
            log_view(r@) == wanted_of(old(self).kind, log_view(events@)),
            *final(self) == old(self).after_replay(log_view(events@)),
    {
        let ghost start = *self;
        let kept = retain_kind(events, self.kind);
        let ghost log = log_view(kept@);
        let mut i: usize = 0;
        assert(log.take(0) =~= Seq::empty());
        while i < kept.len()
            invariant
                i <= kept@.len(),
                log == log_view(kept@),
                self.kind == start.kind,
                self.last_seq == last_of(start.last_seq, log.take(i as int)),
            decreases kept@.len() - i,
        {
            assert(log.take(i + 1).drop_last() =~= log.take(i as int));
            assert(log.take(i + 1).last() == kept@[i as int]@);
            if self.last_seq < kept[i].seq {
                self.last_seq = kept[i].seq;
            }
            i += 1;
        }
        assert(log.take(i as int) =~= log);
        kept
    }

    /// Takes an event that was published. Gives whether it is sent.
    pub fn accept(&mut self, envelope: &EventEnvelope) -> (r: bool)
        ensures
            r == old(self).sends(envelope@),
            *final(self) == old(self).after_live(envelope@),
    {
        if envelope.seq > self.last_seq {
            self.last_seq = envelope.seq;
            is_wanted(self.kind, envelope)
        } else {
            false
        }
    }

    /// What is sent of events that are published one after the other.
    pub open spec fn sent(self, events: Seq<EnvelopeView>) -> Seq<EnvelopeView>
        decreases events.len(),
    {
        if events.len() == 0 {
            Seq::empty()
        } else {
            let first = events[0];
            let later = self.after_live(first).sent(events.skip(1));
            if self.sends(first) {
                seq![first] + later
            } else {
                later
            }
        }
    }
}

/// The fields of an event on the wire: its number, its name and its JSON form.
pub fn sse_event(envelope: &EventEnvelope) -> (r: (String, String, String))
    ensures
        r.0@ == decimal(envelope@.seq as nat),
        r.1@ == envelope@.event.name(),
        r.2@ == text_of(envelope@.json()),
{
    (
        decimal_of(envelope.seq),
        envelope.event.event_name().to_owned(),
        envelope.to_json().to_text(),
    )
}

// ---------------------------------------------------------------------------
// Laws
// ---------------------------------------------------------------------------
/// The events are numbered from one on.
pub open spec fn counted(log: Seq<EnvelopeView>) -> bool {
    forall|i: int| 0 <= i < log.len() ==> (#[trigger] log[i]).seq == i + 1
}

/// A listener is sent every event once, in order. The listener has seen the events up
/// to `after`; the store held the first `stored` events of the log when they were
/// replayed; and the rest, with some that were replayed already, were published.
pub proof fn law_stream_is_complete(
    kind: Option<StreamKind>,
    log: Seq<EnvelopeView>,
    after: u64,
    stored: int,
    published: int,
)
    requires
        counted(log),
        after <= stored <= log.len(),
        0 <= published <= stored,
    ensures
        ({
            let stream = EventStream { kind, last_seq: after };
            let replayed = log.subrange(after as int, stored);
            wanted_of(kind, replayed) + stream.after_replay(replayed).sent(log.skip(published))
                == wanted_of(kind, log.skip(after as int))
        }),
{
    let stream = EventStream { kind, last_seq: after };
    let replayed = log.subrange(after as int, stored);
    let keep = |envelope: EnvelopeView| wanted(kind, envelope);
    let caught_up = stream.after_replay(replayed);
    lemma_last_replayed(kind, log, after, stored);
    lemma_sent_later(caught_up, log, stored, published);
    assert(log.skip(after as int) =~= replayed + log.skip(stored));
    Seq::filter_distributes_over_add(replayed, log.skip(stored), keep);
}

/// After a replay the last number lies within it, and what lies beyond it was not
/// asked for.
proof fn lemma_last_replayed(
    kind: Option<StreamKind>,
    log: Seq<EnvelopeView>,
    after: u64,
    stored: int,
)
    requires
        counted(log),
        after <= stored <= log.len(),
    ensures
        ({
            let last = last_of(after, wanted_of(kind, log.subrange(after as int, stored)));
            after <= last <= stored && forall|i: int|
                last <= i < stored ==> !wanted(kind, #[trigger] log[i])
        }),
    decreases stored - after,
{
    let keep = |envelope: EnvelopeView| wanted(kind, envelope);
    let part = log.subrange(after as int, stored);
    reveal(Seq::filter);
    if after < stored {
        let shorter = log.subrange(after as int, stored - 1);
        assert(part.drop_last() =~= shorter);
        lemma_last_replayed(kind, log, after, stored - 1);
        assert(part.last() == log[stored - 1]);
        if wanted(kind, log[stored - 1]) {
            let kept = part.filter(keep);
            assert(kept.drop_last() =~= shorter.filter(keep));
            assert(kept.last() == log[stored - 1]);
        } else {
            assert(part.filter(keep) =~= shorter.filter(keep));
        }
    } else {
        assert(part =~= Seq::empty());
        assert(part.filter(keep) =~= Seq::empty());
    }
}

/// Events that were replayed are not sent again, and those that follow are.
proof fn lemma_sent_later(
    stream: EventStream,
    log: Seq<EnvelopeView>,
    stored: int,
    published: int,
)
    requires
        counted(log),
        0 <= published <= log.len(),
        0 <= stored <= log.len(),
        stream.last_seq <= log.len(),
        published <= stored || stream.last_seq == published,
        stream.last_seq <= stored || stream.last_seq == published,
        forall|i: int| stream.last_seq <= i < stored ==> !wanted(stream.kind, #[trigger] log[i]),
    ensures
        stream.sent(log.skip(published)) == wanted_of(
            stream.kind,
            log.skip(if published <= stored {
                stored
            } else {
                published
            }),
        ),
    decreases log.len() - published,
{
    let keep = |envelope: EnvelopeView| wanted(stream.kind, envelope);
    let rest = log.skip(published);
    reveal(Seq::filter);
    if published == log.len() {
        assert(rest =~= Seq::empty());
        assert(log.skip(log.len() as int) =~= Seq::empty());
        assert(Seq::<EnvelopeView>::empty().filter(keep) =~= Seq::empty());
    } else {
        let first = log[published];
        assert(rest[0] == first);
        assert(rest.skip(1) =~= log.skip(published + 1));
        let next = stream.after_live(first);
        lemma_sent_later(next, log, stored, published + 1);
        if published >= stored {
            crate::seqs::lemma_filter_front(first, log.skip(published + 1), keep);
            assert(seq![first] + log.skip(published + 1) =~= log.skip(published));
        }
    }
}

} // verus!
