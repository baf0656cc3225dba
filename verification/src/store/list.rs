//! Threads in the order in which they are listed.
use vstd::prelude::*;

use crate::store::projection::ThreadSummary;
use crate::text::{lemma_text_before, str_before, text_before};

verus! {

/// The first thread is listed before the second: it was changed later, or at
/// the same time and has the later name.
pub open spec fn listed_before(a: ThreadSummary, b: ThreadSummary) -> bool {
    if a.updated_at == b.updated_at {
        text_before(b.id.text(), a.id.text())
    } else {
        !a.updated_at.no_later_than(b.updated_at)
    }
}

fn is_listed_before(a: &ThreadSummary, b: &ThreadSummary) -> (r: bool)
    ensures
        r == listed_before(*a, *b),
{
    if a.updated_at == b.updated_at {
        str_before(b.id.to_string().as_str(), a.id.to_string().as_str())
    } else {
        !a.updated_at.at_or_before(b.updated_at)
    }
}

/// No thread stands behind one that it is listed before.
pub open spec fn in_order(summaries: Seq<ThreadSummary>) -> bool {
    forall|i: int, j: int|
        0 <= i < j < summaries.len() ==> !listed_before(
            #[trigger] summaries[j],
            #[trigger] summaries[i],
        )
}

/// What is not listed before something that is not listed before a third is
/// not listed before the third.
proof fn lemma_order(a: ThreadSummary, b: ThreadSummary, c: ThreadSummary)
    requires
        !listed_before(b, a),
        !listed_before(c, b),
    ensures
        !listed_before(c, a),
{
    let x = a.id.text();
    let y = b.id.text();
    let z = c.id.text();
    crate::time::lemma_timestamp_parts(a.updated_at);
    crate::time::lemma_timestamp_parts(b.updated_at);
    crate::time::lemma_timestamp_parts(c.updated_at);
    lemma_text_before(x, y, z);
    lemma_text_before(y, x, z);
    lemma_text_before(x, z, y);
    lemma_text_before(y, z, x);
    lemma_text_before(z, x, y);
    lemma_text_before(z, y, x);
}

proof fn lemma_asymmetric(a: ThreadSummary, b: ThreadSummary)
    requires
        listed_before(a, b),
    ensures
        !listed_before(b, a),
{
    crate::time::lemma_timestamp_parts(a.updated_at);
    crate::time::lemma_timestamp_parts(b.updated_at);
    lemma_text_before(a.id.text(), b.id.text(), a.id.text());
    lemma_text_before(b.id.text(), a.id.text(), b.id.text());
}

/// Puts a thread where it belongs among those that are in order.
fn insert_summary(sorted: &mut Vec<ThreadSummary>, summary: ThreadSummary)
    requires
        in_order(old(sorted)@),
    ensures
        in_order(final(sorted)@),
        final(sorted)@.to_multiset() == old(sorted)@.to_multiset().insert(summary),
{
    let mut at: usize = 0;
    while at < sorted.len() && !is_listed_before(&summary, &sorted[at])
        invariant
            at <= sorted@.len(),
            sorted@ == old(sorted)@,
            forall|k: int| 0 <= k < at ==> !listed_before(summary, #[trigger] sorted@[k]),
        decreases sorted@.len() - at,
    {
        at += 1;
    }
    let ghost before = sorted@;
    proof {
        broadcast use vstd::seq_lib::group_to_multiset_ensures;

        let after = before.insert(at as int, summary);
        assert forall|i: int, j: int| 0 <= i < j < after.len() implies !listed_before(
            #[trigger] after[j],
            #[trigger] after[i],
        ) by {
            if j == at {
                assert(after[i] == before[i]);
            } else if i == at {
                assert(after[j] == before[j - 1]);
                lemma_asymmetric(summary, before[at as int]);
                if j - 1 > at {
                    assert(!listed_before(before[j - 1], before[at as int]));
                    lemma_order(summary, before[at as int], before[j - 1]);
                }
            } else {
                let p = if i < at {
                    i
                } else {
                    i - 1
                };
                let q = if j < at {
                    j
                } else {
                    j - 1
                };
                assert(after[i] == before[p] && after[j] == before[q]);
                assert(!listed_before(before[q], before[p]));
            }
        }
        lemma_insert_multiset(before, at as int, summary);
    }
    sorted.insert(at, summary);
}

proof fn lemma_insert_multiset(s: Seq<ThreadSummary>, i: int, x: ThreadSummary)
    requires
        0 <= i <= s.len(),
    ensures
        s.insert(i, x).to_multiset() == s.to_multiset().insert(x),
{
    broadcast use vstd::seq_lib::group_to_multiset_ensures;

    s.to_multiset_ensures();
    assert(s.insert(i, x).to_multiset() =~= s.to_multiset().insert(x));
}

/// Puts threads in the order in which they are listed: the latest first.
pub fn sort_summaries(summaries: Vec<ThreadSummary>) -> (r: Vec<ThreadSummary>)
    ensures
        in_order(r@),
        r@.to_multiset() == summaries@.to_multiset(),
{
    let mut rest = summaries;
    let mut sorted: Vec<ThreadSummary> = Vec::new();
    proof {
        rest@.to_multiset_ensures();
        sorted@.to_multiset_ensures();
        assert(sorted@.to_multiset().add(rest@.to_multiset()) =~= summaries@.to_multiset());
    }
    while rest.len() > 0
        invariant
            in_order(sorted@),
            sorted@.to_multiset().add(rest@.to_multiset()) == summaries@.to_multiset(),
        decreases rest@.len(),
    {
        let ghost before = rest@;
        let ghost placed = sorted@.to_multiset();
        match rest.pop() {
            Some(summary) => {
                insert_summary(&mut sorted, summary);
                proof {
                    before.to_multiset_ensures();
                    rest@.to_multiset_ensures();
                    assert(before =~= rest@.push(summary));
                    assert(before.to_multiset() =~= rest@.to_multiset().insert(summary));
                    assert(sorted@.to_multiset().add(rest@.to_multiset()) =~= placed.add(
                        before.to_multiset(),
                    ));
                }
            },
            None => {},
        }
    }
    proof {
        rest@.to_multiset_ensures();
        assert(rest@ =~= Seq::empty());
        assert(sorted@.to_multiset().add(rest@.to_multiset()) =~= sorted@.to_multiset());
    }
    sorted
}

} // verus!
