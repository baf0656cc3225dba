//! What holds of every context that is sent to a model.
use vstd::prelude::*;

use crate::json::bytes_of;
use crate::model::provider::{item_views, ItemView, ModelItem};
use crate::runtime::context::{
    clear, count_evidence, count_tool_calls, first_start, fits, in_pair, kept, kept_items, lemma_oldest, lemma_scan_sound,
    model_context, oldest, pairs, scan, total_bytes, total_tokens, without_unpaired, ContextBudget,
};

verus! {

/// The number of calls with this identifier.
pub open spec fn calls_in(items: Seq<ItemView>, id: Seq<char>) -> nat
    decreases items.len(),
{
    if items.len() == 0 {
        0
    } else {
        calls_in(items.drop_last(), id) + (if items.last().is_call(id) { 1nat } else { 0nat })
    }
}

/// The number of results with this identifier.
pub open spec fn results_in(items: Seq<ItemView>, id: Seq<char>) -> nat
    decreases items.len(),
{
    if items.len() == 0 {
        0
    } else {
        results_in(items.drop_last(), id) + (if items.last().is_result(id) { 1nat } else { 0nat })
    }
}

/// Up to any point there are no more results than calls of one identifier.
pub open spec fn balanced_at(items: Seq<ItemView>, n: int, id: Seq<char>) -> bool {
    results_in(items.take(n), id) <= calls_in(items.take(n), id)
}

/// Every result follows its own call, and every call is followed by its own
/// result.
pub open spec fn well_paired(items: Seq<ItemView>) -> bool {
    &&& forall|n: int, id: Seq<char>| 0 <= n <= items.len() ==> #[trigger] balanced_at(items, n, id)
    &&& forall|id: Seq<char>| #[trigger] results_in(items, id) == calls_in(items, id)
}

// ---------------------------------------------------------------------------
// The pairs found are disjoint
// ---------------------------------------------------------------------------
spec fn scan_distinct(pending: Seq<int>, found: Seq<(int, int)>) -> bool {
    &&& forall|i: int, j: int|
        0 <= i < j < found.len() ==> (#[trigger] found[i]).0 != (#[trigger] found[j]).0
    &&& forall|i: int, j: int|
        0 <= i < j < found.len() ==> (#[trigger] found[i]).1 != (#[trigger] found[j]).1
    &&& forall|i: int, j: int|
        0 <= i < j < pending.len() ==> #[trigger] pending[i] != #[trigger] pending[j]
    &&& forall|i: int, j: int|
        0 <= i < pending.len() && 0 <= j < found.len() ==> #[trigger] pending[i]
            != (#[trigger] found[j]).0
}

proof fn lemma_scan_distinct(items: Seq<ItemView>, n: int)
    requires
        0 <= n <= items.len(),
    ensures
        scan_distinct(scan(items, n).pending, scan(items, n).pairs),
    decreases n,
{
    if n > 0 {
        lemma_scan_distinct(items, n - 1);
        lemma_scan_sound(items, n - 1);
        let before = scan(items, n - 1);
        if let ItemView::ToolResult(id, _) = items[n - 1] {
            lemma_oldest(items, before.pending, id);
            if let Some(k) = oldest(items, before.pending, id) {
                let pending = before.pending.remove(k);
                let call = before.pending[k];
                let found = before.pairs.push((call, n - 1));
                assert forall|i: int, j: int| 0 <= i < j < pending.len() implies #[trigger] pending[i]
                    != #[trigger] pending[j] by {
                    let a = if i < k { i } else { i + 1 };
                    let b = if j < k { j } else { j + 1 };
                    assert(pending[i] == before.pending[a]);
                    assert(pending[j] == before.pending[b]);
                }
                assert forall|i: int, j: int|
                    0 <= i < pending.len() && 0 <= j < found.len() implies #[trigger] pending[i] != (
                #[trigger] found[j]).0 by {
                    let a = if i < k { i } else { i + 1 };
                    assert(pending[i] == before.pending[a]);
                    if j < before.pairs.len() {
                        assert(found[j] == before.pairs[j]);
                    } else if a < k {
                        assert(before.pending[a] != before.pending[k]);
                    } else {
                        assert(before.pending[k] != before.pending[a]);
                    }
                }
                assert forall|i: int, j: int| 0 <= i < j < found.len() implies (
                #[trigger] found[i]).0 != (#[trigger] found[j]).0 by {
                    assert(found[i] == before.pairs[i]);
                    if j < before.pairs.len() {
                        assert(found[j] == before.pairs[j]);
                    } else {
                        assert(before.pending[k] != before.pairs[i].0);
                    }
                }
                assert forall|i: int, j: int| 0 <= i < j < found.len() implies (
                #[trigger] found[i]).1 != (#[trigger] found[j]).1 by {
                    assert(found[i] == before.pairs[i]);
                    if j < before.pairs.len() {
                        assert(found[j] == before.pairs[j]);
                    }
                }
            }
        } else if items[n - 1] is ToolCall {
            let pending = before.pending.push(n - 1);
            assert forall|i: int, j: int| 0 <= i < j < pending.len() implies #[trigger] pending[i]
                != #[trigger] pending[j] by {
                assert(pending[i] == before.pending[i]);
            }
            assert forall|i: int, j: int|
                0 <= i < pending.len() && 0 <= j < before.pairs.len() implies #[trigger] pending[i]
                != (#[trigger] before.pairs[j]).0 by {
                if i < before.pending.len() {
                    assert(pending[i] == before.pending[i]);
                }
            }
        }
    }
}

// ---------------------------------------------------------------------------
// Dropping what is unpaired leaves a paired history
// ---------------------------------------------------------------------------
/// The number of pairs of this identifier whose call comes before `n`.
spec fn pairs_called(
    items: Seq<ItemView>,
    found: Seq<(int, int)>,
    id: Seq<char>,
    n: int,
) -> nat
    decreases found.len(),
{
    if found.len() == 0 {
        0
    } else {
        pairs_called(items, found.drop_last(), id, n) + (if found.last().0 < n
            && items[found.last().0].is_call(id) {
            1nat
        } else {
            0nat
        })
    }
}

/// The number of pairs of this identifier whose result comes before `n`.
spec fn pairs_answered(
    items: Seq<ItemView>,
    found: Seq<(int, int)>,
    id: Seq<char>,
    n: int,
) -> nat
    decreases found.len(),
{
    if found.len() == 0 {
        0
    } else {
        pairs_answered(items, found.drop_last(), id, n) + (if found.last().1 < n
            && items[found.last().1].is_result(id) {
            1nat
        } else {
            0nat
        })
    }
}

spec fn calls_distinct(found: Seq<(int, int)>) -> bool {
    forall|i: int, j: int|
        0 <= i < j < found.len() ==> (#[trigger] found[i]).0 != (#[trigger] found[j]).0
}

spec fn results_distinct(found: Seq<(int, int)>) -> bool {
    forall|i: int, j: int|
        0 <= i < j < found.len() ==> (#[trigger] found[i]).1 != (#[trigger] found[j]).1
}

spec fn has_call(found: Seq<(int, int)>, n: int) -> bool {
    exists|k: int| 0 <= k < found.len() && (#[trigger] found[k]).0 == n
}

spec fn has_result(found: Seq<(int, int)>, n: int) -> bool {
    exists|k: int| 0 <= k < found.len() && (#[trigger] found[k]).1 == n
}

proof fn lemma_pairs_called_step(
    items: Seq<ItemView>,
    found: Seq<(int, int)>,
    id: Seq<char>,
    n: int,
)
    requires
        calls_distinct(found),
    ensures
        pairs_called(items, found, id, n + 1) == pairs_called(items, found, id, n) + (
        if has_call(found, n) && items[n].is_call(id) {
            1nat
        } else {
            0nat
        }),
    decreases found.len(),
{
    if found.len() > 0 {
        let rest = found.drop_last();
        assert forall|i: int, j: int| 0 <= i < j < rest.len() implies (#[trigger] rest[i]).0 != (
        #[trigger] rest[j]).0 by {
            assert(rest[i] == found[i] && rest[j] == found[j]);
        }
        lemma_pairs_called_step(items, rest, id, n);
        if found.last().0 == n {
            assert(found[found.len() - 1].0 == n);
            if has_call(rest, n) {
                let k = choose|k: int| 0 <= k < rest.len() && (#[trigger] rest[k]).0 == n;
                assert(rest[k] == found[k]);
                assert(found[k].0 != found[found.len() - 1].0);
            }
        } else {
            if has_call(found, n) {
                let k = choose|k: int| 0 <= k < found.len() && (#[trigger] found[k]).0 == n;
                assert(rest[k] == found[k]);
            }
            if has_call(rest, n) {
                let k = choose|k: int| 0 <= k < rest.len() && (#[trigger] rest[k]).0 == n;
                assert(rest[k] == found[k]);
            }
        }
    }
}

proof fn lemma_pairs_answered_step(
    items: Seq<ItemView>,
    found: Seq<(int, int)>,
    id: Seq<char>,
    n: int,
)
    requires
        results_distinct(found),
    ensures
        pairs_answered(items, found, id, n + 1) == pairs_answered(items, found, id, n) + (
        if has_result(found, n) && items[n].is_result(id) {
            1nat
        } else {
            0nat
        }),
    decreases found.len(),
{
    if found.len() > 0 {
        let rest = found.drop_last();
        assert forall|i: int, j: int| 0 <= i < j < rest.len() implies (#[trigger] rest[i]).1 != (
        #[trigger] rest[j]).1 by {
            assert(rest[i] == found[i] && rest[j] == found[j]);
        }
        lemma_pairs_answered_step(items, rest, id, n);
        if found.last().1 == n {
            assert(found[found.len() - 1].1 == n);
            if has_result(rest, n) {
                let k = choose|k: int| 0 <= k < rest.len() && (#[trigger] rest[k]).1 == n;
                assert(rest[k] == found[k]);
                assert(found[k].1 != found[found.len() - 1].1);
            }
        } else {
            if has_result(found, n) {
                let k = choose|k: int| 0 <= k < found.len() && (#[trigger] found[k]).1 == n;
                assert(rest[k] == found[k]);
            }
            if has_result(rest, n) {
                let k = choose|k: int| 0 <= k < rest.len() && (#[trigger] rest[k]).1 == n;
                assert(rest[k] == found[k]);
            }
        }
    }
}

/// Each pair is a call and a later result with one identifier.
spec fn pairs_sound(items: Seq<ItemView>, found: Seq<(int, int)>) -> bool {
    forall|k: int|
        0 <= k < found.len() ==> {
            let p = #[trigger] found[k];
            &&& 0 <= p.0 < p.1 < items.len()
            &&& items[p.0] matches ItemView::ToolCall(id, _, _) && items[p.1].is_result(id)
        }
}

proof fn lemma_answered_after_called(
    items: Seq<ItemView>,
    found: Seq<(int, int)>,
    id: Seq<char>,
    n: int,
)
    requires
        pairs_sound(items, found),
    ensures
        pairs_answered(items, found, id, n) <= pairs_called(items, found, id, n),
        n == items.len() ==> pairs_answered(items, found, id, n) == pairs_called(
            items,
            found,
            id,
            n,
        ),
    decreases found.len(),
{
    if found.len() > 0 {
        let rest = found.drop_last();
        assert forall|k: int| 0 <= k < rest.len() implies {
            let p = #[trigger] rest[k];
            &&& 0 <= p.0 < p.1 < items.len()
            &&& items[p.0] matches ItemView::ToolCall(id, _, _) && items[p.1].is_result(id)
        } by {
            assert(rest[k] == found[k]);
        }
        lemma_answered_after_called(items, rest, id, n);
        assert(found[found.len() - 1] == found.last());
    }
}

proof fn lemma_none_before_start(items: Seq<ItemView>, found: Seq<(int, int)>, id: Seq<char>)
    requires
        pairs_sound(items, found),
    ensures
        pairs_called(items, found, id, 0) == 0,
        pairs_answered(items, found, id, 0) == 0,
    decreases found.len(),
{
    if found.len() > 0 {
        let rest = found.drop_last();
        assert forall|k: int| 0 <= k < rest.len() implies {
            let p = #[trigger] rest[k];
            &&& 0 <= p.0 < p.1 < items.len()
            &&& items[p.0] matches ItemView::ToolCall(id, _, _) && items[p.1].is_result(id)
        } by {
            assert(rest[k] == found[k]);
        }
        lemma_none_before_start(items, rest, id);
        assert(found[found.len() - 1] == found.last());
    }
}

proof fn lemma_kept_counts(items: Seq<ItemView>, n: int, id: Seq<char>)
    requires
        0 <= n <= items.len(),
        pairs_sound(items, pairs(items)),
        calls_distinct(pairs(items)),
        results_distinct(pairs(items)),
    ensures
        calls_in(kept_items(items, n), id) == pairs_called(items, pairs(items), id, n),
        results_in(kept_items(items, n), id) == pairs_answered(items, pairs(items), id, n),
    decreases n,
{
    let found = pairs(items);
    if n == 0 {
        lemma_none_before_start(items, found, id);
    } else {
        let i = n - 1;
        lemma_kept_counts(items, i, id);
        lemma_pairs_called_step(items, found, id, i);
        lemma_pairs_answered_step(items, found, id, i);
        if items[i].is_call(id) {
            assert(in_pair(found, i) <==> has_call(found, i)) by {
                if in_pair(found, i) {
                    let k = choose|k: int|
                        0 <= k < found.len() && ((#[trigger] found[k]).0 == i || found[k].1 == i);
                    assert(found[k].0 == i);
                }
                if has_call(found, i) {
                    let k = choose|k: int| 0 <= k < found.len() && (#[trigger] found[k]).0 == i;
                    assert(found[k].0 == i);
                }
            }
        }
        if items[i].is_result(id) {
            assert(in_pair(found, i) <==> has_result(found, i)) by {
                if in_pair(found, i) {
                    let k = choose|k: int|
                        0 <= k < found.len() && ((#[trigger] found[k]).0 == i || found[k].1 == i);
                    assert(found[k].1 == i);
                }
                if has_result(found, i) {
                    let k = choose|k: int| 0 <= k < found.len() && (#[trigger] found[k]).1 == i;
                    assert(found[k].1 == i);
                }
            }
        }
        if kept(items, i) {
            let before = kept_items(items, i);
            assert(before.push(items[i]).drop_last() =~= before);
        }
    }
}

/// Every beginning of what is kept is what is kept of some beginning.
proof fn lemma_kept_prefix(items: Seq<ItemView>, n: int, m: int) -> (at: int)
    requires
        0 <= n <= items.len(),
        0 <= m <= kept_items(items, n).len(),
    ensures
        0 <= at <= n,
        kept_items(items, at) == kept_items(items, n).take(m),
    decreases n,
{
    let all = kept_items(items, n);
    if m == all.len() {
        assert(all.take(m) =~= all);
        n
    } else {
        let before = kept_items(items, n - 1);
        let at = lemma_kept_prefix(items, n - 1, m);
        assert(all.take(m) =~= before.take(m));
        at
    }
}

/// Dropping unpaired calls and results leaves a paired history.
pub proof fn law_dropping_leaves_pairs(items: Seq<ItemView>)
    ensures
        well_paired(without_unpaired(items)),
{
    let len = items.len() as int;
    let found = pairs(items);
    lemma_scan_sound(items, len);
    lemma_scan_distinct(items, len);
    assert(pairs_sound(items, found));
    let out = without_unpaired(items);
    assert forall|n: int, id: Seq<char>| 0 <= n <= out.len() implies #[trigger] balanced_at(
        out,
        n,
        id,
    ) by {
        let at = lemma_kept_prefix(items, len, n);
        lemma_kept_counts(items, at, id);
        lemma_answered_after_called(items, found, id, at);
    }
    assert forall|id: Seq<char>| #[trigger] results_in(out, id) == calls_in(out, id) by {
        lemma_kept_counts(items, len, id);
        lemma_answered_after_called(items, found, id, len);
    }
}

// ---------------------------------------------------------------------------
// A paired history, scanned
// ---------------------------------------------------------------------------
/// The number of waiting calls with this identifier.
spec fn waiting(items: Seq<ItemView>, pending: Seq<int>, id: Seq<char>) -> nat
    decreases pending.len(),
{
    if pending.len() == 0 {
        0
    } else {
        waiting(items, pending.drop_last(), id) + (if items[pending.last()].is_call(id) {
            1nat
        } else {
            0nat
        })
    }
}

proof fn lemma_waiting_remove(items: Seq<ItemView>, pending: Seq<int>, k: int, id: Seq<char>)
    requires
        0 <= k < pending.len(),
    ensures
        waiting(items, pending, id) == waiting(items, pending.remove(k), id) + (
        if items[pending[k]].is_call(id) {
            1nat
        } else {
            0nat
        }),
    decreases pending.len(),
{
    if k == pending.len() - 1 {
        assert(pending.remove(k) =~= pending.drop_last());
    } else {
        lemma_waiting_remove(items, pending.drop_last(), k, id);
        assert(pending.remove(k).drop_last() =~= pending.drop_last().remove(k));
        assert(pending.remove(k).last() == pending.last());
    }
}

proof fn lemma_waiting_none(items: Seq<ItemView>, pending: Seq<int>, id: Seq<char>)
    requires
        waiting(items, pending, id) == 0,
    ensures
        forall|k: int| 0 <= k < pending.len() ==> !items[#[trigger] pending[k]].is_call(id),
    decreases pending.len(),
{
    if pending.len() > 0 {
        lemma_waiting_none(items, pending.drop_last(), id);
        assert forall|k: int| 0 <= k < pending.len() implies !items[
            #[trigger] pending[k]
        ].is_call(id) by {
            if k < pending.len() - 1 {
                assert(pending.drop_last()[k] == pending[k]);
            }
        }
    }
}

proof fn lemma_waiting_absent(items: Seq<ItemView>, pending: Seq<int>, id: Seq<char>)
    requires
        forall|k: int| 0 <= k < pending.len() ==> !items[#[trigger] pending[k]].is_call(id),
    ensures
        waiting(items, pending, id) == 0,
    decreases pending.len(),
{
    if pending.len() > 0 {
        assert forall|k: int| 0 <= k < pending.drop_last().len() implies !items[
            #[trigger] pending.drop_last()[k]
        ].is_call(id) by {
            assert(pending.drop_last()[k] == pending[k]);
        }
        lemma_waiting_absent(items, pending.drop_last(), id);
        assert(pending[pending.len() - 1] == pending.last());
    }
}

/// In a paired history the calls that wait are those without a result so far.
proof fn lemma_paired_scan(items: Seq<ItemView>, n: int, id: Seq<char>)
    requires
        well_paired(items),
        0 <= n <= items.len(),
    ensures
        calls_in(items.take(n), id) == waiting(items, scan(items, n).pending, id) + results_in(
            items.take(n),
            id,
        ),
    decreases n, 0int,
{
    if n > 0 {
        let i = n - 1;
        let before = scan(items, i);
        lemma_paired_scan(items, i, id);
        assert(items.take(n).drop_last() =~= items.take(i));
        assert(items.take(n).last() == items[i]);
        match items[i] {
            ItemView::ToolCall(_, _, _) => {
                assert(before.pending.push(i).drop_last() =~= before.pending);
            },
            ItemView::ToolResult(call_id, _) => {
                lemma_oldest(items, before.pending, call_id);
                lemma_paired_result(items, i);
                let k = oldest(items, before.pending, call_id)->0;
                lemma_waiting_remove(items, before.pending, k, id);
                if id != call_id {
                    assert(!items[before.pending[k]].is_call(id));
                }
            },
            _ => {},
        }
    } else {
        assert(items.take(0) =~= Seq::empty());
    }
}

/// In a paired history every result finds its call.
proof fn lemma_paired_result(items: Seq<ItemView>, i: int)
    requires
        well_paired(items),
        0 <= i < items.len(),
        items[i] is ToolResult,
    ensures
        items[i] matches ItemView::ToolResult(id, _) && oldest(
            items,
            scan(items, i).pending,
            id,
        ) is Some,
    decreases i, 1int,
{
    if let ItemView::ToolResult(id, _) = items[i] {
        let before = scan(items, i);
        lemma_oldest(items, before.pending, id);
        if oldest(items, before.pending, id) is None {
            lemma_waiting_absent(items, before.pending, id);
            lemma_paired_scan(items, i, id);
            assert(balanced_at(items, i + 1, id));
            assert(items.take(i + 1).drop_last() =~= items.take(i));
            assert(items.take(i + 1).last() == items[i]);
            assert(false);
        }
    }
}

/// A call that waits at `s` still waits at `n`, or its result came since.
proof fn lemma_waits_or_answered(items: Seq<ItemView>, s: int, n: int, call: int)
    requires
        0 <= s <= n <= items.len(),
        scan(items, s).pending.contains(call),
    ensures
        scan(items, n).pending.contains(call) || exists|k: int|
            0 <= k < scan(items, n).pairs.len() && (#[trigger] scan(items, n).pairs[k]).0 == call
                && scan(items, n).pairs[k].1 >= s,
    decreases n,
{
    if n > s {
        lemma_waits_or_answered(items, s, n - 1, call);
        let before = scan(items, n - 1);
        let after = scan(items, n);
        if before.pending.contains(call) {
            let j = choose|j: int| 0 <= j < before.pending.len() && before.pending[j] == call;
            match items[n - 1] {
                ItemView::ToolCall(_, _, _) => {
                    assert(after.pending[j] == call);
                },
                ItemView::ToolResult(id, _) => {
                    lemma_oldest(items, before.pending, id);
                    if let Some(k) = oldest(items, before.pending, id) {
                        if j == k {
                            assert(after.pairs[after.pairs.len() - 1] == (call, n - 1));
                        } else if j < k {
                            assert(after.pending[j] == call);
                        } else {
                            assert(after.pending[j - 1] == call);
                        }
                    }
                },
                _ => {},
            }
        } else {
            let k = choose|k: int|
                0 <= k < before.pairs.len() && (#[trigger] before.pairs[k]).0 == call
                    && before.pairs[k].1 >= s;
            assert(after.pairs[k] == before.pairs[k]);
        }
    }
}

/// At the end of a paired history no call waits.
proof fn lemma_nothing_waits(items: Seq<ItemView>)
    requires
        well_paired(items),
    ensures
        scan(items, items.len() as int).pending.len() == 0,
{
    let len = items.len() as int;
    let pending = scan(items, len).pending;
    if pending.len() > 0 {
        lemma_scan_sound(items, len);
        let call = pending[0];
        if let ItemView::ToolCall(id, _, _) = items[call] {
            lemma_paired_scan(items, len, id);
            assert(items.take(len) =~= items);
            assert(results_in(items, id) == calls_in(items, id));
            lemma_waiting_none(items, pending, id);
            assert(items[pending[0]].is_call(id));
        }
    }
}

/// Where a paired history can be cut, no call waits.
proof fn lemma_clear_nothing_waits(items: Seq<ItemView>, s: int)
    requires
        well_paired(items),
        0 <= s <= items.len(),
        clear(items, s),
    ensures
        scan(items, s).pending.len() == 0,
{
    let pending = scan(items, s).pending;
    if pending.len() > 0 {
        let call = pending[0];
        assert(pending.contains(call));
        lemma_scan_sound(items, s);
        lemma_nothing_waits(items);
        let len = items.len() as int;
        lemma_waits_or_answered(items, s, len, call);
        let k = choose|k: int|
            0 <= k < pairs(items).len() && (#[trigger] pairs(items)[k]).0 == call
                && pairs(items)[k].1 >= s;
        assert(pairs(items)[k].0 < s <= pairs(items)[k].1);
    }
}

proof fn lemma_counts_split(items: Seq<ItemView>, s: int, m: int, id: Seq<char>)
    requires
        0 <= s,
        0 <= m,
        s + m <= items.len(),
    ensures
        calls_in(items.take(s + m), id) == calls_in(items.take(s), id) + calls_in(
            items.skip(s).take(m),
            id,
        ),
        results_in(items.take(s + m), id) == results_in(items.take(s), id) + results_in(
            items.skip(s).take(m),
            id,
        ),
    decreases m,
{
    let part = items.skip(s).take(m);
    if m == 0 {
        assert(part =~= Seq::empty());
    } else {
        lemma_counts_split(items, s, m - 1, id);
        assert(items.take(s + m).drop_last() =~= items.take(s + m - 1));
        assert(part.drop_last() =~= items.skip(s).take(m - 1));
        assert(items.take(s + m).last() == part.last());
    }
}

/// Cutting a paired history where no pair is split leaves a paired history.
pub proof fn law_clear_cut_keeps_pairs(items: Seq<ItemView>, s: int)
    requires
        well_paired(items),
        0 <= s <= items.len(),
        clear(items, s),
    ensures
        well_paired(items.skip(s)),
{
    let out = items.skip(s);
    let len = items.len() as int;
    lemma_clear_nothing_waits(items, s);
    assert forall|n: int, id: Seq<char>| 0 <= n <= out.len() implies #[trigger] balanced_at(
        out,
        n,
        id,
    ) by {
        lemma_counts_split(items, s, n, id);
        lemma_paired_scan(items, s, id);
        assert(balanced_at(items, s + n, id));
    }
    assert forall|id: Seq<char>| #[trigger] results_in(out, id) == calls_in(out, id) by {
        lemma_counts_split(items, s, len - s, id);
        lemma_paired_scan(items, s, id);
        assert(items.take(len) =~= items);
        assert(out.take(len - s) =~= out);
        assert(results_in(items, id) == calls_in(items, id));
    }
}

proof fn lemma_pairs_grow(items: Seq<ItemView>, m: int, n: int, k: int)
    requires
        0 <= m <= n <= items.len(),
        0 <= k < scan(items, m).pairs.len(),
    ensures
        k < scan(items, n).pairs.len(),
        scan(items, n).pairs[k] == scan(items, m).pairs[k],
    decreases n,
{
    if n > m {
        lemma_pairs_grow(items, m, n - 1, k);
    }
}

/// A paired history has nothing to drop.
pub proof fn law_paired_history_is_kept(items: Seq<ItemView>)
    requires
        well_paired(items),
    ensures
        without_unpaired(items) == items,
{
    lemma_kept_all(items, items.len() as int);
    assert(items.take(items.len() as int) =~= items);
}

proof fn lemma_kept_all(items: Seq<ItemView>, n: int)
    requires
        well_paired(items),
        0 <= n <= items.len(),
    ensures
        kept_items(items, n) == items.take(n),
    decreases n,
{
    if n > 0 {
        let i = n - 1;
        let len = items.len() as int;
        lemma_kept_all(items, i);
        match items[i] {
            ItemView::ToolCall(_, _, _) => {
                assert(scan(items, n).pending.last() == i);
                assert(scan(items, n).pending.contains(i));
                lemma_waits_or_answered(items, n, len, i);
                lemma_nothing_waits(items);
                assert(in_pair(pairs(items), i));
            },
            ItemView::ToolResult(id, _) => {
                lemma_paired_result(items, i);
                let found = scan(items, n).pairs;
                let k = found.len() - 1;
                assert(found[k].1 == i);
                lemma_pairs_grow(items, n, len, k);
                assert(pairs(items)[k].1 == i);
                assert(in_pair(pairs(items), i));
            },
            _ => {},
        }
        assert(kept(items, i));
        assert(items.take(i).push(items[i]) =~= items.take(n));
    } else {
        assert(items.take(0) =~= Seq::empty());
    }
}

// ---------------------------------------------------------------------------
// The context
// ---------------------------------------------------------------------------
proof fn lemma_first_start(items: Seq<ItemView>, budget: ContextBudget, from: int)
    requires
        0 <= from <= items.len(),
    ensures
        from <= first_start(items, budget, from) <= items.len(),
        ({
            let s = first_start(items, budget, from);
            s < items.len() ==> fits(items.skip(s), budget) && clear(items, s)
        }),
        forall|t: int|
            from <= t < first_start(items, budget, from) ==> !(fits(#[trigger] items.skip(t), budget)
                && clear(items, t)),
    decreases items.len() - from,
{
    if from < items.len() && !(fits(items.skip(from), budget) && clear(items, from)) {
        lemma_first_start(items, budget, from + 1);
    }
}

proof fn lemma_clear_end(items: Seq<ItemView>)
    ensures
        clear(items, items.len() as int),
{
    lemma_scan_sound(items, items.len() as int);
}

/// A context never holds a call without its result nor a result without its
/// call.
pub proof fn law_context_is_paired(history: Seq<ItemView>, budget: ContextBudget)
    ensures
        well_paired(model_context(history, budget)),
{
    let valid = without_unpaired(history);
    law_dropping_leaves_pairs(history);
    lemma_first_start(valid, budget, 0);
    lemma_clear_end(valid);
    law_clear_cut_keeps_pairs(valid, first_start(valid, budget, 0));
}

/// A context that is not empty keeps to its budget.
pub proof fn law_context_fits_budget(history: Seq<ItemView>, budget: ContextBudget)
    ensures
        model_context(history, budget).len() == 0 || fits(model_context(history, budget), budget),
{
    lemma_first_start(without_unpaired(history), budget, 0);
}

/// No longer end of the paired history keeps to the budget without splitting a
/// pair.
pub proof fn law_context_is_longest(history: Seq<ItemView>, budget: ContextBudget, from: int)
    requires
        0 <= from < without_unpaired(history).len() - model_context(history, budget).len(),
    ensures
        !(fits(without_unpaired(history).skip(from), budget) && clear(
            without_unpaired(history),
            from,
        )),
{
    lemma_first_start(without_unpaired(history), budget, 0);
}

/// A paired history within the budget is its own context.
pub proof fn law_small_history_is_kept(history: Seq<ItemView>, budget: ContextBudget)
    requires
        well_paired(history),
        fits(history, budget),
    ensures
        model_context(history, budget) == history,
{
    law_paired_history_is_kept(history);
    assert(history.skip(0) =~= history);
    if history.len() > 0 {
        lemma_scan_sound(history, history.len() as int);
        assert(clear(history, 0));
    }
}

/// Building a context from a context changes nothing.
pub proof fn law_context_is_stable(history: Seq<ItemView>, budget: ContextBudget)
    ensures
        model_context(model_context(history, budget), budget) == model_context(history, budget),
{
    let out = model_context(history, budget);
    law_context_is_paired(history, budget);
    law_context_fits_budget(history, budget);
    if out.len() == 0 {
        law_paired_history_is_kept(out);
        assert(out.skip(0) =~= out);
    } else {
        law_small_history_is_kept(out, budget);
    }
}

proof fn lemma_limits(items: Seq<ItemView>)
    ensures
        count_tool_calls(items) == items.filter(|item: ItemView| item is ToolCall).len(),
        count_evidence(items) == items.filter(|item: ItemView| item is ToolResult).len(),
        total_bytes(items) == items.fold_left(
            0int,
            |sum: int, item: ItemView| sum + bytes_of(item.json()).len(),
        ),
        total_tokens(items) == items.fold_left(
            0int,
            |sum: int, item: ItemView| sum + (bytes_of(item.json()).len() + 3) / 4,
        ),
    decreases items.len(),
{
    reveal(Seq::filter);
    if items.len() > 0 {
        lemma_limits(items.drop_last());
    }
}

/// What it means to keep to a budget: no more items than it has room for, no more calls
/// of tools among them, no more results, no more bytes and no more tokens, four bytes
/// to a token; and where the cost is limited, ten micros to a token.
pub proof fn law_budget_limits_everything(items: Seq<ItemView>, budget: ContextBudget)
    ensures
        fits(items, budget) <==> {
            let tokens = items.fold_left(
                0int,
                |sum: int, item: ItemView| sum + (bytes_of(item.json()).len() + 3) / 4,
            );
            &&& items.len() <= budget.max_items
            &&& items.filter(|item: ItemView| item is ToolCall).len() <= budget.max_tool_calls
            &&& items.filter(|item: ItemView| item is ToolResult).len() <= budget.max_evidence
            &&& items.fold_left(
                0int,
                |sum: int, item: ItemView| sum + bytes_of(item.json()).len(),
            ) <= budget.max_bytes
            &&& tokens <= budget.max_tokens
            &&& budget.max_cost_micros == 0 || budget.max_cost_micros == u64::MAX || 10 * tokens
                <= budget.max_cost_micros
        },
{
    lemma_limits(items);
}

/// What a model is sent of a history keeps to the budget in every respect, is an end of
/// what is left of the history without calls that have no result and results that have
/// no call, and is the whole history where that is within the budget and every call in
/// it has its result.
pub proof fn law_model_is_sent_what_the_budget_allows(
    history: Seq<ModelItem>,
    budget: ContextBudget,
    sent: Seq<ModelItem>,
)
    requires
        item_views(sent) == model_context(item_views(history), budget),
    ensures
        sent.len() <= history.len(),
        sent.len() > 0 ==> {
            let items = item_views(sent);
            &&& items.len() <= budget.max_items
            &&& items.filter(|item: ItemView| item is ToolCall).len() <= budget.max_tool_calls
            &&& items.filter(|item: ItemView| item is ToolResult).len() <= budget.max_evidence
            &&& items.fold_left(
                0int,
                |sum: int, item: ItemView| sum + bytes_of(item.json()).len(),
            ) <= budget.max_bytes
            &&& items.fold_left(
                0int,
                |sum: int, item: ItemView| sum + (bytes_of(item.json()).len() + 3) / 4,
            ) <= budget.max_tokens
        },
        forall|i: int|
            0 <= i < sent.len() ==> item_views(history).contains((#[trigger] sent[i])@),
        (forall|i: int|
            0 <= i < history.len() ==> !(#[trigger] history[i] is ToolCall) && !(history[i]
                is ToolResult)) && history.len() <= budget.max_items && item_views(
            history,
        ).fold_left(0int, |sum: int, item: ItemView| sum + bytes_of(item.json()).len())
            <= budget.max_bytes && item_views(history).fold_left(
            0int,
            |sum: int, item: ItemView| sum + (bytes_of(item.json()).len() + 3) / 4,
        ) <= budget.max_tokens && budget.max_cost_micros == 0 ==> item_views(sent) == item_views(
            history,
        ),
{
    let items = item_views(history);
    let out = item_views(sent);
    let valid = without_unpaired(items);
    assert(out.len() == sent.len() && items.len() == history.len());
    law_context_fits_budget(items, budget);
    law_budget_limits_everything(out, budget);
    law_budget_limits_everything(items, budget);
    lemma_first_start(valid, budget, 0);
    lemma_kept_from(items, items.len() as int);
    assert forall|i: int| 0 <= i < sent.len() implies items.contains((#[trigger] sent[i])@) by {
        assert(out[i] == sent[i]@);
        assert(out[i] == valid[first_start(valid, budget, 0) + i]);
    }
    if forall|i: int|
        0 <= i < history.len() ==> !(#[trigger] history[i] is ToolCall) && !(history[i]
            is ToolResult) {
        assert forall|i: int| 0 <= i < items.len() implies !(#[trigger] items[i]).is_tool() by {
            assert(items[i] == history[i]@);
        }
        lemma_no_tools(items, items.len() as int);
        assert(items.take(items.len() as int) =~= items);
        lemma_nothing_counted(items);
        lemma_limits(items);
        assert(items.skip(0) =~= items);
        if fits(items, budget) && items.len() > 0 {
            lemma_scan_sound(items, items.len() as int);
            assert(clear(items, 0));
        }
    }
}

proof fn lemma_nothing_counted(items: Seq<ItemView>)
    requires
        forall|i: int| 0 <= i < items.len() ==> !(#[trigger] items[i]).is_tool(),
    ensures
        count_tool_calls(items) == 0,
        count_evidence(items) == 0,
    decreases items.len(),
{
    if items.len() > 0 {
        let init = items.drop_last();
        assert forall|i: int| 0 <= i < init.len() implies !(#[trigger] init[i]).is_tool() by {
            assert(init[i] == items[i]);
        }
        lemma_nothing_counted(init);
        assert(!items[items.len() - 1].is_tool());
    }
}

proof fn lemma_no_tools(items: Seq<ItemView>, n: int)
    requires
        0 <= n <= items.len(),
        forall|i: int| 0 <= i < items.len() ==> !(#[trigger] items[i]).is_tool(),
    ensures
        kept_items(items, n) == items.take(n),
    decreases n,
{
    if n > 0 {
        lemma_no_tools(items, n - 1);
        assert(!items[n - 1].is_tool());
        assert(items.take(n) =~= items.take(n - 1).push(items[n - 1]));
    } else {
        assert(items.take(0) =~= Seq::empty());
    }
}

proof fn lemma_kept_from(items: Seq<ItemView>, n: int)
    requires
        0 <= n <= items.len(),
    ensures
        kept_items(items, n).len() <= n,
        forall|i: int|
            0 <= i < kept_items(items, n).len() ==> items.contains(
                #[trigger] kept_items(items, n)[i],
            ),
    decreases n,
{
    if n > 0 {
        lemma_kept_from(items, n - 1);
        assert(items.contains(items[n - 1]));
    }
}

} // verus!
