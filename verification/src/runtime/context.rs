//! The part of a thread's history that is sent to a model: whole pairs of tool
//! calls and results, cut to a budget from the front.
use vstd::prelude::*;

use crate::json::bytes_of;
use crate::model::provider::{item_views, ItemView, ModelItem};
use crate::text::same;

verus! {

#[derive(Clone, Copy, Debug, PartialEq, Eq, Structural)]
pub struct ContextBudget {
    pub max_items: usize,
    pub max_tokens: usize,
    pub max_bytes: usize,
    pub max_evidence: usize,
    pub max_tool_calls: usize,
    pub max_cost_micros: u64,
}

impl Default for ContextBudget {
    fn default() -> (r: Self)
        ensures
            r == (ContextBudget {
                max_items: 100,
                max_tokens: 24_000,
                max_bytes: 96_000,
                max_evidence: 32,
                max_tool_calls: 24,
                max_cost_micros: 0,
            }),
    {
        ContextBudget {
            max_items: 100,
            max_tokens: 24_000,
            max_bytes: 96_000,
            max_evidence: 32,
            max_tool_calls: 24,
            max_cost_micros: 0,
        }
    }
}

impl ContextBudget {
    /// A budget that only limits the number of items.
    pub fn items_only(max_items: usize) -> (r: Self)
        ensures
            r == (ContextBudget {
                max_items,
                max_tokens: usize::MAX,
                max_bytes: usize::MAX,
                max_evidence: usize::MAX,
                max_tool_calls: usize::MAX,
                max_cost_micros: 0,
            }),
    {
        ContextBudget {
            max_items,
            max_tokens: usize::MAX,
            max_bytes: usize::MAX,
            max_evidence: usize::MAX,
            max_tool_calls: usize::MAX,
            max_cost_micros: 0,
        }
    }
}

// ---------------------------------------------------------------------------
// Pairing calls with results
// ---------------------------------------------------------------------------
/// The calls that wait for a result, oldest first, and the pairs of call and
/// result found so far, by index.
#[verifier::ext_equal]
pub struct Scan {
    pub pending: Seq<int>,
    pub pairs: Seq<(int, int)>,
}

/// The position in `pending` of the oldest call with this identifier.
pub open spec fn oldest(items: Seq<ItemView>, pending: Seq<int>, id: Seq<char>) -> Option<int>
    decreases pending.len(),
{
    if pending.len() == 0 {
        None
    } else if items[pending[0]].is_call(id) {
        Some(0)
    } else {
        match oldest(items, pending.skip(1), id) {
            Some(k) => Some(k + 1),
            None => None,
        }
    }
}

/// Pairs the first `n` items: a result goes to the oldest waiting call with its
/// identifier.
pub open spec fn scan(items: Seq<ItemView>, n: int) -> Scan
    decreases n,
{
    if n <= 0 {
        Scan { pending: Seq::empty(), pairs: Seq::empty() }
    } else {
        let before = scan(items, n - 1);
        match items[n - 1] {
            ItemView::ToolCall(_, _, _) => Scan {
                pending: before.pending.push(n - 1),
                pairs: before.pairs,
            },
            ItemView::ToolResult(id, _) => match oldest(items, before.pending, id) {
                Some(k) => Scan {
                    pending: before.pending.remove(k),
                    pairs: before.pairs.push((before.pending[k], n - 1)),
                },
                None => before,
            },
            _ => before,
        }
    }
}

/// The pairs of call and result among `items`, by index.
pub open spec fn pairs(items: Seq<ItemView>) -> Seq<(int, int)> {
    scan(items, items.len() as int).pairs
}

/// Index `i` is that of a call or a result in a pair.
pub open spec fn in_pair(pairs: Seq<(int, int)>, i: int) -> bool {
    exists|k: int| 0 <= k < pairs.len() && ((#[trigger] pairs[k]).0 == i || pairs[k].1 == i)
}

/// Calls and results stay only in pairs; messages stay.
pub open spec fn kept(items: Seq<ItemView>, i: int) -> bool {
    !items[i].is_tool() || in_pair(pairs(items), i)
}

/// What stays of the first `n` items.
pub open spec fn kept_items(items: Seq<ItemView>, n: int) -> Seq<ItemView>
    decreases n,
{
    if n <= 0 {
        Seq::empty()
    } else if kept(items, n - 1) {
        kept_items(items, n - 1).push(items[n - 1])
    } else {
        kept_items(items, n - 1)
    }
}

/// `items` without calls that have no result and results that have no call.
pub open spec fn without_unpaired(items: Seq<ItemView>) -> Seq<ItemView> {
    kept_items(items, items.len() as int)
}

pub proof fn lemma_oldest(items: Seq<ItemView>, pending: Seq<int>, id: Seq<char>)
    ensures
        match oldest(items, pending, id) {
            Some(k) => {
                &&& 0 <= k < pending.len()
                &&& items[pending[k]].is_call(id)
                &&& forall|j: int| 0 <= j < k ==> !items[#[trigger] pending[j]].is_call(id)
            },
            None => forall|j: int|
                0 <= j < pending.len() ==> !items[#[trigger] pending[j]].is_call(id),
        },
    decreases pending.len(),
{
    if pending.len() > 0 && !items[pending[0]].is_call(id) {
        let rest = pending.skip(1);
        lemma_oldest(items, rest, id);
        match oldest(items, rest, id) {
            Some(k) => {
                assert(rest[k] == pending[k + 1]);
                assert forall|j: int| 0 <= j < k + 1 implies !items[#[trigger] pending[j]].is_call(
                    id,
                ) by {
                    if j > 0 {
                        assert(rest[j - 1] == pending[j]);
                    }
                }
            },
            None => {
                assert forall|j: int| 0 <= j < pending.len() implies !items[
                    #[trigger] pending[j]
                ].is_call(id) by {
                    if j > 0 {
                        assert(rest[j - 1] == pending[j]);
                    }
                }
            },
        }
    }
}

/// What the scan keeps true: indices are in range, waiting calls are calls, and
/// a pair is a call and a later result with one identifier.
pub open spec fn scan_sound(items: Seq<ItemView>, n: int, s: Scan) -> bool {
    &&& forall|k: int|
        0 <= k < s.pending.len() ==> 0 <= #[trigger] s.pending[k] < n && items[s.pending[k]] is ToolCall
    &&& forall|k: int|
        0 <= k < s.pairs.len() ==> {
            let p = #[trigger] s.pairs[k];
            &&& 0 <= p.0 < p.1 < n
            &&& items[p.0] matches ItemView::ToolCall(id, _, _) && items[p.1].is_result(id)
        }
}

pub proof fn lemma_scan_sound(items: Seq<ItemView>, n: int)
    requires
        0 <= n <= items.len(),
    ensures
        scan_sound(items, n, scan(items, n)),
    decreases n,
{
    if n > 0 {
        lemma_scan_sound(items, n - 1);
        let before = scan(items, n - 1);
        if let ItemView::ToolResult(id, _) = items[n - 1] {
            lemma_oldest(items, before.pending, id);
            if let Some(k) = oldest(items, before.pending, id) {
                let after = before.pending.remove(k);
                assert forall|j: int| 0 <= j < after.len() implies 0 <= #[trigger] after[j] < n
                    && items[after[j]] is ToolCall by {
                    if j < k {
                        assert(after[j] == before.pending[j]);
                    } else {
                        assert(after[j] == before.pending[j + 1]);
                    }
                }
            }
        }
    }
}

/// The indices of a list of pairs.
pub open spec fn index_pairs(pairs: Seq<(usize, usize)>) -> Seq<(int, int)> {
    pairs.map_values(|p: (usize, usize)| (p.0 as int, p.1 as int))
}

pub open spec fn indices(pending: Seq<usize>) -> Seq<int> {
    pending.map_values(|i: usize| i as int)
}

fn find_oldest(items: &Vec<ModelItem>, pending: &Vec<usize>, id: &str) -> (r: Option<usize>)
    requires
        forall|k: int| 0 <= k < pending@.len() ==> pending@[k] < items@.len(),
    ensures
        match r {
            Some(k) => oldest(item_views(items@), indices(pending@), id@) == Some(k as int) && k
                < pending@.len(),
            None => oldest(item_views(items@), indices(pending@), id@) is None,
        },
{
    let ghost views = item_views(items@);
    let ghost all = indices(pending@);
    let mut k: usize = 0;
    assert(all.skip(0) =~= all);
    while k < pending.len()
        invariant
            k <= pending@.len(),
            views == item_views(items@),
            all == indices(pending@),
            forall|k: int| 0 <= k < pending@.len() ==> pending@[k] < items@.len(),
            match oldest(views, all.skip(k as int), id@) {
                Some(j) => oldest(views, all, id@) == Some(j + k),
                None => oldest(views, all, id@) is None,
            },
        decreases pending@.len() - k,
    {
        let ghost rest = all.skip(k as int);
        proof {
            assert(rest[0] == pending@[k as int] as int);
            assert(rest.skip(1) =~= all.skip(k + 1));
        }
        let item = &items[pending[k]];
        assert(views[pending@[k as int] as int] == item@);
        let matching = match item {
            ModelItem::ToolCall { call_id, .. } => same(call_id.as_str(), id),
            _ => false,
        };
        if matching {
            return Some(k);
        }
        k += 1;
    }
    None
}

/// The pairs of call and result among `items`, in the order of the results.
pub fn pair_calls(items: &Vec<ModelItem>) -> (r: Vec<(usize, usize)>)
    ensures
        index_pairs(r@) == pairs(item_views(items@)),
{
    let ghost views = item_views(items@);
    let mut found: Vec<(usize, usize)> = Vec::new();
    let mut pending: Vec<usize> = Vec::new();
    let mut i: usize = 0;
    proof {
        assert(index_pairs(found@) =~= Seq::empty());
        assert(indices(pending@) =~= Seq::empty());
    }
    while i < items.len()
        invariant
            i <= items@.len(),
            views == item_views(items@),
            index_pairs(found@) == scan(views, i as int).pairs,
            indices(pending@) == scan(views, i as int).pending,
            forall|k: int| 0 <= k < pending@.len() ==> pending@[k] < i,
        decreases items@.len() - i,
    {
        let ghost before = scan(views, i as int);
        assert(views[i as int] == items@[i as int]@);
        match &items[i] {
            ModelItem::ToolCall { .. } => {
                pending.push(i);
                assert(indices(pending@) =~= before.pending.push(i as int));
            },
            ModelItem::ToolResult { call_id, .. } => {
                match find_oldest(items, &pending, call_id.as_str()) {
                    Some(k) => {
                        let call = pending[k];
                        let ghost held = pending@;
                        let removed = pending.remove(k);
                        found.push((call, i));
                        proof {
                            assert(indices(pending@) =~= before.pending.remove(k as int));
                            assert(index_pairs(found@) =~= before.pairs.push(
                                (before.pending[k as int], i as int),
                            ));
                            assert forall|j: int| 0 <= j < pending@.len() implies pending@[j]
                                < i by {
                                if j < k {
                                    assert(pending@[j] == held[j]);
                                } else {
                                    assert(pending@[j] == held[j + 1]);
                                }
                            }
                        }
                    },
                    None => {},
                }
            },
            _ => {},
        }
        i += 1;
    }
    found
}

/// The indices below `n` that are in a pair.
fn paired_flags(n: usize, found: &Vec<(usize, usize)>) -> (r: Vec<bool>)
    requires
        forall|k: int| 0 <= k < found@.len() ==> found@[k].0 < n && found@[k].1 < n,
    ensures
        r@.len() == n,
        forall|i: int| 0 <= i < n ==> r@[i] == in_pair(index_pairs(found@), i),
{
    let ghost all = index_pairs(found@);
    let mut flags: Vec<bool> = Vec::new();
    let mut i: usize = 0;
    while i < n
        invariant
            i <= n,
            flags@.len() == i,
            forall|j: int| 0 <= j < i ==> !flags@[j],
        decreases n - i,
    {
        flags.push(false);
        i += 1;
    }
    let mut k: usize = 0;
    while k < found.len()
        invariant
            k <= found@.len(),
            flags@.len() == n,
            all == index_pairs(found@),
            forall|k: int| 0 <= k < found@.len() ==> found@[k].0 < n && found@[k].1 < n,
            forall|i: int| 0 <= i < n ==> flags@[i] == in_pair(all.take(k as int), i),
        decreases found@.len() - k,
    {
        let ghost before = flags@;
        let (call, result) = found[k];
        flags.set(call, true);
        flags.set(result, true);
        proof {
            let now = all.take(k + 1);
            let then = all.take(k as int);
            assert(now[k as int] == (call as int, result as int));
            assert forall|i: int| 0 <= i < n implies flags@[i] == in_pair(now, i) by {
                if i == call || i == result {
                    assert(in_pair(now, i));
                } else {
                    if in_pair(then, i) {
                        let j = choose|j: int|
                            0 <= j < then.len() && ((#[trigger] then[j]).0 == i || then[j].1 == i);
                        assert(now[j] == then[j]);
                    }
                    if in_pair(now, i) {
                        let j = choose|j: int|
                            0 <= j < now.len() && ((#[trigger] now[j]).0 == i || now[j].1 == i);
                        assert(j < k);
                        assert(now[j] == then[j]);
                    }
                    assert(flags@[i] == before[i]);
                }
            }
        }
        k += 1;
    }
    assert(all.take(k as int) =~= all);
    flags
}

/// Drops calls that have no result and results that have no call.
pub fn drop_unpaired(history: Vec<ModelItem>) -> (r: Vec<ModelItem>)
    ensures
        item_views(r@) == without_unpaired(item_views(history@)),
{
    let ghost views = item_views(history@);
    let found = pair_calls(&history);
    proof {
        lemma_scan_sound(views, views.len() as int);
        assert forall|k: int| 0 <= k < found@.len() implies found@[k].0 < history@.len()
            && found@[k].1 < history@.len() by {
            let p = index_pairs(found@)[k];
            assert(p == pairs(views)[k]);
        }
    }
    let flags = paired_flags(history.len(), &found);
    let mut out: Vec<ModelItem> = Vec::new();
    let mut i: usize = 0;
    assert(item_views(out@) =~= Seq::empty());
    while i < history.len()
        invariant
            i <= history@.len(),
            views == item_views(history@),
            flags@.len() == history@.len(),
            forall|i: int| 0 <= i < history@.len() ==> flags@[i] == in_pair(pairs(views), i),
            item_views(out@) == kept_items(views, i as int),
        decreases history@.len() - i,
    {
        let item = &history[i];
        assert(views[i as int] == item@);
        let tool = match item {
            ModelItem::ToolCall { .. } | ModelItem::ToolResult { .. } => true,
            _ => false,
        };
        if flags[i] || !tool {
            let ghost before = item_views(out@);
            out.push(item.clone());
            assert(item_views(out@) =~= before.push(views[i as int]));
        }
        i += 1;
    }
    out
}

// ---------------------------------------------------------------------------
// Sizes
// ---------------------------------------------------------------------------
/// The bytes of the JSON text of an item.
pub open spec fn item_bytes(item: ItemView) -> nat {
    bytes_of(item.json()).len()
}

/// Four bytes count as one token, rounded up.
pub open spec fn item_tokens(item: ItemView) -> nat {
    (item_bytes(item) + 3) / 4
}

pub open spec fn total_bytes(items: Seq<ItemView>) -> nat
    decreases items.len(),
{
    if items.len() == 0 {
        0
    } else {
        total_bytes(items.drop_last()) + item_bytes(items.last())
    }
}

pub open spec fn total_tokens(items: Seq<ItemView>) -> nat
    decreases items.len(),
{
    if items.len() == 0 {
        0
    } else {
        total_tokens(items.drop_last()) + item_tokens(items.last())
    }
}

pub open spec fn count_tool_calls(items: Seq<ItemView>) -> nat
    decreases items.len(),
{
    if items.len() == 0 {
        0
    } else {
        count_tool_calls(items.drop_last()) + (if items.last() is ToolCall { 1nat } else { 0nat })
    }
}

/// The number of tool results: each is a piece of evidence.
pub open spec fn count_evidence(items: Seq<ItemView>) -> nat
    decreases items.len(),
{
    if items.len() == 0 {
        0
    } else {
        count_evidence(items.drop_last()) + (if items.last() is ToolResult { 1nat } else { 0nat })
    }
}

/// Ten millionths for each token, up to what the number can hold.
pub open spec fn estimated_cost_micros(items: Seq<ItemView>) -> nat {
    let cost = 10 * total_tokens(items);
    if cost > u64::MAX {
        u64::MAX as nat
    } else {
        cost
    }
}

/// The items keep to the budget.
pub open spec fn fits(items: Seq<ItemView>, budget: ContextBudget) -> bool {
    &&& items.len() <= budget.max_items
    &&& count_tool_calls(items) <= budget.max_tool_calls
    &&& count_evidence(items) <= budget.max_evidence
    &&& total_bytes(items) <= budget.max_bytes
    &&& total_tokens(items) <= budget.max_tokens
    &&& budget.max_cost_micros == 0 || estimated_cost_micros(items) <= budget.max_cost_micros
}

fn item_sizes(items: &Vec<ModelItem>) -> (r: Vec<usize>)
    ensures
        r@.len() == items@.len(),
        forall|i: int| 0 <= i < items@.len() ==> r@[i] == item_bytes(item_views(items@)[i]),
{
    let mut sizes: Vec<usize> = Vec::new();
    let mut i: usize = 0;
    while i < items.len()
        invariant
            i <= items@.len(),
            sizes@.len() == i,
            forall|j: int| 0 <= j < i ==> sizes@[j] == item_bytes(item_views(items@)[j]),
        decreases items@.len() - i,
    {
        let bytes = items[i].to_json().to_bytes();
        assert(item_views(items@)[i as int] == items@[i as int]@);
        sizes.push(bytes.len());
        i += 1;
    }
    sizes
}

fn suffix_fits(
    items: &Vec<ModelItem>,
    sizes: &Vec<usize>,
    start: usize,
    budget: &ContextBudget,
) -> (r: bool)
    requires
        start <= items@.len(),
        sizes@.len() == items@.len(),
        forall|i: int| 0 <= i < items@.len() ==> sizes@[i] == item_bytes(item_views(items@)[i]),
    ensures
        r == fits(item_views(items@).skip(start as int), *budget),
{
    let ghost views = item_views(items@);
    let mut calls: usize = 0;
    let mut evidence: usize = 0;
    let mut bytes: u128 = 0;
    let mut tokens: u128 = 0;
    let mut i: usize = start;
    assert(views.subrange(start as int, start as int) =~= Seq::empty());
    while i < items.len()
        invariant
            start <= i <= items@.len(),
            views == item_views(items@),
            sizes@.len() == items@.len(),
            forall|i: int| 0 <= i < items@.len() ==> sizes@[i] == item_bytes(views[i]),
            calls == count_tool_calls(views.subrange(start as int, i as int)),
            evidence == count_evidence(views.subrange(start as int, i as int)),
            bytes == total_bytes(views.subrange(start as int, i as int)),
            tokens == total_tokens(views.subrange(start as int, i as int)),
            calls <= i - start,
            evidence <= i - start,
            bytes <= (i - start) * 0xffff_ffff_ffff_ffff,
            tokens <= (i - start) * 0xffff_ffff_ffff_ffff,
        decreases items@.len() - i,
    {
        let ghost part = views.subrange(start as int, i + 1);
        proof {
            assert(part.drop_last() =~= views.subrange(start as int, i as int));
            assert(part.last() == items@[i as int]@);
        }
        match &items[i] {
            ModelItem::ToolCall { .. } => {
                calls += 1;
            },
            ModelItem::ToolResult { .. } => {
                evidence += 1;
            },
            _ => {},
        }
        bytes += sizes[i] as u128;
        tokens += (sizes[i] as u128 + 3) / 4;
        i += 1;
    }
    assert(views.subrange(start as int, i as int) =~= views.skip(start as int));
    let max: u128 = 0xffff_ffff_ffff_ffff;
    let cost: u128 = if tokens > max / 10 {
        max
    } else {
        tokens * 10
    };
    items.len() - start <= budget.max_items && calls <= budget.max_tool_calls && evidence
        <= budget.max_evidence && bytes <= budget.max_bytes as u128 && tokens
        <= budget.max_tokens as u128 && (budget.max_cost_micros == 0 || cost
        <= budget.max_cost_micros as u128)
}

// ---------------------------------------------------------------------------
// Cutting
// ---------------------------------------------------------------------------
/// No pair has its call before `start` and its result at or after it.
pub open spec fn clear(items: Seq<ItemView>, start: int) -> bool {
    forall|k: int|
        0 <= k < pairs(items).len() ==> !((#[trigger] pairs(items)[k]).0 < start
            <= pairs(items)[k].1)
}

/// The first index at or after `from` where `items` can be cut: what follows
/// keeps to the budget, and no pair is split. At the end nothing follows.
pub open spec fn first_start(items: Seq<ItemView>, budget: ContextBudget, from: int) -> int
    decreases items.len() - from,
{
    if from >= items.len() {
        items.len() as int
    } else if fits(items.skip(from), budget) && clear(items, from) {
        from
    } else {
        first_start(items, budget, from + 1)
    }
}

/// The longest end of the paired history that keeps to the budget and splits no
/// pair.
pub open spec fn model_context(history: Seq<ItemView>, budget: ContextBudget) -> Seq<ItemView> {
    let valid = without_unpaired(history);
    valid.skip(first_start(valid, budget, 0))
}

/// The index after the last result whose call comes before `start`, or `start`.
fn after_split(found: &Vec<(usize, usize)>, start: usize, n: usize) -> (r: usize)
    requires
        start < n,
        forall|k: int| 0 <= k < found@.len() ==> (#[trigger] found@[k]).1 < n,
    ensures
        start <= r <= n,
        r == start <==> (forall|k: int|
            0 <= k < found@.len() ==> !((#[trigger] found@[k]).0 < start <= found@[k].1)),
        r > start ==> exists|k: int|
            0 <= k < found@.len() && (#[trigger] found@[k]).0 < start && found@[k].1 + 1 == r,
{
    let mut best: usize = start;
    let mut k: usize = 0;
    let ghost mut witness: int = -1;
    while k < found.len()
        invariant
            k <= found@.len(),
            start <= best <= n,
            start < n,
            forall|k: int| 0 <= k < found@.len() ==> (#[trigger] found@[k]).1 < n,
            best == start ==> (forall|j: int|
                0 <= j < k ==> !((#[trigger] found@[j]).0 < start <= found@[j].1)),
            best > start ==> 0 <= witness < k && found@[witness].0 < start && found@[witness].1 + 1
                == best,
        decreases found@.len() - k,
    {
        let (call, result) = found[k];
        if call < start && result >= start && result + 1 > best {
            best = result + 1;
            proof {
                witness = k as int;
            }
        }
        k += 1;
    }
    proof {
        if best > start {
            assert(found@[witness].0 < start <= found@[witness].1);
        }
    }
    best
}

fn trim_pair_safe_suffix(valid: Vec<ModelItem>, budget: &ContextBudget) -> (r: Vec<ModelItem>)
    ensures
        item_views(r@) == item_views(valid@).skip(
            first_start(item_views(valid@), *budget, 0),
        ),
{
    let ghost views = item_views(valid@);
    let sizes = item_sizes(&valid);
    let found = pair_calls(&valid);
    proof {
        lemma_scan_sound(views, views.len() as int);
        assert forall|k: int| 0 <= k < found@.len() implies (#[trigger] found@[k]).1
            < valid@.len() by {
            assert(index_pairs(found@)[k] == pairs(views)[k]);
        }
    }
    let mut start: usize = 0;
    while start < valid.len()
        invariant
            start <= valid@.len(),
            views == item_views(valid@),
            sizes@.len() == valid@.len(),
            forall|i: int| 0 <= i < valid@.len() ==> sizes@[i] == item_bytes(views[i]),
            index_pairs(found@) == pairs(views),
            forall|k: int| 0 <= k < found@.len() ==> (#[trigger] found@[k]).1 < valid@.len(),
            first_start(views, *budget, 0) == first_start(views, *budget, start as int),
        decreases valid@.len() - start,
    {
        if suffix_fits(&valid, &sizes, start, budget) {
            let next = after_split(&found, start, valid.len());
            if next == start {
                proof {
                    assert forall|k: int| 0 <= k < pairs(views).len() implies !((
                    #[trigger] pairs(views)[k]).0 < start <= pairs(views)[k].1) by {
                        assert(index_pairs(found@)[k] == (found@[k].0 as int, found@[k].1 as int));
                        assert(!(found@[k].0 < start <= found@[k].1));
                    }
                    assert(clear(views, start as int));
                }
                return tail(&valid, start);
            }
            proof {
                let k = choose|k: int|
                    0 <= k < found@.len() && (#[trigger] found@[k]).0 < start && found@[k].1 + 1
                        == next;
                assert(index_pairs(found@)[k] == (found@[k].0 as int, found@[k].1 as int));
                lemma_skip_split(views, *budget, start as int, next as int, k);
            }
            start = next;
        } else {
            start += 1;
        }
    }
    let out: Vec<ModelItem> = Vec::new();
    assert(item_views(out@) =~= views.skip(views.len() as int));
    out
}

/// Where a pair is split at `start`, so it is up to its result.
proof fn lemma_skip_split(
    items: Seq<ItemView>,
    budget: ContextBudget,
    start: int,
    next: int,
    k: int,
)
    requires
        0 <= start <= next <= items.len(),
        0 <= k < pairs(items).len(),
        pairs(items)[k].0 < start,
        next <= pairs(items)[k].1 + 1,
    ensures
        first_start(items, budget, start) == first_start(items, budget, next),
    decreases next - start,
{
    if next > start {
        lemma_skip_split(items, budget, start, next - 1, k);
        assert(pairs(items)[k].0 < next - 1 + 1);
        assert(!clear(items, next - 1));
    }
}

/// The items from `start` on.
fn tail(items: &Vec<ModelItem>, start: usize) -> (r: Vec<ModelItem>)
    requires
        start <= items@.len(),
    ensures
        item_views(r@) == item_views(items@).skip(start as int),
{
    let ghost views = item_views(items@);
    let mut out: Vec<ModelItem> = Vec::new();
    let mut i: usize = start;
    while i < items.len()
        invariant
            start <= i <= items@.len(),
            views == item_views(items@),
            item_views(out@) == views.subrange(start as int, i as int),
        decreases items@.len() - i,
    {
        let ghost before = item_views(out@);
        out.push(items[i].clone());
        assert(item_views(out@) =~= before.push(views[i as int]));
        i += 1;
        assert(item_views(out@) =~= views.subrange(start as int, i as int));
    }
    assert(views.subrange(start as int, i as int) =~= views.skip(start as int));
    out
}

pub fn build_model_context(history: Vec<ModelItem>, budget: &ContextBudget) -> (r: Vec<ModelItem>)
    ensures
        item_views(r@) == model_context(item_views(history@), *budget),
{
    let valid = drop_unpaired(history);
    if valid.len() == 0 {
        assert(item_views(valid@).skip(0) =~= item_views(valid@));
        return valid;
    }
    trim_pair_safe_suffix(valid, budget)
}

} // verus!
