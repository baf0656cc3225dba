//! The order in which search results are shown.
use vstd::prelude::*;

use crate::text::{lemma_text_before, same, str_before, text_before};

verus! {

/// What a result is ordered by.
#[derive(Debug)]
pub struct SortKey {
    pub score: usize,
    pub id: String,
}

/// Among results with these keys, the one at `i` is shown before the one at
/// `j`: it has the higher score, or the same and the earlier identifier, or
/// both the same and was there earlier.
pub open spec fn shown_before(keys: Seq<(usize, Seq<char>)>, i: int, j: int) -> bool {
    if keys[i].0 != keys[j].0 {
        keys[i].0 > keys[j].0
    } else if keys[i].1 != keys[j].1 {
        text_before(keys[i].1, keys[j].1)
    } else {
        i < j
    }
}

/// What results are ordered by: the score and the identifier of each.
pub open spec fn key_views(keys: Seq<SortKey>) -> Seq<(usize, Seq<char>)> {
    keys.map_values(|key: SortKey| (key.score, key.id@))
}

/// The positions are those of all results, each once, in the order in which
/// they are shown.
pub open spec fn is_order(keys: Seq<(usize, Seq<char>)>, order: Seq<int>) -> bool {
    &&& order.len() == keys.len()
    &&& forall|k: int| 0 <= k < order.len() ==> 0 <= #[trigger] order[k] < keys.len()
    &&& forall|a: int, b: int|
        0 <= a < b < order.len() ==> shown_before(keys, #[trigger] order[a], #[trigger] order[b])
    &&& forall|i: int| 0 <= i < keys.len() ==> order.contains(i)
}

pub open spec fn positions(order: Seq<usize>) -> Seq<int> {
    order.map_values(|i: usize| i as int)
}

fn is_shown_before(keys: &Vec<SortKey>, i: usize, j: usize) -> (r: bool)
    requires
        i < keys@.len(),
        j < keys@.len(),
    ensures
        r == shown_before(key_views(keys@), i as int, j as int),
{
    if keys[i].score != keys[j].score {
        keys[i].score > keys[j].score
    } else if !same(keys[i].id.as_str(), keys[j].id.as_str()) {
        str_before(keys[i].id.as_str(), keys[j].id.as_str())
    } else {
        i < j
    }
}

proof fn lemma_shown_before(keys: Seq<(usize, Seq<char>)>, i: int, j: int, k: int)
    ensures
        !shown_before(keys, i, i),
        shown_before(keys, i, j) && shown_before(keys, j, k) ==> shown_before(keys, i, k),
        i != j ==> shown_before(keys, i, j) || shown_before(keys, j, i),
        shown_before(keys, i, j) ==> !shown_before(keys, j, i),
{
    let x = keys[i].1;
    let y = keys[j].1;
    let z = keys[k].1;
    lemma_text_before(x, y, z);
    lemma_text_before(y, x, z);
    lemma_text_before(x, z, y);
    lemma_text_before(x, y, x);
}

/// The positions of the first `n` results, in the order in which they are
/// shown.
spec fn is_partial_order(keys: Seq<(usize, Seq<char>)>, order: Seq<int>, n: int) -> bool {
    &&& order.len() == n
    &&& forall|k: int| 0 <= k < order.len() ==> 0 <= #[trigger] order[k] < n
    &&& forall|a: int, b: int|
        0 <= a < b < order.len() ==> shown_before(keys, #[trigger] order[a], #[trigger] order[b])
    &&& forall|i: int| 0 <= i < n ==> order.contains(i)
}

proof fn lemma_insert(keys: Seq<(usize, Seq<char>)>, order: Seq<int>, n: int, at: int)
    requires
        0 <= n < keys.len(),
        is_partial_order(keys, order, n),
        0 <= at <= n,
        forall|k: int| 0 <= k < at ==> shown_before(keys, #[trigger] order[k], n),
        at < n ==> shown_before(keys, n, order[at]),
    ensures
        is_partial_order(keys, order.insert(at, n), n + 1),
{
    let after = order.insert(at, n);
    assert forall|a: int, b: int| 0 <= a < b < after.len() implies shown_before(
        keys,
        #[trigger] after[a],
        #[trigger] after[b],
    ) by {
        if b == at {
            assert(after[a] == order[a]);
        } else if a == at {
            assert(after[b] == order[b - 1]);
            if b - 1 > at {
                assert(shown_before(keys, order[at], order[b - 1]));
                lemma_shown_before(keys, n, order[at], order[b - 1]);
            }
        } else {
            let p = if a < at {
                a
            } else {
                a - 1
            };
            let q = if b < at {
                b
            } else {
                b - 1
            };
            assert(shown_before(keys, order[p], order[q]));
        }
    }
    assert forall|i: int| 0 <= i < n + 1 implies after.contains(i) by {
        if i == n {
            assert(after[at] == n);
        } else {
            assert(order.contains(i));
            let k = choose|k: int| 0 <= k < order.len() && order[k] == i;
            if k < at {
                assert(after[k] == i);
            } else {
                assert(after[k + 1] == i);
            }
        }
    }
    assert forall|k: int| 0 <= k < after.len() implies 0 <= #[trigger] after[k] < n + 1 by {
        if k < at {
            assert(after[k] == order[k]);
        } else if k > at {
            assert(after[k] == order[k - 1]);
        }
    }
}

/// Puts results in the order in which they are shown.
pub fn sorted_order(keys: &Vec<SortKey>) -> (r: Vec<usize>)
    ensures
        is_order(key_views(keys@), positions(r@)),
{
    let mut order: Vec<usize> = Vec::new();
    let mut n: usize = 0;
    assert(is_partial_order(key_views(keys@), positions(order@), 0));
    while n < keys.len()
        invariant
            n <= keys@.len(),
            is_partial_order(key_views(keys@), positions(order@), n as int),
        decreases keys@.len() - n,
    {
        let ghost before = positions(order@);
        let mut at: usize = 0;
        assert forall|k: int| 0 <= k < order@.len() implies order@[k] < keys@.len() by {
            assert(before[k] == order@[k]);
        }
        while at < order.len() && is_shown_before(keys, order[at], n)
            invariant
                at <= order@.len(),
                order@.len() == n,
                n < keys@.len(),
                before == positions(order@),
                is_partial_order(key_views(keys@), before, n as int),
                forall|k: int| 0 <= k < order@.len() ==> order@[k] < keys@.len(),
                forall|k: int| 0 <= k < at ==> shown_before(key_views(keys@), #[trigger] before[k], n as int),
            decreases order@.len() - at,
        {
            assert(before[at as int] == order@[at as int]);
            at += 1;
        }
        proof {
            if at < order@.len() {
                assert(before[at as int] == order@[at as int]);
                lemma_shown_before(key_views(keys@), n as int, before[at as int], n as int);
            }
            lemma_insert(key_views(keys@), before, n as int, at as int);
        }
        order.insert(at, n);
        assert(positions(order@) =~= before.insert(at as int, n as int));
        n += 1;
    }
    order
}

/// Results have one order.
pub proof fn law_order_is_unique(keys: Seq<(usize, Seq<char>)>, a: Seq<int>, b: Seq<int>)
    requires
        is_order(keys, a),
        is_order(keys, b),
    ensures
        a == b,
{
    assert forall|k: int| 0 <= k < a.len() implies a[k] == b[k] by {
        lemma_same_at(keys, a, b, k);
    }
    assert(a =~= b);
}

proof fn lemma_same_at(keys: Seq<(usize, Seq<char>)>, a: Seq<int>, b: Seq<int>, k: int)
    requires
        is_order(keys, a),
        is_order(keys, b),
        0 <= k < a.len(),
    ensures
        a[k] == b[k],
    decreases k,
{
    assert forall|i: int| 0 <= i < k implies a[i] == b[i] by {
        lemma_same_at(keys, a, b, i);
    }
    if a[k] != b[k] {
        let p = choose|p: int| 0 <= p < b.len() && b[p] == a[k];
        let q = choose|q: int| 0 <= q < a.len() && a[q] == b[k];
        assert(b.contains(a[k]));
        assert(a.contains(b[k]));
        if p < k {
            assert(a[p] == b[p]);
            assert(shown_before(keys, a[p], a[k]));
            lemma_shown_before(keys, a[k], a[k], a[k]);
        }
        if q < k {
            assert(a[q] == b[q]);
            assert(shown_before(keys, b[q], b[k]));
            lemma_shown_before(keys, b[k], b[k], b[k]);
        }
        if p > k && q > k {
            assert(shown_before(keys, b[k], b[p]));
            assert(shown_before(keys, a[k], a[q]));
            lemma_shown_before(keys, a[k], b[k], a[k]);
        }
    }
}

} // verus!
