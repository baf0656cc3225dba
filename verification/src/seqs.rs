//! Vectors taken apart without copying, and facts about filtered sequences.
use vstd::prelude::*;

verus! {

/// The elements in reverse order.
pub fn reversed<T>(v: Vec<T>) -> (r: Vec<T>)
    ensures
        r@ == v@.reverse(),
{
    let ghost all = v@;
    let mut rest = v;
    let mut out: Vec<T> = Vec::new();
    while rest.len() > 0
        invariant
            out@.len() + rest@.len() == all.len(),
            rest@ == all.take(rest@.len() as int),
            forall|i: int| 0 <= i < out@.len() ==> out@[i] == all[all.len() - 1 - i],
        decreases rest@.len(),
    {
        match rest.pop() {
            Some(item) => {
                out.push(item);
                assert(rest@ =~= all.take(rest@.len() as int));
            },
            None => {},
        }
    }
    assert(out@ =~= all.reverse());
    out
}

/// Filtering goes element by element from the front.
pub proof fn lemma_filter_front<T>(x: T, rest: Seq<T>, keep: spec_fn(T) -> bool)
    ensures
        (seq![x] + rest).filter(keep) == (if keep(x) {
            seq![x] + rest.filter(keep)
        } else {
            rest.filter(keep)
        }),
{
    Seq::filter_distributes_over_add(seq![x], rest, keep);
    reveal(Seq::filter);
    assert(seq![x].drop_last() =~= Seq::empty());
    assert(Seq::<T>::empty().filter(keep) =~= Seq::empty());
    assert(seq![x].filter(keep) =~= (if keep(x) {
        seq![x]
    } else {
        Seq::empty()
    }));
    assert(Seq::<T>::empty() + rest.filter(keep) =~= rest.filter(keep));
}

} // verus!
