//! Small general-purpose sequence lemmas used by the sorting routines.

use vstd::prelude::*;

verus! {

use vstd::seq_lib::lemma_multiset_commutative;

/// Swapping two adjacent elements keeps the multiset of elements.
pub proof fn lemma_adjacent_swap_multiset<A>(before: Seq<A>, after: Seq<A>, k: int)
    requires
        0 <= k,
        k + 1 < before.len(),
        after == before.update(k, before[k + 1]).update(k + 1, before[k]),
    ensures
        after.to_multiset() == before.to_multiset(),
{
    broadcast use vstd::multiset::group_multiset_axioms;

    let x = before.subrange(0, k);
    let u = before[k];
    let v = before[k + 1];
    let y = before.subrange(k + 2, before.len() as int);
    assert(before =~= x + seq![u] + seq![v] + y);
    assert(after =~= x + seq![v] + seq![u] + y);
    lemma_multiset_commutative(x, seq![u]);
    lemma_multiset_commutative(x, seq![v]);
    lemma_multiset_commutative(x + seq![u], seq![v]);
    lemma_multiset_commutative(x + seq![v], seq![u]);
    lemma_multiset_commutative(x + seq![u] + seq![v], y);
    lemma_multiset_commutative(x + seq![v] + seq![u], y);
    assert((x + seq![u] + seq![v] + y).to_multiset() =~= (x + seq![v] + seq![u] + y).to_multiset());
}

/// The concatenation of `f` applied to each element of `s`, in order.
pub open spec fn concat_map<A, B>(s: Seq<A>, f: spec_fn(A) -> Seq<B>) -> Seq<B>
    decreases s.len(),
{
    if s.len() == 0 {
        Seq::empty()
    } else {
        concat_map(s.drop_last(), f) + f(s.last())
    }
}

/// Extending the input by one element appends that element's image.
pub proof fn lemma_concat_map_push<A, B>(s: Seq<A>, x: A, f: spec_fn(A) -> Seq<B>)
    ensures
        concat_map(s.push(x), f) == concat_map(s, f) + f(x),
{
    assert(s.push(x).drop_last() =~= s);
    assert(s.push(x).last() == x);
}

} // verus!
