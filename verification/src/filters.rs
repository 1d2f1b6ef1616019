use vstd::prelude::*;

verus! {

/// Nothing is kept of an empty sequence.
pub proof fn lemma_filter_empty<A>(pred: spec_fn(A) -> bool)
    ensures
        Seq::<A>::empty().filter(pred) == Seq::<A>::empty(),
{
    reveal(Seq::filter);
}

/// What is kept of the first `k + 1` elements is what is kept of the first
/// `k`, and the next one if it is to be kept.
pub proof fn lemma_filter_step<A>(s: Seq<A>, k: int, pred: spec_fn(A) -> bool)
    requires
        0 <= k < s.len(),
    ensures
        s.take(k + 1).filter(pred) == if pred(s[k]) {
            s.take(k).filter(pred).push(s[k])
        } else {
            s.take(k).filter(pred)
        },
{
    reveal(Seq::filter);
    assert(s.take(k + 1).drop_last() =~= s.take(k));
}

/// The first element to be kept is the first that is kept.
pub proof fn lemma_filter_first<A>(s: Seq<A>, k: int, pred: spec_fn(A) -> bool)
    requires
        0 <= k < s.len(),
        s.take(k).filter(pred).len() == 0,
        pred(s[k]),
    ensures
        s.filter(pred).len() > 0,
        s.filter(pred)[0] == s[k],
{
    lemma_filter_step(s, k, pred);
    assert(s =~= s.take(k + 1) + s.skip(k + 1));
    Seq::filter_distributes_over_add(s.take(k + 1), s.skip(k + 1), pred);
}

/// Nothing is kept where no element is to be kept.
pub proof fn lemma_filter_none<A>(s: Seq<A>, pred: spec_fn(A) -> bool)
    requires
        forall|i: int| 0 <= i < s.len() ==> !pred(#[trigger] s[i]),
    ensures
        s.filter(pred) == Seq::<A>::empty(),
    decreases s.len(),
{
    reveal(Seq::filter);
    if s.len() > 0 {
        lemma_filter_none(s.drop_last(), pred);
    }
}

/// Of two properties that no element has both, a sequence has no more
/// elements with the one, and elements with the other, than it has elements.
pub proof fn lemma_filter_disjoint<A>(s: Seq<A>, p: spec_fn(A) -> bool, q: spec_fn(A) -> bool)
    requires
        forall|i: int| 0 <= i < s.len() ==> !(p(#[trigger] s[i]) && q(s[i])),
    ensures
        s.filter(p).len() + s.filter(q).len() <= s.len(),
    decreases s.len(),
{
    reveal(Seq::filter);
    if s.len() > 0 {
        lemma_filter_disjoint(s.drop_last(), p, q);
    }
}

/// Two tests that agree on every element keep the same elements.
pub proof fn lemma_filter_agree<A>(s: Seq<A>, p: spec_fn(A) -> bool, q: spec_fn(A) -> bool)
    requires
        forall|i: int| 0 <= i < s.len() ==> p(#[trigger] s[i]) == q(s[i]),
    ensures
        s.filter(p) == s.filter(q),
    decreases s.len(),
{
    reveal(Seq::filter);
    if s.len() > 0 {
        lemma_filter_agree(s.drop_last(), p, q);
        assert(s[s.len() - 1] == s.last());
    }
}

/// The first element that is kept is an element, and one to be kept.
pub proof fn lemma_filter_head<A>(s: Seq<A>, p: spec_fn(A) -> bool)
    requires
        s.filter(p).len() > 0,
    ensures
        s.contains(s.filter(p)[0]),
        p(s.filter(p)[0]),
{
    s.lemma_filter_pred(p, 0);
    assert(s.filter(p).contains(s.filter(p)[0]));
    s.lemma_filter_contains_rev(p, s.filter(p)[0]);
}

} // verus!
