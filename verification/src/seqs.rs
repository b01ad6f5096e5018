//! Facts about sequences that loops use.

use vstd::prelude::*;

verus! {

/// Filtering one item more.
pub proof fn lemma_filter_step<A>(s: Seq<A>, i: int, p: spec_fn(A) -> bool)
    requires
        0 <= i < s.len(),
    ensures
        s.take(i + 1).filter(p) == if p(s[i]) {
            s.take(i).filter(p).push(s[i])
        } else {
            s.take(i).filter(p)
        },
{
    reveal(Seq::filter);
    assert(s.take(i + 1).drop_last() =~= s.take(i));
    assert(s.take(i + 1).last() == s[i]);
}

/// Filtering nothing.
pub proof fn lemma_filter_start<A>(s: Seq<A>, p: spec_fn(A) -> bool)
    ensures
        s.take(0).filter(p) == Seq::<A>::empty(),
{
    reveal(Seq::filter);
    assert(s.take(0) =~= Seq::<A>::empty());
}

/// What is kept of a list comes in order: each kept item stands behind those that
/// were kept before it.
pub proof fn lemma_filter_places<A>(s: Seq<A>, n: int, p: spec_fn(A) -> bool)
    requires
        0 <= n <= s.len(),
    ensures
        forall|k: int|
            0 <= k < n && p(#[trigger] s[k]) ==> s.take(k).filter(p).len() < s.take(n).filter(
                p,
            ).len() && s.take(n).filter(p)[s.take(k).filter(p).len() as int] == s[k],
    decreases n,
{
    if n > 0 {
        lemma_filter_places(s, n - 1, p);
        lemma_filter_step(s, n - 1, p);
    }
}

} // verus!
