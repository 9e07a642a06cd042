//! Facts about the elements of a sequence that pass a test.
use vstd::prelude::*;

verus! {

/// Adding an element adds it to those that pass, if it passes.
pub proof fn lemma_filter_push<A>(s: Seq<A>, x: A, pred: spec_fn(A) -> bool)
    ensures
        s.push(x).filter(pred) == if pred(x) {
            s.filter(pred).push(x)
        } else {
            s.filter(pred)
        },
{
    reveal(Seq::filter);
    assert(s.push(x).drop_last() =~= s);
}

pub proof fn lemma_filter_none<A>(s: Seq<A>, pred: spec_fn(A) -> bool)
    requires
        forall|i: int| 0 <= i < s.len() ==> !pred(#[trigger] s[i]),
    ensures
        s.filter(pred) == Seq::<A>::empty(),
    decreases s.len(),
{
    reveal(Seq::filter);
    if s.len() > 0 {
        lemma_filter_none(s.drop_last(), pred);
        assert(!pred(s[s.len() - 1]));
    } else {
        assert(s.filter(pred) =~= Seq::<A>::empty());
    }
}

pub proof fn lemma_filter_all<A>(s: Seq<A>, pred: spec_fn(A) -> bool)
    requires
        forall|i: int| 0 <= i < s.len() ==> pred(#[trigger] s[i]),
    ensures
        s.filter(pred) == s,
    decreases s.len(),
{
    reveal(Seq::filter);
    if s.len() > 0 {
        lemma_filter_all(s.drop_last(), pred);
        assert(pred(s[s.len() - 1]));
        assert(s.drop_last().push(s.last()) =~= s);
    }
}

/// What passes a stricter test is the same before and after a wider one.
pub proof fn lemma_filter_inner<A>(s: Seq<A>, wide: spec_fn(A) -> bool, strict: spec_fn(A) -> bool)
    requires
        forall|x: A| #[trigger] strict(x) ==> wide(x),
    ensures
        s.filter(wide).filter(strict) == s.filter(strict),
    decreases s.len(),
{
    reveal(Seq::filter);
    if s.len() > 0 {
        lemma_filter_inner(s.drop_last(), wide, strict);
        if wide(s.last()) {
            lemma_filter_push(s.drop_last().filter(wide), s.last(), strict);
        }
    }
}

/// What fails a test is gone after it.
pub proof fn lemma_filter_gone<A>(s: Seq<A>, keep: spec_fn(A) -> bool, lost: spec_fn(A) -> bool)
    requires
        forall|x: A| #[trigger] lost(x) ==> !keep(x),
    ensures
        s.filter(keep).filter(lost) == Seq::<A>::empty(),
{
    broadcast use Seq::lemma_filter_pred;

    let kept = s.filter(keep);
    assert forall|i: int| 0 <= i < kept.len() implies !lost(#[trigger] kept[i]) by {
        assert(keep(kept[i]));
    }
    lemma_filter_none(kept, lost);
}

pub proof fn lemma_filter_two_places<A>(s: Seq<A>, pred: spec_fn(A) -> bool, n: int)
    requires
        0 <= n <= s.len(),
    ensures
        s.take(n).filter(pred).len() <= s.filter(pred).len(),
{
    assert(s =~= s.take(n) + s.skip(n));
    Seq::filter_distributes_over_add(s.take(n), s.skip(n), pred);
}

} // verus!
