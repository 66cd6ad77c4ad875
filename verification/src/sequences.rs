//! Facts about filtered sequences.

use vstd::prelude::*;

verus! {

/// Inserting an element adds it and nothing else.
pub proof fn lemma_insert_contains<A>(s: Seq<A>, at: int, x: A)
    requires
        0 <= at <= s.len(),
    ensures
        forall|y: A| #[trigger] s.insert(at, x).contains(y) <==> s.contains(y) || y == x,
{
    let grown = s.insert(at, x);
    assert forall|y: A| #[trigger] grown.contains(y) <==> s.contains(y) || y == x by {
        if s.contains(y) {
            let i = choose|i: int| 0 <= i < s.len() && s[i] == y;
            if i < at {
                assert(grown[i] == y);
            } else {
                assert(grown[i + 1] == y);
            }
        }
        if y == x {
            assert(grown[at] == y);
        }
        if grown.contains(y) && y != x {
            let i = choose|i: int| 0 <= i < grown.len() && grown[i] == y;
            if i < at {
                assert(s[i] == y);
            } else {
                assert(s[i - 1] == y);
            }
        }
    }
}

/// Taking out an element that occurs once removes it and nothing else.
pub proof fn lemma_remove_contains<A>(s: Seq<A>, at: int)
    requires
        0 <= at < s.len(),
        forall|i: int| 0 <= i < s.len() && i != at ==> s[i] != s[at],
    ensures
        forall|y: A| #[trigger] s.remove(at).contains(y) <==> s.contains(y) && y != s[at],
{
    let shrunk = s.remove(at);
    assert forall|y: A| #[trigger] shrunk.contains(y) <==> s.contains(y) && y != s[at] by {
        if s.contains(y) && y != s[at] {
            let i = choose|i: int| 0 <= i < s.len() && s[i] == y;
            if i < at {
                assert(shrunk[i] == y);
            } else {
                assert(shrunk[i - 1] == y);
            }
        }
        if shrunk.contains(y) {
            let i = choose|i: int| 0 <= i < shrunk.len() && shrunk[i] == y;
            if i < at {
                assert(s[i] == y);
            } else {
                assert(s[i + 1] == y);
            }
        }
    }
}

/// A filter on no element.
pub proof fn lemma_filter_nothing<A>(pred: spec_fn(A) -> bool)
    ensures
        Seq::<A>::empty().filter(pred) == Seq::<A>::empty(),
{
    reveal(Seq::filter);
}

/// A filter on a single element.
pub proof fn lemma_filter_one<A>(x: A, pred: spec_fn(A) -> bool)
    ensures
        pred(x) ==> seq![x].filter(pred) == seq![x],
        !pred(x) ==> seq![x].filter(pred) == Seq::<A>::empty(),
{
    reveal(Seq::filter);
    assert(seq![x].drop_last() =~= Seq::<A>::empty());
    assert(Seq::<A>::empty().filter(pred) =~= Seq::<A>::empty());
    assert(Seq::<A>::empty().push(x) =~= seq![x]);
}

/// A filter on one more element.
pub proof fn lemma_filter_push<A>(s: Seq<A>, x: A, pred: spec_fn(A) -> bool)
    ensures
        pred(x) ==> s.push(x).filter(pred) == s.filter(pred).push(x),
        !pred(x) ==> s.push(x).filter(pred) == s.filter(pred),
{
    reveal(Seq::filter);
    assert(s.push(x).drop_last() =~= s);
}

/// A filter that every element passes changes nothing.
pub proof fn lemma_filter_all<A>(s: Seq<A>, pred: spec_fn(A) -> bool)
    requires
        forall|i: int| 0 <= i < s.len() ==> pred(s[i]),
    ensures
        s.filter(pred) == s,
    decreases s.len(),
{
    reveal(Seq::filter);
    if s.len() > 0 {
        lemma_filter_all(s.drop_last(), pred);
        assert(s.drop_last().push(s.last()) =~= s);
    }
}

/// Taking out the one element that a predicate rejects is filtering by it.
pub proof fn lemma_remove_is_filter<A>(s: Seq<A>, at: int, pred: spec_fn(A) -> bool)
    requires
        0 <= at < s.len(),
        forall|i: int| 0 <= i < s.len() ==> (pred(s[i]) <==> i != at),
    ensures
        s.filter(pred) == s.remove(at),
{
    let front = s.subrange(0, at);
    let back = s.subrange(at + 1, s.len() as int);
    let middle = seq![s[at]];
    assert(s =~= front + middle + back);
    Seq::filter_distributes_over_add(front + middle, back, pred);
    Seq::filter_distributes_over_add(front, middle, pred);
    lemma_filter_all(front, pred);
    lemma_filter_all(back, pred);
    lemma_filter_one(s[at], pred);
    assert(s.filter(pred) =~= s.remove(at));
}

/// What a filter keeps satisfies the predicate and comes from the sequence, so
/// that filtering again changes nothing.
pub proof fn lemma_filter_subset<A>(s: Seq<A>, pred: spec_fn(A) -> bool)
    ensures
        forall|i: int|
            0 <= i < s.filter(pred).len() ==> {
                &&& pred(#[trigger] s.filter(pred)[i])
                &&& s.contains(s.filter(pred)[i])
            },
        s.filter(pred).len() <= s.len(),
        s.filter(pred).filter(pred) == s.filter(pred),
    decreases s.len(),
{
    if s.len() == 0 {
        lemma_filter_nothing(pred);
        assert(s =~= Seq::empty());
    } else {
        let front = s.drop_last();
        lemma_filter_subset(front, pred);
        assert(s =~= front.push(s.last()));
        lemma_filter_push(front, s.last(), pred);
        lemma_filter_push(front.filter(pred), s.last(), pred);
        let kept = s.filter(pred);
        assert forall|i: int| 0 <= i < kept.len() implies pred(#[trigger] kept[i]) && s.contains(
            kept[i],
        ) by {
            if i < front.filter(pred).len() {
                assert(front.contains(front.filter(pred)[i]));
                let j = choose|j: int| 0 <= j < front.len() && front[j] == front.filter(pred)[i];
                assert(s[j] == kept[i]);
            } else {
                assert(s[s.len() - 1] == kept[i]);
            }
        }
    }
}

/// Filtering twice is filtering by both predicates.
pub proof fn lemma_filter_twice<A>(
    s: Seq<A>,
    first: spec_fn(A) -> bool,
    second: spec_fn(A) -> bool,
    both: spec_fn(A) -> bool,
)
    requires
        forall|x: A| #[trigger] both(x) <==> first(x) && second(x),
    ensures
        s.filter(first).filter(second) == s.filter(both),
    decreases s.len(),
{
    if s.len() == 0 {
        lemma_filter_nothing(first);
        lemma_filter_nothing(second);
        lemma_filter_nothing(both);
        assert(s =~= Seq::empty());
    } else {
        let front = s.drop_last();
        let x = s.last();
        lemma_filter_twice(front, first, second, both);
        assert(s =~= front.push(x));
        lemma_filter_push(front, x, first);
        lemma_filter_push(front, x, both);
        lemma_filter_push(front.filter(first), x, second);
        assert(both(x) <==> first(x) && second(x));
    }
}

/// A filter keeps exactly the elements that pass.
pub proof fn lemma_filter_contains<A>(s: Seq<A>, pred: spec_fn(A) -> bool)
    ensures
        forall|x: A| #[trigger] s.filter(pred).contains(x) <==> s.contains(x) && pred(x),
{
    broadcast use Seq::lemma_filter_contains;

    lemma_filter_subset(s, pred);
    assert forall|x: A| #[trigger] s.filter(pred).contains(x) <==> s.contains(x) && pred(x) by {
        if s.contains(x) && pred(x) {
            let i = choose|i: int| 0 <= i < s.len() && s[i] == x;
            assert(s.filter(pred).contains(s[i]));
        }
    }
}

} // verus!
