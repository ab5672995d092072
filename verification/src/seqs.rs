//! Facts about sequences that the other modules lean on, and the small searches
//! over vectors that go with them.

use vstd::prelude::*;

verus! {

/// Whether `ids` holds `id`.
pub fn has_i64(ids: &Vec<i64>, id: i64) -> (r: bool)
    ensures
        r == ids@.contains(id),
{
    let mut i: usize = 0;
    while i < ids.len()
        invariant
            i <= ids@.len(),
            forall|k: int| 0 <= k < i ==> ids@[k] != id,
        decreases ids@.len() - i,
    {
        if ids[i] == id {
            assert(ids@[i as int] == id);
            return true;
        }
        i += 1;
    }
    false
}

/// Whether `ids` holds `id`.
pub fn has_u128(ids: &Vec<u128>, id: u128) -> (r: bool)
    ensures
        r == ids@.contains(id),
{
    let mut i: usize = 0;
    while i < ids.len()
        invariant
            i <= ids@.len(),
            forall|k: int| 0 <= k < i ==> ids@[k] != id,
        decreases ids@.len() - i,
    {
        if ids[i] == id {
            assert(ids@[i as int] == id);
            return true;
        }
        i += 1;
    }
    false
}

/// Filtering one element more.
pub proof fn lemma_filter_step<T>(s: Seq<T>, k: int, p: spec_fn(T) -> bool)
    requires
        0 <= k < s.len(),
    ensures
        s.take(k + 1).filter(p) == if p(s[k]) {
            s.take(k).filter(p).push(s[k])
        } else {
            s.take(k).filter(p)
        },
{
    reveal(Seq::filter);
    assert(s.take(k + 1).drop_last() =~= s.take(k));
    assert(s.take(k + 1).last() == s[k]);
}

/// Filtering distributes over a cut.
pub proof fn lemma_filter_split<T>(s: Seq<T>, k: int, p: spec_fn(T) -> bool)
    requires
        0 <= k <= s.len(),
    ensures
        s.filter(p) == s.take(k).filter(p) + s.skip(k).filter(p),
{
    assert(s =~= s.take(k) + s.skip(k));
    Seq::filter_distributes_over_add(s.take(k), s.skip(k), p);
}

/// Filtering one element more at the front.
pub proof fn lemma_filter_front<T>(s: Seq<T>, k: int, p: spec_fn(T) -> bool)
    requires
        0 <= k < s.len(),
    ensures
        s.skip(k).filter(p) == if p(s[k]) {
            seq![s[k]] + s.skip(k + 1).filter(p)
        } else {
            s.skip(k + 1).filter(p)
        },
{
    reveal_with_fuel(Seq::filter, 2);
    assert(s.skip(k) =~= seq![s[k]] + s.skip(k + 1));
    Seq::filter_distributes_over_add(seq![s[k]], s.skip(k + 1), p);
    assert(seq![s[k]].drop_last() =~= Seq::<T>::empty());
    assert(seq![s[k]].last() == s[k]);
    if p(s[k]) {
        assert(seq![s[k]].filter(p) =~= seq![s[k]]);
    } else {
        assert(seq![s[k]].filter(p) =~= Seq::<T>::empty());
        assert(seq![s[k]].filter(p) + s.skip(k + 1).filter(p) =~= s.skip(k + 1).filter(p));
    }
}

/// What a filter keeps: exactly the elements that satisfy the predicate.
pub proof fn lemma_filter_contains<T>(s: Seq<T>, p: spec_fn(T) -> bool, x: T)
    ensures
        s.filter(p).contains(x) <==> s.contains(x) && p(x),
{
    broadcast use vstd::seq_lib::group_filter_ensures;

    if s.filter(p).contains(x) {
        s.lemma_filter_contains_rev(p, x);
        let i = choose|i: int| 0 <= i < s.filter(p).len() && s.filter(p)[i] == x;
        s.lemma_filter_pred(p, i);
    }
    if s.contains(x) && p(x) {
        let i = choose|i: int| 0 <= i < s.len() && s[i] == x;
        s.lemma_filter_contains(p, i);
    }
}

/// A filter that every element passes changes nothing.
pub proof fn lemma_filter_all<T>(s: Seq<T>, p: spec_fn(T) -> bool)
    requires
        forall|i: int| 0 <= i < s.len() ==> p(#[trigger] s[i]),
    ensures
        s.filter(p) == s,
    decreases s.len(),
{
    reveal(Seq::filter);
    if s.len() > 0 {
        assert(p(s[s.len() - 1]));
        assert forall|i: int| 0 <= i < s.drop_last().len() implies p(#[trigger] s.drop_last()[i]) by {
            assert(s.drop_last()[i] == s[i]);
        }
        lemma_filter_all(s.drop_last(), p);
        assert(s.drop_last().push(s.last()) =~= s);
    }
}

/// Two predicates that agree on every element filter alike.
pub proof fn lemma_filter_agree<T>(s: Seq<T>, p: spec_fn(T) -> bool, q: spec_fn(T) -> bool)
    requires
        forall|i: int| 0 <= i < s.len() ==> p(#[trigger] s[i]) == q(s[i]),
    ensures
        s.filter(p) == s.filter(q),
    decreases s.len(),
{
    reveal(Seq::filter);
    if s.len() > 0 {
        assert(p(s[s.len() - 1]) == q(s[s.len() - 1]));
        assert forall|i: int| 0 <= i < s.drop_last().len() implies p(#[trigger] s.drop_last()[i])
            == q(s.drop_last()[i]) by {
            assert(s.drop_last()[i] == s[i]);
        }
        lemma_filter_agree(s.drop_last(), p, q);
    }
}

/// A filtered sequence keeps the order of what stays: each element of it comes
/// from a place of its own, and later elements from later places.
pub proof fn lemma_filter_order<T>(s: Seq<T>, p: spec_fn(T) -> bool) -> (at: Seq<int>)
    ensures
        at.len() == s.filter(p).len(),
        forall|i: int|
            0 <= i < at.len() ==> 0 <= #[trigger] at[i] < s.len() && s[at[i]] == s.filter(p)[i],
        forall|i: int, j: int| 0 <= i < j < at.len() ==> #[trigger] at[i] < #[trigger] at[j],
    decreases s.len(),
{
    reveal(Seq::filter);
    if s.len() == 0 {
        Seq::empty()
    } else {
        let rest = lemma_filter_order(s.drop_last(), p);
        if p(s.last()) {
            rest.push(s.len() - 1)
        } else {
            rest
        }
    }
}

/// Sequences that agree wherever the predicate holds, and on whether it holds,
/// filter alike.
pub proof fn lemma_filter_pointwise<T>(a: Seq<T>, b: Seq<T>, p: spec_fn(T) -> bool)
    requires
        a.len() == b.len(),
        forall|i: int|
            0 <= i < a.len() ==> p(#[trigger] a[i]) == p(b[i]) && (p(a[i]) ==> a[i] == b[i]),
    ensures
        a.filter(p) == b.filter(p),
    decreases a.len(),
{
    reveal(Seq::filter);
    if a.len() > 0 {
        let n = a.len() - 1;
        assert(p(a[n]) == p(b[n]));
        assert forall|i: int| 0 <= i < n implies p(#[trigger] a.drop_last()[i]) == p(
            b.drop_last()[i],
        ) && (p(a.drop_last()[i]) ==> a.drop_last()[i] == b.drop_last()[i]) by {
            assert(a.drop_last()[i] == a[i]);
            assert(b.drop_last()[i] == b[i]);
        }
        lemma_filter_pointwise(a.drop_last(), b.drop_last(), p);
    }
}

/// Filtering what a wider filter kept is filtering.
pub proof fn lemma_filter_nested<T>(s: Seq<T>, wide: spec_fn(T) -> bool, p: spec_fn(T) -> bool)
    requires
        forall|i: int| 0 <= i < s.len() && p(#[trigger] s[i]) ==> wide(s[i]),
    ensures
        s.filter(wide).filter(p) == s.filter(p),
    decreases s.len(),
{
    reveal(Seq::filter);
    if s.len() > 0 {
        let rest = s.drop_last();
        assert forall|i: int| 0 <= i < rest.len() && p(#[trigger] rest[i]) implies wide(rest[i]) by {
            assert(rest[i] == s[i]);
        }
        lemma_filter_nested(rest, wide, p);
        assert(p(s[s.len() - 1]) ==> wide(s[s.len() - 1]));
        if wide(s.last()) {
            let w = rest.filter(wide);
            assert(w.push(s.last()).drop_last() =~= w);
        }
    }
}

/// Sequences with the same elements, each as often, hold the same elements.
pub proof fn lemma_same_multiset_contains<T>(a: Seq<T>, b: Seq<T>, x: T)
    requires
        a.to_multiset() == b.to_multiset(),
    ensures
        a.contains(x) <==> b.contains(x),
        a.len() == b.len(),
{
    a.to_multiset_ensures();
    b.to_multiset_ensures();
    assert(a.contains(x) <==> a.to_multiset().count(x) > 0);
    assert(b.contains(x) <==> b.to_multiset().count(x) > 0);
}

} // verus!
