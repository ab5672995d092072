//! Ordered listings: what it means that a vector is in order, and insertion
//! that keeps it so.

use vstd::prelude::*;
use vstd::string::*;

verus! {

/// An order on the views of `T` in which any two can be compared. Values that
/// are at most each other may stand either way round.
pub trait Order<T: View> {
    spec fn at_most(&self, a: T::V, b: T::V) -> bool;

    proof fn total(&self, a: T::V, b: T::V)
        ensures
            self.at_most(a, b) || self.at_most(b, a),
    ;

    proof fn transitive(&self, a: T::V, b: T::V, c: T::V)
        requires
            self.at_most(a, b),
            self.at_most(b, c),
        ensures
            self.at_most(a, c),
    ;

    fn is_at_most(&self, a: &T, b: &T) -> (r: bool)
        ensures
            r == self.at_most(a@, b@),
    ;
}

/// Whether no value stands before one that it exceeds.
pub open spec fn in_order<T: View, O: Order<T>>(order: &O, s: Seq<T::V>) -> bool {
    forall|i: int, j: int|
        0 <= i < j < s.len() ==> order.at_most(#[trigger] s[i], #[trigger] s[j])
}

/// A sequence with a value put behind the last that is at most it.
pub open spec fn inserted<T: View, O: Order<T>>(order: &O, s: Seq<T::V>, x: T::V) -> Seq<T::V>
    decreases s.len(),
{
    if s.len() == 0 || order.at_most(s.last(), x) {
        s.push(x)
    } else {
        inserted::<T, O>(order, s.drop_last(), x).push(s.last())
    }
}

/// The values of a sequence in order. Values that are at most each other stand as
/// they stood.
pub open spec fn sorted<T: View, O: Order<T>>(order: &O, s: Seq<T::V>) -> Seq<T::V>
    decreases s.len(),
{
    if s.len() == 0 {
        s
    } else {
        inserted::<T, O>(order, sorted::<T, O>(order, s.drop_last()), s.last())
    }
}

/// The views of a sequence.
pub open spec fn views<T: View>(s: Seq<T>) -> Seq<T::V> {
    Seq::new(s.len(), |i: int| s[i]@)
}

/// Inserting behind a value that is at most `x`, in front of values that are not,
/// is inserting in order.
proof fn lemma_inserted_at<T: View, O: Order<T>>(order: &O, s: Seq<T::V>, x: T::V, at: int)
    requires
        0 <= at <= s.len(),
        at > 0 ==> order.at_most(s[at - 1], x),
        forall|k: int| at <= k < s.len() ==> !order.at_most(#[trigger] s[k], x),
    ensures
        inserted::<T, O>(order, s, x) == s.insert(at, x),
    decreases s.len(),
{
    if at == s.len() {
        assert(s.insert(at, x) =~= s.push(x));
    } else {
        let front = s.drop_last();
        assert(front.len() == s.len() - 1);
        assert(!order.at_most(s[s.len() - 1], x));
        assert forall|k: int| at <= k < front.len() implies !order.at_most(
            #[trigger] front[k],
            x,
        ) by {
            assert(front[k] == s[k]);
        }
        lemma_inserted_at::<T, O>(order, front, x, at);
        assert(front.insert(at, x).push(s.last()) =~= s.insert(at, x));
    }
}

/// Sorting puts a sequence in order and takes nothing away.
pub proof fn lemma_sorted<T: View, O: Order<T>>(order: &O, s: Seq<T::V>)
    ensures
        in_order::<T, O>(order, sorted::<T, O>(order, s)),
        sorted::<T, O>(order, s).to_multiset() == s.to_multiset(),
    decreases s.len(),
{
    if s.len() > 0 {
        let front = sorted::<T, O>(order, s.drop_last());
        lemma_sorted::<T, O>(order, s.drop_last());
        lemma_inserted::<T, O>(order, front, s.last());
        vstd::seq_lib::to_multiset_build(front, s.last());
        vstd::seq_lib::to_multiset_build(s.drop_last(), s.last());
        assert(s.drop_last().push(s.last()) =~= s);
    }
}

proof fn lemma_inserted<T: View, O: Order<T>>(order: &O, s: Seq<T::V>, x: T::V)
    requires
        in_order::<T, O>(order, s),
    ensures
        in_order::<T, O>(order, inserted::<T, O>(order, s, x)),
        inserted::<T, O>(order, s, x).to_multiset() == s.push(x).to_multiset(),
        inserted::<T, O>(order, s, x).len() == s.len() + 1,
        forall|k: int|
            0 <= k <= s.len() ==> (#[trigger] inserted::<T, O>(order, s, x)[k]) == x || s.contains(
                inserted::<T, O>(order, s, x)[k],
            ),
    decreases s.len(),
{
    let r = inserted::<T, O>(order, s, x);
    if s.len() == 0 || order.at_most(s.last(), x) {
        assert forall|i: int, j: int| 0 <= i < j < r.len() implies order.at_most(
            #[trigger] r[i],
            #[trigger] r[j],
        ) by {
            if j == s.len() && i < s.len() - 1 {
                order.transitive(s[i], s[s.len() - 1], x);
            }
        }
        assert forall|k: int| 0 <= k <= s.len() implies (#[trigger] r[k]) == x || s.contains(
            r[k],
        ) by {
            if k < s.len() {
                assert(r[k] == s[k]);
            }
        }
    } else {
        let front = s.drop_last();
        let last = s.last();
        let ins = inserted::<T, O>(order, front, x);
        lemma_inserted::<T, O>(order, front, x);
        order.total(last, x);
        assert(r == ins.push(last));
        assert forall|i: int, j: int| 0 <= i < j < r.len() implies order.at_most(
            #[trigger] r[i],
            #[trigger] r[j],
        ) by {
            if j < ins.len() {
                assert(r[i] == ins[i] && r[j] == ins[j]);
            } else {
                assert(r[i] == ins[i]);
                if ins[i] != x {
                    assert(front.contains(ins[i]));
                    let m = choose|m: int| 0 <= m < front.len() && front[m] == ins[i];
                    assert(s[m] == front[m]);
                    assert(order.at_most(s[m], s[s.len() - 1]));
                }
            }
        }
        vstd::seq_lib::to_multiset_build(ins, last);
        vstd::seq_lib::to_multiset_build(front, x);
        vstd::seq_lib::to_multiset_build(front, last);
        vstd::seq_lib::to_multiset_build(s, x);
        assert(front.push(last) =~= s);
        assert(r.to_multiset() =~= s.push(x).to_multiset());
        assert forall|k: int| 0 <= k <= s.len() implies (#[trigger] r[k]) == x || s.contains(
            r[k],
        ) by {
            if k < ins.len() {
                assert(r[k] == ins[k]);
                if ins[k] != x {
                    let m = choose|m: int| 0 <= m < front.len() && front[m] == ins[k];
                    assert(s[m] == ins[k]);
                }
            } else {
                assert(s[s.len() - 1] == r[k]);
            }
        }
    }
}

/// Inserts a value behind all that are at most it.
pub fn insert_in_order<T: View, O: Order<T>>(order: &O, out: &mut Vec<T>, x: T)
    ensures
        views(final(out)@) == inserted::<T, O>(order, views(old(out)@), x@),
{
    let mut at: usize = out.len();
    while at > 0
        invariant_except_break
            at <= out@.len(),
            out@ == old(out)@,
            forall|k: int|
                at <= k < out@.len() ==> !order.at_most(#[trigger] views(out@)[k], x@),
        ensures
            at <= out@.len(),
            out@ == old(out)@,
            forall|k: int|
                at <= k < out@.len() ==> !order.at_most(#[trigger] views(out@)[k], x@),
            at > 0 ==> order.at_most(views(out@)[at - 1], x@),
        decreases at,
    {
        if order.is_at_most(&out[at - 1], &x) {
            break;
        }
        at -= 1;
    }
    let ghost before = out@;
    let ghost v = x@;
    out.insert(at, x);
    proof {
        assert(views(out@) =~= views(before).insert(at as int, v));
        lemma_inserted_at::<T, O>(order, views(before), v, at as int);
    }
}

/// Order of texts by code points, the first difference deciding. It is the order
/// of their UTF-8 bytes.
pub open spec fn text_at_most(a: Seq<char>, b: Seq<char>) -> bool
    decreases a.len(),
{
    if a.len() == 0 {
        true
    } else if b.len() == 0 {
        false
    } else if a[0] != b[0] {
        (a[0] as int) < (b[0] as int)
    } else {
        text_at_most(a.skip(1), b.skip(1))
    }
}

pub proof fn lemma_text_total(a: Seq<char>, b: Seq<char>)
    ensures
        text_at_most(a, b) || text_at_most(b, a),
    decreases a.len(),
{
    if a.len() > 0 && b.len() > 0 && a[0] == b[0] {
        lemma_text_total(a.skip(1), b.skip(1));
    }
}

pub proof fn lemma_text_transitive(a: Seq<char>, b: Seq<char>, c: Seq<char>)
    requires
        text_at_most(a, b),
        text_at_most(b, c),
    ensures
        text_at_most(a, c),
    decreases a.len(),
{
    if a.len() > 0 && b.len() > 0 && c.len() > 0 && a[0] == b[0] && b[0] == c[0] {
        lemma_text_transitive(a.skip(1), b.skip(1), c.skip(1));
    }
}

/// Whether the first text is at most the second.
pub fn is_text_at_most(a: &str, b: &str) -> (r: bool)
    ensures
        r == text_at_most(a@, b@),
{
    let n: usize = a.unicode_len();
    let m: usize = b.unicode_len();
    let mut i: usize = 0;
    assert(a@.skip(0) =~= a@);
    assert(b@.skip(0) =~= b@);
    while i < n && i < m
        invariant
            n == a@.len(),
            m == b@.len(),
            i <= n,
            i <= m,
            text_at_most(a@, b@) == text_at_most(a@.skip(i as int), b@.skip(i as int)),
        decreases n - i,
    {
        let x: char = a.get_char(i);
        let y: char = b.get_char(i);
        proof {
            assert(a@.skip(i as int)[0] == x);
            assert(b@.skip(i as int)[0] == y);
            assert(a@.skip(i as int).skip(1) =~= a@.skip(i + 1));
            assert(b@.skip(i as int).skip(1) =~= b@.skip(i + 1));
        }
        if x != y {
            return (x as u32) < (y as u32);
        }
        i += 1;
    }
    i == n
}

/// Texts are in the order of a dictionary: one is at most another exactly where the
/// other starts with it, or where at their first difference its character is the
/// smaller one. Two texts that are at most each other are the same.
pub proof fn law_texts_are_ordered_as_in_a_dictionary(a: Seq<char>, b: Seq<char>)
    ensures
        text_at_most(a, b) <==> a.len() <= b.len() && b.take(a.len() as int) == a || exists|i: int|
            0 <= i < a.len() && i < b.len() && a.take(i) == b.take(i) && (#[trigger] a[i] as int) < (
            b[i] as int),
        text_at_most(a, b) && text_at_most(b, a) ==> a == b,
    decreases a.len(),
{
    if a.len() == 0 {
        assert(b.take(0) =~= a);
        if text_at_most(b, a) {
            assert(b =~= a);
        }
    } else if b.len() > 0 {
        let c = a.skip(1);
        let d = b.skip(1);
        law_texts_are_ordered_as_in_a_dictionary(c, d);
        assert(a =~= seq![a[0]] + c);
        assert(b =~= seq![b[0]] + d);
        if a[0] != b[0] {
            assert(a.take(0) =~= b.take(0));
            if a.len() <= b.len() && b.take(a.len() as int) == a {
                assert(b.take(a.len() as int)[0] == b[0]);
            }
            if exists|i: int|
                0 <= i < a.len() && i < b.len() && a.take(i) == b.take(i) && (
                #[trigger] a[i] as int) < (b[i] as int) {
                let i = choose|i: int|
                    0 <= i < a.len() && i < b.len() && a.take(i) == b.take(i) && (
                    #[trigger] a[i] as int) < (b[i] as int);
                if i > 0 {
                    assert(a.take(i)[0] == b.take(i)[0]);
                }
            }
        } else {
            if c.len() <= d.len() && d.take(c.len() as int) == c {
                assert(b.take(a.len() as int) =~= a) by {
                    assert forall|k: int| 0 <= k < a.len() implies b[k] == a[k] by {
                        if k > 0 {
                            assert(d.take(c.len() as int)[k - 1] == c[k - 1]);
                        }
                    }
                }
            }
            if a.len() <= b.len() && b.take(a.len() as int) == a {
                assert(d.take(c.len() as int) =~= c) by {
                    assert forall|k: int| 0 <= k < c.len() implies d[k] == c[k] by {
                        assert(b.take(a.len() as int)[k + 1] == a[k + 1]);
                    }
                }
            }
            if exists|i: int|
                0 <= i < c.len() && i < d.len() && c.take(i) == d.take(i) && (
                #[trigger] c[i] as int) < (d[i] as int) {
                let i = choose|i: int|
                    0 <= i < c.len() && i < d.len() && c.take(i) == d.take(i) && (
                    #[trigger] c[i] as int) < (d[i] as int);
                assert(a.take(i + 1) =~= seq![a[0]] + c.take(i));
                assert(b.take(i + 1) =~= seq![b[0]] + d.take(i));
                assert((a[i + 1] as int) < (b[i + 1] as int));
            }
            if exists|i: int|
                0 <= i < a.len() && i < b.len() && a.take(i) == b.take(i) && (
                #[trigger] a[i] as int) < (b[i] as int) {
                let i = choose|i: int|
                    0 <= i < a.len() && i < b.len() && a.take(i) == b.take(i) && (
                    #[trigger] a[i] as int) < (b[i] as int);
                assert(i > 0);
                assert(c.take(i - 1) =~= a.take(i).skip(1));
                assert(d.take(i - 1) =~= b.take(i).skip(1));
                assert((c[i - 1] as int) < (d[i - 1] as int));
            }
        }
    } else {
        assert(b.take(0) =~= b);
    }
}

} // verus!
