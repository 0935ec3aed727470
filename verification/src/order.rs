//! Sorting by a natural key: the order that a type names, and the stable sort
//! of a list by it.

use crate::text::{lemma_text_le_total, lemma_text_le_transitive, text_before_eq, text_le};
use vstd::prelude::*;

verus! {

/// A type whose values have a natural key that orders them.
pub trait Ordered: Sized {
    /// `self` may stand before `other` in a sorted list: its key is before or
    /// equal to the other's.
    spec fn before_eq(&self, other: &Self) -> bool;

    /// Of two values, one may stand before the other.
    proof fn lemma_total(a: &Self, b: &Self)
        ensures
            a.before_eq(b) || b.before_eq(a),
    ;

    /// The order is transitive.
    proof fn lemma_transitive(a: &Self, b: &Self, c: &Self)
        requires
            a.before_eq(b),
            b.before_eq(c),
        ensures
            a.before_eq(c),
    ;
}

/// A type whose values can be sorted by the natural key of their models.
pub trait Keyed: DeepView + Sized where <Self as DeepView>::V: Ordered {
    /// Tests whether `self` may stand before `other`.
    fn precedes(&self, other: &Self) -> (r: bool)
        ensures
            r == self.deep_view().before_eq(&other.deep_view()),
    ;
}

impl Ordered for Seq<char> {
    open spec fn before_eq(&self, other: &Self) -> bool {
        text_le(*self, *other)
    }

    proof fn lemma_total(a: &Self, b: &Self) {
        lemma_text_le_total(*a, *b);
    }

    proof fn lemma_transitive(a: &Self, b: &Self, c: &Self) {
        lemma_text_le_transitive(*a, *b, *c);
    }
}

impl Keyed for String {
    fn precedes(&self, other: &Self) -> (r: bool) {
        text_before_eq(self.as_str(), other.as_str())
    }
}

/// Every item may stand before every later one.
pub open spec fn is_sorted<T: Ordered>(s: Seq<T>) -> bool {
    forall|i: int, j: int|
        #![trigger s[i], s[j]]
        0 <= i < j < s.len() ==> s[i].before_eq(&s[j])
}

/// Where `x` goes into a sorted list: behind the last item that may stand
/// before it.
pub open spec fn insertion_point<T: Ordered>(sorted: Seq<T>, x: T) -> int
    decreases sorted.len(),
{
    if sorted.len() == 0 {
        0
    } else if sorted.last().before_eq(&x) {
        sorted.len() as int
    } else {
        insertion_point(sorted.drop_last(), x)
    }
}

/// The list sorted by key, items of equal key in the order they had.
pub open spec fn stable_sort<T: Ordered>(s: Seq<T>) -> Seq<T>
    decreases s.len(),
{
    if s.len() == 0 {
        s
    } else {
        let sorted = stable_sort(s.drop_last());
        sorted.insert(insertion_point(sorted, s.last()), s.last())
    }
}

/// The insertion point lies in the list or at its end.
pub proof fn lemma_insertion_point_bounds<T: Ordered>(sorted: Seq<T>, x: T)
    ensures
        0 <= insertion_point(sorted, x) <= sorted.len(),
    decreases sorted.len(),
{
    if sorted.len() > 0 {
        lemma_insertion_point_bounds(sorted.drop_last(), x);
    }
}

/// Before the insertion point stands what may stand before `x`; at it and
/// behind it stands what may not.
pub proof fn lemma_insertion_point_splits<T: Ordered>(sorted: Seq<T>, x: T)
    requires
        is_sorted(sorted),
    ensures
        forall|k: int| 0 <= k < insertion_point(sorted, x) ==> (#[trigger] sorted[k]).before_eq(&x),
        forall|k: int|
            insertion_point(sorted, x) <= k < sorted.len() ==> !(#[trigger] sorted[k]).before_eq(
                &x,
            ),
    decreases sorted.len(),
{
    if sorted.len() > 0 {
        let last = sorted.last();
        if last.before_eq(&x) {
            assert forall|k: int| 0 <= k < sorted.len() implies (#[trigger] sorted[k]).before_eq(
                &x,
            ) by {
                if k < sorted.len() - 1 {
                    T::lemma_transitive(&sorted[k], &last, &x);
                }
            }
        } else {
            let shorter = sorted.drop_last();
            assert(is_sorted(shorter)) by {
                assert forall|i: int, j: int|
                    #![trigger shorter[i], shorter[j]]
                    0 <= i < j < shorter.len() implies shorter[i].before_eq(&shorter[j]) by {
                    assert(sorted[i].before_eq(&sorted[j]));
                }
            }
            lemma_insertion_point_splits(shorter, x);
            lemma_insertion_point_bounds(shorter, x);
            assert forall|k: int| 0 <= k < insertion_point(sorted, x) implies (
            #[trigger] sorted[k]).before_eq(&x) by {
                assert(sorted[k] == shorter[k]);
            }
            assert forall|k: int| insertion_point(sorted, x) <= k < sorted.len() implies !(
            #[trigger] sorted[k]).before_eq(&x) by {
                if k < sorted.len() - 1 {
                    assert(sorted[k] == shorter[k]);
                }
            }
        }
    }
}

/// Sorting keeps the length.
pub proof fn lemma_stable_sort_len<T: Ordered>(s: Seq<T>)
    ensures
        stable_sort(s).len() == s.len(),
    decreases s.len(),
{
    if s.len() > 0 {
        lemma_stable_sort_len(s.drop_last());
        lemma_insertion_point_bounds(stable_sort(s.drop_last()), s.last());
    }
}

/// The sorted list is sorted.
pub proof fn lemma_stable_sort_sorted<T: Ordered>(s: Seq<T>)
    ensures
        is_sorted(stable_sort(s)),
    decreases s.len(),
{
    if s.len() > 0 {
        let sorted = stable_sort(s.drop_last());
        let x = s.last();
        let p = insertion_point(sorted, x);
        lemma_stable_sort_sorted(s.drop_last());
        lemma_insertion_point_bounds(sorted, x);
        lemma_insertion_point_splits(sorted, x);
        let out = sorted.insert(p, x);
        assert forall|i: int, j: int|
            #![trigger out[i], out[j]]
            0 <= i < j < out.len() implies out[i].before_eq(&out[j]) by {
            if j < p {
                assert(out[i] == sorted[i] && out[j] == sorted[j]);
            } else if j == p {
                assert(out[i] == sorted[i]);
            } else if i < p {
                assert(out[i] == sorted[i] && out[j] == sorted[j - 1]);
                if j - 1 == i {
                } else {
                    assert(sorted[i].before_eq(&sorted[j - 1]));
                }
            } else if i == p {
                assert(out[j] == sorted[j - 1]);
                T::lemma_total(&sorted[j - 1], &x);
            } else {
                assert(out[i] == sorted[i - 1] && out[j] == sorted[j - 1]);
            }
        }
    }
}

/// The sorted list holds the same items as the list, each as often.
pub proof fn lemma_stable_sort_permutes<T: Ordered>(s: Seq<T>)
    ensures
        stable_sort(s).to_multiset() == s.to_multiset(),
    decreases s.len(),
{
    broadcast use vstd::seq_lib::group_to_multiset_ensures;

    if s.len() > 0 {
        let sorted = stable_sort(s.drop_last());
        let x = s.last();
        lemma_stable_sort_permutes(s.drop_last());
        lemma_insertion_point_bounds(sorted, x);
        assert(s.drop_last().push(x) =~= s);
    }
}

/// No two different items of the list have the same key: two items that may
/// each stand before the other are the same item.
pub open spec fn keys_differ<T: Ordered>(s: Seq<T>) -> bool {
    forall|i: int, j: int|
        #![trigger s[i], s[j]]
        0 <= i < s.len() && 0 <= j < s.len() && s[i].before_eq(&s[j]) && s[j].before_eq(&s[i])
            ==> s[i] == s[j]
}

/// Two sorted lists that hold the same items, each as often, are the same
/// list, where no two different items have the same key.
pub proof fn lemma_sorted_lists_agree<T: Ordered>(x: Seq<T>, y: Seq<T>)
    requires
        is_sorted(x),
        is_sorted(y),
        keys_differ(x),
        x.to_multiset() == y.to_multiset(),
    ensures
        x == y,
    decreases x.len(),
{
    broadcast use vstd::multiset::group_multiset_axioms;
    broadcast use vstd::seq_lib::group_to_multiset_ensures;

    vstd::seq_lib::to_multiset_len(x);
    vstd::seq_lib::to_multiset_len(y);
    if x.len() > 0 {
        let head = x[0];
        // The head of each list stands somewhere in the other.
        assert(y.to_multiset().count(head) > 0);
        assert(y.contains(head));
        let j = choose|j: int| 0 <= j < y.len() && y[j] == head;
        assert(x.to_multiset().count(y[0]) > 0);
        assert(x.contains(y[0]));
        let i = choose|i: int| 0 <= i < x.len() && x[i] == y[0];
        if i > 0 && j > 0 {
            assert(x[0].before_eq(&x[i]));
            assert(y[0].before_eq(&y[j]));
        }
        assert(head == y[0]);
        // What follows the heads is sorted and holds the same items.
        let xs = x.drop_first();
        let ys = y.drop_first();
        assert(xs =~= x.remove(0));
        assert(ys =~= y.remove(0));
        assert(xs.to_multiset() =~= x.to_multiset().remove(head));
        assert(ys.to_multiset() =~= y.to_multiset().remove(head));
        assert(is_sorted(xs)) by {
            assert forall|a: int, b: int|
                #![trigger xs[a], xs[b]]
                0 <= a < b < xs.len() implies xs[a].before_eq(&xs[b]) by {
                assert(x[a + 1].before_eq(&x[b + 1]));
            }
        }
        assert(is_sorted(ys)) by {
            assert forall|a: int, b: int|
                #![trigger ys[a], ys[b]]
                0 <= a < b < ys.len() implies ys[a].before_eq(&ys[b]) by {
                assert(y[a + 1].before_eq(&y[b + 1]));
            }
        }
        assert(keys_differ(xs)) by {
            assert forall|a: int, b: int|
                #![trigger xs[a], xs[b]]
                0 <= a < xs.len() && 0 <= b < xs.len() && xs[a].before_eq(&xs[b])
                    && xs[b].before_eq(&xs[a]) implies xs[a] == xs[b] by {
                assert(x[a + 1] == xs[a] && x[b + 1] == xs[b]);
            }
        }
        lemma_sorted_lists_agree(xs, ys);
        assert(x =~= seq![head] + xs);
        assert(y =~= seq![head] + ys);
    } else {
        assert(x =~= y);
    }
}

/// The order of a list does not matter once it is sorted: two lists that
/// hold the same items, each as often, are the same list once sorted,
/// where no two different items have the same key.
pub proof fn lemma_stable_sort_of_permutation<T: Ordered>(a: Seq<T>, b: Seq<T>)
    requires
        keys_differ(a),
        a.to_multiset() == b.to_multiset(),
    ensures
        stable_sort(a) == stable_sort(b),
{
    broadcast use vstd::multiset::group_multiset_axioms;
    broadcast use vstd::seq_lib::group_to_multiset_ensures;

    let x = stable_sort(a);
    let y = stable_sort(b);
    lemma_stable_sort_sorted(a);
    lemma_stable_sort_sorted(b);
    lemma_stable_sort_permutes(a);
    lemma_stable_sort_permutes(b);
    assert(keys_differ(x)) by {
        assert forall|i: int, j: int|
            #![trigger x[i], x[j]]
            0 <= i < x.len() && 0 <= j < x.len() && x[i].before_eq(&x[j]) && x[j].before_eq(
                &x[i],
            ) implies x[i] == x[j] by {
            assert(x.contains(x[i]));
            assert(x.contains(x[j]));
            assert(a.to_multiset().count(x[i]) > 0);
            assert(a.to_multiset().count(x[j]) > 0);
            assert(a.contains(x[i]));
            assert(a.contains(x[j]));
            let p = choose|p: int| 0 <= p < a.len() && a[p] == x[i];
            let q = choose|q: int| 0 <= q < a.len() && a[q] == x[j];
            assert(a[p].before_eq(&a[q]) && a[q].before_eq(&a[p]));
        }
    }
    lemma_sorted_lists_agree(x, y);
}

/// Two lists that hold the same items, each as often, still do so when the
/// same function is applied to every item.
pub proof fn lemma_mapped_permutation<A, B>(a: Seq<A>, b: Seq<A>, f: spec_fn(A) -> B)
    requires
        a.to_multiset() == b.to_multiset(),
    ensures
        a.map_values(f).to_multiset() == b.map_values(f).to_multiset(),
    decreases a.len(),
{
    broadcast use vstd::multiset::group_multiset_axioms;
    broadcast use vstd::seq_lib::group_to_multiset_ensures;

    vstd::seq_lib::to_multiset_len(a);
    vstd::seq_lib::to_multiset_len(b);
    if a.len() == 0 {
        assert(a.map_values(f) =~= b.map_values(f));
    } else {
        let last = a.last();
        assert(a.contains(last));
        assert(b.to_multiset().count(last) > 0);
        assert(b.contains(last));
        let j = choose|j: int| 0 <= j < b.len() && b[j] == last;
        let shorter = a.drop_last();
        let without = b.remove(j);
        assert(shorter =~= a.remove(a.len() - 1));
        assert(shorter.to_multiset() =~= a.to_multiset().remove(last));
        assert(without.to_multiset() =~= b.to_multiset().remove(last));
        lemma_mapped_permutation(shorter, without, f);
        assert(a.map_values(f) =~= shorter.map_values(f).push(f(last)));
        assert(b.map_values(f) =~= without.map_values(f).insert(j, f(last)));
        assert(a.map_values(f).to_multiset() =~= shorter.map_values(f).to_multiset().insert(
            f(last),
        ));
        assert(b.map_values(f).to_multiset() =~= without.map_values(f).to_multiset().insert(
            f(last),
        ));
    }
}

/// Sorts the list by key, keeping items of equal key in their order.
pub fn sort_keyed<T: Keyed>(v: &mut Vec<T>) where <T as DeepView>::V: Ordered
    ensures
        final(v).deep_view() == stable_sort(old(v).deep_view()),
{
    let ghost given = old(v).deep_view();
    let n: usize = v.len();
    let mut i: usize = 0;
    proof {
        assert(given.take(0) =~= Seq::<T::V>::empty());
        assert(given.skip(0) =~= given);
        assert(stable_sort(given.take(0)) + given.skip(0) =~= given);
    }
    while i < n
        invariant
            i <= n,
            n == given.len(),
            v.len() == n,
            v.deep_view() == stable_sort(given.take(i as int)) + given.skip(i as int),
        decreases n - i,
    {
        let ghost prefix = stable_sort(given.take(i as int));
        proof {
            lemma_stable_sort_len(given.take(i as int));
        }
        let ghost before = v.deep_view();
        let ghost items = v@;
        let x: T = v.remove(i);
        let ghost xv = x.deep_view();
        proof {
            assert(xv == before[i as int]);
            assert(v@ == items.remove(i as int));
            assert(v.deep_view() =~= before.remove(i as int));
            assert(before.remove(i as int) =~= prefix + given.skip(i + 1));
            assert(prefix.take(i as int) =~= prefix);
        }
        let mut j: usize = i;
        while j > 0 && !v[j - 1].precedes(&x)
            invariant
                j <= i,
                i < n,
                v.len() == n - 1,
                prefix.len() == i,
                xv == x.deep_view(),
                v.deep_view() == prefix + given.skip(i + 1),
                insertion_point(prefix, xv) == insertion_point(prefix.take(j as int), xv),
            decreases j,
        {
            proof {
                assert(prefix.take(j as int).last() == v.deep_view()[j - 1]);
                assert(prefix.take(j as int).drop_last() =~= prefix.take(j - 1));
            }
            j -= 1;
        }
        proof {
            if j > 0 {
                assert(prefix.take(j as int).last() == v.deep_view()[j - 1]);
            }
            assert(insertion_point(prefix, xv) == j);
            assert(given.take(i + 1).drop_last() =~= given.take(i as int));
            assert(given.take(i + 1).last() == xv);
        }
        let ghost middle = v.deep_view();
        let ghost rest = v@;
        v.insert(j, x);
        proof {
            assert(v@ == rest.insert(j as int, x));
            assert(v.deep_view() =~= middle.insert(j as int, xv));
            assert(v.deep_view() =~= stable_sort(given.take(i + 1)) + given.skip(i + 1));
        }
        i += 1;
    }
    proof {
        assert(given.take(n as int) =~= given);
        assert(given.skip(n as int) =~= Seq::<T::V>::empty());
        assert(v.deep_view() =~= stable_sort(given));
    }
}

} // verus!
