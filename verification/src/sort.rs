//! Stable sorting by key.

use crate::order::{
    code_points, lemma_lex_asymmetric, lemma_lex_total, lemma_lex_transitive, lex_lt, str_lt,
};
use vstd::prelude::*;

verus! {

/// A value that has a key to be sorted by.
pub trait SortKey {
    /// The integers by which the value is ordered.
    spec fn sort_key(&self) -> Seq<int>;
}

/// A value that can be compared with another by its key.
pub trait Keyed: SortKey {
    /// Whether `self` comes strictly before `other`.
    fn comes_before(&self, other: &Self) -> (before: bool)
        ensures
            before == lex_lt(self.sort_key(), other.sort_key()),
    ;
}

impl SortKey for Seq<char> {
    open spec fn sort_key(&self) -> Seq<int> {
        code_points(*self)
    }
}

impl SortKey for String {
    open spec fn sort_key(&self) -> Seq<int> {
        code_points(self@)
    }
}

impl Keyed for String {
    fn comes_before(&self, other: &Self) -> (before: bool) {
        str_lt(self.as_str(), other.as_str())
    }
}

/// No element of `s` comes strictly before an element that stands before it.
pub open spec fn sorted<T: SortKey>(s: Seq<T>) -> bool {
    forall|i: int, j: int|
        0 <= i < j < s.len() ==> !lex_lt(#[trigger] s[j].sort_key(), #[trigger] s[i].sort_key())
}

/// The number of leading elements of `s` that `x` does not come strictly
/// before. In a sorted sequence that is the place behind every element
/// that `x` does not precede.
pub open spec fn place_for<T: SortKey>(s: Seq<T>, x: T) -> int
    decreases s.len(),
{
    if s.len() == 0 {
        0
    } else if lex_lt(x.sort_key(), s.last().sort_key()) {
        place_for(s.drop_last(), x)
    } else {
        s.len() as int
    }
}

/// `s` with `x` put behind the last element that `x` does not precede.
pub open spec fn insert_sorted<T: SortKey>(s: Seq<T>, x: T) -> Seq<T> {
    s.insert(place_for(s, x), x)
}

/// `s` sorted by key. Elements with equal keys keep the order they had.
pub open spec fn stable_sort<T: SortKey>(s: Seq<T>) -> Seq<T>
    decreases s.len(),
{
    if s.len() == 0 {
        Seq::<T>::empty()
    } else {
        insert_sorted(stable_sort(s.drop_last()), s.last())
    }
}

/// Where `x` is put, everything behind it comes strictly after `x`, and
/// the element before it does not.
pub proof fn lemma_place_for<T: SortKey>(s: Seq<T>, x: T)
    ensures
        0 <= place_for(s, x) <= s.len(),
        forall|i: int|
            place_for(s, x) <= i < s.len() ==> lex_lt(x.sort_key(), #[trigger] s[i].sort_key()),
        place_for(s, x) > 0 ==> !lex_lt(x.sort_key(), s[place_for(s, x) - 1].sort_key()),
    decreases s.len(),
{
    if s.len() > 0 && lex_lt(x.sort_key(), s.last().sort_key()) {
        let front = s.drop_last();
        lemma_place_for(front, x);
        assert forall|i: int| place_for(s, x) <= i < s.len() implies lex_lt(
            x.sort_key(),
            #[trigger] s[i].sort_key(),
        ) by {
            if i < s.len() - 1 {
                assert(front[i] == s[i]);
            }
        }
        if place_for(s, x) > 0 {
            assert(front[place_for(s, x) - 1] == s[place_for(s, x) - 1]);
        }
    }
}

/// Putting an element in its place keeps a sorted sequence sorted.
pub proof fn lemma_insert_sorted<T: SortKey>(s: Seq<T>, x: T)
    requires
        sorted(s),
    ensures
        sorted(insert_sorted(s, x)),
{
    lemma_place_for(s, x);
    let p = place_for(s, x);
    let t = insert_sorted(s, x);
    assert forall|i: int, j: int| 0 <= i < j < t.len() implies !lex_lt(
        #[trigger] t[j].sort_key(),
        #[trigger] t[i].sort_key(),
    ) by {
        if i == p {
            assert(t[j] == s[j - 1]);
            lemma_lex_asymmetric(x.sort_key(), s[j - 1].sort_key());
        } else if j == p {
            assert(t[i] == s[i]);
            // s[i] is not above s[p - 1], which is not above x
            if lex_lt(x.sort_key(), s[i].sort_key()) {
                if i < p - 1 {
                    lemma_lex_total(s[p - 1].sort_key(), x.sort_key());
                    if lex_lt(s[p - 1].sort_key(), x.sort_key()) {
                        lemma_lex_transitive(s[p - 1].sort_key(), x.sort_key(), s[i].sort_key());
                    }
                }
            }
        } else {
            let si = if i < p { i } else { i - 1 };
            let sj = if j < p { j } else { j - 1 };
            assert(t[i] == s[si]);
            assert(t[j] == s[sj]);
        }
    }
}

/// A sorted sequence is sorted.
pub proof fn lemma_stable_sort_sorted<T: SortKey>(s: Seq<T>)
    ensures
        sorted(stable_sort(s)),
        stable_sort(s).len() == s.len(),
    decreases s.len(),
{
    if s.len() > 0 {
        lemma_stable_sort_sorted(s.drop_last());
        lemma_insert_sorted(stable_sort(s.drop_last()), s.last());
        lemma_place_for(stable_sort(s.drop_last()), s.last());
    }
}

/// Sorting moves elements and neither adds nor drops any.
pub proof fn lemma_stable_sort_permutes<T: SortKey>(s: Seq<T>)
    ensures
        stable_sort(s).to_multiset() == s.to_multiset(),
    decreases s.len(),
{
    broadcast use vstd::seq_lib::group_to_multiset_ensures;

    if s.len() > 0 {
        let front = s.drop_last();
        let done = stable_sort(front);
        lemma_stable_sort_permutes(front);
        lemma_place_for(done, s.last());
        vstd::seq_lib::to_multiset_insert(done, place_for(done, s.last()), s.last());
        assert(s =~= front.push(s.last()));
    } else {
        assert(stable_sort(s) =~= s);
    }
}

/// The models of `s`.
pub open spec fn views<T: View>(s: Seq<T>) -> Seq<T::V> {
    Seq::new(s.len(), |i: int| s[i]@)
}

/// Where a value and its model have the same key, sorting the models is
/// sorting the values.
pub proof fn lemma_stable_sort_views<T: SortKey + View>(s: Seq<T>) where T::V: SortKey
    requires
        forall|i: int| 0 <= i < s.len() ==> (#[trigger] s[i])@.sort_key() == s[i].sort_key(),
    ensures
        views(stable_sort(s)) == stable_sort(views(s)),
    decreases s.len(),
{
    if s.len() == 0 {
        assert(views(stable_sort(s)) =~= stable_sort(views(s)));
    } else {
        let front = s.drop_last();
        let x = s.last();
        assert forall|i: int| 0 <= i < front.len() implies (#[trigger] front[i])@.sort_key()
            == front[i].sort_key() by {
            assert(front[i] == s[i]);
        }
        lemma_stable_sort_views(front);
        let done = stable_sort(front);
        lemma_stable_sort_permutes(front);
        assert forall|i: int| 0 <= i < done.len() implies (#[trigger] done[i])@.sort_key()
            == done[i].sort_key() by {
            broadcast use vstd::seq_lib::group_to_multiset_ensures;

            assert(done.to_multiset().count(done[i]) > 0);
            assert(front.to_multiset().count(done[i]) > 0);
            assert(front.contains(done[i]));
            let k = choose|k: int| 0 <= k < front.len() && front[k] == done[i];
            assert(front[k] == s[k]);
        }
        lemma_place_for_views(done, x);
        lemma_place_for(done, x);
        assert(views(s).drop_last() =~= views(front));
        assert(views(s).last() == x@);
        assert(views(done.insert(place_for(done, x), x)) =~= views(done).insert(
            place_for(done, x),
            x@,
        ));
    }
}

proof fn lemma_place_for_views<T: SortKey + View>(s: Seq<T>, x: T) where T::V: SortKey
    requires
        forall|i: int| 0 <= i < s.len() ==> (#[trigger] s[i])@.sort_key() == s[i].sort_key(),
        x@.sort_key() == x.sort_key(),
    ensures
        place_for(views(s), x@) == place_for(s, x),
    decreases s.len(),
{
    if s.len() > 0 {
        assert(views(s).last() == s.last()@);
        assert(views(s).drop_last() =~= views(s.drop_last()));
        if lex_lt(x.sort_key(), s.last().sort_key()) {
            let front = s.drop_last();
            assert forall|i: int| 0 <= i < front.len() implies (#[trigger] front[i])@.sort_key()
                == front[i].sort_key() by {
                assert(front[i] == s[i]);
            }
            lemma_place_for_views(front, x);
        }
    }
}

/// Sorts `items` by key. Elements with equal keys keep the order they had.
pub fn sort_by_key<T: Keyed>(items: Vec<T>) -> (out: Vec<T>)
    ensures
        out@ == stable_sort(items@),
{
    let mut out: Vec<T> = Vec::new();
    let ghost all = items@;
    for x in it: items
        invariant
            it.seq() == all,
            out@ == stable_sort(all.take(it.index() as int)),
            sorted(out@),
    {
        let ghost before = out@;
        proof {
            let grown = all.take(it.index() + 1);
            assert(grown.drop_last() == all.take(it.index() as int));
            assert(grown.last() == x);
            lemma_insert_sorted(before, x);
            assert(before.take(before.len() as int) == before);
        }
        // Walk back over the elements that `x` precedes.
        let mut p: usize = out.len();
        let mut stop: bool = false;
        while p > 0 && !stop
            invariant
                p <= out.len(),
                out@ == before,
                place_for(before, x) == place_for(before.take(p as int), x),
                stop ==> p > 0 && !lex_lt(x.sort_key(), before[p - 1].sort_key()),
            decreases p + if stop { 0int } else { 1int },
        {
            if x.comes_before(&out[p - 1]) {
                proof {
                    let front = before.take(p as int);
                    assert(front.last() == before[p - 1]);
                    assert(front.drop_last() == before.take(p - 1));
                }
                p = p - 1;
            } else {
                stop = true;
            }
        }
        proof {
            let front = before.take(p as int);
            if p > 0 {
                assert(front.last() == before[p - 1]);
            }
            assert(place_for(front, x) == p);
        }
        out.insert(p, x);
    }
    proof {
        assert(all.take(all.len() as int) == all);
    }
    out
}

} // verus!
