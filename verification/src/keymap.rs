//! A map from text keys to values that keeps its entries in key order.

use crate::order::{
    code_points, lemma_lex_asymmetric, lemma_lex_irreflexive, lemma_lex_total,
    lemma_lex_transitive, lex_lt, str_lt,
};
use crate::path::{path_key, path_lt};
use vstd::prelude::*;

verus! {

/// How the keys of a map are ordered.
#[derive(Clone, Copy, Debug, PartialEq, Eq, Structural)]
pub enum KeyOrder {
    /// As plain text, by code points.
    Text,
    /// As paths, component by component.
    Path,
}

/// The integers by which a key is ordered.
pub open spec fn sort_key(order: KeyOrder, key: Seq<char>) -> Seq<int> {
    match order {
        KeyOrder::Text => code_points(key),
        KeyOrder::Path => path_key(key),
    }
}

/// `a` comes strictly before `b`.
pub open spec fn key_lt(order: KeyOrder, a: Seq<char>, b: Seq<char>) -> bool {
    lex_lt(sort_key(order, a), sort_key(order, b))
}

/// `a` and `b` stand for the same key.
pub open spec fn key_eq(order: KeyOrder, a: Seq<char>, b: Seq<char>) -> bool {
    sort_key(order, a) == sort_key(order, b)
}

/// Compares two keys under `order`.
pub fn keys_lt(order: KeyOrder, a: &str, b: &str) -> (r: bool)
    ensures
        r == key_lt(order, a@, b@),
{
    match order {
        KeyOrder::Text => str_lt(a, b),
        KeyOrder::Path => path_lt(a, b),
    }
}

/// The entries of a map, as pairs of key and value.
pub type Entries<V> = Seq<(Seq<char>, V)>;

/// Every entry's key comes strictly before the keys behind it.
pub open spec fn strictly_sorted<V>(order: KeyOrder, s: Entries<V>) -> bool {
    forall|i: int, j: int|
        0 <= i < j < s.len() ==> key_lt(order, #[trigger] s[i].0, #[trigger] s[j].0)
}

/// The number of entries whose key comes strictly before `key`. In a sorted
/// sequence this is the position at which `key` stands or would stand.
#[verifier::opaque]
pub open spec fn rank<V>(order: KeyOrder, s: Entries<V>, key: Seq<char>) -> int
    decreases s.len(),
{
    if s.len() == 0 {
        0
    } else {
        rank(order, s.drop_last(), key) + if key_lt(order, s.last().0, key) {
            1int
        } else {
            0int
        }
    }
}

/// Whether `s` holds an entry for `key`.
pub open spec fn has_key<V>(order: KeyOrder, s: Entries<V>, key: Seq<char>) -> bool {
    let p = rank(order, s, key);
    0 <= p < s.len() && key_eq(order, s[p].0, key)
}

/// The value that `s` holds for `key`.
pub open spec fn lookup<V>(order: KeyOrder, s: Entries<V>, key: Seq<char>) -> Option<V> {
    if has_key(order, s, key) {
        Some(s[rank(order, s, key)].1)
    } else {
        None
    }
}

/// `s` with `value` stored under `key`. A key that is already there keeps
/// its place and its spelling and gets the new value; a new key is put where
/// the order has it.
pub open spec fn with_entry<V>(
    order: KeyOrder,
    s: Entries<V>,
    key: Seq<char>,
    value: V,
) -> Entries<V> {
    let p = rank(order, s, key);
    if has_key(order, s, key) {
        s.update(p, (s[p].0, value))
    } else {
        s.insert(p, (key, value))
    }
}

/// `s` with the pair of `key` and `value` stored. An entry whose key stands
/// for the same key is replaced, spelling and value; a new key is put where
/// the order has it.
pub open spec fn with_pair<V>(
    order: KeyOrder,
    s: Entries<V>,
    key: Seq<char>,
    value: V,
) -> Entries<V> {
    let p = rank(order, s, key);
    if has_key(order, s, key) {
        s.update(p, (key, value))
    } else {
        s.insert(p, (key, value))
    }
}

/// `rank` counts at most every entry.
pub proof fn lemma_rank_bounds<V>(order: KeyOrder, s: Entries<V>, key: Seq<char>)
    ensures
        0 <= rank(order, s, key) <= s.len(),
    decreases s.len(),
{
    reveal(rank);
    if s.len() > 0 {
        lemma_rank_bounds(order, s.drop_last(), key);
    }
}

/// In a sorted sequence, `p` is the rank of `key` where every entry before
/// `p` is smaller than `key` and no entry from `p` on is.
pub proof fn lemma_rank_is<V>(order: KeyOrder, s: Entries<V>, key: Seq<char>, p: int)
    requires
        0 <= p <= s.len(),
        forall|i: int| 0 <= i < p ==> key_lt(order, #[trigger] s[i].0, key),
        forall|i: int| p <= i < s.len() ==> !key_lt(order, #[trigger] s[i].0, key),
    ensures
        rank(order, s, key) == p,
    decreases s.len(),
{
    reveal(rank);
    if s.len() > 0 {
        let front = s.drop_last();
        if p == s.len() {
            lemma_rank_is(order, front, key, p - 1);
        } else {
            lemma_rank_is(order, front, key, p);
        }
    }
}

/// In a sorted sequence, the entries smaller than `key` are those before its rank.
pub proof fn lemma_rank_splits<V>(order: KeyOrder, s: Entries<V>, key: Seq<char>)
    requires
        strictly_sorted(order, s),
    ensures
        0 <= rank(order, s, key) <= s.len(),
        forall|i: int| 0 <= i < rank(order, s, key) ==> key_lt(order, #[trigger] s[i].0, key),
        forall|i: int|
            rank(order, s, key) <= i < s.len() ==> !key_lt(order, #[trigger] s[i].0, key),
    decreases s.len(),
{
    reveal(rank);
    if s.len() > 0 {
        let front = s.drop_last();
        assert(strictly_sorted(order, front));
        lemma_rank_splits(order, front, key);
        let p = rank(order, front, key);
        assert forall|i: int| 0 <= i < front.len() implies #[trigger] front[i] == s[i] by {}
        if key_lt(order, s.last().0, key) {
            assert forall|i: int| 0 <= i < s.len() implies key_lt(
                order,
                #[trigger] s[i].0,
                key,
            ) by {
                if i < s.len() - 1 {
                    lemma_lex_transitive(
                        sort_key(order, s[i].0),
                        sort_key(order, s.last().0),
                        sort_key(order, key),
                    );
                }
            }
            assert forall|i: int| 0 <= i < front.len() implies key_lt(
                order,
                #[trigger] front[i].0,
                key,
            ) by {
                assert(front[i] == s[i]);
            }
            lemma_rank_is(order, front, key, front.len() as int);
        } else {
            assert forall|i: int| 0 <= i < p implies key_lt(order, #[trigger] s[i].0, key) by {
                assert(front[i] == s[i]);
            }
            assert forall|i: int| p <= i < s.len() implies !key_lt(
                order,
                #[trigger] s[i].0,
                key,
            ) by {
                if i < s.len() - 1 {
                    assert(front[i] == s[i]);
                }
            }
        }
    }
}

/// Storing an entry keeps a sorted sequence sorted.
pub proof fn lemma_with_entry_sorted<V>(order: KeyOrder, s: Entries<V>, key: Seq<char>, value: V)
    requires
        strictly_sorted(order, s),
    ensures
        strictly_sorted(order, with_entry(order, s, key, value)),
{
    lemma_rank_splits(order, s, key);
    let p = rank(order, s, key);
    let t = with_entry(order, s, key, value);
    if !has_key(order, s, key) {
        assert forall|i: int, j: int| 0 <= i < j < t.len() implies key_lt(
            order,
            #[trigger] t[i].0,
            #[trigger] t[j].0,
        ) by {
            if j == p {
                assert(t[i] == s[i]);
            } else if i == p {
                assert(t[j] == s[j - 1]);
                // key is not above s[p]; it differs from it; and s[p] is at most s[j - 1]
                lemma_lex_total(sort_key(order, s[p].0), sort_key(order, key));
                if j - 1 > p {
                    lemma_lex_transitive(
                        sort_key(order, key),
                        sort_key(order, s[p].0),
                        sort_key(order, s[j - 1].0),
                    );
                }
            } else {
                let si = if i < p { i } else { i - 1 };
                let sj = if j < p { j } else { j - 1 };
                assert(t[i] == s[si]);
                assert(t[j] == s[sj]);
            }
        }
    }
}

/// Storing a pair keeps a sorted sequence sorted.
pub proof fn lemma_with_pair_sorted<V>(order: KeyOrder, s: Entries<V>, key: Seq<char>, value: V)
    requires
        strictly_sorted(order, s),
    ensures
        strictly_sorted(order, with_pair(order, s, key, value)),
{
    if has_key(order, s, key) {
        let p = rank(order, s, key);
        let t = with_pair(order, s, key, value);
        assert forall|i: int, j: int| 0 <= i < j < t.len() implies key_lt(
            order,
            #[trigger] t[i].0,
            #[trigger] t[j].0,
        ) by {
            // The new spelling has the sort key of the old one.
            assert(sort_key(order, t[i].0) == sort_key(order, s[i].0));
            assert(sort_key(order, t[j].0) == sort_key(order, s[j].0));
        }
    } else {
        lemma_with_entry_sorted(order, s, key, value);
    }
}

/// What is stored under a key is found under it.
pub proof fn lemma_lookup_stored<V>(order: KeyOrder, s: Entries<V>, key: Seq<char>, value: V)
    requires
        strictly_sorted(order, s),
    ensures
        lookup(order, with_entry(order, s, key, value), key) == Some(value),
{
    lemma_rank_splits(order, s, key);
    let p = rank(order, s, key);
    let t = with_entry(order, s, key, value);
    lemma_lex_irreflexive(sort_key(order, key));
    if has_key(order, s, key) {
        assert forall|i: int| 0 <= i < p implies key_lt(order, #[trigger] t[i].0, key) by {
            assert(t[i] == s[i]);
        }
        assert forall|i: int| p <= i < t.len() implies !key_lt(order, #[trigger] t[i].0, key) by {
            assert(t[i].0 == s[i].0);
        }
        lemma_rank_is(order, t, key, p);
    } else {
        assert forall|i: int| 0 <= i < p implies key_lt(order, #[trigger] t[i].0, key) by {
            assert(t[i] == s[i]);
        }
        assert forall|i: int| p <= i < t.len() implies !key_lt(order, #[trigger] t[i].0, key) by {
            if i > p {
                assert(t[i] == s[i - 1]);
            }
        }
        lemma_rank_is(order, t, key, p);
    }
}

/// Storing under one key leaves what is found under every other key.
pub proof fn lemma_lookup_other<V>(
    order: KeyOrder,
    s: Entries<V>,
    key: Seq<char>,
    value: V,
    other: Seq<char>,
)
    requires
        strictly_sorted(order, s),
        !key_eq(order, key, other),
    ensures
        lookup(order, with_entry(order, s, key, value), other) == lookup(order, s, other),
        has_key(order, with_entry(order, s, key, value), other) == has_key(order, s, other),
{
    lemma_rank_splits(order, s, key);
    lemma_rank_splits(order, s, other);
    let p = rank(order, s, key);
    let q = rank(order, s, other);
    let t = with_entry(order, s, key, value);
    if has_key(order, s, key) {
        assert forall|i: int| 0 <= i < t.len() implies (#[trigger] t[i]).0 == s[i].0 by {}
        lemma_rank_is(order, t, other, q);
        if q < s.len() && q != p {
            assert(t[q] == s[q]);
        }
    } else {
        lemma_lex_total(sort_key(order, key), sort_key(order, other));
        if key_lt(order, key, other) {
            lemma_lookup_other_before(order, s, key, value, other);
        } else {
            lemma_lookup_other_behind(order, s, key, value, other);
        }
    }
}

proof fn lemma_lookup_other_before<V>(
    order: KeyOrder,
    s: Entries<V>,
    key: Seq<char>,
    value: V,
    other: Seq<char>,
)
    requires
        strictly_sorted(order, s),
        !has_key(order, s, key),
        key_lt(order, key, other),
    ensures
        lookup(order, with_entry(order, s, key, value), other) == lookup(order, s, other),
        has_key(order, with_entry(order, s, key, value), other) == has_key(order, s, other),
{
    lemma_rank_splits(order, s, key);
    lemma_rank_splits(order, s, other);
    let p = rank(order, s, key);
    let q = rank(order, s, other);
    let t = s.insert(p, (key, value));
    assert(t == with_entry(order, s, key, value));
    lemma_lex_asymmetric(sort_key(order, key), sort_key(order, other));
    // every entry before the new one is smaller than `other` as well
    if p > q {
        assert(key_lt(order, s[q].0, key));
        lemma_lex_transitive(sort_key(order, s[q].0), sort_key(order, key), sort_key(order, other));
        assert(false);
    }
    assert forall|i: int| 0 <= i < q + 1 implies key_lt(order, #[trigger] t[i].0, other) by {
        if i < p {
            assert(t[i] == s[i]);
        } else if i > p {
            assert(t[i] == s[i - 1]);
        }
    }
    assert forall|i: int| q + 1 <= i < t.len() implies !key_lt(order, #[trigger] t[i].0, other) by {
        assert(t[i] == s[i - 1]);
    }
    lemma_rank_is(order, t, other, q + 1);
    if q < s.len() {
        assert(t[q + 1] == s[q]);
    }
}

proof fn lemma_lookup_other_behind<V>(
    order: KeyOrder,
    s: Entries<V>,
    key: Seq<char>,
    value: V,
    other: Seq<char>,
)
    requires
        strictly_sorted(order, s),
        !has_key(order, s, key),
        key_lt(order, other, key),
    ensures
        lookup(order, with_entry(order, s, key, value), other) == lookup(order, s, other),
        has_key(order, with_entry(order, s, key, value), other) == has_key(order, s, other),
{
    lemma_rank_splits(order, s, key);
    lemma_rank_splits(order, s, other);
    let p = rank(order, s, key);
    let q = rank(order, s, other);
    let t = s.insert(p, (key, value));
    assert(t == with_entry(order, s, key, value));
    lemma_lex_asymmetric(sort_key(order, other), sort_key(order, key));
    // every entry smaller than `other` is smaller than the new key
    if p < q {
        assert(key_lt(order, s[p].0, other));
        lemma_lex_transitive(sort_key(order, s[p].0), sort_key(order, other), sort_key(order, key));
        assert(false);
    }
    assert forall|i: int| 0 <= i < q implies key_lt(order, #[trigger] t[i].0, other) by {
        assert(t[i] == s[i]);
    }
    assert forall|i: int| q <= i < t.len() implies !key_lt(order, #[trigger] t[i].0, other) by {
        if i < p {
            assert(t[i] == s[i]);
        } else if i > p {
            assert(t[i] == s[i - 1]);
        }
    }
    lemma_rank_is(order, t, other, q);
    if q < p {
        assert(t[q] == s[q]);
    } else if q < t.len() {
        // q == p: the new entry stands at q and is not `other`
        assert(t[q].0 == key);
        if q < s.len() {
            // s[q] is above the new key, hence strictly above `other`
            lemma_lex_total(sort_key(order, s[q].0), sort_key(order, key));
            if key_eq(order, s[q].0, other) {
                assert(false);
            }
        }
    }
}

/// The entries `s` with each value replaced by its model.
pub open spec fn entry_views<V: View>(s: Entries<V>) -> Entries<V::V> {
    Seq::new(s.len(), |i: int| (s[i].0, s[i].1@))
}

/// The rank of a key depends on the keys alone.
pub proof fn lemma_rank_views<V: View>(order: KeyOrder, s: Entries<V>, key: Seq<char>)
    ensures
        rank(order, entry_views(s), key) == rank(order, s, key),
    decreases s.len(),
{
    reveal(rank);
    if s.len() > 0 {
        assert(entry_views(s).drop_last() =~= entry_views(s.drop_last()));
        lemma_rank_views(order, s.drop_last(), key);
    }
}

/// Storing a value and then taking models is taking models and then storing
/// the value's model.
pub proof fn lemma_with_entry_views<V: View>(
    order: KeyOrder,
    s: Entries<V>,
    key: Seq<char>,
    value: V,
)
    ensures
        entry_views(with_entry(order, s, key, value)) == with_entry(
            order,
            entry_views(s),
            key,
            value@,
        ),
{
    lemma_rank_views(order, s, key);
    lemma_rank_bounds(order, s, key);
    assert(entry_views(with_entry(order, s, key, value)) =~= with_entry(
        order,
        entry_views(s),
        key,
        value@,
    ));
}

/// A map from text keys to values, kept in key order.
///
/// Its model is the sequence of its entries, strictly ascending by key.
///
/// `BY_PATH` says how the keys are ordered: as paths where it is `true`, as
/// plain text where it is `false`.
#[derive(Debug, PartialEq, Eq)]
pub struct KeyMap<V, const BY_PATH: bool> {
    entries: Vec<(String, V)>,
}

/// A map whose keys are names, ordered as text.
pub type NameMap<V> = KeyMap<V, false>;

/// A map whose keys are paths, ordered as paths.
pub type PathMap<V> = KeyMap<V, true>;

/// The order that goes with a map's `BY_PATH`.
pub open spec fn order_of(by_path: bool) -> KeyOrder {
    if by_path {
        KeyOrder::Path
    } else {
        KeyOrder::Text
    }
}

impl<V, const BY_PATH: bool> View for KeyMap<V, BY_PATH> {
    type V = Entries<V>;

    closed spec fn view(&self) -> Entries<V> {
        Seq::new(self.entries@.len(), |i: int| (self.entries@[i].0@, self.entries@[i].1))
    }
}

impl<V: Clone, const BY_PATH: bool> Clone for KeyMap<V, BY_PATH> {
    /// A map with the same keys, each with a clone of its value.
    fn clone(&self) -> (copy: Self)
        ensures
            copy@.len() == self@.len(),
            forall|i: int|
                0 <= i < self@.len() ==> (#[trigger] copy@[i]).0 == self@[i].0 && cloned(
                    self@[i].1,
                    copy@[i].1,
                ),
    {
        proof {
            use_type_invariant(self);
        }
        let mut entries: Vec<(String, V)> = Vec::new();
        let mut i: usize = 0;
        while i < self.entries.len()
            invariant
                i <= self.entries@.len(),
                entries@.len() == i,
                forall|j: int|
                    0 <= j < i ==> (#[trigger] entries@[j]).0@ == self.entries@[j].0@ && cloned(
                        self.entries@[j].1,
                        entries@[j].1,
                    ),
            decreases self.entries@.len() - i,
        {
            entries.push((self.entries[i].0.clone(), self.entries[i].1.clone()));
            i = i + 1;
        }
        proof {
            let copy = KeyMap::<V, BY_PATH> { entries }@;
            assert forall|a: int, b: int| 0 <= a < b < copy.len() implies key_lt(
                order_of(BY_PATH),
                #[trigger] copy[a].0,
                #[trigger] copy[b].0,
            ) by {
                assert(copy[a].0 == self@[a].0 && copy[b].0 == self@[b].0);
            }
        }
        KeyMap { entries }
    }
}

impl<V, const BY_PATH: bool> KeyMap<V, BY_PATH> {
    /// The order of the keys.
    pub open spec fn order(&self) -> KeyOrder {
        order_of(BY_PATH)
    }

    /// The entries stand in strictly ascending key order.
    #[verifier::type_invariant]
    pub open spec fn is_sorted(&self) -> bool {
        strictly_sorted(self.order(), self@)
    }

    /// An empty map.
    pub fn new() -> (map: Self)
        ensures
            map@ == Seq::<(Seq<char>, V)>::empty(),
    {
        let map = KeyMap { entries: Vec::new() };
        assert(map@ =~= Seq::<(Seq<char>, V)>::empty());
        map
    }

    /// The order of the keys.
    pub fn key_order(&self) -> (order: KeyOrder)
        ensures
            order == self.order(),
    {
        if BY_PATH {
            KeyOrder::Path
        } else {
            KeyOrder::Text
        }
    }

    /// The number of entries.
    pub fn len(&self) -> (n: usize)
        ensures
            n == self@.len(),
    {
        self.entries.len()
    }

    /// Whether the map holds no entry.
    pub fn is_empty(&self) -> (empty: bool)
        ensures
            empty == (self@.len() == 0),
    {
        self.entries.len() == 0
    }

    /// The key of the entry at position `i`, counted in key order.
    pub fn key_at(&self, i: usize) -> (key: &String)
        requires
            i < self@.len(),
        ensures
            key@ == self@[i as int].0,
    {
        &self.entries[i].0
    }

    /// The value of the entry at position `i`, counted in key order.
    pub fn value_at(&self, i: usize) -> (value: &V)
        requires
            i < self@.len(),
        ensures
            *value == self@[i as int].1,
    {
        &self.entries[i].1
    }

    /// The position at which `key` stands or would stand.
    fn position(&self, key: &str) -> (p: usize)
        ensures
            p == rank(self.order(), self@, key@),
            p <= self@.len(),
    {
        proof {
            use_type_invariant(self);
        }
        let mut i: usize = self.entries.len();
        let mut found: bool = false;
        while i > 0 && !found
            invariant
                i <= self.entries@.len(),
                self.is_sorted(),
                forall|j: int|
                    i <= j < self@.len() ==> !key_lt(self.order(), #[trigger] self@[j].0, key@),
                found ==> i > 0 && key_lt(self.order(), self@[i - 1].0, key@),
            decreases i + if found { 0int } else { 1int },
        {
            if keys_lt(self.key_order(), self.entries[i - 1].0.as_str(), key) {
                found = true;
            } else {
                i = i - 1;
            }
        }
        proof {
            let order = self.order();
            let s = self@;
            assert forall|j: int| 0 <= j < i implies key_lt(order, #[trigger] s[j].0, key@) by {
                if j < i - 1 {
                    lemma_lex_transitive(
                        sort_key(order, s[j].0),
                        sort_key(order, s[i - 1].0),
                        sort_key(order, key@),
                    );
                }
            }
            lemma_rank_is(order, s, key@, i as int);
        }
        i
    }

    /// Stores `value` under `key`. An entry whose key stands for the same key
    /// keeps its place and its spelling and gets the new value.
    pub fn insert(&mut self, key: String, value: V)
        ensures
            final(self)@ == with_entry(old(self).order(), old(self)@, key@, value),
    {
        proof {
            use_type_invariant(&*self);
            lemma_with_entry_sorted(self.order(), self@, key@, value);
            lemma_rank_splits(self.order(), self@, key@);
        }
        let p = self.position(key.as_str());
        let ghost before = self@;
        let ghost order = self.order();
        let mut entries: Vec<(String, V)> = Vec::new();
        std::mem::swap(&mut entries, &mut self.entries);
        assert(self@ =~= Seq::<(Seq<char>, V)>::empty());
        if p < entries.len() && !keys_lt(self.key_order(), key.as_str(), entries[p].0.as_str()) {
            proof {
                lemma_lex_total(sort_key(order, before[p as int].0), sort_key(order, key@));
            }
            let spelling = entries[p].0.clone();
            entries.set(p, (spelling, value));
        } else {
            proof {
                if p < before.len() {
                    lemma_lex_irreflexive(sort_key(order, key@));
                }
            }
            entries.insert(p, (key, value));
        }
        proof {
            let after = KeyMap::<V, BY_PATH> { entries }@;
            assert(after =~= with_entry(order, before, key@, value));
        }
        self.entries = entries;
    }

    /// Stores the pair of `key` and `value`. An entry whose key stands for
    /// the same key is replaced, spelling and value.
    pub fn replace(&mut self, key: String, value: V)
        ensures
            final(self)@ == with_pair(old(self).order(), old(self)@, key@, value),
    {
        proof {
            use_type_invariant(&*self);
            lemma_with_pair_sorted(self.order(), self@, key@, value);
            lemma_rank_splits(self.order(), self@, key@);
        }
        let p = self.position(key.as_str());
        let ghost before = self@;
        let ghost order = self.order();
        let mut entries: Vec<(String, V)> = Vec::new();
        std::mem::swap(&mut entries, &mut self.entries);
        assert(self@ =~= Seq::<(Seq<char>, V)>::empty());
        if p < entries.len() && !keys_lt(self.key_order(), key.as_str(), entries[p].0.as_str()) {
            proof {
                lemma_lex_total(sort_key(order, before[p as int].0), sort_key(order, key@));
            }
            entries.set(p, (key, value));
        } else {
            proof {
                if p < before.len() {
                    lemma_lex_irreflexive(sort_key(order, key@));
                }
            }
            entries.insert(p, (key, value));
        }
        proof {
            let after = KeyMap::<V, BY_PATH> { entries }@;
            assert(after =~= with_pair(order, before, key@, value));
        }
        self.entries = entries;
    }

    /// A copy of this map.
    pub fn duplicate(&self) -> (copy: Self) where V: Copy
        ensures
            copy@ == self@,
    {
        proof {
            use_type_invariant(self);
        }
        let mut entries: Vec<(String, V)> = Vec::new();
        let mut i: usize = 0;
        while i < self.entries.len()
            invariant
                i <= self.entries@.len(),
                entries@.len() == i,
                forall|j: int|
                    0 <= j < i ==> (#[trigger] entries@[j]).0@ == self.entries@[j].0@
                        && entries@[j].1 == self.entries@[j].1,
            decreases self.entries@.len() - i,
        {
            entries.push((self.entries[i].0.clone(), self.entries[i].1));
            i = i + 1;
        }
        assert(KeyMap::<V, BY_PATH> { entries }@ =~= self@);
        KeyMap { entries }
    }

    /// The value stored under `key`, if there is one.
    pub fn get(&self, key: &str) -> (value: Option<&V>)
        ensures
            match value {
                Some(v) => lookup(self.order(), self@, key@) == Some(*v),
                None => lookup(self.order(), self@, key@) is None,
            },
    {
        proof {
            use_type_invariant(self);
            lemma_rank_splits(self.order(), self@, key@);
        }
        let p = self.position(key);
        if p < self.entries.len() && !keys_lt(self.key_order(), key, self.entries[p].0.as_str()) {
            proof {
                lemma_lex_total(
                    sort_key(self.order(), self@[p as int].0),
                    sort_key(self.order(), key@),
                );
            }
            Some(&self.entries[p].1)
        } else {
            proof {
                if p < self@.len() {
                    lemma_lex_irreflexive(sort_key(self.order(), key@));
                }
            }
            None
        }
    }
}

} // verus!
