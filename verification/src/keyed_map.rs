use vstd::prelude::*;
use crate::address::{Address, addr_lt};

verus! {

/// Keys that can be compared for equality in executable code.
pub trait MapKey: Sized {
    fn key_eq(&self, other: &Self) -> (b: bool)
        ensures
            b == (*self == *other),
    ;
}

impl MapKey for Address {
    fn key_eq(&self, other: &Self) -> (b: bool) {
        self.same(other)
    }
}

impl MapKey for u64 {
    fn key_eq(&self, other: &Self) -> (b: bool) {
        *self == *other
    }
}

impl MapKey for u32 {
    fn key_eq(&self, other: &Self) -> (b: bool) {
        *self == *other
    }
}

impl MapKey for (Address, Address) {
    fn key_eq(&self, other: &Self) -> (b: bool) {
        self.0.same(&other.0) && self.1.same(&other.1)
    }
}

impl MapKey for (Address, u32) {
    fn key_eq(&self, other: &Self) -> (b: bool) {
        self.0.same(&other.0) && self.1 == other.1
    }
}

/// No key occurs twice in the sequence of entries.
pub open spec fn keys_distinct<K, V>(s: Seq<(K, V)>) -> bool {
    forall|i: int, j: int|
        0 <= i < s.len() && 0 <= j < s.len() && i != j ==> #[trigger] s[i].0 != #[trigger] s[j].0
}

/// Some entry of the sequence has key `k`.
pub open spec fn seq_has_key<K, V>(s: Seq<(K, V)>, k: K) -> bool {
    exists|i: int| 0 <= i < s.len() && #[trigger] s[i].0 == k
}

/// The value stored with `k` in the sequence (meaningful when `k` occurs).
pub open spec fn seq_value_of<K, V>(s: Seq<(K, V)>, k: K) -> V {
    s[choose|i: int| 0 <= i < s.len() && #[trigger] s[i].0 == k].1
}

/// The map that a sequence of entries with distinct keys denotes.
pub open spec fn seq_to_map<K, V>(s: Seq<(K, V)>) -> Map<K, V> {
    Map::new(|k: K| seq_has_key(s, k), |k: K| seq_value_of(s, k))
}

/// The sum of `f` over the entries of `s`, in order.
pub open spec fn seq_sum_by<K, V>(s: Seq<(K, V)>, f: spec_fn(K, V) -> int) -> int
    decreases s.len(),
{
    if s.len() == 0 {
        0
    } else {
        seq_sum_by(s.drop_last(), f) + f(s.last().0, s.last().1)
    }
}

/// The sum over a concatenation is the sum of the sums.
pub proof fn lemma_sum_concat<K, V>(a: Seq<(K, V)>, b: Seq<(K, V)>, f: spec_fn(K, V) -> int)
    ensures
        seq_sum_by(a + b, f) == seq_sum_by(a, f) + seq_sum_by(b, f),
    decreases b.len(),
{
    if b.len() == 0 {
        assert(a + b =~= a);
    } else {
        lemma_sum_concat(a, b.drop_last(), f);
        assert((a + b).drop_last() =~= a + b.drop_last());
    }
}

/// Splitting a sequence around index `i`.
pub proof fn lemma_sum_split<K, V>(s: Seq<(K, V)>, i: int, f: spec_fn(K, V) -> int)
    requires
        0 <= i < s.len(),
    ensures
        seq_sum_by(s, f) == seq_sum_by(s.take(i), f) + f(s[i].0, s[i].1) + seq_sum_by(
            s.skip(i + 1),
            f,
        ),
{
    let one = seq![s[i]];
    assert(s =~= s.take(i) + one + s.skip(i + 1));
    lemma_sum_concat(s.take(i) + one, s.skip(i + 1), f);
    lemma_sum_concat(s.take(i), one, f);
    assert(one.drop_last() =~= Seq::<(K, V)>::empty());
    assert(seq_sum_by(one.drop_last(), f) == 0);
    assert(seq_sum_by(one, f) == f(s[i].0, s[i].1));
}

/// Replacing the entry at `i` changes the sum by the difference of the entries.
pub proof fn lemma_sum_update<K, V>(s: Seq<(K, V)>, i: int, e: (K, V), f: spec_fn(K, V) -> int)
    requires
        0 <= i < s.len(),
    ensures
        seq_sum_by(s.update(i, e), f) == seq_sum_by(s, f) - f(s[i].0, s[i].1) + f(e.0, e.1),
{
    let t = s.update(i, e);
    lemma_sum_split(s, i, f);
    lemma_sum_split(t, i, f);
    assert(t.take(i) =~= s.take(i));
    assert(t.skip(i + 1) =~= s.skip(i + 1));
}

/// Removing the entry at `i` subtracts it from the sum.
pub proof fn lemma_sum_remove<K, V>(s: Seq<(K, V)>, i: int, f: spec_fn(K, V) -> int)
    requires
        0 <= i < s.len(),
    ensures
        seq_sum_by(s.remove(i), f) == seq_sum_by(s, f) - f(s[i].0, s[i].1),
{
    lemma_sum_split(s, i, f);
    assert(s.remove(i) =~= s.take(i) + s.skip(i + 1));
    lemma_sum_concat(s.take(i), s.skip(i + 1), f);
}

/// Within a sequence of distinct keys, the entry at `i` is the one that `seq_to_map` finds.
pub proof fn lemma_entry_in_map<K, V>(s: Seq<(K, V)>, i: int)
    requires
        keys_distinct(s),
        0 <= i < s.len(),
    ensures
        seq_to_map(s).contains_key(s[i].0),
        seq_to_map(s)[s[i].0] == s[i].1,
{
    let k = s[i].0;
    assert(seq_has_key(s, k));
    let j = choose|j: int| 0 <= j < s.len() && #[trigger] s[j].0 == k;
    assert(s[j].0 == s[i].0);
}

/// A finite association list with distinct keys, kept in insertion order.
pub struct KeyedMap<K, V> {
    entries: Vec<(K, V)>,
}

impl<K, V> View for KeyedMap<K, V> {
    type V = Map<K, V>;

    open spec fn view(&self) -> Map<K, V> {
        seq_to_map(self.entries())
    }
}

impl<K, V> KeyedMap<K, V> {
    /// The entries, in order.
    pub closed spec fn entries(self) -> Seq<(K, V)> {
        self.entries@
    }

    /// The map keeps its keys distinct.
    pub open spec fn wf(self) -> bool {
        keys_distinct(self.entries())
    }

    /// The sum of `f` over all entries.
    pub open spec fn sum_by(self, f: spec_fn(K, V) -> int) -> int {
        seq_sum_by(self.entries(), f)
    }
}

impl<K: MapKey, V> KeyedMap<K, V> {
    /// An empty map.
    pub fn new() -> (m: Self)
        ensures
            m.wf(),
            m.entries() == Seq::<(K, V)>::empty(),
            m@ == Map::<K, V>::empty(),
    {
        let m = KeyedMap { entries: Vec::new() };
        assert(m@ =~= Map::<K, V>::empty());
        m
    }

    /// The number of entries.
    pub fn len(&self) -> (n: usize)
        ensures
            n == self.entries().len(),
    {
        self.entries.len()
    }

    /// The entry at position `i`.
    pub fn entry(&self, i: usize) -> (e: &(K, V))
        requires
            i < self.entries().len(),
        ensures
            *e == self.entries()[i as int],
    {
        &self.entries[i]
    }

    /// The position of the entry with key `k`, if any.
    pub fn find(&self, k: &K) -> (r: Option<usize>)
        requires
            self.wf(),
        ensures
            r is None ==> !self@.contains_key(*k),
            r matches Some(i) ==> i < self.entries().len() && self.entries()[i as int].0 == *k,
            r is Some ==> self@.contains_key(*k),
    {
        let mut i: usize = 0;
        while i < self.entries.len()
            invariant
                i <= self.entries@.len(),
                forall|j: int| 0 <= j < i ==> self.entries@[j].0 != *k,
            decreases self.entries@.len() - i,
        {
            if self.entries[i].0.key_eq(k) {
                assert(seq_has_key(self.entries(), *k)) by {
                    assert(self.entries()[i as int].0 == *k);
                }
                return Some(i);
            }
            i = i + 1;
        }
        assert(!seq_has_key(self.entries(), *k));
        None
    }

    /// Whether `k` has an entry.
    pub fn contains(&self, k: &K) -> (b: bool)
        requires
            self.wf(),
        ensures
            b == self@.contains_key(*k),
    {
        self.find(k).is_some()
    }

    /// The value stored with `k`, if any.
    pub fn get(&self, k: &K) -> (r: Option<&V>)
        requires
            self.wf(),
        ensures
            r == (if self@.contains_key(*k) { Some(&self@[*k]) } else { None::<&V> }),
    {
        match self.find(k) {
            Some(i) => {
                proof {
                    lemma_entry_in_map(self.entries(), i as int);
                }
                Some(&self.entries[i].1)
            },
            None => None,
        }
    }

    /// Stores `v` under `k`, replacing any earlier value; a new key goes last.
    pub fn insert(&mut self, k: K, v: V)
        requires
            old(self).wf(),
        ensures
            final(self).wf(),
            final(self)@ == old(self)@.insert(k, v),
            forall|f: spec_fn(K, V) -> int|
                #[trigger] final(self).sum_by(f) == old(self).sum_by(f) - (if old(self)@.contains_key(k) {
                    f(k, old(self)@[k])
                } else {
                    0
                }) + f(k, v),
            old(self)@.contains_key(k) ==> final(self).entries().len() == old(self).entries().len()
                && forall|j: int|
                0 <= j < old(self).entries().len() ==> #[trigger] final(self).entries()[j].0 == old(
                    self,
                ).entries()[j].0,
            !old(self)@.contains_key(k) ==> final(self).entries() == old(self).entries().push((k, v)),
    {
        let ghost s = self.entries@;
        let ghost k0 = k;
        let ghost v0 = v;
        match self.find(&k) {
            Some(i) => {
                proof {
                    lemma_entry_in_map(s, i as int);
                }
                self.entries.set(i, (k, v));
                let ghost t = self.entries@;
                assert(t =~= s.update(i as int, (k0, v0)));
                assert(keys_distinct(t)) by {
                    assert forall|a: int, b: int|
                        0 <= a < t.len() && 0 <= b < t.len() && a != b implies #[trigger] t[a].0
                        != #[trigger] t[b].0 by {
                        assert(t[a].0 == s[a].0);
                        assert(t[b].0 == s[b].0);
                    }
                }
                assert(self@ =~= old(self)@.insert(k0, v0)) by {
                    assert forall|x: K| #[trigger] seq_has_key(t, x) == seq_has_key(s, x) by {
                        if seq_has_key(t, x) {
                            let j = choose|j: int| 0 <= j < t.len() && #[trigger] t[j].0 == x;
                            assert(s[j].0 == x);
                        }
                        if seq_has_key(s, x) {
                            let j = choose|j: int| 0 <= j < s.len() && #[trigger] s[j].0 == x;
                            assert(t[j].0 == x);
                        }
                    }
                    assert forall|x: K| #[trigger] seq_has_key(t, x) implies seq_to_map(t)[x] == (
                    if x == k0 {
                        v0
                    } else {
                        seq_to_map(s)[x]
                    }) by {
                        let j = choose|j: int| 0 <= j < t.len() && #[trigger] t[j].0 == x;
                        lemma_entry_in_map(t, j);
                        if x != k0 {
                            assert(j != i);
                            assert(s[j] == t[j]);
                            lemma_entry_in_map(s, j);
                        } else {
                            assert(j == i);
                        }
                    }
                }
                proof {
                    assert forall|f: spec_fn(K, V) -> int| #[trigger]
                        seq_sum_by(t, f) == seq_sum_by(s, f) - f(k0, seq_to_map(s)[k0]) + f(
                            k0,
                            v0,
                        ) by {
                        lemma_sum_update(s, i as int, (k0, v0), f);
                    }
                }
            },
            None => {
                self.entries.push((k, v));
                let ghost t = self.entries@;
                assert(t =~= s.push((k0, v0)));
                assert(keys_distinct(t)) by {
                    assert forall|a: int, b: int|
                        0 <= a < t.len() && 0 <= b < t.len() && a != b implies #[trigger] t[a].0
                        != #[trigger] t[b].0 by {
                        if a == s.len() as int {
                            assert(!seq_has_key(s, k0));
                            assert(s[b].0 != k0);
                        } else if b == s.len() as int {
                            assert(!seq_has_key(s, k0));
                            assert(s[a].0 != k0);
                        }
                    }
                }
                assert(self@ =~= old(self)@.insert(k0, v0)) by {
                    assert forall|x: K| #[trigger] seq_has_key(t, x) == (seq_has_key(s, x) || x
                        == k0) by {
                        if seq_has_key(t, x) {
                            let j = choose|j: int| 0 <= j < t.len() && #[trigger] t[j].0 == x;
                            if j < s.len() {
                                assert(s[j].0 == x);
                            }
                        }
                        if seq_has_key(s, x) {
                            let j = choose|j: int| 0 <= j < s.len() && #[trigger] s[j].0 == x;
                            assert(t[j].0 == x);
                        }
                        if x == k0 {
                            assert(t[s.len() as int].0 == x);
                        }
                    }
                    assert forall|x: K| #[trigger] seq_has_key(t, x) implies seq_to_map(t)[x] == (
                    if x == k0 {
                        v0
                    } else {
                        seq_to_map(s)[x]
                    }) by {
                        let j = choose|j: int| 0 <= j < t.len() && #[trigger] t[j].0 == x;
                        lemma_entry_in_map(t, j);
                        if x != k0 {
                            assert(j < s.len());
                            assert(s[j] == t[j]);
                            lemma_entry_in_map(s, j);
                        }
                    }
                }
                proof {
                    assert forall|f: spec_fn(K, V) -> int| #[trigger]
                        seq_sum_by(t, f) == seq_sum_by(s, f) + f(k0, v0) by {
                        assert(t.drop_last() =~= s);
                    }
                }
            },
        }
    }

    /// Removes the entry of `k`, if any; the other entries keep their order.
    pub fn remove(&mut self, k: &K)
        requires
            old(self).wf(),
        ensures
            final(self).wf(),
            final(self)@ == old(self)@.remove(*k),
            forall|f: spec_fn(K, V) -> int|
                #[trigger] final(self).sum_by(f) == old(self).sum_by(f) - (if old(self)@.contains_key(*k) {
                    f(*k, old(self)@[*k])
                } else {
                    0
                }),
    {
        let ghost s = self.entries@;
        match self.find(k) {
            Some(i) => {
                proof {
                    lemma_entry_in_map(s, i as int);
                }
                let _ = self.entries.remove(i);
                let ghost t = self.entries@;
                assert(t =~= s.remove(i as int));
                assert(forall|j: int| 0 <= j < t.len() ==> #[trigger] t[j] == s[if j < i {
                    j
                } else {
                    j + 1
                }]);
                assert(keys_distinct(t)) by {
                    assert forall|a: int, b: int|
                        0 <= a < t.len() && 0 <= b < t.len() && a != b implies #[trigger] t[a].0
                        != #[trigger] t[b].0 by {
                        let a1 = if a < i { a } else { a + 1 };
                        let b1 = if b < i { b } else { b + 1 };
                        assert(t[a] == s[a1]);
                        assert(t[b] == s[b1]);
                    }
                }
                assert(self@ =~= old(self)@.remove(*k)) by {
                    assert forall|x: K| #[trigger] seq_has_key(t, x) == (seq_has_key(s, x) && x
                        != *k) by {
                        if seq_has_key(t, x) {
                            let j = choose|j: int| 0 <= j < t.len() && #[trigger] t[j].0 == x;
                            let j1 = if j < i { j } else { j + 1 };
                            assert(s[j1].0 == x);
                            assert(j1 != i);
                        }
                        if seq_has_key(s, x) && x != *k {
                            let j = choose|j: int| 0 <= j < s.len() && #[trigger] s[j].0 == x;
                            assert(j != i);
                            let j0 = if j < i { j } else { j - 1 };
                            assert(t[j0].0 == x);
                        }
                    }
                    assert forall|x: K| #[trigger] seq_has_key(t, x) implies seq_to_map(t)[x]
                        == seq_to_map(s)[x] by {
                        let j = choose|j: int| 0 <= j < t.len() && #[trigger] t[j].0 == x;
                        lemma_entry_in_map(t, j);
                        let j1 = if j < i { j } else { j + 1 };
                        assert(t[j] == s[j1]);
                        lemma_entry_in_map(s, j1);
                    }
                }
                proof {
                    assert forall|f: spec_fn(K, V) -> int| #[trigger]
                        seq_sum_by(t, f) == seq_sum_by(s, f) - f(*k, seq_to_map(s)[*k]) by {
                        lemma_sum_remove(s, i as int, f);
                    }
                }
            },
            None => {
                assert(self@ =~= old(self)@.remove(*k));
            },
        }
    }
}

impl<K: MapKey + Copy, V: Copy> KeyedMap<K, V> {
    /// A copy of the map, with the same entries in the same order.
    pub fn copied(&self) -> (m: Self)
        ensures
            m.entries() == self.entries(),
            m@ == self@,
    {
        let mut entries: Vec<(K, V)> = Vec::new();
        let mut i: usize = 0;
        while i < self.entries.len()
            invariant
                i <= self.entries@.len(),
                entries@ == self.entries@.take(i as int),
            decreases self.entries@.len() - i,
        {
            let e = self.entries[i];
            entries.push(e);
            i = i + 1;
            assert(entries@ =~= self.entries@.take(i as int));
        }
        assert(entries@ =~= self.entries@);
        KeyedMap { entries }
    }
}

/// The keys of the entries come in the ledger's order of addresses.
pub open spec fn keys_sorted<V>(s: Seq<(Address, V)>) -> bool {
    forall|i: int, j: int| 0 <= i < j < s.len() ==> addr_lt(#[trigger] s[i].0, #[trigger] s[j].0)
}

impl<V> KeyedMap<Address, V> {
    /// Entries are kept in the ledger's order of their addresses.
    pub open spec fn sorted(self) -> bool {
        keys_sorted(self.entries())
    }

    /// Stores `v` under `k`, replacing any earlier value; a new key goes where the
    /// ledger's order of addresses puts it.
    pub fn insert_ordered(&mut self, k: Address, v: V)
        requires
            old(self).wf(),
            old(self).sorted(),
        ensures
            final(self).wf(),
            final(self).sorted(),
            final(self)@ == old(self)@.insert(k, v),
            forall|f: spec_fn(Address, V) -> int|
                #[trigger] final(self).sum_by(f) == old(self).sum_by(f) - (if old(self)@.contains_key(k) {
                    f(k, old(self)@[k])
                } else {
                    0
                }) + f(k, v),
    {
        if self.contains(&k) {
            self.insert(k, v);
            return;
        }
        let ghost s = self.entries@;
        let ghost v0 = v;
        let mut p: usize = 0;
        while p < self.entries.len() && self.entries[p].0.less(&k)
            invariant
                s == self.entries@,
                p <= s.len(),
                forall|j: int| 0 <= j < p ==> addr_lt(#[trigger] s[j].0, k),
            decreases s.len() - p,
        {
            p = p + 1;
        }
        assert(!seq_has_key(s, k));
        assert(forall|j: int| p <= j < s.len() ==> addr_lt(k, #[trigger] s[j].0)) by {
            assert forall|j: int| p <= j < s.len() implies addr_lt(k, #[trigger] s[j].0) by {
                assert(!addr_lt(s[p as int].0, k));
                assert(s[p as int].0 != k);
                if j > p {
                    assert(addr_lt(s[p as int].0, s[j].0));
                }
                assert(s[j].0 != k);
            }
        }
        self.entries.insert(p, (k, v));
        let ghost t = self.entries@;
        let ghost e = (k, v0);
        assert(t =~= s.take(p as int) + seq![e] + s.skip(p as int));
        assert(forall|j: int| 0 <= j < t.len() ==> #[trigger] t[j] == if j < p {
            s[j]
        } else if j == p {
            e
        } else {
            s[j - 1]
        });
        assert(keys_sorted(t)) by {
            assert forall|a: int, b: int| 0 <= a < b < t.len() implies addr_lt(
                #[trigger] t[a].0,
                #[trigger] t[b].0,
            ) by {
                if a < p && b < p {
                } else if a < p && b == p {
                } else if a < p {
                    assert(addr_lt(s[a].0, s[b - 1].0));
                } else if a == p {
                } else {
                    assert(addr_lt(s[a - 1].0, s[b - 1].0));
                }
            }
        }
        assert(keys_distinct(t)) by {
            assert forall|a: int, b: int|
                0 <= a < t.len() && 0 <= b < t.len() && a != b implies #[trigger] t[a].0
                != #[trigger] t[b].0 by {
                if a < b {
                    assert(addr_lt(t[a].0, t[b].0));
                } else {
                    assert(addr_lt(t[b].0, t[a].0));
                }
            }
        }
        assert(self@ =~= old(self)@.insert(k, v0)) by {
            assert forall|x: Address| #[trigger] seq_has_key(t, x) == (seq_has_key(s, x) || x
                == k) by {
                if seq_has_key(t, x) {
                    let j = choose|j: int| 0 <= j < t.len() && #[trigger] t[j].0 == x;
                    if j < p {
                        assert(s[j].0 == x);
                    } else if j > p {
                        assert(s[j - 1].0 == x);
                    }
                }
                if seq_has_key(s, x) {
                    let j = choose|j: int| 0 <= j < s.len() && #[trigger] s[j].0 == x;
                    if j < p {
                        assert(t[j].0 == x);
                    } else {
                        assert(t[j + 1].0 == x);
                    }
                }
                if x == k {
                    assert(t[p as int].0 == x);
                }
            }
            assert forall|x: Address| #[trigger] seq_has_key(t, x) implies seq_to_map(t)[x] == (
            if x == k {
                v0
            } else {
                seq_to_map(s)[x]
            }) by {
                let j = choose|j: int| 0 <= j < t.len() && #[trigger] t[j].0 == x;
                lemma_entry_in_map(t, j);
                if j < p {
                    lemma_entry_in_map(s, j);
                } else if j > p {
                    lemma_entry_in_map(s, j - 1);
                }
            }
        }
        proof {
            assert forall|f: spec_fn(Address, V) -> int| #[trigger]
                seq_sum_by(t, f) == seq_sum_by(s, f) + f(k, v0) by {
                lemma_sum_concat(s.take(p as int) + seq![e], s.skip(p as int), f);
                lemma_sum_concat(s.take(p as int), seq![e], f);
                lemma_sum_concat(s.take(p as int), s.skip(p as int), f);
                assert(s.take(p as int) + s.skip(p as int) =~= s);
                assert(seq![e].drop_last() =~= Seq::<(Address, V)>::empty());
                assert(seq_sum_by(seq![e].drop_last(), f) == 0);
            }
        }
    }
}

/// Every entry of a well-formed map is found in its view, and each key of the view
/// has an entry.
pub proof fn lemma_entries_match_view<K: MapKey, V>(m: KeyedMap<K, V>)
    requires
        m.wf(),
    ensures
        forall|i: int|
            0 <= i < m.entries().len() ==> m@.contains_key(#[trigger] m.entries()[i].0) && m@[m.entries()[i].0]
                == m.entries()[i].1,
        forall|k: K|
            #[trigger] m@.contains_key(k) ==> exists|i: int|
                0 <= i < m.entries().len() && #[trigger] m.entries()[i].0 == k,
{
    assert forall|i: int| 0 <= i < m.entries().len() implies m@.contains_key(
        #[trigger] m.entries()[i].0,
    ) && m@[m.entries()[i].0] == m.entries()[i].1 by {
        lemma_entry_in_map(m.entries(), i);
    }
}

} // verus!
