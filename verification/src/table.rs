//! A string-keyed association table.
//!
//! `Table<V>` is the executable form of a finite map from account
//! addresses to values: its view is a `Map<Seq<char>, V>`, and it also
//! exposes the sum of an arbitrary projection of its values, which the
//! ledgers built on top of it use for their conservation invariants.

use vstd::prelude::*;

verus! {

/// One key/value binding held by a `Table`.
pub struct KvPair<V> {
    pub key: String,
    pub val: V,
}

/// All keys of `s` differ, so a key identifies at most one entry.
spec fn distinct_keys<V>(s: Seq<KvPair<V>>) -> bool {
    forall|i: int, j: int| 0 <= i < j < s.len() ==> s[i].key@ != s[j].key@
}

/// Some entry of `s` carries the key `k`.
spec fn holds_key<V>(s: Seq<KvPair<V>>, k: Seq<char>) -> bool {
    exists|i: int| 0 <= i < s.len() && s[i].key@ == k
}

/// The index of the entry carrying `k`; meaningful when `holds_key(s, k)`.
spec fn index_of_key<V>(s: Seq<KvPair<V>>, k: Seq<char>) -> int {
    choose|i: int| 0 <= i < s.len() && s[i].key@ == k
}

/// The entries of `s`, read as a finite map from key view to value.
spec fn entry_map<V>(s: Seq<KvPair<V>>) -> Map<Seq<char>, V> {
    Map::new(|k: Seq<char>| holds_key(s, k), |k: Seq<char>| s[index_of_key(s, k)].val)
}

/// The sum of `f` over the values of `s`, first entry to last.
spec fn sum_values<V>(s: Seq<KvPair<V>>, f: spec_fn(V) -> int) -> int
    decreases s.len(),
{
    if s.len() == 0 {
        0
    } else {
        f(s[0].val) + sum_values(s.drop_first(), f)
    }
}

/// A key/value store with `String` keys.  Its view is the map its entries
/// describe; `sum_by` folds a projection over all stored values.
pub struct Table<V> {
    entries: Vec<KvPair<V>>,
}

impl<V> View for Table<V> {
    type V = Map<Seq<char>, V>;

    closed spec fn view(&self) -> Map<Seq<char>, V> {
        entry_map(self.entries@)
    }
}

impl<V> Table<V> {
    /// Every key is stored at most once.
    pub closed spec fn wf(&self) -> bool {
        distinct_keys(self.entries@)
    }

    /// The sum of `f` over all stored values.
    pub closed spec fn sum_by(&self, f: spec_fn(V) -> int) -> int {
        sum_values(self.entries@, f)
    }

    pub fn new() -> (t: Self)
        ensures
            t.wf(),
            t@ == Map::<Seq<char>, V>::empty(),
            forall|f: spec_fn(V) -> int| #[trigger] t.sum_by(f) == 0,
    {
        let t = Table { entries: Vec::new() };
        proof {
            assert(t@ =~= Map::<Seq<char>, V>::empty());
        }
        t
    }

    /// The index of the entry carrying `key`, if one does.
    fn find(&self, key: &String) -> (r: Option<usize>)
        ensures
            match r {
                Some(i) => i < self.entries@.len() && self.entries@[i as int].key@ == key@,
                None => !holds_key(self.entries@, key@),
            },
    {
        let n = self.entries.len();
        let mut i: usize = 0;
        while i < n
            invariant
                n == self.entries@.len(),
                i <= n,
                forall|j: int| 0 <= j < i ==> self.entries@[j].key@ != key@,
            decreases n - i,
        {
            if self.entries[i].key == *key {
                return Some(i);
            }
            i = i + 1;
        }
        None
    }

    /// Whether an entry for `key` exists.
    pub fn contains(&self, key: &String) -> (r: bool)
        requires
            self.wf(),
        ensures
            r == self@.contains_key(key@),
    {
        match self.find(key) {
            Some(_) => true,
            None => false,
        }
    }

    /// Bind `key` to `val`, replacing any earlier binding.
    pub fn set(&mut self, key: &String, val: V)
        requires
            old(self).wf(),
        ensures
            final(self).wf(),
            final(self)@ == old(self)@.insert(key@, val),
            forall|f: spec_fn(V) -> int|
                #[trigger] final(self).sum_by(f) == old(self).sum_by(f) + f(val) - (
                if old(self)@.contains_key(key@) {
                    f(old(self)@[key@])
                } else {
                    0
                }),
    {
        let ghost s0 = self.entries@;
        match self.find(key) {
            Some(i) => {
                self.entries.set(i, KvPair { key: key.clone(), val });
                proof {
                    let pg = self.entries@[i as int];
                    assert(self.entries@ == s0.update(i as int, pg));
                    lemma_update_entry(s0, i as int, pg);
                    assert forall|f: spec_fn(V) -> int|
                        #[trigger] sum_values(s0.update(i as int, pg), f) == sum_values(s0, f)
                            + f(val) - f(entry_map(s0)[key@]) by {
                        lemma_sum_update(s0, i as int, pg, f);
                        lemma_map_entry_at(s0, i as int);
                    }
                    assert(old(self)@.contains_key(key@));
                }
            },
            None => {
                self.entries.push(KvPair { key: key.clone(), val });
                proof {
                    let pg = self.entries@[s0.len() as int];
                    assert(self.entries@ == s0.push(pg));
                    lemma_push_entry(s0, pg);
                    assert forall|f: spec_fn(V) -> int|
                        #[trigger] sum_values(s0.push(pg), f) == sum_values(s0, f) + f(val) by {
                        lemma_sum_push(s0, pg, f);
                    }
                    assert(!old(self)@.contains_key(key@));
                }
            },
        }
    }

    /// Drop the binding for `key`, if one exists.
    pub fn remove(&mut self, key: &String)
        requires
            old(self).wf(),
        ensures
            final(self).wf(),
            final(self)@ == old(self)@.remove(key@),
            forall|f: spec_fn(V) -> int|
                #[trigger] final(self).sum_by(f) == old(self).sum_by(f) - (
                if old(self)@.contains_key(key@) {
                    f(old(self)@[key@])
                } else {
                    0
                }),
    {
        let ghost s0 = self.entries@;
        match self.find(key) {
            Some(i) => {
                self.entries.remove(i);
                proof {
                    lemma_remove_entry(s0, i as int);
                    assert forall|f: spec_fn(V) -> int|
                        #[trigger] sum_values(s0.remove(i as int), f) == sum_values(s0, f) - f(
                        entry_map(s0)[key@],
                    ) by {
                        lemma_sum_remove(s0, i as int, f);
                        lemma_map_entry_at(s0, i as int);
                    }
                    assert(old(self)@.contains_key(key@));
                }
            },
            None => {
                proof {
                    assert(self@ =~= old(self)@.remove(key@));
                }
            },
        }
    }
}

impl<V: Copy> Table<V> {
    /// The value bound to `key`, if any.
    pub fn get(&self, key: &String) -> (r: Option<V>)
        requires
            self.wf(),
        ensures
            self@.contains_key(key@) ==> r == Some(self@[key@]),
            !self@.contains_key(key@) ==> r is None,
    {
        match self.find(key) {
            Some(i) => {
                proof {
                    lemma_map_entry_at(self.entries@, i as int);
                }
                Some(self.entries[i].val)
            },
            None => None,
        }
    }
}

/// In a table with distinct keys, entry `i` is exactly what the map view
/// binds its key to.
proof fn lemma_map_entry_at<V>(s: Seq<KvPair<V>>, i: int)
    requires
        distinct_keys(s),
        0 <= i < s.len(),
    ensures
        holds_key(s, s[i].key@),
        entry_map(s)[s[i].key@] == s[i].val,
        index_of_key(s, s[i].key@) == i,
{
    let k = s[i].key@;
    assert(holds_key(s, k));
    let j = index_of_key(s, k);
    assert(0 <= j < s.len() && s[j].key@ == k);
    if j != i {
        assert(s[i].key@ != s[j].key@);
    }
}

/// Replacing entry `i` by a pair with the same key updates the map view
/// at that key and keeps the keys distinct.
proof fn lemma_update_entry<V>(s: Seq<KvPair<V>>, i: int, p: KvPair<V>)
    requires
        distinct_keys(s),
        0 <= i < s.len(),
        p.key@ == s[i].key@,
    ensures
        distinct_keys(s.update(i, p)),
        entry_map(s.update(i, p)) == entry_map(s).insert(p.key@, p.val),
{
    let s1 = s.update(i, p);
    let k = p.key@;
    assert(forall|j: int| 0 <= j < s1.len() ==> s1[j].key@ == s[j].key@);
    assert(distinct_keys(s1));
    assert forall|m: Seq<char>| holds_key(s1, m) == holds_key(s, m) by {
        if holds_key(s1, m) {
            let w = choose|w: int| 0 <= w < s1.len() && s1[w].key@ == m;
            assert(s[w].key@ == m);
            assert(holds_key(s, m));
        }
        if holds_key(s, m) {
            let w = choose|w: int| 0 <= w < s.len() && s[w].key@ == m;
            assert(s1[w].key@ == m);
            assert(holds_key(s1, m));
        }
    }
    assert(holds_key(s, k));
    assert forall|m: Seq<char>| holds_key(s1, m) implies entry_map(s1)[m] == entry_map(
        s,
    ).insert(k, p.val)[m] by {
        let a = index_of_key(s1, m);
        assert(0 <= a < s1.len() && s1[a].key@ == m);
        if m == k {
            lemma_map_entry_at(s1, i);
        } else {
            assert(a != i);
            lemma_map_entry_at(s1, a);
            lemma_map_entry_at(s, a);
        }
    }
    assert(entry_map(s1) =~= entry_map(s).insert(k, p.val));
}

/// Appending a pair with a fresh key extends the map view by that key and
/// keeps the keys distinct.
proof fn lemma_push_entry<V>(s: Seq<KvPair<V>>, p: KvPair<V>)
    requires
        distinct_keys(s),
        !holds_key(s, p.key@),
    ensures
        distinct_keys(s.push(p)),
        entry_map(s.push(p)) == entry_map(s).insert(p.key@, p.val),
{
    let s1 = s.push(p);
    let k = p.key@;
    let n = s.len() as int;
    assert(forall|j: int| 0 <= j < n ==> s1[j] == s[j]);
    assert(s1[n] == p);
    assert forall|j: int| 0 <= j < n implies s[j].key@ != k by {
        if s[j].key@ == k {
            assert(holds_key(s, k));
        }
    }
    assert(distinct_keys(s1));
    assert forall|m: Seq<char>| holds_key(s1, m) == (m == k || holds_key(s, m)) by {
        if holds_key(s1, m) {
            let w = choose|w: int| 0 <= w < s1.len() && s1[w].key@ == m;
            if w < n {
                assert(s[w].key@ == m);
                assert(holds_key(s, m));
            } else {
                assert(m == k);
            }
        }
        if m == k {
            assert(s1[n].key@ == m);
            assert(holds_key(s1, m));
        }
        if holds_key(s, m) {
            let w = choose|w: int| 0 <= w < s.len() && s[w].key@ == m;
            assert(s1[w].key@ == m);
            assert(holds_key(s1, m));
        }
    }
    assert forall|m: Seq<char>| holds_key(s1, m) implies entry_map(s1)[m] == entry_map(
        s,
    ).insert(k, p.val)[m] by {
        let a = index_of_key(s1, m);
        assert(0 <= a < s1.len() && s1[a].key@ == m);
        if m == k {
            lemma_map_entry_at(s1, n);
        } else {
            assert(a != n);
            lemma_map_entry_at(s1, a);
            lemma_map_entry_at(s, a);
        }
    }
    assert(entry_map(s1) =~= entry_map(s).insert(k, p.val));
}

/// Removing entry `i` removes exactly its key from the map view and keeps
/// the keys distinct.
proof fn lemma_remove_entry<V>(s: Seq<KvPair<V>>, i: int)
    requires
        distinct_keys(s),
        0 <= i < s.len(),
    ensures
        distinct_keys(s.remove(i)),
        entry_map(s.remove(i)) == entry_map(s).remove(s[i].key@),
{
    let s1 = s.remove(i);
    let k = s[i].key@;
    let n = s.len() as int;
    s.remove_ensures(i);
    assert(forall|j: int| 0 <= j < i ==> #[trigger] s1[j] == s[j]);
    assert(forall|j: int| i <= j < n - 1 ==> #[trigger] s1[j] == s[j + 1]);
    assert forall|a: int, b: int| 0 <= a < b < s1.len() implies s1[a].key@ != s1[b].key@ by {
        let a0 = if a < i {
            a
        } else {
            a + 1
        };
        let b0 = if b < i {
            b
        } else {
            b + 1
        };
        assert(s1[a] == s[a0] && s1[b] == s[b0]);
        assert(s[a0].key@ != s[b0].key@);
    }
    assert forall|m: Seq<char>| holds_key(s1, m) == (m != k && holds_key(s, m)) by {
        if holds_key(s1, m) {
            let w = choose|w: int| 0 <= w < s1.len() && s1[w].key@ == m;
            let w0 = if w < i {
                w
            } else {
                w + 1
            };
            assert(s[w0].key@ == m);
            assert(holds_key(s, m));
            if m == k {
                assert(s[w0].key@ == s[i].key@);
                assert(w0 != i);
                if w0 < i {
                    assert(s[w0].key@ != s[i].key@);
                } else {
                    assert(s[i].key@ != s[w0].key@);
                }
            }
        }
        if m != k && holds_key(s, m) {
            let w = choose|w: int| 0 <= w < s.len() && s[w].key@ == m;
            assert(w != i);
            if w < i {
                assert(s1[w].key@ == m);
            } else {
                assert(s1[w - 1].key@ == m);
            }
            assert(holds_key(s1, m));
        }
    }
    assert forall|m: Seq<char>| holds_key(s1, m) implies entry_map(s1)[m] == entry_map(s).remove(
        k,
    )[m] by {
        let a = index_of_key(s1, m);
        assert(0 <= a < s1.len() && s1[a].key@ == m);
        let a0 = if a < i {
            a
        } else {
            a + 1
        };
        assert(s1[a] == s[a0]);
        lemma_map_entry_at(s1, a);
        lemma_map_entry_at(s, a0);
    }
    assert(entry_map(s1) =~= entry_map(s).remove(k));
}

/// Updating entry `i` changes the sum by the difference of the projected
/// values.
proof fn lemma_sum_update<V>(s: Seq<KvPair<V>>, i: int, p: KvPair<V>, f: spec_fn(V) -> int)
    requires
        0 <= i < s.len(),
    ensures
        sum_values(s.update(i, p), f) == sum_values(s, f) - f(s[i].val) + f(p.val),
    decreases s.len(),
{
    let s1 = s.update(i, p);
    if i == 0 {
        assert(s1.drop_first() =~= s.drop_first());
    } else {
        assert(s1.drop_first() =~= s.drop_first().update(i - 1, p));
        lemma_sum_update(s.drop_first(), i - 1, p, f);
    }
}

/// Appending an entry adds its projected value to the sum.
proof fn lemma_sum_push<V>(s: Seq<KvPair<V>>, p: KvPair<V>, f: spec_fn(V) -> int)
    ensures
        sum_values(s.push(p), f) == sum_values(s, f) + f(p.val),
    decreases s.len(),
{
    let s1 = s.push(p);
    assert(s1.len() == s.len() + 1);
    if s.len() == 0 {
        assert(s1.drop_first() =~= Seq::<KvPair<V>>::empty());
        assert(s1[0] == p);
        assert(sum_values(s1, f) == f(p.val) + sum_values(s1.drop_first(), f));
    } else {
        assert(s1[0] == s[0]);
        assert(s1.drop_first() =~= s.drop_first().push(p));
        lemma_sum_push(s.drop_first(), p, f);
        assert(sum_values(s1, f) == f(s1[0].val) + sum_values(s1.drop_first(), f));
    }
}

/// Removing entry `i` subtracts its projected value from the sum.
proof fn lemma_sum_remove<V>(s: Seq<KvPair<V>>, i: int, f: spec_fn(V) -> int)
    requires
        0 <= i < s.len(),
    ensures
        sum_values(s.remove(i), f) == sum_values(s, f) - f(s[i].val),
    decreases s.len(),
{
    if i == 0 {
        assert(s.remove(0) =~= s.drop_first());
    } else {
        assert(s.remove(i).drop_first() =~= s.drop_first().remove(i - 1));
        lemma_sum_remove(s.drop_first(), i - 1, f);
    }
}

/// A sum of non-negative projected values is non-negative.
proof fn lemma_sum_nonneg<V>(s: Seq<KvPair<V>>, f: spec_fn(V) -> int)
    requires
        forall|j: int| 0 <= j < s.len() ==> #[trigger] f(s[j].val) >= 0,
    ensures
        sum_values(s, f) >= 0,
    decreases s.len(),
{
    if s.len() > 0 {
        lemma_sum_nonneg(s.drop_first(), f);
    }
}

/// Each entry's projected value is bounded by the sum, provided every
/// projected value is non-negative.
proof fn lemma_sum_element_bound<V>(s: Seq<KvPair<V>>, i: int, f: spec_fn(V) -> int)
    requires
        0 <= i < s.len(),
        forall|j: int| 0 <= j < s.len() ==> #[trigger] f(s[j].val) >= 0,
    ensures
        f(s[i].val) <= sum_values(s, f),
    decreases s.len(),
{
    if i == 0 {
        lemma_sum_nonneg(s.drop_first(), f);
    } else {
        lemma_sum_element_bound(s.drop_first(), i - 1, f);
    }
}

/// The value a well-formed table binds to `k` weighs no more than the
/// whole sum, provided `f` is non-negative on every stored value.
pub proof fn lemma_sum_by_member<V>(t: &Table<V>, k: Seq<char>, f: spec_fn(V) -> int)
    requires
        t.wf(),
        t@.contains_key(k),
        forall|m: Seq<char>| t@.contains_key(m) ==> #[trigger] f(t@[m]) >= 0,
    ensures
        f(t@[k]) <= t.sum_by(f),
{
    let s = t.entries@;
    assert forall|j: int| 0 <= j < s.len() implies #[trigger] f(s[j].val) >= 0 by {
        lemma_map_entry_at(s, j);
        assert(t@.contains_key(s[j].key@));
        assert(f(t@[s[j].key@]) >= 0);
    }
    let w = choose|w: int| 0 <= w < s.len() && s[w].key@ == k;
    assert(0 <= w < s.len() && s[w].key@ == k);
    lemma_map_entry_at(s, w);
    lemma_sum_element_bound(s, w, f);
}

} // verus!
