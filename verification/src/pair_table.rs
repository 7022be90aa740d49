//! An association table keyed by a pair of strings.
//!
//! `PairTable<V>` is the executable form of a finite map from a pair of
//! addresses to a value; the token ledger keys allowances by the owning
//! account and the spending account.

use vstd::prelude::*;

verus! {

/// One binding held by a `PairTable`.
pub struct PairEntry<V> {
    pub owner: String,
    pub spender: String,
    pub val: V,
}

/// The key views of entry `i`.
spec fn key_of<V>(s: Seq<PairEntry<V>>, i: int) -> (Seq<char>, Seq<char>) {
    (s[i].owner@, s[i].spender@)
}

/// All key pairs of `s` differ.
spec fn distinct_pairs<V>(s: Seq<PairEntry<V>>) -> bool {
    forall|i: int, j: int| 0 <= i < j < s.len() ==> key_of(s, i) != key_of(s, j)
}

/// Some entry of `s` carries the key pair `k`.
spec fn holds_pair<V>(s: Seq<PairEntry<V>>, k: (Seq<char>, Seq<char>)) -> bool {
    exists|i: int| 0 <= i < s.len() && key_of(s, i) == k
}

/// The index of the entry carrying `k`; meaningful when `holds_pair(s, k)`.
spec fn index_of_pair<V>(s: Seq<PairEntry<V>>, k: (Seq<char>, Seq<char>)) -> int {
    choose|i: int| 0 <= i < s.len() && key_of(s, i) == k
}

/// The entries of `s`, read as a finite map from key pair to value.
spec fn pair_map<V>(s: Seq<PairEntry<V>>) -> Map<(Seq<char>, Seq<char>), V> {
    Map::new(
        |k: (Seq<char>, Seq<char>)| holds_pair(s, k),
        |k: (Seq<char>, Seq<char>)| s[index_of_pair(s, k)].val,
    )
}

/// A key/value store keyed by a pair of `String`s.
pub struct PairTable<V> {
    entries: Vec<PairEntry<V>>,
}

impl<V> View for PairTable<V> {
    type V = Map<(Seq<char>, Seq<char>), V>;

    closed spec fn view(&self) -> Map<(Seq<char>, Seq<char>), V> {
        pair_map(self.entries@)
    }
}

impl<V> PairTable<V> {
    /// Every key pair is stored at most once.
    pub closed spec fn wf(&self) -> bool {
        distinct_pairs(self.entries@)
    }

    pub fn new() -> (t: Self)
        ensures
            t.wf(),
            t@ == Map::<(Seq<char>, Seq<char>), V>::empty(),
    {
        let t = PairTable { entries: Vec::new() };
        proof {
            assert(t@ =~= Map::<(Seq<char>, Seq<char>), V>::empty());
        }
        t
    }

    /// The index of the entry carrying the key pair, if one does.
    fn find(&self, owner: &String, spender: &String) -> (r: Option<usize>)
        ensures
            match r {
                Some(i) => i < self.entries@.len() && key_of(self.entries@, i as int) == (
                owner@,
                spender@,
                ),
                None => !holds_pair(self.entries@, (owner@, spender@)),
            },
    {
        let n = self.entries.len();
        let mut i: usize = 0;
        while i < n
            invariant
                n == self.entries@.len(),
                i <= n,
                forall|j: int| 0 <= j < i ==> key_of(self.entries@, j) != (owner@, spender@),
            decreases n - i,
        {
            if self.entries[i].owner == *owner && self.entries[i].spender == *spender {
                return Some(i);
            }
            i = i + 1;
        }
        None
    }

    /// Bind the key pair to `val`, replacing any earlier binding.
    pub fn set(&mut self, owner: &String, spender: &String, val: V)
        requires
            old(self).wf(),
        ensures
            final(self).wf(),
            final(self)@ == old(self)@.insert((owner@, spender@), val),
    {
        let ghost s0 = self.entries@;
        match self.find(owner, spender) {
            Some(i) => {
                self.entries.set(
                    i,
                    PairEntry { owner: owner.clone(), spender: spender.clone(), val },
                );
                proof {
                    let pg = self.entries@[i as int];
                    assert(self.entries@ == s0.update(i as int, pg));
                    lemma_pair_update_entry(s0, i as int, pg);
                }
            },
            None => {
                self.entries.push(PairEntry { owner: owner.clone(), spender: spender.clone(), val });
                proof {
                    let pg = self.entries@[s0.len() as int];
                    assert(self.entries@ == s0.push(pg));
                    lemma_pair_push_entry(s0, pg);
                }
            },
        }
    }
}

impl<V: Copy> PairTable<V> {
    /// The value bound to the key pair, if any.
    pub fn get(&self, owner: &String, spender: &String) -> (r: Option<V>)
        requires
            self.wf(),
        ensures
            self@.contains_key((owner@, spender@)) ==> r == Some(self@[(owner@, spender@)]),
            !self@.contains_key((owner@, spender@)) ==> r is None,
    {
        match self.find(owner, spender) {
            Some(i) => {
                proof {
                    lemma_pair_entry_at(self.entries@, i as int);
                }
                Some(self.entries[i].val)
            },
            None => None,
        }
    }
}

/// In a table with distinct key pairs, entry `i` is exactly what the map
/// view binds its key pair to.
proof fn lemma_pair_entry_at<V>(s: Seq<PairEntry<V>>, i: int)
    requires
        distinct_pairs(s),
        0 <= i < s.len(),
    ensures
        holds_pair(s, key_of(s, i)),
        pair_map(s)[key_of(s, i)] == s[i].val,
        index_of_pair(s, key_of(s, i)) == i,
{
    let k = key_of(s, i);
    assert(holds_pair(s, k));
    let j = index_of_pair(s, k);
    assert(0 <= j < s.len() && key_of(s, j) == k);
    if j != i {
        assert(key_of(s, i) != key_of(s, j));
    }
}

/// Replacing entry `i` by one with the same key pair updates the map view
/// at that key and keeps the key pairs distinct.
proof fn lemma_pair_update_entry<V>(s: Seq<PairEntry<V>>, i: int, p: PairEntry<V>)
    requires
        distinct_pairs(s),
        0 <= i < s.len(),
        (p.owner@, p.spender@) == key_of(s, i),
    ensures
        distinct_pairs(s.update(i, p)),
        pair_map(s.update(i, p)) == pair_map(s).insert((p.owner@, p.spender@), p.val),
{
    let s1 = s.update(i, p);
    let k = (p.owner@, p.spender@);
    assert(forall|j: int| 0 <= j < s1.len() ==> key_of(s1, j) == key_of(s, j));
    assert(distinct_pairs(s1));
    assert forall|m: (Seq<char>, Seq<char>)| holds_pair(s1, m) == holds_pair(s, m) by {
        if holds_pair(s1, m) {
            let w = choose|w: int| 0 <= w < s1.len() && key_of(s1, w) == m;
            assert(key_of(s, w) == m);
            assert(holds_pair(s, m));
        }
        if holds_pair(s, m) {
            let w = choose|w: int| 0 <= w < s.len() && key_of(s, w) == m;
            assert(key_of(s1, w) == m);
            assert(holds_pair(s1, m));
        }
    }
    assert(holds_pair(s, k));
    assert forall|m: (Seq<char>, Seq<char>)| holds_pair(s1, m) implies pair_map(s1)[m] == pair_map(
        s,
    ).insert(k, p.val)[m] by {
        let a = index_of_pair(s1, m);
        assert(0 <= a < s1.len() && key_of(s1, a) == m);
        if m == k {
            lemma_pair_entry_at(s1, i);
        } else {
            assert(a != i);
            lemma_pair_entry_at(s1, a);
            lemma_pair_entry_at(s, a);
        }
    }
    assert(pair_map(s1) =~= pair_map(s).insert(k, p.val));
}

/// Appending an entry with a fresh key pair extends the map view by that
/// key and keeps the key pairs distinct.
proof fn lemma_pair_push_entry<V>(s: Seq<PairEntry<V>>, p: PairEntry<V>)
    requires
        distinct_pairs(s),
        !holds_pair(s, (p.owner@, p.spender@)),
    ensures
        distinct_pairs(s.push(p)),
        pair_map(s.push(p)) == pair_map(s).insert((p.owner@, p.spender@), p.val),
{
    let s1 = s.push(p);
    let k = (p.owner@, p.spender@);
    let n = s.len() as int;
    assert(forall|j: int| 0 <= j < n ==> s1[j] == s[j]);
    assert(forall|j: int| 0 <= j < n ==> key_of(s1, j) == key_of(s, j));
    assert(s1[n] == p);
    assert(key_of(s1, n) == k);
    assert forall|j: int| 0 <= j < n implies key_of(s, j) != k by {
        if key_of(s, j) == k {
            assert(holds_pair(s, k));
        }
    }
    assert(distinct_pairs(s1));
    assert forall|m: (Seq<char>, Seq<char>)| holds_pair(s1, m) == (m == k || holds_pair(s, m)) by {
        if holds_pair(s1, m) {
            let w = choose|w: int| 0 <= w < s1.len() && key_of(s1, w) == m;
            if w < n {
                assert(key_of(s, w) == m);
                assert(holds_pair(s, m));
            } else {
                assert(m == k);
            }
        }
        if m == k {
            assert(key_of(s1, n) == m);
            assert(holds_pair(s1, m));
        }
        if holds_pair(s, m) {
            let w = choose|w: int| 0 <= w < s.len() && key_of(s, w) == m;
            assert(key_of(s1, w) == m);
            assert(holds_pair(s1, m));
        }
    }
    assert forall|m: (Seq<char>, Seq<char>)| holds_pair(s1, m) implies pair_map(s1)[m] == pair_map(
        s,
    ).insert(k, p.val)[m] by {
        let a = index_of_pair(s1, m);
        assert(0 <= a < s1.len() && key_of(s1, a) == m);
        if m == k {
            lemma_pair_entry_at(s1, n);
        } else {
            assert(a != n);
            lemma_pair_entry_at(s1, a);
            lemma_pair_entry_at(s, a);
        }
    }
    assert(pair_map(s1) =~= pair_map(s).insert(k, p.val));
}

} // verus!
