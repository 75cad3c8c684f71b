//! A map from names to values that keeps its entries in insertion order.

use vstd::prelude::*;

use crate::text::same;

verus! {

/// A map with `String` keys. No key occurs twice; an entry whose value is
/// replaced keeps its place.
pub struct NameMap<V> {
    entries: Vec<(String, V)>,
}

/// No two entries have the same key.
pub open spec fn keys_differ<V>(pairs: Seq<(Seq<char>, V)>) -> bool {
    forall|i: int, j: int| 0 <= i < j < pairs.len() ==> #[trigger] pairs[i].0 != #[trigger] pairs[j].0
}

/// Some entry has the key `k`.
pub open spec fn has_key<V>(pairs: Seq<(Seq<char>, V)>, k: Seq<char>) -> bool {
    exists|i: int| 0 <= i < pairs.len() && #[trigger] pairs[i].0 == k
}

/// The place of the entry with the key `k`.
pub open spec fn place<V>(pairs: Seq<(Seq<char>, V)>, k: Seq<char>) -> int {
    choose|i: int| 0 <= i < pairs.len() && #[trigger] pairs[i].0 == k
}

/// The entries after `k` has been given the value `v`.
pub open spec fn inserted<V>(pairs: Seq<(Seq<char>, V)>, k: Seq<char>, v: V) -> Seq<(Seq<char>, V)> {
    if has_key(pairs, k) {
        pairs.update(place(pairs, k), (k, v))
    } else {
        pairs.push((k, v))
    }
}

/// Entries with the texts of their keys.
pub open spec fn entry_pairs<V>(entries: Seq<(String, V)>) -> Seq<(Seq<char>, V)> {
    entries.map_values(|e: (String, V)| (e.0@, e.1))
}

/// Entries as a map.
pub open spec fn map_of<V>(pairs: Seq<(Seq<char>, V)>) -> Map<Seq<char>, V> {
    Map::new(|k: Seq<char>| has_key(pairs, k), |k: Seq<char>| pairs[place(pairs, k)].1)
}

/// In entries with distinct keys each entry is what its key maps to.
pub proof fn lemma_map_of<V>(pairs: Seq<(Seq<char>, V)>)
    requires
        keys_differ(pairs),
    ensures
        forall|i: int|
            0 <= i < pairs.len() ==> map_of(pairs).dom().contains(#[trigger] pairs[i].0)
                && map_of(pairs)[pairs[i].0] == pairs[i].1 && place(pairs, pairs[i].0) == i,
{
    assert forall|i: int| 0 <= i < pairs.len() implies map_of(pairs).dom().contains(
        #[trigger] pairs[i].0,
    ) && map_of(pairs)[pairs[i].0] == pairs[i].1 && place(pairs, pairs[i].0) == i by {
        let j = place(pairs, pairs[i].0);
        assert(has_key(pairs, pairs[i].0));
        if j < i {
            assert(pairs[j].0 != pairs[i].0);
        } else if i < j {
            assert(pairs[i].0 != pairs[j].0);
        }
    }
}

/// The entries with `f` of each value.
pub open spec fn valued<V, W>(pairs: Seq<(Seq<char>, V)>, f: spec_fn(V) -> W) -> Seq<
    (Seq<char>, W),
> {
    pairs.map_values(|p: (Seq<char>, V)| (p.0, f(p.1)))
}

/// A map of values is taken value by value.
pub proof fn lemma_valued<V, W>(pairs: Seq<(Seq<char>, V)>, f: spec_fn(V) -> W)
    requires
        keys_differ(pairs),
    ensures
        keys_differ(valued(pairs, f)),
        map_of(valued(pairs, f)) == map_of(pairs).map_values(f),
{
    let new = valued(pairs, f);
    assert forall|i: int, j: int| 0 <= i < j < new.len() implies #[trigger] new[i].0
        != #[trigger] new[j].0 by {
        assert(pairs[i].0 != pairs[j].0);
    }
    lemma_map_of(pairs);
    lemma_map_of(new);
    assert forall|k: Seq<char>| has_key(new, k) == has_key(pairs, k) by {
        if has_key(new, k) {
            assert(pairs[place(new, k)].0 == k);
        }
        if has_key(pairs, k) {
            assert(new[place(pairs, k)].0 == k);
        }
    }
    assert forall|k: Seq<char>| has_key(new, k) implies map_of(new)[k] == f(map_of(pairs)[k]) by {
        let i = place(new, k);
        assert(new[i].0 == k && pairs[i].0 == k);
    }
    assert(map_of(new) =~= map_of(pairs).map_values(f));
}

/// Giving `k` the value `v` keeps the keys distinct, maps `k` to `v`, and
/// leaves every other name as it was.
pub proof fn lemma_inserted<V>(pairs: Seq<(Seq<char>, V)>, k: Seq<char>, v: V)
    requires
        keys_differ(pairs),
    ensures
        keys_differ(inserted(pairs, k, v)),
        map_of(inserted(pairs, k, v)) == map_of(pairs).insert(k, v),
{
    let new = inserted(pairs, k, v);
    let p = place(pairs, k);
    if has_key(pairs, k) {
        assert(0 <= p < pairs.len() && pairs[p].0 == k);
    }
    assert forall|i: int, j: int| 0 <= i < j < new.len() implies #[trigger] new[i].0
        != #[trigger] new[j].0 by {
        if has_key(pairs, k) {
            assert(new[i].0 == pairs[i].0 && new[j].0 == pairs[j].0);
        } else if j == pairs.len() {
            assert(pairs[i].0 != k);
        } else {
            assert(pairs[i].0 != pairs[j].0);
        }
    }
    lemma_map_of(pairs);
    lemma_map_of(new);
    assert forall|x: Seq<char>| has_key(new, x) == (x == k || has_key(pairs, x)) by {
        if has_key(pairs, x) {
            let i = place(pairs, x);
            assert(new[i].0 == x);
        }
        if x == k {
            if has_key(pairs, k) {
                assert(new[p].0 == k);
            } else {
                assert(new[pairs.len() as int].0 == k);
            }
        }
        if has_key(new, x) && x != k {
            let i = place(new, x);
            assert(pairs[i].0 == x);
        }
    }
    assert forall|x: Seq<char>| has_key(new, x) implies map_of(new)[x] == map_of(pairs).insert(
        k,
        v,
    )[x] by {
        let i = place(new, x);
        assert(new[i].0 == x);
        if x != k {
            assert(pairs[i].0 == x);
            assert(pairs[i] == new[i]);
        }
    }
    assert(map_of(new) =~= map_of(pairs).insert(k, v));
}

impl<V> NameMap<V> {
    /// The entries in insertion order.
    pub closed spec fn pairs(&self) -> Seq<(Seq<char>, V)> {
        entry_pairs(self.entries@)
    }

    #[verifier::type_invariant]
    spec fn distinct(&self) -> bool {
        keys_differ(self.pairs())
    }

    /// A map without entries.
    pub fn new() -> (r: NameMap<V>)
        ensures
            r.pairs() == Seq::<(Seq<char>, V)>::empty(),
            r@ == Map::<Seq<char>, V>::empty(),
    {
        let r = NameMap { entries: Vec::new() };
        proof {
            assert(r.pairs() =~= Seq::<(Seq<char>, V)>::empty());
            assert(map_of(r.pairs()) =~= Map::<Seq<char>, V>::empty());
        }
        r
    }

    /// The entries themselves.
    pub fn into_entries(self) -> (r: Vec<(String, V)>)
        ensures
            entry_pairs(r@) == self.pairs(),
            keys_differ(self.pairs()),
    {
        proof {
            use_type_invariant(&self);
        }
        self.entries
    }

    /// The number of entries.
    pub fn len(&self) -> (r: usize)
        ensures
            r == self.pairs().len(),
            keys_differ(self.pairs()),
    {
        proof {
            use_type_invariant(self);
        }
        self.entries.len()
    }

    /// The key of the entry at `i`.
    pub fn key_at(&self, i: usize) -> (r: &String)
        requires
            i < self.pairs().len(),
        ensures
            r@ == self.pairs()[i as int].0,
            keys_differ(self.pairs()),
    {
        proof {
            use_type_invariant(self);
        }
        &self.entries[i].0
    }

    /// The value of the entry at `i`.
    pub fn value_at(&self, i: usize) -> (r: &V)
        requires
            i < self.pairs().len(),
        ensures
            *r == self.pairs()[i as int].1,
            keys_differ(self.pairs()),
    {
        proof {
            use_type_invariant(self);
        }
        &self.entries[i].1
    }

    /// The place of the entry with the key `k`.
    pub fn position(&self, k: &str) -> (r: Option<usize>)
        ensures
            keys_differ(self.pairs()),
            match r {
                Some(i) => {
                    &&& i < self.pairs().len()
                    &&& self.pairs()[i as int].0 == k@
                    &&& has_key(self.pairs(), k@)
                    &&& i == place(self.pairs(), k@)
                },
                None => !has_key(self.pairs(), k@),
            },
    {
        proof {
            use_type_invariant(self);
            lemma_map_of(self.pairs());
        }
        let mut i: usize = 0;
        while i < self.entries.len()
            invariant
                i <= self.entries@.len(),
                keys_differ(self.pairs()),
                forall|j: int|
                    0 <= j < self.pairs().len() ==> #[trigger] place(
                        self.pairs(),
                        self.pairs()[j].0,
                    ) == j,
                forall|j: int| 0 <= j < i ==> #[trigger] self.pairs()[j].0 != k@,
            decreases self.entries@.len() - i,
        {
            if same(self.entries[i].0.as_str(), k) {
                proof {
                    assert(self.pairs()[i as int].0 == k@);
                    assert(place(self.pairs(), self.pairs()[i as int].0) == i);
                }
                return Some(i);
            }
            i = i + 1;
        }
        None
    }

    /// The value of `k`, where it has one.
    pub fn get(&self, k: &str) -> (r: Option<&V>)
        ensures
            match r {
                Some(v) => self@.dom().contains(k@) && *v == self@[k@],
                None => !self@.dom().contains(k@),
            },
    {
        match self.position(k) {
            Some(i) => Some(&self.entries[i].1),
            None => None,
        }
    }

    /// Whether `k` has a value.
    pub fn contains_key(&self, k: &str) -> (r: bool)
        ensures
            r == self@.dom().contains(k@),
    {
        self.position(k).is_some()
    }

    /// Gives `k` the value `v`, in place of one that it had.
    pub fn insert(&mut self, k: String, v: V)
        ensures
            final(self).pairs() == inserted(old(self).pairs(), k@, v),
            final(self)@ == old(self)@.insert(k@, v),
    {
        let ghost before = self.pairs();
        proof {
            use_type_invariant(&*self);
            lemma_inserted(before, k@, v);
        }
        let at = self.position(k.as_str());
        let ghost key = k@;
        let mut whole = NameMap::new();
        std::mem::swap(self, &mut whole);
        let mut entries = whole.entries;
        match at {
            Some(i) => {
                entries.set(i, (k, v));
            },
            None => {
                entries.push((k, v));
            },
        }
        proof {
            assert(entry_pairs(entries@) =~= inserted(before, key, v));
        }
        *self = NameMap { entries };
    }
}

impl<V> View for NameMap<V> {
    type V = Map<Seq<char>, V>;

    /// The map from keys to values.
    open spec fn view(&self) -> Map<Seq<char>, V> {
        map_of(self.pairs())
    }
}

} // verus!
