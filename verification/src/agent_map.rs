//! A map from agent identifiers to values, kept as a list of entries whose
//! keys are pairwise distinct. Its model is the sequence of (key, value)
//! pairs in the order in which the keys were first inserted.
use vstd::prelude::*;

verus! {

/// No key occurs twice in `pairs`.
pub open spec fn keys_distinct<V>(pairs: Seq<(Seq<char>, V)>) -> bool {
    forall|i: int, j: int| 0 <= i < j < pairs.len() ==> #[trigger] pairs[i].0 != #[trigger] pairs[j].0
}

/// The value that `pairs` holds under `key`, if some pair has that key.
pub open spec fn lookup<V>(pairs: Seq<(Seq<char>, V)>, key: Seq<char>) -> Option<V> {
    if exists|i: int| 0 <= i < pairs.len() && #[trigger] pairs[i].0 == key {
        Some(pairs[choose|i: int| 0 <= i < pairs.len() && #[trigger] pairs[i].0 == key].1)
    } else {
        None
    }
}

/// The keys of `pairs`, in order.
pub open spec fn key_seq<V>(pairs: Seq<(Seq<char>, V)>) -> Seq<Seq<char>> {
    pairs.map_values(|p: (Seq<char>, V)| p.0)
}

/// With distinct keys, the pair at index `i` is what a lookup of its key finds.
pub proof fn lemma_lookup_at<V>(pairs: Seq<(Seq<char>, V)>, i: int)
    requires
        keys_distinct(pairs),
        0 <= i < pairs.len(),
    ensures
        lookup(pairs, pairs[i].0) == Some(pairs[i].1),
{
    let k = pairs[i].0;
    assert(0 <= i < pairs.len() && pairs[i].0 == k);
    let j: int = choose|j: int| 0 <= j < pairs.len() && #[trigger] pairs[j].0 == k;
    if j != i {
        if j < i {
            assert(pairs[j].0 != pairs[i].0);
        } else {
            assert(pairs[i].0 != pairs[j].0);
        }
    }
}

/// Replacing the value of the pair at index `i` changes what a lookup finds
/// under that pair's key only, and keeps the keys distinct.
pub proof fn lemma_lookup_update<V>(pairs: Seq<(Seq<char>, V)>, i: int, v: V, key: Seq<char>)
    requires
        keys_distinct(pairs),
        0 <= i < pairs.len(),
    ensures
        keys_distinct(pairs.update(i, (pairs[i].0, v))),
        lookup(pairs.update(i, (pairs[i].0, v)), key) == if key == pairs[i].0 {
            Some(v)
        } else {
            lookup(pairs, key)
        },
{
    let q = pairs.update(i, (pairs[i].0, v));
    assert forall|a: int, b: int| 0 <= a < b < q.len() implies #[trigger] q[a].0 != #[trigger] q[b].0 by {
        assert(q[a].0 == pairs[a].0);
        assert(q[b].0 == pairs[b].0);
        assert(pairs[a].0 != pairs[b].0);
    }
    if key == pairs[i].0 {
        lemma_lookup_at(q, i);
    } else {
        assert forall|j: int| 0 <= j < q.len() implies (#[trigger] q[j].0 == key) == (pairs[j].0 == key) by {
            if j != i {
                assert(q[j] == pairs[j]);
            }
        }
        if exists|j: int| 0 <= j < pairs.len() && #[trigger] pairs[j].0 == key {
            let j: int = choose|j: int| 0 <= j < pairs.len() && #[trigger] pairs[j].0 == key;
            assert(q[j].0 == key);
            lemma_lookup_at(pairs, j);
            lemma_lookup_at(q, j);
            assert(j != i);
            assert(q[j] == pairs[j]);
        } else {
            assert(!exists|j: int| 0 <= j < q.len() && #[trigger] q[j].0 == key);
        }
    }
}

/// Appending a pair under a key that `pairs` does not hold changes what a
/// lookup finds under that key only, and keeps the keys distinct.
pub proof fn lemma_lookup_push<V>(pairs: Seq<(Seq<char>, V)>, k: Seq<char>, v: V, key: Seq<char>)
    requires
        keys_distinct(pairs),
        lookup(pairs, k) is None,
    ensures
        keys_distinct(pairs.push((k, v))),
        lookup(pairs.push((k, v)), key) == if key == k {
            Some(v)
        } else {
            lookup(pairs, key)
        },
{
    let q = pairs.push((k, v));
    assert forall|a: int, b: int| 0 <= a < b < q.len() implies #[trigger] q[a].0 != #[trigger] q[b].0 by {
        if b == pairs.len() {
            assert(q[a] == pairs[a]);
            if pairs[a].0 == k {
                assert(0 <= a < pairs.len() && pairs[a].0 == k);
            }
        } else {
            assert(q[a] == pairs[a]);
            assert(q[b] == pairs[b]);
        }
    }
    if key == k {
        lemma_lookup_at(q, pairs.len() as int);
    } else {
        if exists|j: int| 0 <= j < pairs.len() && #[trigger] pairs[j].0 == key {
            let j: int = choose|j: int| 0 <= j < pairs.len() && #[trigger] pairs[j].0 == key;
            lemma_lookup_at(pairs, j);
            assert(q[j] == pairs[j]);
            lemma_lookup_at(q, j);
        } else {
            assert forall|j: int| 0 <= j < q.len() implies #[trigger] q[j].0 != key by {
                if j < pairs.len() {
                    assert(q[j] == pairs[j]);
                }
            }
        }
    }
}

/// The index of the pair whose key is `key` (meaningful when there is one).
pub open spec fn index_of<V>(pairs: Seq<(Seq<char>, V)>, key: Seq<char>) -> int {
    choose|i: int| 0 <= i < pairs.len() && #[trigger] pairs[i].0 == key
}

/// `pairs` with the value under `key` set to `v`: the pair keeps its place
/// when the key is already there, else a new pair is appended.
pub open spec fn upsert_pairs<V>(pairs: Seq<(Seq<char>, V)>, key: Seq<char>, v: V) -> Seq<(Seq<char>, V)> {
    if lookup(pairs, key) is Some {
        pairs.update(index_of(pairs, key), (key, v))
    } else {
        pairs.push((key, v))
    }
}

/// The map that a list of pairs with distinct keys stands for.
pub open spec fn as_map<V>(pairs: Seq<(Seq<char>, V)>) -> Map<Seq<char>, V> {
    Map::new(|k: Seq<char>| lookup(pairs, k) is Some, |k: Seq<char>| lookup(pairs, k).unwrap())
}

/// Setting a value keeps the keys distinct, and the map that the pairs stand
/// for changes at that key only.
pub proof fn lemma_upsert<V>(pairs: Seq<(Seq<char>, V)>, key: Seq<char>, v: V)
    requires
        keys_distinct(pairs),
    ensures
        keys_distinct(upsert_pairs(pairs, key, v)),
        as_map(upsert_pairs(pairs, key, v)) == as_map(pairs).insert(key, v),
        key_seq(upsert_pairs(pairs, key, v)) == if lookup(pairs, key) is Some {
            key_seq(pairs)
        } else {
            key_seq(pairs).push(key)
        },
{
    let q = upsert_pairs(pairs, key, v);
    if lookup(pairs, key) is Some {
        let i: int = index_of(pairs, key);
        assert(0 <= i < pairs.len() && pairs[i].0 == key);
        assert forall|k: Seq<char>| true implies lookup(q, k) == if k == key {
            Some(v)
        } else {
            lookup(pairs, k)
        } by {
            lemma_lookup_update(pairs, i, v, k);
        }
        assert(key_seq(q) =~= key_seq(pairs));
        lemma_lookup_update(pairs, i, v, key);
    } else {
        assert forall|k: Seq<char>| true implies lookup(q, k) == if k == key {
            Some(v)
        } else {
            lookup(pairs, k)
        } by {
            lemma_lookup_push(pairs, key, v, k);
        }
        assert(key_seq(q) =~= key_seq(pairs).push(key));
        lemma_lookup_push(pairs, key, v, key);
    }
    assert(as_map(q) =~= as_map(pairs).insert(key, v));
}

/// A lookup after setting a value finds the new value under its key and the
/// old values under every other key.
pub proof fn lemma_lookup_upsert<V>(pairs: Seq<(Seq<char>, V)>, key: Seq<char>, v: V, other: Seq<char>)
    requires
        keys_distinct(pairs),
    ensures
        lookup(upsert_pairs(pairs, key, v), other) == if other == key {
            Some(v)
        } else {
            lookup(pairs, other)
        },
{
    if lookup(pairs, key) is Some {
        let i: int = index_of(pairs, key);
        assert(0 <= i < pairs.len() && pairs[i].0 == key);
        lemma_lookup_update(pairs, i, v, other);
    } else {
        lemma_lookup_push(pairs, key, v, other);
    }
}

/// After setting a value, the keys are the old keys and the new one.
pub proof fn lemma_upsert_keys<V>(pairs: Seq<(Seq<char>, V)>, key: Seq<char>, v: V)
    requires
        keys_distinct(pairs),
    ensures
        forall|a: Seq<char>| #[trigger] key_seq(upsert_pairs(pairs, key, v)).contains(a) <==> (a == key
            || key_seq(pairs).contains(a)),
{
    lemma_upsert(pairs, key, v);
    let q = upsert_pairs(pairs, key, v);
    assert forall|a: Seq<char>| #[trigger] key_seq(q).contains(a) <==> (a == key || key_seq(pairs).contains(a)) by {
        if lookup(pairs, key) is Some {
            let i: int = index_of(pairs, key);
            assert(0 <= i < pairs.len() && pairs[i].0 == key);
            if a == key {
                assert(key_seq(q)[i] == a);
            }
        } else {
            if a == key {
                assert(key_seq(q)[pairs.len() as int] == a);
            }
            if key_seq(pairs).contains(a) {
                let j: int = choose|j: int| 0 <= j < key_seq(pairs).len() && key_seq(pairs)[j] == a;
                assert(key_seq(q)[j] == a);
            }
            if key_seq(q).contains(a) && a != key {
                let j: int = choose|j: int| 0 <= j < key_seq(q).len() && key_seq(q)[j] == a;
                assert(key_seq(pairs)[j] == a);
            }
        }
    }
}

/// The views of a sequence of strings.
pub open spec fn views_of(v: Seq<String>) -> Seq<Seq<char>> {
    v.map_values(|s: String| s@)
}

/// Entries keyed by agent identifier, each key at most once.
#[derive(Debug, Clone)]
pub struct AgentMap<V> {
    entries: Vec<(String, V)>,
}

impl<V> View for AgentMap<V> {
    type V = Map<Seq<char>, V>;

    open spec fn view(&self) -> Map<Seq<char>, V> {
        as_map(self.pairs())
    }
}

impl<V> AgentMap<V> {
    /// The entries as (key, value) pairs, in insertion order.
    pub closed spec fn pairs(&self) -> Seq<(Seq<char>, V)> {
        self.entries@.map_values(|e: (String, V)| (e.0@, e.1))
    }

    /// The keys are pairwise distinct.
    pub open spec fn wf(&self) -> bool {
        keys_distinct(self.pairs())
    }

    /// The value held under `key`, if any.
    pub open spec fn value_of(&self, key: Seq<char>) -> Option<V> {
        lookup(self.pairs(), key)
    }

    pub fn new() -> (m: Self)
        ensures
            m.pairs() == Seq::<(Seq<char>, V)>::empty(),
            m.wf(),
    {
        AgentMap { entries: Vec::new() }
    }

    pub fn len(&self) -> (n: usize)
        ensures
            n == self.pairs().len(),
    {
        self.entries.len()
    }

    /// The index of the entry whose key is `key`, if there is one.
    pub fn find(&self, key: &str) -> (r: Option<usize>)
        requires
            self.wf(),
        ensures
            match r {
                Some(i) => i < self.pairs().len() && self.pairs()[i as int].0 == key@,
                None => lookup(self.pairs(), key@) is None,
            },
    {
        let k = key.to_owned();
        let mut i: usize = 0;
        while i < self.entries.len()
            invariant
                i <= self.entries.len(),
                k@ == key@,
                forall|j: int| 0 <= j < i ==> (#[trigger] self.pairs()[j]).0 != key@,
            decreases self.entries.len() - i,
        {
            if self.entries[i].0 == k {
                return Some(i);
            }
            i += 1;
        }
        proof {
            assert forall|j: int| 0 <= j < self.pairs().len() implies #[trigger] self.pairs()[j].0
                != key@ by {
                assert(self.pairs()[j].0 != key@);
            }
        }
        None
    }

    /// The value held under `key`, if any.
    pub fn get(&self, key: &str) -> (r: Option<&V>)
        requires
            self.wf(),
        ensures
            match r {
                Some(v) => self.value_of(key@) == Some(*v),
                None => self.value_of(key@) is None,
            },
    {
        match self.find(key) {
            Some(i) => {
                proof {
                    lemma_lookup_at(self.pairs(), i as int);
                }
                Some(&self.entries[i].1)
            },
            None => None,
        }
    }

    pub fn value_at(&self, i: usize) -> (r: &V)
        requires
            i < self.pairs().len(),
        ensures
            *r == self.pairs()[i as int].1,
    {
        &self.entries[i].1
    }

    /// Replaces the value of the entry at index `i`, keeping its key.
    fn set_value(&mut self, i: usize, v: V)
        requires
            i < old(self).pairs().len(),
        ensures
            final(self).pairs() == old(self).pairs().update(
                i as int,
                (old(self).pairs()[i as int].0, v),
            ),
    {
        let k = self.entries[i].0.clone();
        self.entries.set(i, (k, v));
        proof {
            assert(self.pairs() =~= old(self).pairs().update(i as int, (old(self).pairs()[i as int].0, v)));
        }
    }

    /// Appends an entry at the end.
    fn push(&mut self, key: String, v: V)
        ensures
            final(self).pairs() == old(self).pairs().push((key@, v)),
    {
        self.entries.push((key, v));
        proof {
            assert(self.pairs() =~= old(self).pairs().push((key@, v)));
        }
    }

    /// Sets the value held under `key`; an existing entry keeps its place, a
    /// new one goes at the end.
    pub fn insert(&mut self, key: String, v: V)
        requires
            old(self).wf(),
        ensures
            final(self).wf(),
            final(self).pairs() == upsert_pairs(old(self).pairs(), key@, v),
            final(self)@ == old(self)@.insert(key@, v),
    {
        proof {
            lemma_upsert(self.pairs(), key@, v);
        }
        match self.find(key.as_str()) {
            Some(i) => {
                proof {
                    let p = old(self).pairs();
                    assert(lookup(p, key@) is Some) by {
                        assert(0 <= i < p.len() && p[i as int].0 == key@);
                    }
                    let j: int = index_of(p, key@);
                    lemma_lookup_at(p, i as int);
                    lemma_lookup_at(p, j);
                    assert(i == j) by {
                        if (i as int) < j {
                            assert(p[i as int].0 != p[j].0);
                        } else if j < (i as int) {
                            assert(p[j].0 != p[i as int].0);
                        }
                    }
                }
                self.set_value(i, v);
            },
            None => {
                self.push(key, v);
            },
        }
    }

    /// The value held under `key`, created as `default` when the key is
    /// absent, ready to be changed in place.
    pub fn entry_or(&mut self, key: &str, default: V) -> (r: &mut V)
        requires
            old(self).wf(),
        ensures
            *r == match lookup(old(self).pairs(), key@) {
                Some(v) => v,
                None => default,
            },
            final(self).pairs() == upsert_pairs(old(self).pairs(), key@, *final(r)),
            keys_distinct(upsert_pairs(old(self).pairs(), key@, *final(r))),
    {
        let ghost p = old(self).pairs();
        let i: usize = match self.find(key) {
            Some(i) => {
                proof {
                    lemma_lookup_at(p, i as int);
                    let j: int = index_of(p, key@);
                    lemma_lookup_at(p, j);
                    assert(i == j) by {
                        if (i as int) < j {
                            assert(p[i as int].0 != p[j].0);
                        } else if j < (i as int) {
                            assert(p[j].0 != p[i as int].0);
                        }
                    }
                    assert forall|w: V| #[trigger] upsert_pairs(p, key@, w) == self.pairs().update(
                        i as int,
                        (self.pairs()[i as int].0, w),
                    ) by {}
                }
                i
            },
            None => {
                let n: usize = self.entries.len();
                self.push(key.to_owned(), default);
                proof {
                    lemma_lookup_push(p, key@, default, key@);
                    assert forall|w: V| #[trigger] upsert_pairs(p, key@, w) == self.pairs().update(
                        n as int,
                        (self.pairs()[n as int].0, w),
                    ) by {
                        assert(upsert_pairs(p, key@, w) =~= self.pairs().update(
                            n as int,
                            (self.pairs()[n as int].0, w),
                        ));
                    }
                }
                n
            },
        };
        proof {
            assert forall|w: V| keys_distinct(#[trigger] upsert_pairs(p, key@, w)) by {
                lemma_upsert(p, key@, w);
            }
        }
        let r = &mut self.entries[i].1;
        proof {
            assert(keys_distinct(upsert_pairs(p, key@, *final(r))));
        }
        r
    }

    /// Removes every entry.
    pub fn clear(&mut self)
        ensures
            final(self).pairs() == Seq::<(Seq<char>, V)>::empty(),
    {
        self.entries.clear();
        proof {
            assert(self.pairs() =~= Seq::<(Seq<char>, V)>::empty());
        }
    }

    /// The keys, in insertion order.
    pub fn keys(&self) -> (r: Vec<String>)
        ensures
            views_of(r@) == key_seq(self.pairs()),
    {
        let mut r: Vec<String> = Vec::new();
        let mut i: usize = 0;
        while i < self.entries.len()
            invariant
                i <= self.entries.len(),
                r@.len() == i,
                views_of(r@) == key_seq(self.pairs()).take(i as int),
            decreases self.entries.len() - i,
        {
            let k = self.entries[i].0.clone();
            proof {
                assert(k@ == self.pairs()[i as int].0);
            }
            let ghost before = r@;
            r.push(k);
            proof {
                assert(r@ == before.push(k));
                assert(views_of(before) == key_seq(self.pairs()).take(i as int));
                assert forall|j: int| 0 <= j <= i implies #[trigger] views_of(r@)[j] == key_seq(self.pairs())[j] by {
                    assert(r@.len() == i + 1);
                    if j < i {
                        assert(r@[j] == before[j]);
                        assert(views_of(before)[j] == key_seq(self.pairs()).take(i as int)[j]);
                    } else {
                        assert(r@[j] == k);
                    }
                }
                assert(views_of(r@) =~= key_seq(self.pairs()).take(i + 1));
            }
            i += 1;
        }
        proof {
            assert(key_seq(self.pairs()).take(i as int) =~= key_seq(self.pairs()));
        }
        r
    }
}

} // verus!
