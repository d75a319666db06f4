//! An ordered table: a map kept as a vector of entries, sorted by key.
//!
//! Lookups search by bisection. Entries come out in the order of their keys, and
//! no key occurs twice.

use vstd::prelude::*;

use crate::text::Order;

verus! {

/// A key of a [`Table`]: something with a mathematical value that is totally
/// ordered.
pub trait TableKey: Sized {
    /// What the key stands for. Two keys are the same where these are equal.
    type Value;

    /// The value that the key stands for.
    spec fn key(&self) -> Self::Value;

    /// The strict order of keys.
    spec fn lt(a: Self::Value, b: Self::Value) -> bool;

    proof fn lt_irreflexive(a: Self::Value)
        ensures
            !Self::lt(a, a),
    ;

    proof fn lt_transitive(a: Self::Value, b: Self::Value, c: Self::Value)
        requires
            Self::lt(a, b),
            Self::lt(b, c),
        ensures
            Self::lt(a, c),
    ;

    /// Compares two keys.
    fn order(&self, other: &Self) -> (r: Order)
        ensures
            r == Order::Less <==> Self::lt(self.key(), other.key()),
            r == Order::Equal <==> self.key() == other.key(),
            r == Order::Greater <==> Self::lt(other.key(), self.key()),
    ;

    /// Another key for the same value.
    fn copy_key(&self) -> (r: Self)
        ensures
            r.key() == self.key(),
    ;
}

/// A map from keys to values, sorted by key.
#[derive(Debug)]
pub struct Table<K: TableKey, V> {
    entries: Vec<(K, V)>,
}

impl<K: TableKey, V> View for Table<K, V> {
    type V = Map<K::Value, V>;

    closed spec fn view(&self) -> Map<K::Value, V> {
        Map::new(
            |k: K::Value| exists|i: int| #[trigger] has_key_at(self.entries@, i, k),
            |k: K::Value| self.entries@[choose|i: int| #[trigger] has_key_at(self.entries@, i, k)].1,
        )
    }
}

spec fn has_key_at<K: TableKey, V>(entries: Seq<(K, V)>, i: int, k: K::Value) -> bool {
    0 <= i < entries.len() && entries[i].0.key() == k
}

spec fn sorted<K: TableKey, V>(entries: Seq<(K, V)>) -> bool {
    forall|i: int, j: int|
        0 <= i < j < entries.len() ==> K::lt(
            #[trigger] entries[i].0.key(),
            #[trigger] entries[j].0.key(),
        )
}

proof fn lemma_unique<K: TableKey, V>(entries: Seq<(K, V)>, i: int, j: int, k: K::Value)
    requires
        sorted(entries),
        has_key_at(entries, i, k),
        has_key_at(entries, j, k),
    ensures
        i == j,
{
    K::lt_irreflexive(k);
    if i < j {
        assert(K::lt(entries[i].0.key(), entries[j].0.key()));
    } else if j < i {
        assert(K::lt(entries[j].0.key(), entries[i].0.key()));
    }
}

impl<K: TableKey, V> Table<K, V> {
    #[verifier::type_invariant]
    spec fn is_sorted(self) -> bool {
        sorted(self.entries@)
    }

    /// The keys, in ascending order.
    pub closed spec fn keys(self) -> Seq<K::Value> {
        self.entries@.map_values(|e: (K, V)| e.0.key())
    }

    proof fn lemma_entry(self, i: int)
        requires
            sorted(self.entries@),
            0 <= i < self.entries@.len(),
        ensures
            self@.dom().contains(self.entries@[i].0.key()),
            self@[self.entries@[i].0.key()] == self.entries@[i].1,
    {
        let k = self.entries@[i].0.key();
        assert(has_key_at(self.entries@, i, k));
        let j = choose|j: int| #[trigger] has_key_at(self.entries@, j, k);
        lemma_unique(self.entries@, i, j, k);
    }

    proof fn lemma_keys(self)
        requires
            sorted(self.entries@),
        ensures
            self.keys().len() == self.entries@.len(),
            self.keys().no_duplicates(),
            forall|k: K::Value| #[trigger] self@.dom().contains(k) <==> self.keys().contains(k),
            self.keys().to_set() == self@.dom(),
    {
        let keys = self.keys();
        assert forall|i: int, j: int| 0 <= i < keys.len() && 0 <= j < keys.len() && i
            != j implies keys[i] != keys[j] by {
            if keys[i] == keys[j] {
                assert(has_key_at(self.entries@, i, keys[i]));
                assert(has_key_at(self.entries@, j, keys[i]));
                lemma_unique(self.entries@, i, j, keys[i]);
            }
        }
        assert forall|k: K::Value| #[trigger] self@.dom().contains(k) <==> keys.contains(k) by {
            if self@.dom().contains(k) {
                let i = choose|i: int| #[trigger] has_key_at(self.entries@, i, k);
                assert(keys[i] == k);
            }
            if keys.contains(k) {
                let i = choose|i: int| 0 <= i < keys.len() && keys[i] == k;
                assert(has_key_at(self.entries@, i, k));
            }
        }
        assert(keys.to_set() =~= self@.dom());
    }

    /// An empty table.
    pub fn new() -> (t: Self)
        ensures
            t@ == Map::<K::Value, V>::empty(),
    {
        let t = Table { entries: Vec::new() };
        assert(t@ =~= Map::<K::Value, V>::empty());
        t
    }

    /// How many keys the table holds.
    pub fn len(&self) -> (n: usize)
        ensures
            n == self.keys().len(),
            n == self@.len(),
            self@.dom().finite(),
            self.keys().no_duplicates(),
            forall|k: K::Value| #[trigger] self@.dom().contains(k) <==> self.keys().contains(k),
    {
        proof {
            use_type_invariant(self);
            self.lemma_keys();
            self.keys().unique_seq_to_set();
        }
        self.entries.len()
    }

    /// The key at a position.
    pub fn key_at(&self, i: usize) -> (k: &K)
        requires
            i < self.keys().len(),
        ensures
            k.key() == self.keys()[i as int],
            self@.dom().contains(k.key()),
    {
        proof {
            use_type_invariant(self);
            self.lemma_entry(i as int);
        }
        &self.entries[i].0
    }

    /// The value at a position.
    pub fn value_at(&self, i: usize) -> (v: &V)
        requires
            i < self.keys().len(),
        ensures
            self@.dom().contains(self.keys()[i as int]),
            *v == self@[self.keys()[i as int]],
    {
        proof {
            use_type_invariant(self);
            self.lemma_entry(i as int);
        }
        &self.entries[i].1
    }

    /// Where a key stands (`Ok`), or where it would have to stand (`Err`).
    fn find(&self, k: &K) -> (r: Result<usize, usize>)
        ensures
            match r {
                Ok(i) => has_key_at(self.entries@, i as int, k.key()),
                Err(i) => {
                    &&& i <= self.entries@.len()
                    &&& forall|j: int| #![trigger self.entries@[j].0.key()]
                        0 <= j < i ==> K::lt(self.entries@[j].0.key(), k.key())
                    &&& forall|j: int| #![trigger self.entries@[j].0.key()]
                        i <= j < self.entries@.len() ==> K::lt(k.key(), self.entries@[j].0.key())
                },
            },
    {
        proof {
            use_type_invariant(self);
        }
        let mut low: usize = 0;
        let mut high: usize = self.entries.len();
        while low < high
            invariant
                sorted(self.entries@),
                low <= high <= self.entries@.len(),
                forall|j: int| #![trigger self.entries@[j].0.key()]
                    0 <= j < low ==> K::lt(self.entries@[j].0.key(), k.key()),
                forall|j: int| #![trigger self.entries@[j].0.key()]
                    high <= j < self.entries@.len() ==> K::lt(k.key(), self.entries@[j].0.key()),
            decreases high - low,
        {
            let mid: usize = low + (high - low) / 2;
            match self.entries[mid].0.order(k) {
                Order::Equal => {
                    return Ok(mid);
                },
                Order::Less => {
                    proof {
                        assert forall|j: int| #![trigger self.entries@[j].0.key()]
                            0 <= j < mid + 1 implies K::lt(self.entries@[j].0.key(), k.key()) by {
                            if j < mid {
                                K::lt_transitive(
                                    self.entries@[j].0.key(),
                                    self.entries@[mid as int].0.key(),
                                    k.key(),
                                );
                            }
                        }
                    }
                    low = mid + 1;
                },
                Order::Greater => {
                    proof {
                        assert forall|j: int| #![trigger self.entries@[j].0.key()]
                            mid <= j < self.entries@.len() implies K::lt(
                            k.key(),
                            self.entries@[j].0.key(),
                        ) by {
                            if mid < j {
                                K::lt_transitive(
                                    k.key(),
                                    self.entries@[mid as int].0.key(),
                                    self.entries@[j].0.key(),
                                );
                            }
                        }
                    }
                    high = mid;
                },
            }
        }
        Err(low)
    }

    /// A key that belongs between two neighbours does not occur.
    proof fn lemma_absent(self, i: int, k: K::Value)
        requires
            sorted(self.entries@),
            0 <= i <= self.entries@.len(),
            forall|j: int| #![trigger self.entries@[j].0.key()]
                0 <= j < i ==> K::lt(self.entries@[j].0.key(), k),
            forall|j: int| #![trigger self.entries@[j].0.key()]
                i <= j < self.entries@.len() ==> K::lt(k, self.entries@[j].0.key()),
        ensures
            !self@.dom().contains(k),
    {
        if self@.dom().contains(k) {
            let j = choose|j: int| #[trigger] has_key_at(self.entries@, j, k);
            K::lt_irreflexive(k);
            assert(self.entries@[j].0.key() == k);
        }
    }

    /// Whether the table holds a key.
    pub fn contains(&self, k: &K) -> (r: bool)
        ensures
            r == self@.dom().contains(k.key()),
    {
        self.get(k).is_some()
    }

    /// The value of a key.
    pub fn get(&self, k: &K) -> (r: Option<&V>)
        ensures
            match r {
                Some(v) => self@.dom().contains(k.key()) && *v == self@[k.key()],
                None => !self@.dom().contains(k.key()),
            },
    {
        proof {
            use_type_invariant(self);
        }
        match self.find(k) {
            Ok(i) => {
                proof {
                    self.lemma_entry(i as int);
                }
                Some(&self.entries[i].1)
            },
            Err(i) => {
                proof {
                    self.lemma_absent(i as int, k.key());
                }
                None
            },
        }
    }

    /// Sets the value of a key and returns the value that it had.
    pub fn insert(&mut self, k: K, v: V) -> (r: Option<V>)
        ensures
            final(self)@ == old(self)@.insert(k.key(), v),
            match r {
                Some(w) => old(self)@.dom().contains(k.key()) && w == old(self)@[k.key()],
                None => !old(self)@.dom().contains(k.key()),
            },
    {
        proof {
            use_type_invariant(&*self);
        }
        let found = self.find(&k);
        let ghost before = *self;
        let mut entries: Vec<(K, V)> = Vec::new();
        std::mem::swap(&mut entries, &mut self.entries);
        let ghost es = entries@;
        let ghost key = k.key();
        let mut r: Option<V> = None;
        match found {
            Ok(i) => {
                proof {
                    before.lemma_entry(i as int);
                }
                let (_, w) = entries.remove(i);
                entries.insert(i, (k, v));
                r = Some(w);
                assert(entries@ =~= es.update(i as int, (k, v)));
            },
            Err(i) => {
                proof {
                    before.lemma_absent(i as int, key);
                }
                entries.insert(i, (k, v));
                assert(entries@ =~= es.take(i as int).push((k, v)) + es.skip(i as int));
            },
        }
        proof {
            let ghost after = entries@;
            let ghost i: int = match found {
                Ok(i) => i as int,
                Err(i) => i as int,
            };
            assert(after[i].0.key() == key);
            assert(after[i].1 == v);
            assert forall|a: int, b: int| 0 <= a < b < after.len() implies K::lt(
                #[trigger] after[a].0.key(),
                #[trigger] after[b].0.key(),
            ) by {
                if found is Ok {
                    assert(K::lt(es[a].0.key(), es[b].0.key()));
                } else {
                    let pa = if a < i { a } else { a - 1 };
                    let pb = if b < i { b } else { b - 1 };
                    if a != i && b != i {
                        assert(K::lt(es[pa].0.key(), es[pb].0.key()));
                    } else if a == i {
                        assert(K::lt(key, es[pb].0.key()));
                    } else {
                        assert(K::lt(es[pa].0.key(), key));
                    }
                }
            }
        }
        let ghost after = entries@;
        self.entries = entries;
        proof {
            let i: int = match found {
                Ok(i) => i as int,
                Err(i) => i as int,
            };
            let goal = before@.insert(key, v);
            assert forall|x: K::Value| #[trigger] self@.dom().contains(x) <==> goal.dom().contains(
                x,
            ) by {
                if self@.dom().contains(x) {
                    let j = choose|j: int| #[trigger] has_key_at(after, j, x);
                    if j != i {
                        let p = if found is Ok || j < i { j } else { j - 1 };
                        assert(has_key_at(es, p, x));
                    }
                }
                if goal.dom().contains(x) {
                    if x == key {
                        assert(has_key_at(after, i, x));
                    } else {
                        let j = choose|j: int| #[trigger] has_key_at(es, j, x);
                        let p = if found is Ok || j < i { j } else { j + 1 };
                        assert(has_key_at(after, p, x));
                    }
                }
            }
            assert forall|x: K::Value| #[trigger] self@.dom().contains(x) implies self@[x]
                == goal[x] by {
                let j = choose|j: int| #[trigger] has_key_at(after, j, x);
                self.lemma_entry(j);
                if j != i {
                    let p = if found is Ok || j < i { j } else { j - 1 };
                    before.lemma_entry(p);
                    self.lemma_entry(i);
                    if x == key {
                        assert(has_key_at(after, i, x));
                        lemma_unique(after, i, j, x);
                    }
                }
            }
            assert(self@ =~= goal);
        }
        r
    }

    /// Takes a key out of the table and returns the value that it had.
    pub fn remove(&mut self, k: &K) -> (r: Option<V>)
        ensures
            final(self)@ == old(self)@.remove(k.key()),
            match r {
                Some(w) => old(self)@.dom().contains(k.key()) && w == old(self)@[k.key()],
                None => !old(self)@.dom().contains(k.key()),
            },
    {
        proof {
            use_type_invariant(&*self);
        }
        let ghost before = *self;
        let ghost key = k.key();
        match self.find(k) {
            Ok(i) => {
                proof {
                    before.lemma_entry(i as int);
                }
                let mut entries: Vec<(K, V)> = Vec::new();
                std::mem::swap(&mut entries, &mut self.entries);
                let ghost es = entries@;
                let (_, w) = entries.remove(i);
                let ghost after = entries@;
                assert(after =~= es.take(i as int) + es.skip(i + 1));
                proof {
                    assert forall|a: int, b: int| 0 <= a < b < after.len() implies K::lt(
                        #[trigger] after[a].0.key(),
                        #[trigger] after[b].0.key(),
                    ) by {
                        let pa = if a < i { a } else { a + 1 };
                        let pb = if b < i { b } else { b + 1 };
                        assert(K::lt(es[pa].0.key(), es[pb].0.key()));
                    }
                }
                self.entries = entries;
                proof {
                    let goal = before@.remove(key);
                    assert forall|x: K::Value| #[trigger]
                        self@.dom().contains(x) <==> goal.dom().contains(x) by {
                        if self@.dom().contains(x) {
                            let j = choose|j: int| #[trigger] has_key_at(after, j, x);
                            let p = if j < i { j } else { j + 1 };
                            assert(has_key_at(es, p, x));
                            if x == key {
                                lemma_unique(es, p, i as int, x);
                            }
                        }
                        if goal.dom().contains(x) {
                            let j = choose|j: int| #[trigger] has_key_at(es, j, x);
                            let p = if j < i { j } else { j - 1 };
                            assert(has_key_at(after, p, x));
                        }
                    }
                    assert forall|x: K::Value| #[trigger] self@.dom().contains(x) implies self@[x]
                        == goal[x] by {
                        let j = choose|j: int| #[trigger] has_key_at(after, j, x);
                        self.lemma_entry(j);
                        before.lemma_entry(if j < i { j } else { j + 1 });
                    }
                    assert(self@ =~= goal);
                }
                Some(w)
            },
            Err(i) => {
                proof {
                    before.lemma_absent(i as int, key);
                    assert(before@ =~= before@.remove(key));
                }
                None
            },
        }
    }
}

impl<K: TableKey, V: Clone> Clone for Table<K, V> {
    fn clone(&self) -> (r: Self)
        ensures
            r.keys() == self.keys(),
            r@.dom() == self@.dom(),
            forall|k: K::Value| #[trigger]
                r@.dom().contains(k) ==> cloned(self@[k], r@[k]),
    {
        proof {
            use_type_invariant(self);
        }
        let mut entries: Vec<(K, V)> = Vec::new();
        let n = self.entries.len();
        let mut i: usize = 0;
        while i < n
            invariant
                n == self.entries@.len(),
                i <= n,
                entries@.len() == i,
                forall|j: int| #![trigger entries@[j]]
                    0 <= j < i ==> entries@[j].0.key() == self.entries@[j].0.key() && cloned(
                        self.entries@[j].1,
                        entries@[j].1,
                    ),
            decreases n - i,
        {
            let k = self.entries[i].0.copy_key();
            let v = self.entries[i].1.clone();
            entries.push((k, v));
            i = i + 1;
        }
        proof {
            assert forall|a: int, b: int| 0 <= a < b < entries@.len() implies K::lt(
                #[trigger] entries@[a].0.key(),
                #[trigger] entries@[b].0.key(),
            ) by {
                assert(K::lt(self.entries@[a].0.key(), self.entries@[b].0.key()));
            }
        }
        let r = Table { entries };
        proof {
            assert(r.keys() =~= self.keys());
            r.lemma_keys();
            self.lemma_keys();
            assert(r@.dom() =~= self@.dom());
            assert forall|k: K::Value| #[trigger] r@.dom().contains(k) implies cloned(
                self@[k],
                r@[k],
            ) by {
                let j = choose|j: int| #[trigger] has_key_at(r.entries@, j, k);
                assert(entries@[j].0.key() == self.entries@[j].0.key());
                r.lemma_entry(j);
                self.lemma_entry(j);
            }
        }
        r
    }
}

/// What was put in is found, and putting it in changes nothing else.
pub proof fn law_what_was_put_in_is_found<K: TableKey, V>(
    t: &mut Table<K, V>,
    k: K,
    v: V,
    before: Option<V>,
    other: K::Value,
)
    requires
        call_ensures(Table::<K, V>::insert, (t, k, v), before),
    ensures
        final(t)@.contains_key(k.key()) && final(t)@[k.key()] == v,
        other != k.key() ==> final(t)@.contains_key(other) == old(t)@.contains_key(other),
        other != k.key() && old(t)@.contains_key(other) ==> final(t)@[other] == old(t)@[other],
        before is Some <==> old(t)@.contains_key(k.key()),
        before matches Some(w) ==> w == old(t)@[k.key()],
{
}

/// What was taken out is not found, and taking it out changes nothing else.
pub proof fn law_what_was_taken_out_is_gone<K: TableKey, V>(
    t: &mut Table<K, V>,
    k: &K,
    taken: Option<V>,
    other: K::Value,
)
    requires
        call_ensures(Table::<K, V>::remove, (t, k), taken),
    ensures
        !final(t)@.contains_key(k.key()),
        other != k.key() ==> final(t)@.contains_key(other) == old(t)@.contains_key(other),
        other != k.key() && old(t)@.contains_key(other) ==> final(t)@[other] == old(t)@[other],
        taken is Some <==> old(t)@.contains_key(k.key()),
        taken matches Some(w) ==> w == old(t)@[k.key()],
{
}

} // verus!
