//! A table from string keys to values of any type, kept as a vector of
//! entries with distinct keys. Its view is a `Map` from the key's characters
//! to the stored value.
use crate::text::str_eq;
use vstd::prelude::*;

verus! {

/// Table from string keys to values; keys are distinct.
#[derive(Debug)]
pub struct KeyedTable<V> {
    entries: Vec<(String, V)>,
}

/// The entries of a table with their keys as character sequences.
pub open spec fn keyed_views<V>(entries: Seq<(String, V)>) -> Seq<(Seq<char>, V)> {
    entries.map_values(|e: (String, V)| (e.0@, e.1))
}

/// No key occurs twice.
pub open spec fn keys_distinct<V>(p: Seq<(Seq<char>, V)>) -> bool {
    forall|i: int, j: int| 0 <= i < p.len() && 0 <= j < p.len() && i != j ==> p[i].0 != p[j].0
}

/// Does some entry carry key `k`?
pub open spec fn holds_key<V>(p: Seq<(Seq<char>, V)>, k: Seq<char>) -> bool {
    exists|i: int| 0 <= i < p.len() && p[i].0 == k
}

/// The map that a list of entries with distinct keys denotes.
pub open spec fn keyed_map<V>(p: Seq<(Seq<char>, V)>) -> Map<Seq<char>, V> {
    Map::new(
        |k: Seq<char>| holds_key(p, k),
        |k: Seq<char>| p[choose|i: int| 0 <= i < p.len() && p[i].0 == k].1,
    )
}

/// Entry `i` of a list with distinct keys is what the map gives for its key.
pub proof fn lemma_keyed_map_at<V>(p: Seq<(Seq<char>, V)>, i: int)
    requires
        keys_distinct(p),
        0 <= i < p.len(),
    ensures
        keyed_map(p).contains_key(p[i].0),
        keyed_map(p)[p[i].0] == p[i].1,
{
    let k = p[i].0;
    assert(holds_key(p, k));
    let j = choose|j: int| 0 <= j < p.len() && p[j].0 == k;
    assert(j == i);
}

/// How many of the entries have a value that satisfies `pred`.
pub open spec fn rows_where<V>(p: Seq<(Seq<char>, V)>, pred: spec_fn(V) -> bool) -> nat
    decreases p.len(),
{
    if p.len() == 0 {
        0
    } else {
        rows_where(p.drop_last(), pred) + if pred(p.last().1) { 1nat } else { 0nat }
    }
}

/// The keys of a map whose value satisfies `pred`.
pub open spec fn keys_where<V>(m: Map<Seq<char>, V>, pred: spec_fn(V) -> bool) -> Set<Seq<char>> {
    m.dom().filter(|k: Seq<char>| pred(m[k]))
}

/// Appending an entry with a new key adds that key to the map.
pub proof fn lemma_keyed_map_push<V>(q: Seq<(Seq<char>, V)>, k: Seq<char>, v: V)
    requires
        keys_distinct(q.push((k, v))),
    ensures
        keyed_map(q.push((k, v))) == keyed_map(q).insert(k, v),
        !keyed_map(q).contains_key(k),
{
    let p = q.push((k, v));
    assert(keys_distinct(q)) by {
        assert forall|i: int, j: int| 0 <= i < q.len() && 0 <= j < q.len() && i != j implies q[i].0 != q[j].0 by {
            assert(p[i] == q[i] && p[j] == q[j]);
        }
    }
    if holds_key(q, k) {
        let j = choose|j: int| 0 <= j < q.len() && q[j].0 == k;
        assert(p[j].0 == p[q.len() as int].0);
    }
    assert forall|x: Seq<char>| #[trigger] keyed_map(p).contains_key(x) == keyed_map(q).insert(k, v).contains_key(x) by {
        if holds_key(q, x) {
            let j = choose|j: int| 0 <= j < q.len() && q[j].0 == x;
            assert(p[j].0 == x);
        }
        if x == k {
            assert(p[q.len() as int].0 == x);
        }
        if holds_key(p, x) && x != k {
            let j = choose|j: int| 0 <= j < p.len() && p[j].0 == x;
            assert(q[j].0 == x);
        }
    }
    assert forall|x: Seq<char>| #[trigger] keyed_map(p).contains_key(x) implies keyed_map(p)[x] == keyed_map(q).insert(
        k,
        v,
    )[x] by {
        let j = choose|j: int| 0 <= j < p.len() && p[j].0 == x;
        lemma_keyed_map_at(p, j);
        if j < q.len() {
            assert(q[j] == p[j]);
            lemma_keyed_map_at(q, j);
        }
    }
    assert(keyed_map(p) =~= keyed_map(q).insert(k, v));
}

/// Counting entries by their values counts the keys of the map.
pub proof fn lemma_rows_where_counts_keys<V>(p: Seq<(Seq<char>, V)>, pred: spec_fn(V) -> bool)
    requires
        keys_distinct(p),
    ensures
        keys_where(keyed_map(p), pred).finite(),
        keys_where(keyed_map(p), pred).len() == rows_where(p, pred),
    decreases p.len(),
{
    if p.len() == 0 {
        assert(keys_where(keyed_map(p), pred) =~= Set::<Seq<char>>::empty());
    } else {
        let q = p.drop_last();
        let k = p.last().0;
        let v = p.last().1;
        assert(p =~= q.push((k, v)));
        assert(keys_distinct(q)) by {
            assert forall|i: int, j: int| 0 <= i < q.len() && 0 <= j < q.len() && i != j implies q[i].0 != q[j].0 by {
                assert(p[i] == q[i] && p[j] == q[j]);
            }
        }
        lemma_rows_where_counts_keys(q, pred);
        lemma_keyed_map_push(q, k, v);
        let before = keys_where(keyed_map(q), pred);
        if pred(v) {
            assert(keys_where(keyed_map(p), pred) =~= before.insert(k));
        } else {
            assert(keys_where(keyed_map(p), pred) =~= before);
        }
    }
}

impl<V> View for KeyedTable<V> {
    type V = Map<Seq<char>, V>;

    closed spec fn view(&self) -> Map<Seq<char>, V> {
        keyed_map(self.rows())
    }
}

impl<V> KeyedTable<V> {
    #[verifier::type_invariant]
    spec fn inv(self) -> bool {
        keys_distinct(keyed_views(self.entries@))
    }

    /// The entries in the order their keys were first inserted.
    pub closed spec fn rows(&self) -> Seq<(Seq<char>, V)> {
        keyed_views(self.entries@)
    }

    proof fn lemma_view(&self)
        requires
            keys_distinct(self.rows()),
        ensures
            self@ == keyed_map(self.rows()),
            forall|i: int|
                0 <= i < self.rows().len() ==> #[trigger] self@.contains_key(self.rows()[i].0)
                    && self@[self.rows()[i].0] == self.rows()[i].1,
            forall|k: Seq<char>| #[trigger] self@.contains_key(k) <==> holds_key(self.rows(), k),
    {
        assert forall|i: int| 0 <= i < self.rows().len() implies #[trigger] self@.contains_key(
            self.rows()[i].0,
        ) && self@[self.rows()[i].0] == self.rows()[i].1 by {
            lemma_keyed_map_at(self.rows(), i);
        }
    }

    /// An empty table.
    pub fn new() -> (t: Self)
        ensures
            t@ == Map::<Seq<char>, V>::empty(),
    {
        let t = KeyedTable { entries: Vec::new() };
        assert(t@ =~= Map::<Seq<char>, V>::empty());
        t
    }

    /// Position of `key` among the entries, if present.
    fn find(&self, key: &str) -> (r: Option<usize>)
        ensures
            match r {
                Some(i) => i < self.rows().len() && self.rows()[i as int].0 == key@,
                None => !holds_key(self.rows(), key@),
            },
    {
        let mut i: usize = 0;
        while i < self.entries.len()
            invariant
                i <= self.entries@.len(),
                forall|j: int| 0 <= j < i ==> self.rows()[j].0 != key@,
            decreases self.entries@.len() - i,
        {
            if str_eq(self.entries[i].0.as_str(), key) {
                return Some(i);
            }
            i = i + 1;
        }
        None
    }

    /// The value stored under `key`.
    pub fn get(&self, key: &str) -> (r: Option<&V>)
        ensures
            match r {
                Some(v) => self@.contains_key(key@) && self@[key@] == *v,
                None => !self@.contains_key(key@),
            },
    {
        proof {
            use_type_invariant(self);
            self.lemma_view();
        }
        match self.find(key) {
            Some(i) => Some(&self.entries[i].1),
            None => None,
        }
    }

    /// Stores `value` under `key`, replacing an earlier value.
    pub fn insert(&mut self, key: String, value: V)
        ensures
            final(self)@ == old(self)@.insert(key@, value),
    {
        proof {
            use_type_invariant(&*self);
            self.lemma_view();
        }
        let ghost old_p = self.rows();
        let ghost old_v = self@;
        let ghost kv = key@;
        let ghost vv = value;
        match self.find(key.as_str()) {
            Some(i) => {
                let mut entries: Vec<(String, V)> = Vec::new();
                std::mem::swap(&mut entries, &mut self.entries);
                entries.set(i, (key, value));
                proof {
                    let np = keyed_views(entries@);
                    assert(np =~= old_p.update(i as int, (kv, vv)));
                    assert(keys_distinct(np));
                }
                self.entries = entries;
                proof {
                    self.lemma_view();
                    assert(self.rows() =~= old_p.update(i as int, (kv, vv)));
                    assert forall|k: Seq<char>| #[trigger]
                        self@.contains_key(k) == old_v.insert(kv, vv).contains_key(k) by {
                        if holds_key(old_p, k) {
                            let j = choose|j: int| 0 <= j < old_p.len() && old_p[j].0 == k;
                            assert(self.rows()[j].0 == k);
                        }
                        if holds_key(self.rows(), k) {
                            let j = choose|j: int| 0 <= j < self.rows().len() && self.rows()[j].0 == k;
                            if j != i {
                                assert(old_p[j].0 == k);
                            }
                        }
                    }
                    assert forall|k: Seq<char>| #[trigger]
                        self@.contains_key(k) implies self@[k] == old_v.insert(kv, vv)[k] by {
                        let j = choose|j: int| 0 <= j < self.rows().len() && self.rows()[j].0 == k;
                        assert(self@[self.rows()[j].0] == self.rows()[j].1);
                        if j != i {
                            assert(old_v[old_p[j].0] == old_p[j].1);
                        }
                    }
                    assert(self@ =~= old_v.insert(kv, vv));
                }
            },
            None => {
                let mut entries: Vec<(String, V)> = Vec::new();
                std::mem::swap(&mut entries, &mut self.entries);
                entries.push((key, value));
                proof {
                    let np = keyed_views(entries@);
                    assert(np =~= old_p.push((kv, vv)));
                    assert(keys_distinct(np));
                }
                self.entries = entries;
                proof {
                    self.lemma_view();
                    assert(self.rows() =~= old_p.push((kv, vv)));
                    assert forall|k: Seq<char>| #[trigger]
                        self@.contains_key(k) == old_v.insert(kv, vv).contains_key(k) by {
                        if holds_key(old_p, k) {
                            let j = choose|j: int| 0 <= j < old_p.len() && old_p[j].0 == k;
                            assert(self.rows()[j].0 == k);
                        }
                        if k == kv {
                            assert(self.rows()[old_p.len() as int].0 == k);
                        }
                        if holds_key(self.rows(), k) {
                            let j = choose|j: int| 0 <= j < self.rows().len() && self.rows()[j].0 == k;
                            if j < old_p.len() {
                                assert(old_p[j].0 == k);
                            }
                        }
                    }
                    assert forall|k: Seq<char>| #[trigger]
                        self@.contains_key(k) implies self@[k] == old_v.insert(kv, vv)[k] by {
                        let j = choose|j: int| 0 <= j < self.rows().len() && self.rows()[j].0 == k;
                        assert(self@[self.rows()[j].0] == self.rows()[j].1);
                        if j < old_p.len() {
                            assert(old_v[old_p[j].0] == old_p[j].1);
                        }
                    }
                    assert(self@ =~= old_v.insert(kv, vv));
                }
            },
        }
    }

    /// Number of entries, with the facts that tie the entries to the view.
    pub fn len(&self) -> (n: usize)
        ensures
            n == self.rows().len(),
            n == self@.dom().len(),
            self@.dom().finite(),
            keys_distinct(self.rows()),
            forall|i: int|
                0 <= i < self.rows().len() ==> #[trigger] self@.contains_key(self.rows()[i].0)
                    && self@[self.rows()[i].0] == self.rows()[i].1,
            forall|k: Seq<char>| #[trigger] self@.contains_key(k) <==> holds_key(self.rows(), k),
    {
        proof {
            use_type_invariant(self);
            self.lemma_view();
            self.lemma_domain_size();
        }
        self.entries.len()
    }

    /// The view has exactly one key per entry.
    proof fn lemma_domain_size(&self)
        requires
            keys_distinct(self.rows()),
            self@ == keyed_map(self.rows()),
            forall|k: Seq<char>| #[trigger] self@.contains_key(k) <==> holds_key(self.rows(), k),
        ensures
            self@.dom().finite(),
            self@.dom().len() == self.rows().len(),
    {
        let p = self.rows();
        let ks = p.map_values(|e: (Seq<char>, V)| e.0);
        assert(ks.no_duplicates()) by {
            assert forall|i: int, j: int| 0 <= i < ks.len() && 0 <= j < ks.len() && i != j implies ks[i] != ks[j] by {
                assert(ks[i] == p[i].0);
                assert(ks[j] == p[j].0);
            }
        }
        assert(self@.dom() =~= ks.to_set()) by {
            assert forall|k: Seq<char>| self@.dom().contains(k) implies ks.to_set().contains(k) by {
                let i = choose|i: int| 0 <= i < p.len() && p[i].0 == k;
                assert(ks[i] == k);
            }
            assert forall|k: Seq<char>| ks.to_set().contains(k) implies self@.dom().contains(k) by {
                let i = choose|i: int| 0 <= i < ks.len() && ks[i] == k;
                assert(p[i].0 == k);
                assert(holds_key(p, k));
            }
        }
        ks.unique_seq_to_set();
        vstd::seq_lib::seq_to_set_is_finite(ks);
    }

    /// Counting the entries by their values counts the keys of the view.
    pub proof fn lemma_count_keys(&self, pred: spec_fn(V) -> bool)
        requires
            keys_distinct(self.rows()),
        ensures
            keys_where(self@, pred).finite(),
            keys_where(self@, pred).len() == rows_where(self.rows(), pred),
    {
        lemma_rows_where_counts_keys(self.rows(), pred);
    }

    /// Key and value of entry `i`.
    pub fn entry_at(&self, i: usize) -> (kv: (&String, &V))
        requires
            i < self.rows().len(),
        ensures
            kv.0@ == self.rows()[i as int].0,
            *kv.1 == self.rows()[i as int].1,
    {
        let e = &self.entries[i];
        (&e.0, &e.1)
    }

    /// Removes `key`, returning its value if it was present.
    pub fn remove(&mut self, key: &str) -> (r: Option<V>)
        ensures
            final(self)@ == old(self)@.remove(key@),
            match r {
                Some(v) => old(self)@.contains_key(key@) && old(self)@[key@] == v,
                None => !old(self)@.contains_key(key@),
            },
    {
        proof {
            use_type_invariant(&*self);
            self.lemma_view();
        }
        let ghost old_p = self.rows();
        let ghost old_v = self@;
        match self.find(key) {
            Some(i) => {
                let mut entries: Vec<(String, V)> = Vec::new();
                std::mem::swap(&mut entries, &mut self.entries);
                let (_k, v) = entries.remove(i);
                proof {
                    let np = keyed_views(entries@);
                    assert(np =~= old_p.remove(i as int));
                    assert forall|a: int, b: int|
                        0 <= a < np.len() && 0 <= b < np.len() && a != b implies np[a].0 != np[b].0 by {
                        let a2 = if a < i { a } else { a + 1 };
                        let b2 = if b < i { b } else { b + 1 };
                        assert(np[a] == old_p[a2]);
                        assert(np[b] == old_p[b2]);
                    }
                }
                self.entries = entries;
                proof {
                    self.lemma_view();
                    let np = self.rows();
                    assert(np =~= old_p.remove(i as int));
                    assert forall|k: Seq<char>| #[trigger]
                        self@.contains_key(k) == old_v.remove(key@).contains_key(k) by {
                        if holds_key(old_p, k) && k != key@ {
                            let j = choose|j: int| 0 <= j < old_p.len() && old_p[j].0 == k;
                            let j2 = if j < i { j } else { j - 1 };
                            assert(np[j2].0 == k);
                        }
                        if holds_key(np, k) {
                            let j = choose|j: int| 0 <= j < np.len() && np[j].0 == k;
                            let j2 = if j < i { j } else { j + 1 };
                            assert(old_p[j2].0 == k);
                        }
                    }
                    assert forall|k: Seq<char>| #[trigger]
                        self@.contains_key(k) implies self@[k] == old_v.remove(key@)[k] by {
                        let j = choose|j: int| 0 <= j < np.len() && np[j].0 == k;
                        let j2 = if j < i { j } else { j + 1 };
                        assert(self@[np[j].0] == np[j].1);
                        assert(old_v[old_p[j2].0] == old_p[j2].1);
                    }
                    assert(self@ =~= old_v.remove(key@));
                    assert(old_v[old_p[i as int].0] == old_p[i as int].1);
                }
                Some(v)
            },
            None => {
                proof {
                    assert(old_v.remove(key@) =~= old_v);
                }
                None
            },
        }
    }
}

} // verus!
