//! A string-to-string map kept as a vector of entries with distinct keys.
//!
//! Request metadata, agent labels, pool selectors and the routing table are all
//! small string maps; this type gives them a `Map` view that contracts can use.
use crate::text::str_eq;
use vstd::prelude::*;

verus! {

/// Map from string keys to string values; keys are distinct.
#[derive(Debug)]
pub struct StringMap {
    entries: Vec<(String, String)>,
}

/// The entries of a map as pairs of character sequences.
pub open spec fn entry_views(entries: Seq<(String, String)>) -> Seq<(Seq<char>, Seq<char>)> {
    entries.map_values(|e: (String, String)| (e.0@, e.1@))
}

/// No key occurs twice.
pub open spec fn distinct_keys(p: Seq<(Seq<char>, Seq<char>)>) -> bool {
    forall|i: int, j: int| 0 <= i < p.len() && 0 <= j < p.len() && i != j ==> p[i].0 != p[j].0
}

/// Does some entry carry key `k`?
pub open spec fn has_key(p: Seq<(Seq<char>, Seq<char>)>, k: Seq<char>) -> bool {
    exists|i: int| 0 <= i < p.len() && p[i].0 == k
}

/// The map that a list of entries with distinct keys denotes.
pub open spec fn pairs_to_map(p: Seq<(Seq<char>, Seq<char>)>) -> Map<Seq<char>, Seq<char>> {
    Map::new(
        |k: Seq<char>| has_key(p, k),
        |k: Seq<char>| p[choose|i: int| 0 <= i < p.len() && p[i].0 == k].1,
    )
}

/// Entry `i` of a list with distinct keys is what the map gives for its key.
pub proof fn lemma_pairs_to_map_at(p: Seq<(Seq<char>, Seq<char>)>, i: int)
    requires
        distinct_keys(p),
        0 <= i < p.len(),
    ensures
        pairs_to_map(p).contains_key(p[i].0),
        pairs_to_map(p)[p[i].0] == p[i].1,
{
    let k = p[i].0;
    assert(has_key(p, k));
    let j = choose|j: int| 0 <= j < p.len() && p[j].0 == k;
    assert(j == i);
}

impl Clone for StringMap {
    fn clone(&self) -> (c: Self)
        ensures
            c@ == self@,
            c.pairs() == self.pairs(),
    {
        proof {
            use_type_invariant(self);
        }
        let mut entries: Vec<(String, String)> = Vec::new();
        let mut i: usize = 0;
        while i < self.entries.len()
            invariant
                i <= self.entries@.len(),
                entry_views(entries@) =~= entry_views(self.entries@).take(i as int),
            decreases self.entries@.len() - i,
        {
            let k = self.entries[i].0.clone();
            let v = self.entries[i].1.clone();
            let ghost before = entries@;
            entries.push((k, v));
            proof {
                assert(entries@ =~= before.push((k, v)));
                assert(entry_views(entries@) =~= entry_views(before).push((k@, v@)));
                assert(entry_views(self.entries@).take(i + 1) =~= entry_views(
                    self.entries@,
                ).take(i as int).push(entry_views(self.entries@)[i as int]));
            }
            i = i + 1;
        }
        proof {
            assert(entry_views(self.entries@).take(i as int) =~= entry_views(self.entries@));
        }
        StringMap { entries }
    }
}

impl View for StringMap {
    type V = Map<Seq<char>, Seq<char>>;

    closed spec fn view(&self) -> Map<Seq<char>, Seq<char>> {
        pairs_to_map(self.pairs())
    }
}

impl StringMap {
    #[verifier::type_invariant]
    spec fn inv(self) -> bool {
        distinct_keys(entry_views(self.entries@))
    }

    /// The entries in the order they were first inserted.
    pub closed spec fn pairs(&self) -> Seq<(Seq<char>, Seq<char>)> {
        entry_views(self.entries@)
    }

    proof fn lemma_view(&self)
        requires
            distinct_keys(self.pairs()),
        ensures
            distinct_keys(self.pairs()),
            self@ == pairs_to_map(self.pairs()),
            forall|i: int|
                0 <= i < self.pairs().len() ==> #[trigger] self@.contains_key(self.pairs()[i].0)
                    && self@[self.pairs()[i].0] == self.pairs()[i].1,
            forall|k: Seq<char>| #[trigger]
                self@.contains_key(k) <==> has_key(self.pairs(), k),
    {
        assert forall|i: int| 0 <= i < self.pairs().len() implies #[trigger] self@.contains_key(
            self.pairs()[i].0,
        ) && self@[self.pairs()[i].0] == self.pairs()[i].1 by {
            lemma_pairs_to_map_at(self.pairs(), i);
        }
    }

    /// An empty map.
    pub fn new() -> (m: Self)
        ensures
            m@ == Map::<Seq<char>, Seq<char>>::empty(),
            m.pairs().len() == 0,
    {
        let m = StringMap { entries: Vec::new() };
        assert(m@ =~= Map::<Seq<char>, Seq<char>>::empty());
        m
    }

    /// Number of entries; also tells that the entries have distinct keys and
    /// are exactly the view's key/value pairs.
    pub fn len(&self) -> (n: usize)
        ensures
            n == self.pairs().len(),
            n == self@.dom().len(),
            self@.dom().finite(),
            distinct_keys(self.pairs()),
            forall|i: int|
                0 <= i < self.pairs().len() ==> #[trigger] self@.contains_key(self.pairs()[i].0)
                    && self@[self.pairs()[i].0] == self.pairs()[i].1,
            forall|k: Seq<char>| #[trigger]
                self@.contains_key(k) <==> has_key(self.pairs(), k),
    {
        proof {
            use_type_invariant(self);
            self.lemma_view();
            self.lemma_domain_size();
        }
        self.entries.len()
    }

    /// The view has exactly one key per entry.
    proof fn lemma_domain_size(&self)
        requires
            distinct_keys(self.pairs()),
            self@ == pairs_to_map(self.pairs()),
            forall|k: Seq<char>| #[trigger] self@.contains_key(k) <==> has_key(self.pairs(), k),
        ensures
            self@.dom().finite(),
            self@.dom().len() == self.pairs().len(),
    {
        let p = self.pairs();
        let ks = p.map_values(|e: (Seq<char>, Seq<char>)| e.0);
        assert(ks.no_duplicates()) by {
            assert forall|i: int, j: int| 0 <= i < ks.len() && 0 <= j < ks.len() && i != j implies ks[i] != ks[j] by {
                assert(ks[i] == p[i].0);
                assert(ks[j] == p[j].0);
            }
        }
        assert(self@.dom() =~= ks.to_set()) by {
            assert forall|k: Seq<char>| self@.dom().contains(k) implies ks.to_set().contains(k) by {
                let i = choose|i: int| 0 <= i < p.len() && p[i].0 == k;
                assert(ks[i] == k);
            }
            assert forall|k: Seq<char>| ks.to_set().contains(k) implies self@.dom().contains(k) by {
                let i = choose|i: int| 0 <= i < ks.len() && ks[i] == k;
                assert(p[i].0 == k);
                assert(has_key(p, k));
            }
        }
        ks.unique_seq_to_set();
        vstd::seq_lib::seq_to_set_is_finite(ks);
    }

    /// Is the map empty?
    pub fn is_empty(&self) -> (b: bool)
        ensures
            b == (self.pairs().len() == 0),
            b == (self@ == Map::<Seq<char>, Seq<char>>::empty()),
    {
        proof {
            use_type_invariant(self);
            self.lemma_view();
            if self.pairs().len() > 0 {
                assert(self@.contains_key(self.pairs()[0].0));
            } else {
                assert(self@ =~= Map::<Seq<char>, Seq<char>>::empty());
            }
        }
        self.entries.len() == 0
    }

    /// Key and value of entry `i`.
    pub fn entry_at(&self, i: usize) -> (kv: (&String, &String))
        requires
            i < self.pairs().len(),
        ensures
            kv.0@ == self.pairs()[i as int].0,
            kv.1@ == self.pairs()[i as int].1,
    {
        let e = &self.entries[i];
        (&e.0, &e.1)
    }

    /// Position of `key` among the entries, if present.
    fn find(&self, key: &str) -> (r: Option<usize>)
        ensures
            match r {
                Some(i) => i < self.pairs().len() && self.pairs()[i as int].0 == key@,
                None => !has_key(self.pairs(), key@),
            },
    {
        let mut i: usize = 0;
        while i < self.entries.len()
            invariant
                i <= self.entries@.len(),
                forall|j: int| 0 <= j < i ==> self.pairs()[j].0 != key@,
            decreases self.entries@.len() - i,
        {
            if str_eq(self.entries[i].0.as_str(), key) {
                return Some(i);
            }
            i = i + 1;
        }
        None
    }

    /// Value stored under `key`.
    pub fn get(&self, key: &str) -> (r: Option<&String>)
        ensures
            match r {
                Some(v) => self@.contains_key(key@) && self@[key@] == v@,
                None => !self@.contains_key(key@),
            },
    {
        proof {
            use_type_invariant(self);
            self.lemma_view();
        }
        match self.find(key) {
            Some(i) => Some(&self.entries[i].1),
            None => None,
        }
    }

    /// Is `key` present?
    pub fn contains_key(&self, key: &str) -> (b: bool)
        ensures
            b == self@.contains_key(key@),
    {
        proof {
            use_type_invariant(self);
            self.lemma_view();
        }
        self.find(key).is_some()
    }

    /// Stores `value` under `key`, replacing an earlier value; a new key goes
    /// after the existing entries.
    pub fn insert(&mut self, key: String, value: String)
        ensures
            final(self)@ == old(self)@.insert(key@, value@),
            has_key(old(self).pairs(), key@) ==> final(self).pairs().len() == old(
                self,
            ).pairs().len(),
            !has_key(old(self).pairs(), key@) ==> final(self).pairs() == old(self).pairs().push(
                (key@, value@),
            ),
    {
        proof {
            use_type_invariant(&*self);
            self.lemma_view();
        }
        let ghost old_p = self.pairs();
        let ghost old_v = self@;
        match self.find(key.as_str()) {
            Some(i) => {
                let ghost kv = key@;
                let ghost vv = value@;
                let mut entries: Vec<(String, String)> = Vec::new();
                std::mem::swap(&mut entries, &mut self.entries);
                entries.set(i, (key, value));
                proof {
                    let np = entry_views(entries@);
                    assert(np =~= old_p.update(i as int, (kv, vv)));
                    assert(distinct_keys(np));
                }
                self.entries = entries;
                proof {
                    self.lemma_view();
                    assert(self.pairs() =~= old_p.update(i as int, (kv, vv)));
                    assert forall|k: Seq<char>| #[trigger]
                        self@.contains_key(k) == old_v.insert(kv, vv).contains_key(k) by {
                        if has_key(old_p, k) {
                            let j = choose|j: int| 0 <= j < old_p.len() && old_p[j].0 == k;
                            assert(self.pairs()[j].0 == k);
                        }
                        if has_key(self.pairs(), k) {
                            let j = choose|j: int| 0 <= j < self.pairs().len() && self.pairs()[j].0 == k;
                            if j != i {
                                assert(old_p[j].0 == k);
                            }
                        }
                    }
                    assert forall|k: Seq<char>| #[trigger]
                        self@.contains_key(k) implies self@[k] == old_v.insert(kv, vv)[k] by {
                        let j = choose|j: int| 0 <= j < self.pairs().len() && self.pairs()[j].0 == k;
                        assert(self@[self.pairs()[j].0] == self.pairs()[j].1);
                        if j != i {
                            assert(old_v[old_p[j].0] == old_p[j].1);
                        }
                    }
                    assert(self@ =~= old_v.insert(kv, vv));
                }
            },
            None => {
                let ghost kv = key@;
                let ghost vv = value@;
                let mut entries: Vec<(String, String)> = Vec::new();
                std::mem::swap(&mut entries, &mut self.entries);
                entries.push((key, value));
                proof {
                    let np = entry_views(entries@);
                    assert(np =~= old_p.push((kv, vv)));
                    assert(distinct_keys(np));
                }
                self.entries = entries;
                proof {
                    self.lemma_view();
                    assert(self.pairs() =~= old_p.push((kv, vv)));
                    assert forall|k: Seq<char>| #[trigger]
                        self@.contains_key(k) == old_v.insert(kv, vv).contains_key(k) by {
                        if has_key(old_p, k) {
                            let j = choose|j: int| 0 <= j < old_p.len() && old_p[j].0 == k;
                            assert(self.pairs()[j].0 == k);
                        }
                        if k == kv {
                            assert(self.pairs()[old_p.len() as int].0 == k);
                        }
                        if has_key(self.pairs(), k) {
                            let j = choose|j: int| 0 <= j < self.pairs().len() && self.pairs()[j].0 == k;
                            if j < old_p.len() {
                                assert(old_p[j].0 == k);
                            }
                        }
                    }
                    assert forall|k: Seq<char>| #[trigger]
                        self@.contains_key(k) implies self@[k] == old_v.insert(kv, vv)[k] by {
                        let j = choose|j: int| 0 <= j < self.pairs().len() && self.pairs()[j].0 == k;
                        assert(self@[self.pairs()[j].0] == self.pairs()[j].1);
                        if j < old_p.len() {
                            assert(old_v[old_p[j].0] == old_p[j].1);
                        }
                    }
                    assert(self@ =~= old_v.insert(kv, vv));
                }
            },
        }
    }

    /// Stores `value` under `key` only if the key is absent (like
    /// `entry(key).or_insert(value)`).
    pub fn insert_if_absent(&mut self, key: String, value: String)
        ensures
            old(self)@.contains_key(key@) ==> final(self)@ == old(self)@,
            !old(self)@.contains_key(key@) ==> final(self)@ == old(self)@.insert(key@, value@),
    {
        if !self.contains_key(key.as_str()) {
            self.insert(key, value);
        }
    }

    /// Removes `key`, returning its value if it was present.
    pub fn remove(&mut self, key: &str) -> (r: Option<String>)
        ensures
            final(self)@ == old(self)@.remove(key@),
            match r {
                Some(v) => old(self)@.contains_key(key@) && old(self)@[key@] == v@,
                None => !old(self)@.contains_key(key@),
            },
    {
        proof {
            use_type_invariant(&*self);
            self.lemma_view();
        }
        let ghost old_p = self.pairs();
        let ghost old_v = self@;
        match self.find(key) {
            Some(i) => {
                let mut entries: Vec<(String, String)> = Vec::new();
                std::mem::swap(&mut entries, &mut self.entries);
                let (_k, v) = entries.remove(i);
                proof {
                    let np = entry_views(entries@);
                    assert(np =~= old_p.remove(i as int));
                    assert forall|a: int, b: int|
                        0 <= a < np.len() && 0 <= b < np.len() && a != b implies np[a].0
                        != np[b].0 by {
                        let a2 = if a < i { a } else { a + 1 };
                        let b2 = if b < i { b } else { b + 1 };
                        assert(np[a] == old_p[a2]);
                        assert(np[b] == old_p[b2]);
                    }
                }
                self.entries = entries;
                proof {
                    self.lemma_view();
                    let np = self.pairs();
                    assert(np =~= old_p.remove(i as int));
                    assert forall|k: Seq<char>| #[trigger]
                        self@.contains_key(k) == old_v.remove(key@).contains_key(k) by {
                        if has_key(old_p, k) && k != key@ {
                            let j = choose|j: int| 0 <= j < old_p.len() && old_p[j].0 == k;
                            let j2 = if j < i { j } else { j - 1 };
                            assert(np[j2].0 == k);
                        }
                        if has_key(np, k) {
                            let j = choose|j: int| 0 <= j < np.len() && np[j].0 == k;
                            let j2 = if j < i { j } else { j + 1 };
                            assert(old_p[j2].0 == k);
                        }
                    }
                    assert forall|k: Seq<char>| #[trigger]
                        self@.contains_key(k) implies self@[k] == old_v.remove(key@)[k] by {
                        let j = choose|j: int| 0 <= j < np.len() && np[j].0 == k;
                        let j2 = if j < i { j } else { j + 1 };
                        assert(self@[np[j].0] == np[j].1);
                        assert(old_v[old_p[j2].0] == old_p[j2].1);
                    }
                    assert(self@ =~= old_v.remove(key@));
                    assert(old_v[old_p[i as int].0] == old_p[i as int].1);
                }
                Some(v)
            },
            None => {
                proof {
                    assert(old_v.remove(key@) =~= old_v);
                }
                None
            },
        }
    }

    /// Does this map hold every entry of `sub`, with the same value?
    pub fn includes(&self, sub: &StringMap) -> (b: bool)
        ensures
            b == (forall|k: Seq<char>| #[trigger] sub@.contains_key(k) ==> self@.contains_key(k) && self@[k] == sub@[k]),
    {
        proof {
            use_type_invariant(sub);
            sub.lemma_view();
        }
        let mut i: usize = 0;
        while i < sub.entries.len()
            invariant
                i <= sub.pairs().len(),
                distinct_keys(sub.pairs()),
                sub@ == pairs_to_map(sub.pairs()),
                forall|j: int| 0 <= j < i ==> #[trigger] self@.contains_key(sub.pairs()[j].0) && self@[sub.pairs()[j].0] == sub.pairs()[j].1,
            decreases sub.pairs().len() - i,
        {
            let k = &sub.entries[i].0;
            let v = &sub.entries[i].1;
            proof {
                lemma_pairs_to_map_at(sub.pairs(), i as int);
            }
            match self.get(k.as_str()) {
                Some(lv) => {
                    if *lv != *v {
                        return false;
                    }
                },
                None => {
                    return false;
                },
            }
            i = i + 1;
        }
        proof {
            assert forall|k: Seq<char>| #[trigger] sub@.contains_key(k) implies self@.contains_key(k) && self@[k] == sub@[k] by {
                let j = choose|j: int| 0 <= j < sub.pairs().len() && sub.pairs()[j].0 == k;
                lemma_pairs_to_map_at(sub.pairs(), j);
            }
        }
        true
    }
}

} // verus!
