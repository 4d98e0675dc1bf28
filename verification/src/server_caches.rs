//! The short-lived records the server keeps in memory: answers given under
//! idempotency keys, the outcomes of cancelled episodes and of settled
//! result leases, and finished asynchronous results. Each record expires;
//! a sweep drops the expired ones. Dispatch lease ids are numbered here too.
use crate::chain_state::strs;
use crate::config::concat3;
use crate::obs_timeline::{add_once, holds, push_once};
use crate::messages::EpisodeResult;
use crate::state::{CompletedAsyncResult, IdempotencyRecord, TimedOutcome};
use crate::text::{decimal, decimal_spec, str_eq};
use vstd::prelude::*;

verus! {

broadcast use vstd::string::group_string_axioms;

/// What a record is filed under: a name (an idempotency key or an episode
/// id), and for a result lease the attempt and the lease id.
#[derive(Debug)]
pub struct RecordKey {
    pub name: String,
    pub attempt_id: u32,
    pub lease_id: String,
}

/// A key by its characters.
pub open spec fn key_view(k: RecordKey) -> (Seq<char>, u32, Seq<char>) {
    (k.name@, k.attempt_id, k.lease_id@)
}

/// A record with the time it expires at.
#[derive(Debug)]
pub struct Timed<V> {
    pub key: RecordKey,
    pub expires_at_ms: u64,
    pub value: V,
}

/// Records by key, each until it expires; a key occurs at most once.
#[derive(Debug)]
pub struct TtlTable<V> {
    entries: Vec<Timed<V>>,
}

/// The records under other keys than `k`.
pub open spec fn without_key<V>(s: Seq<Timed<V>>, k: (Seq<char>, u32, Seq<char>)) -> Seq<Timed<V>> {
    s.filter(|e: Timed<V>| key_view(e.key) != k)
}

/// The records still live at `now_ms`: those expiring after it, or, when
/// `inclusive`, also those expiring at it.
pub open spec fn live_at<V>(s: Seq<Timed<V>>, now_ms: u64, inclusive: bool) -> Seq<Timed<V>> {
    s.filter(|e: Timed<V>| e.expires_at_ms > now_ms || (inclusive && e.expires_at_ms == now_ms))
}

/// The record under key `k`, if any.
pub open spec fn record_under<V>(s: Seq<Timed<V>>, k: (Seq<char>, u32, Seq<char>)) -> Option<V> {
    if exists|i: int| 0 <= i < s.len() && key_view(#[trigger] s[i].key) == k {
        Some(s[choose|i: int| 0 <= i < s.len() && key_view(#[trigger] s[i].key) == k].value)
    } else {
        None
    }
}

/// No key occurs twice.
pub open spec fn keys_unique<V>(s: Seq<Timed<V>>) -> bool {
    forall|i: int, j: int| 0 <= i < j < s.len() ==> key_view(#[trigger] s[i].key) != key_view(#[trigger] s[j].key)
}

proof fn lemma_filter_keeps_unique<V>(s: Seq<Timed<V>>, f: spec_fn(Timed<V>) -> bool)
    requires
        keys_unique(s),
    ensures
        keys_unique(s.filter(f)),
    decreases s.len(),
{
    reveal(Seq::filter);
    if s.len() > 0 {
        let r = s.drop_last();
        assert(keys_unique(r)) by {
            assert forall|i: int, j: int| 0 <= i < j < r.len() implies key_view(#[trigger] r[i].key) != key_view(
                #[trigger] r[j].key,
            ) by {
                assert(r[i] == s[i] && r[j] == s[j]);
            }
        }
        lemma_filter_keeps_unique(r, f);
        let fr = r.filter(f);
        if f(s.last()) {
            assert forall|i: int| 0 <= i < fr.len() implies key_view(#[trigger] fr[i].key) != key_view(s.last().key) by {
                r.lemma_filter_contains_rev(f, fr[i]);
                assert(r.contains(fr[i]));
                let k = choose|k: int| 0 <= k < r.len() && r[k] == fr[i];
                assert(s[k] == r[k]);
                assert(s[s.len() - 1] == s.last());
            }
            assert(s.filter(f) == fr.push(s.last()));
        } else {
            assert(s.filter(f) == fr);
        }
    }
}

/// What is filed under a key is what a later read under that key finds:
/// after `put`, the record under the key is the value just filed.
pub proof fn law_get_after_put<V>(s: Seq<Timed<V>>, key: RecordKey, expires_at_ms: u64, value: V)
    ensures
        record_under(
            without_key(s, key_view(key)).push(Timed { key, expires_at_ms, value }),
            key_view(key),
        ) == Some(value),
{
    let k = key_view(key);
    let pred = |e: Timed<V>| key_view(e.key) != k;
    let w = without_key(s, k);
    let t = w.push(Timed { key, expires_at_ms, value });
    assert(key_view(t[w.len() as int].key) == k);
    let c = choose|i: int| 0 <= i < t.len() && key_view(#[trigger] t[i].key) == k;
    if c < w.len() {
        s.lemma_filter_pred(pred, c);
        assert(t[c] == w[c]);
        assert(w == s.filter(pred));
    }
}

/// Position of the first record with the earliest expiry.
pub open spec fn earliest_pos<V>(s: Seq<Timed<V>>) -> int
    decreases s.len(),
{
    if s.len() <= 1 {
        0
    } else {
        let p = earliest_pos(s.drop_last());
        if s.last().expires_at_ms < s[p].expires_at_ms { s.len() - 1 } else { p }
    }
}

/// `s` after its earliest-expiring record (the first of them) is dropped,
/// `n` times over.
pub open spec fn without_earliest<V>(s: Seq<Timed<V>>, n: nat) -> Seq<Timed<V>>
    decreases n,
{
    if n == 0 {
        s
    } else {
        let t = without_earliest(s, (n - 1) as nat);
        if t.len() == 0 { t } else { t.remove(earliest_pos(t)) }
    }
}

/// The records beyond the first `max` leave, earliest-expiring first.
pub open spec fn capped<V>(s: Seq<Timed<V>>, max: nat) -> Seq<Timed<V>> {
    if s.len() > max { without_earliest(s, (s.len() - max) as nat) } else { s }
}

/// The finished asynchronous results after a clean-up at `now_ms`: with a
/// time-to-live, those whose time has passed leave; then, with a cap, the
/// earliest-finished leave until at most `max` remain.
pub open spec fn completed_cleaned(s: Seq<Timed<CompletedAsyncResult>>, now_ms: u64, ttl_secs: u64, max: nat) -> Seq<
    Timed<CompletedAsyncResult>,
> {
    let a = if ttl_secs > 0 { live_at(s, now_ms, true) } else { s };
    if max > 0 { capped(a, max) } else { a }
}

proof fn lemma_earliest_pos<V>(s: Seq<Timed<V>>)
    ensures
        s.len() > 0 ==> 0 <= earliest_pos(s) < s.len(),
        forall|j: int| 0 <= j < s.len() ==> s[earliest_pos(s)].expires_at_ms <= #[trigger] s[j].expires_at_ms,
    decreases s.len(),
{
    if s.len() > 1 {
        let d = s.drop_last();
        lemma_earliest_pos(d);
        assert forall|j: int| 0 <= j < s.len() implies s[earliest_pos(s)].expires_at_ms <= #[trigger] s[j].expires_at_ms by {
            if j < s.len() - 1 {
                assert(s[j] == d[j]);
            }
            assert(s[earliest_pos(d)] == d[earliest_pos(d)]);
        }
    }
}

proof fn lemma_remove_keeps_unique<V>(s: Seq<Timed<V>>, p: int)
    requires
        keys_unique(s),
        0 <= p < s.len(),
    ensures
        keys_unique(s.remove(p)),
{
    let r = s.remove(p);
    assert forall|i: int, j: int| 0 <= i < j < r.len() implies key_view(#[trigger] r[i].key) != key_view(#[trigger] r[j].key) by {
        let a = if i < p { i } else { i + 1 };
        let b = if j < p { j } else { j + 1 };
        assert(r[i] == s[a] && r[j] == s[b]);
    }
}

impl<V> TtlTable<V> {
    /// The records, in the order they were filed.
    pub closed spec fn records(&self) -> Seq<Timed<V>> {
        self.entries@
    }

    /// Keys are unique.
    #[verifier::type_invariant]
    closed spec fn unique(&self) -> bool {
        keys_unique(self.entries@)
    }

    /// An empty table.
    pub fn new() -> (t: Self)
        ensures
            t.records() == Seq::<Timed<V>>::empty(),
    {
        TtlTable { entries: Vec::new() }
    }

    /// The record under a key.
    pub fn get(&self, name: &str, attempt_id: u32, lease_id: &str) -> (r: Option<&V>)
        ensures
            match r {
                Some(v) => record_under(self.records(), (name@, attempt_id, lease_id@)) == Some(*v),
                None => record_under(self.records(), (name@, attempt_id, lease_id@)) is None,
            },
    {
        proof {
            use_type_invariant(self);
        }
        let ghost k = (name@, attempt_id, lease_id@);
        let mut i: usize = 0;
        while i < self.entries.len()
            invariant
                i <= self.entries@.len(),
                k == (name@, attempt_id, lease_id@),
                keys_unique(self.entries@),
                forall|j: int| 0 <= j < i ==> key_view(#[trigger] self.entries@[j].key) != k,
            decreases self.entries@.len() - i,
        {
            let e = &self.entries[i];
            let n_eq = str_eq(e.key.name.as_str(), name);
            let l_eq = str_eq(e.key.lease_id.as_str(), lease_id);
            let same = n_eq && e.key.attempt_id == attempt_id && l_eq;
            assert(same == (key_view(self.entries@[i as int].key) == k));
            if same {
                proof {
                    let c = choose|c: int| 0 <= c < self.entries@.len() && key_view(#[trigger] self.entries@[c].key) == k;
                    if c != i {
                        if c < i {
                            assert(key_view(self.entries@[c].key) != k);
                        } else {
                            assert(key_view(self.entries@[i as int].key) != key_view(self.entries@[c].key));
                        }
                    }
                }
                return Some(&e.value);
            }
            i = i + 1;
        }
        None
    }

    /// Files `value` under `key` until `expires_at_ms`, replacing what was
    /// filed under the same key.
    pub fn put(&mut self, key: RecordKey, expires_at_ms: u64, value: V)
        ensures
            final(self).records() == without_key(old(self).records(), key_view(key)).push(
                Timed { key, expires_at_ms, value },
            ),
    {
        proof {
            use_type_invariant(&*self);
        }
        let ghost kv = key_view(key);
        let ghost pred = |e: Timed<V>| key_view(e.key) != kv;
        let mut old_entries: Vec<Timed<V>> = Vec::new();
        std::mem::swap(&mut old_entries, &mut self.entries);
        let ghost orig = old_entries@;
        let mut kept: Vec<Timed<V>> = Vec::new();
        let ghost mut i: int = 0;
        proof {
            assert(old_entries@ =~= orig.subrange(0, orig.len() as int));
            assert(orig.take(0) =~= Seq::<Timed<V>>::empty());
            reveal(Seq::filter);
            assert(orig.take(0).filter(pred) =~= Seq::<Timed<V>>::empty());
        }
        while old_entries.len() > 0
            invariant
                0 <= i <= orig.len(),
                old_entries@ == orig.subrange(i, orig.len() as int),
                kept@ == orig.take(i).filter(pred),
                pred == (|e: Timed<V>| key_view(e.key) != kv),
                kv == key_view(key),
            decreases old_entries@.len(),
        {
            let e = old_entries.remove(0);
            proof {
                assert(e == orig[i]);
                assert(orig.take(i + 1) =~= orig.take(i).push(orig[i]));
                orig.take(i).lemma_filter_push(orig[i], pred);
            }
            let same = str_eq(e.key.name.as_str(), key.name.as_str()) && e.key.attempt_id == key.attempt_id && str_eq(
                e.key.lease_id.as_str(),
                key.lease_id.as_str(),
            );
            if !same {
                kept.push(e);
            }
            proof {
                i = i + 1;
                assert(old_entries@ =~= orig.subrange(i, orig.len() as int));
            }
        }
        proof {
            assert(orig.take(i) =~= orig);
            lemma_filter_keeps_unique(orig, pred);
            let f = kept@;
            assert forall|j: int| 0 <= j < f.len() implies key_view(#[trigger] f[j].key) != kv by {
                orig.lemma_filter_pred(pred, j);
            }
        }
        kept.push(Timed { key, expires_at_ms, value });
        self.entries = kept;
    }

    /// Position of the first record with the earliest expiry.
    fn earliest_index(&self) -> (p: usize)
        requires
            self.records().len() > 0,
        ensures
            p == earliest_pos(self.records()),
    {
        let mut best: usize = 0;
        let mut i: usize = 1;
        proof {
            assert(self.entries@.take(1).len() == 1);
        }
        while i < self.entries.len()
            invariant
                1 <= i <= self.entries@.len(),
                best == earliest_pos(self.entries@.take(i as int)),
            decreases self.entries@.len() - i,
        {
            proof {
                let t = self.entries@.take(i + 1);
                assert(t.drop_last() =~= self.entries@.take(i as int));
                assert(t.last() == self.entries@[i as int]);
                lemma_earliest_pos(self.entries@.take(i as int));
                assert(t[best as int] == self.entries@[best as int]);
            }
            if self.entries[i].expires_at_ms < self.entries[best].expires_at_ms {
                best = i;
            }
            i = i + 1;
        }
        proof {
            assert(self.entries@.take(i as int) =~= self.entries@);
        }
        best
    }

    /// Keeps at most `max` records, dropping the earliest-expiring first
    /// (the first filed among equals).
    pub fn cap(&mut self, max: usize)
        ensures
            final(self).records() == capped(old(self).records(), max as nat),
    {
        proof {
            use_type_invariant(&*self);
        }
        let ghost orig = self.entries@;
        let ghost mut k: nat = 0;
        while self.entries.len() > max
            invariant
                self.entries@ == without_earliest(orig, k),
                k + self.entries@.len() == orig.len(),
                orig.len() > max ==> k <= orig.len() - max,
                orig.len() <= max ==> k == 0,
            decreases self.entries@.len(),
        {
            proof {
                use_type_invariant(&*self);
            }
            let p = self.earliest_index();
            proof {
                lemma_earliest_pos(self.entries@);
                lemma_remove_keeps_unique(self.entries@, p as int);
            }
            let ghost before = self.entries@;
            let mut rest: Vec<Timed<V>> = Vec::new();
            std::mem::swap(&mut rest, &mut self.entries);
            rest.remove(p);
            self.entries = rest;
            proof {
                k = k + 1;
                assert(self.entries@ == before.remove(p as int));
            }
        }
    }

    /// Drops the records that are no longer live at `now_ms` (see `live_at`).
    pub fn sweep(&mut self, now_ms: u64, inclusive: bool)
        ensures
            final(self).records() == live_at(old(self).records(), now_ms, inclusive),
    {
        proof {
            use_type_invariant(&*self);
        }
        let ghost pred = |e: Timed<V>| e.expires_at_ms > now_ms || (inclusive && e.expires_at_ms == now_ms);
        let mut old_entries: Vec<Timed<V>> = Vec::new();
        std::mem::swap(&mut old_entries, &mut self.entries);
        let ghost orig = old_entries@;
        let mut kept: Vec<Timed<V>> = Vec::new();
        let ghost mut i: int = 0;
        proof {
            assert(old_entries@ =~= orig.subrange(0, orig.len() as int));
            reveal(Seq::filter);
            assert(orig.take(0).filter(pred) =~= Seq::<Timed<V>>::empty());
        }
        while old_entries.len() > 0
            invariant
                0 <= i <= orig.len(),
                old_entries@ == orig.subrange(i, orig.len() as int),
                kept@ == orig.take(i).filter(pred),
                pred == (|e: Timed<V>| e.expires_at_ms > now_ms || (inclusive && e.expires_at_ms == now_ms)),
            decreases old_entries@.len(),
        {
            let e = old_entries.remove(0);
            proof {
                assert(e == orig[i]);
                assert(orig.take(i + 1) =~= orig.take(i).push(orig[i]));
                orig.take(i).lemma_filter_push(orig[i], pred);
            }
            if e.expires_at_ms > now_ms || (inclusive && e.expires_at_ms == now_ms) {
                kept.push(e);
            }
            proof {
                i = i + 1;
                assert(old_entries@ =~= orig.subrange(i, orig.len() as int));
            }
        }
        proof {
            assert(orig.take(i) =~= orig);
            lemma_filter_keeps_unique(orig, pred);
        }
        self.entries = kept;
    }
}

/// `a + b` held within `u64`.
pub open spec fn sat_add(a: u64, b: int) -> u64 {
    if a + b > u64::MAX { u64::MAX } else { (a + b) as u64 }
}

/// How long idempotent answers and outcomes are kept, in seconds: twice the
/// default episode timeout (saturating), but at least an hour.
pub fn report_result_idempotency_ttl_secs(default_timeout_secs: u64) -> (t: u64)
    ensures
        t == (if 2 * default_timeout_secs > u64::MAX {
            u64::MAX
        } else if 2 * default_timeout_secs > 3600 {
            (2 * default_timeout_secs) as u64
        } else {
            3600
        }),
{
    if default_timeout_secs > u64::MAX / 2 {
        u64::MAX
    } else if default_timeout_secs * 2 > 3600 {
        default_timeout_secs * 2
    } else {
        3600
    }
}

/// The caches of the server.
#[derive(Debug)]
pub struct ServerCaches {
    /// Answers given under idempotency keys (key name only).
    pub answers: TtlTable<IdempotencyRecord>,
    /// Outcomes of cancelled episodes (episode id only).
    pub cancel_outcomes: TtlTable<TimedOutcome>,
    /// Outcomes of settled result leases (episode, attempt, lease).
    pub result_outcomes: TtlTable<TimedOutcome>,
    /// Finished asynchronous results (episode id only).
    pub completed_async: TtlTable<CompletedAsyncResult>,
    /// Episodes asked to be cancelled, kept while they still run.
    pub cancelled_episodes: Vec<String>,
    /// How long an outcome is kept, in seconds, at least one.
    pub outcome_ttl_secs: u64,
    /// How long a finished asynchronous result is kept, in seconds; 0 keeps it.
    pub completed_async_ttl_secs: u64,
}

/// The names of `v`, in order, that `active` lists.
fn keep_listed(v: &Vec<String>, active: &Vec<String>) -> (r: Vec<String>)
    ensures
        r@ == v@.filter(|e: String| strs(active@).contains(e@)),
{
    let ghost pred = |e: String| strs(active@).contains(e@);
    let mut r: Vec<String> = Vec::new();
    let mut i: usize = 0;
    proof {
        reveal(Seq::filter);
        assert(v@.take(0).filter(pred) =~= Seq::<String>::empty());
    }
    while i < v.len()
        invariant
            i <= v@.len(),
            r@ == v@.take(i as int).filter(pred),
            pred == (|e: String| strs(active@).contains(e@)),
        decreases v@.len() - i,
    {
        proof {
            assert(v@.take(i + 1) =~= v@.take(i as int).push(v@[i as int]));
            v@.take(i as int).lemma_filter_push(v@[i as int], pred);
        }
        if holds(active, v[i].as_str()) {
            r.push(v[i].clone());
        }
        i = i + 1;
    }
    proof {
        assert(v@.take(i as int) =~= v@);
    }
    r
}

/// The key of a record filed under a name alone.
fn name_key(name: &str) -> (k: RecordKey)
    ensures
        key_view(k) == (name@, 0u32, Seq::<char>::empty()),
{
    RecordKey { name: name.to_string(), attempt_id: 0, lease_id: String::new() }
}

impl ServerCaches {
    /// Empty caches; outcomes are kept `report_result_idempotency_ttl_secs`
    /// seconds (at least one), finished asynchronous results
    /// `completed_async_ttl_secs` seconds (0: until taken).
    pub fn new(report_result_idempotency_ttl_secs: u64, completed_async_ttl_secs: u64) -> (c: Self)
        ensures
            c.answers.records().len() == 0,
            c.cancel_outcomes.records().len() == 0,
            c.result_outcomes.records().len() == 0,
            c.completed_async.records().len() == 0,
            c.cancelled_episodes@.len() == 0,
            c.outcome_ttl_secs == (if report_result_idempotency_ttl_secs > 1 { report_result_idempotency_ttl_secs } else { 1 }),
            c.completed_async_ttl_secs == completed_async_ttl_secs,
    {
        ServerCaches {
            answers: TtlTable::new(),
            cancel_outcomes: TtlTable::new(),
            result_outcomes: TtlTable::new(),
            completed_async: TtlTable::new(),
            cancelled_episodes: Vec::new(),
            outcome_ttl_secs: if report_result_idempotency_ttl_secs > 1 { report_result_idempotency_ttl_secs } else { 1 },
            completed_async_ttl_secs,
        }
    }

    /// When an outcome recorded at `now_ms` expires (saturating).
    pub open spec fn outcome_expiry(&self, now_ms: u64) -> u64 {
        sat_add(now_ms, self.outcome_ttl_secs * 1000)
    }

    fn expiry(&self, now_ms: u64) -> (t: u64)
        ensures
            t == self.outcome_expiry(now_ms),
    {
        let ms: u64 = if self.outcome_ttl_secs > u64::MAX / 1000 { u64::MAX } else { self.outcome_ttl_secs * 1000 };
        proof {
            if self.outcome_ttl_secs > u64::MAX / 1000 {
                assert(self.outcome_ttl_secs * 1000 > u64::MAX) by (nonlinear_arith)
                    requires
                        self.outcome_ttl_secs > u64::MAX / 1000,
                ;
            }
        }
        if now_ms > u64::MAX - ms {
            u64::MAX
        } else {
            now_ms + ms
        }
    }

    /// Remembers, until the outcome time-to-live has passed, how a report
    /// under an idempotency key was answered, so that a repeated report gets
    /// the same answer.
    pub fn remember_answer(
        &mut self,
        idempotency_key: &str,
        episode_id: &str,
        attempt_id: u32,
        dispatch_lease_id: &str,
        ack: bool,
        code: &str,
        message: &str,
        now_ms: u64,
    )
        ensures
            ({
                let t = old(self).outcome_expiry(now_ms);
                let k = (idempotency_key@, 0u32, Seq::<char>::empty());
                let r = final(self).answers.records().last();
                &&& final(self).answers.records().len() >= 1
                &&& final(self).answers.records().drop_last() == without_key(old(self).answers.records(), k)
                &&& key_view(r.key) == k
                &&& r.expires_at_ms == t
                &&& r.value.expires_at_ms == t
                &&& r.value.episode_id@ == episode_id@
                &&& r.value.attempt_id == attempt_id
                &&& r.value.dispatch_lease_id@ == dispatch_lease_id@
                &&& r.value.ack == ack
                &&& r.value.code@ == code@
                &&& r.value.message@ == message@
            }),
            final(self).cancel_outcomes.records() == old(self).cancel_outcomes.records(),
            final(self).result_outcomes.records() == old(self).result_outcomes.records(),
            final(self).completed_async.records() == old(self).completed_async.records(),
            final(self).cancelled_episodes@ == old(self).cancelled_episodes@,
            final(self).outcome_ttl_secs == old(self).outcome_ttl_secs,
            final(self).completed_async_ttl_secs == old(self).completed_async_ttl_secs,
    {
        let t = self.expiry(now_ms);
        let rec = IdempotencyRecord {
            expires_at_ms: t,
            episode_id: episode_id.to_string(),
            attempt_id,
            dispatch_lease_id: dispatch_lease_id.to_string(),
            ack,
            code: code.to_string(),
            message: message.to_string(),
        };
        self.answers.put(name_key(idempotency_key), t, rec);
    }

    /// Remembers, until the outcome time-to-live has passed, how late
    /// reports for a cancelled episode are answered.
    pub fn remember_cancel_outcome(&mut self, episode_id: &str, code: &str, message: &str, now_ms: u64)
        ensures
            ({
                let t = old(self).outcome_expiry(now_ms);
                &&& final(self).cancel_outcomes.records().len() >= 1
                &&& final(self).cancel_outcomes.records().drop_last() == without_key(
                    old(self).cancel_outcomes.records(),
                    (episode_id@, 0u32, Seq::<char>::empty()),
                )
                &&& key_view(final(self).cancel_outcomes.records().last().key) == (episode_id@, 0u32, Seq::<char>::empty())
                &&& final(self).cancel_outcomes.records().last().expires_at_ms == t
                &&& final(self).cancel_outcomes.records().last().value.expires_at_ms == t
                &&& final(self).cancel_outcomes.records().last().value.code@ == code@
                &&& final(self).cancel_outcomes.records().last().value.message@ == message@
            }),
            final(self).answers.records() == old(self).answers.records(),
            final(self).result_outcomes.records() == old(self).result_outcomes.records(),
            final(self).completed_async.records() == old(self).completed_async.records(),
            final(self).cancelled_episodes@ == old(self).cancelled_episodes@,
            final(self).outcome_ttl_secs == old(self).outcome_ttl_secs,
            final(self).completed_async_ttl_secs == old(self).completed_async_ttl_secs,
    {
        let t = self.expiry(now_ms);
        let o = TimedOutcome { expires_at_ms: t, code: code.to_string(), message: message.to_string() };
        self.cancel_outcomes.put(name_key(episode_id), t, o);
    }

    /// Remembers, until the outcome time-to-live has passed, how a result
    /// lease was settled.
    pub fn remember_result_outcome(
        &mut self,
        episode_id: &str,
        attempt_id: u32,
        lease_id: &str,
        code: &str,
        message: &str,
        now_ms: u64,
    )
        ensures
            ({
                let t = old(self).outcome_expiry(now_ms);
                let k = (episode_id@, attempt_id, lease_id@);
                &&& final(self).result_outcomes.records().len() >= 1
                &&& final(self).result_outcomes.records().drop_last() == without_key(old(self).result_outcomes.records(), k)
                &&& key_view(final(self).result_outcomes.records().last().key) == k
                &&& final(self).result_outcomes.records().last().expires_at_ms == t
                &&& final(self).result_outcomes.records().last().value.expires_at_ms == t
                &&& final(self).result_outcomes.records().last().value.code@ == code@
                &&& final(self).result_outcomes.records().last().value.message@ == message@
            }),
            final(self).answers.records() == old(self).answers.records(),
            final(self).cancel_outcomes.records() == old(self).cancel_outcomes.records(),
            final(self).completed_async.records() == old(self).completed_async.records(),
            final(self).cancelled_episodes@ == old(self).cancelled_episodes@,
            final(self).outcome_ttl_secs == old(self).outcome_ttl_secs,
            final(self).completed_async_ttl_secs == old(self).completed_async_ttl_secs,
    {
        let t = self.expiry(now_ms);
        let o = TimedOutcome { expires_at_ms: t, code: code.to_string(), message: message.to_string() };
        let key = RecordKey { name: episode_id.to_string(), attempt_id, lease_id: lease_id.to_string() };
        self.result_outcomes.put(key, t, o);
    }

    /// When a result finished at `now_ms` stops being kept: its time-to-live
    /// later (saturating); without a time-to-live, `now_ms` itself, so that
    /// the records expire in the order they finished.
    pub open spec fn completed_expiry(&self, now_ms: u64) -> u64 {
        sat_add(now_ms, self.completed_async_ttl_secs * 1000)
    }

    fn completed_expiry_of(&self, now_ms: u64) -> (t: u64)
        ensures
            t == self.completed_expiry(now_ms),
    {
        let ms: u64 = if self.completed_async_ttl_secs > u64::MAX / 1000 {
            u64::MAX
        } else {
            self.completed_async_ttl_secs * 1000
        };
        proof {
            if self.completed_async_ttl_secs > u64::MAX / 1000 {
                assert(self.completed_async_ttl_secs * 1000 > u64::MAX) by (nonlinear_arith)
                    requires
                        self.completed_async_ttl_secs > u64::MAX / 1000,
                ;
            }
        }
        if now_ms > u64::MAX - ms {
            u64::MAX
        } else {
            now_ms + ms
        }
    }

    fn clean_completed(&mut self, now_ms: u64, max_entries: usize)
        ensures
            final(self).completed_async.records() == completed_cleaned(
                old(self).completed_async.records(),
                now_ms,
                old(self).completed_async_ttl_secs,
                max_entries as nat,
            ),
            final(self).answers.records() == old(self).answers.records(),
            final(self).cancel_outcomes.records() == old(self).cancel_outcomes.records(),
            final(self).result_outcomes.records() == old(self).result_outcomes.records(),
            final(self).cancelled_episodes@ == old(self).cancelled_episodes@,
            final(self).outcome_ttl_secs == old(self).outcome_ttl_secs,
            final(self).completed_async_ttl_secs == old(self).completed_async_ttl_secs,
    {
        if self.completed_async_ttl_secs > 0 {
            self.completed_async.sweep(now_ms, true);
        }
        if max_entries > 0 {
            self.completed_async.cap(max_entries);
        }
    }

    /// Keeps the result of an asynchronous episode finished at `now_ms` for
    /// `get_result`: cleans up first, keeps nothing when `max_entries` is 0,
    /// otherwise files the result under its episode id (replacing an earlier
    /// one) and cleans up again, so that at most `max_entries` remain.
    pub fn store_completed_async(&mut self, result: EpisodeResult, now_ms: u64, max_entries: usize)
        ensures
            ({
                let ttl = old(self).completed_async_ttl_secs;
                let a = completed_cleaned(old(self).completed_async.records(), now_ms, ttl, max_entries as nat);
                if max_entries == 0 {
                    final(self).completed_async.records() == a
                } else {
                    exists|r: Timed<CompletedAsyncResult>|
                        {
                            &&& key_view(r.key) == (result.episode_id@, 0u32, Seq::<char>::empty())
                            &&& r.expires_at_ms == old(self).completed_expiry(now_ms)
                            &&& r.value == CompletedAsyncResult { result, completed_at_ms: now_ms }
                            &&& final(self).completed_async.records() == completed_cleaned(
                                without_key(a, key_view(r.key)).push(r),
                                now_ms,
                                ttl,
                                max_entries as nat,
                            )
                        }
                }
            }),
            final(self).answers.records() == old(self).answers.records(),
            final(self).cancel_outcomes.records() == old(self).cancel_outcomes.records(),
            final(self).result_outcomes.records() == old(self).result_outcomes.records(),
            final(self).cancelled_episodes@ == old(self).cancelled_episodes@,
            final(self).outcome_ttl_secs == old(self).outcome_ttl_secs,
            final(self).completed_async_ttl_secs == old(self).completed_async_ttl_secs,
    {
        self.clean_completed(now_ms, max_entries);
        if max_entries == 0 {
            return;
        }
        let t = self.completed_expiry_of(now_ms);
        let key = name_key(result.episode_id.as_str());
        let ghost kv = key_view(key);
        let ghost a = self.completed_async.records();
        let ghost rec = Timed { key, expires_at_ms: t, value: CompletedAsyncResult { result, completed_at_ms: now_ms } };
        self.completed_async.put(key, t, CompletedAsyncResult { result, completed_at_ms: now_ms });
        self.clean_completed(now_ms, max_entries);
        proof {
            assert(key_view(rec.key) == kv);
        }
    }

    /// Notes that the episode was asked to be cancelled.
    pub fn mark_cancelled(&mut self, episode_id: &str)
        ensures
            strs(final(self).cancelled_episodes@) == add_once(strs(old(self).cancelled_episodes@), episode_id@),
            final(self).answers.records() == old(self).answers.records(),
            final(self).cancel_outcomes.records() == old(self).cancel_outcomes.records(),
            final(self).result_outcomes.records() == old(self).result_outcomes.records(),
            final(self).completed_async.records() == old(self).completed_async.records(),
            final(self).outcome_ttl_secs == old(self).outcome_ttl_secs,
            final(self).completed_async_ttl_secs == old(self).completed_async_ttl_secs,
    {
        push_once(&mut self.cancelled_episodes, episode_id);
    }

    /// Drops what has expired at `now_ms`: answers and outcomes expiring at
    /// or before it, and, when a time-to-live is set, asynchronous results
    /// finished more than that long ago. Cancellations are kept only for the
    /// episodes that still run (`running_episode_ids`).
    pub fn sweep(&mut self, now_ms: u64, running_episode_ids: &Vec<String>)
        ensures
            final(self).cancelled_episodes@ == old(self).cancelled_episodes@.filter(
                |e: String| strs(running_episode_ids@).contains(e@),
            ),
            final(self).answers.records() == live_at(old(self).answers.records(), now_ms, false),
            final(self).cancel_outcomes.records() == live_at(old(self).cancel_outcomes.records(), now_ms, false),
            final(self).result_outcomes.records() == live_at(old(self).result_outcomes.records(), now_ms, false),
            final(self).completed_async.records() == (if old(self).completed_async_ttl_secs > 0 {
                live_at(old(self).completed_async.records(), now_ms, true)
            } else {
                old(self).completed_async.records()
            }),
            final(self).outcome_ttl_secs == old(self).outcome_ttl_secs,
            final(self).completed_async_ttl_secs == old(self).completed_async_ttl_secs,
    {
        self.answers.sweep(now_ms, false);
        self.cancel_outcomes.sweep(now_ms, false);
        self.result_outcomes.sweep(now_ms, false);
        self.cancelled_episodes = keep_listed(&self.cancelled_episodes, running_episode_ids);
        if self.completed_async_ttl_secs > 0 {
            self.completed_async.sweep(now_ms, true);
        }
    }
}

/// Numbers the dispatch leases of one server epoch.
#[derive(Debug)]
pub struct LeaseCounter {
    pub epoch: u64,
    pub next: u64,
}

impl LeaseCounter {
    /// The first lease of an epoch is numbered 1.
    pub fn new(epoch: u64) -> (c: Self)
        ensures
            c.epoch == epoch,
            c.next == 1,
    {
        LeaseCounter { epoch, next: 1 }
    }

    /// A new lease id, `lease-<epoch>-<number>`; the number counts up
    /// (wrapping at the `u64` limit).
    pub fn next_lease_id(&mut self) -> (s: String)
        ensures
            s@ == "lease-"@ + decimal_spec(old(self).epoch as nat) + "-"@ + decimal_spec(old(self).next as nat),
            final(self).epoch == old(self).epoch,
            final(self).next == (if old(self).next == u64::MAX { 0 } else { old(self).next + 1 }),
    {
        let seq = self.next;
        self.next = if seq == u64::MAX { 0 } else { seq + 1 };
        let e = decimal(self.epoch);
        let n = decimal(seq);
        let prefix = concat3("lease-", e.as_str(), "-");
        let s = concat3(prefix.as_str(), n.as_str(), "");
        proof {
            reveal_strlit("");
            assert(s@ =~= "lease-"@ + decimal_spec(old(self).epoch as nat) + "-"@ + decimal_spec(old(self).next as nat));
        }
        s
    }
}

} // verus!
