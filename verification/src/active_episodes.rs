//! The episodes the server is running. An episode id is taken once: a
//! second submission of a running episode is refused, so that cancels,
//! results and worker leases always belong to one submission.
use crate::episode_flow::already_active_text;
use crate::state::ActiveEpisode;
use crate::text::str_eq;
use vstd::prelude::*;

verus! {

/// The ids of the episodes, in order.
pub open spec fn episode_ids(s: Seq<ActiveEpisode>) -> Seq<Seq<char>> {
    s.map_values(|a: ActiveEpisode| a.episode_id@)
}

/// No id occurs twice.
pub open spec fn ids_unique(s: Seq<ActiveEpisode>) -> bool {
    forall|i: int, j: int| 0 <= i < j < s.len() ==> (#[trigger] s[i]).episode_id@ != (#[trigger] s[j]).episode_id@
}

/// Is the episode another than `id`?
pub open spec fn other_than(id: Seq<char>) -> spec_fn(ActiveEpisode) -> bool {
    |a: ActiveEpisode| a.episode_id@ != id
}

/// The episodes other than `id`.
pub open spec fn without_episode(s: Seq<ActiveEpisode>, id: Seq<char>) -> Seq<ActiveEpisode> {
    s.filter(other_than(id))
}

/// The running episodes, each id once, in the order they were started.
#[derive(Debug)]
pub struct ActiveEpisodes {
    entries: Vec<ActiveEpisode>,
}

impl ActiveEpisodes {
    /// The running episodes.
    pub closed spec fn records(&self) -> Seq<ActiveEpisode> {
        self.entries@
    }

    #[verifier::type_invariant]
    closed spec fn unique(&self) -> bool {
        ids_unique(self.entries@)
    }

    /// No episode runs.
    pub fn new() -> (t: Self)
        ensures
            t.records() == Seq::<ActiveEpisode>::empty(),
    {
        ActiveEpisodes { entries: Vec::new() }
    }

    /// The running episodes, in the order they were started.
    pub fn list(&self) -> (v: &Vec<ActiveEpisode>)
        ensures
            v@ == self.records(),
    {
        &self.entries
    }

    /// The ids of the running episodes, in the order they were started.
    pub fn ids(&self) -> (v: Vec<String>)
        ensures
            v@.len() == self.records().len(),
            forall|i: int| 0 <= i < v@.len() ==> (#[trigger] v@[i])@ == self.records()[i].episode_id@,
    {
        let mut v: Vec<String> = Vec::new();
        let mut i: usize = 0;
        while i < self.entries.len()
            invariant
                i <= self.entries@.len(),
                v@.len() == i,
                forall|j: int| 0 <= j < i ==> (#[trigger] v@[j])@ == self.entries@[j].episode_id@,
            decreases self.entries@.len() - i,
        {
            v.push(self.entries[i].episode_id.clone());
            i = i + 1;
        }
        v
    }

    /// Does the episode run?
    pub fn contains(&self, episode_id: &str) -> (b: bool)
        ensures
            b == episode_ids(self.records()).contains(episode_id@),
    {
        let mut i: usize = 0;
        while i < self.entries.len()
            invariant
                i <= self.entries@.len(),
                forall|j: int| 0 <= j < i ==> (#[trigger] self.entries@[j]).episode_id@ != episode_id@,
            decreases self.entries@.len() - i,
        {
            if str_eq(self.entries[i].episode_id.as_str(), episode_id) {
                proof {
                    assert(episode_ids(self.entries@)[i as int] == episode_id@);
                }
                return true;
            }
            i = i + 1;
        }
        proof {
            if episode_ids(self.entries@).contains(episode_id@) {
                let j = choose|j: int| 0 <= j < episode_ids(self.entries@).len() && episode_ids(self.entries@)[j] == episode_id@;
                assert(self.entries@[j].episode_id@ == episode_id@);
            }
        }
        false
    }

    /// Starts an episode, or refuses it with "episode <id> is already
    /// active" (and changes nothing) when an episode with its id runs.
    pub fn start(&mut self, episode: ActiveEpisode) -> (r: Result<(), String>)
        ensures
            episode_ids(old(self).records()).contains(episode.episode_id@) ==> {
                &&& r matches Err(m) && m@ == already_active_text(episode.episode_id@)
                &&& final(self).records() == old(self).records()
            },
            !episode_ids(old(self).records()).contains(episode.episode_id@) ==> {
                &&& r is Ok
                &&& final(self).records() == old(self).records().push(episode)
            },
    {
        proof {
            use_type_invariant(&*self);
        }
        if self.contains(episode.episode_id.as_str()) {
            return crate::episode_flow::active_check(episode.episode_id.as_str(), true);
        }
        proof {
            let s = self.entries@.push(episode);
            assert forall|i: int, j: int| 0 <= i < j < s.len() implies (#[trigger] s[i]).episode_id@ != (
            #[trigger] s[j]).episode_id@ by {
                if j == s.len() - 1 {
                    assert(episode_ids(self.entries@)[i] == s[i].episode_id@);
                } else {
                    assert(s[i] == self.entries@[i] && s[j] == self.entries@[j]);
                }
            }
        }
        let mut entries: Vec<ActiveEpisode> = Vec::new();
        std::mem::swap(&mut entries, &mut self.entries);
        entries.push(episode);
        self.entries = entries;
        Ok(())
    }

    /// The episode stops running.
    pub fn release(&mut self, episode_id: &str)
        ensures
            final(self).records() == without_episode(old(self).records(), episode_id@),
    {
        proof {
            use_type_invariant(&*self);
        }
        let ghost pred = other_than(episode_id@);
        let mut old_entries: Vec<ActiveEpisode> = Vec::new();
        std::mem::swap(&mut old_entries, &mut self.entries);
        let ghost orig = old_entries@;
        let mut kept: Vec<ActiveEpisode> = Vec::new();
        let ghost mut i: int = 0;
        proof {
            assert(old_entries@ =~= orig.subrange(0, orig.len() as int));
            reveal(Seq::filter);
            assert(orig.take(0).filter(pred) =~= Seq::<ActiveEpisode>::empty());
        }
        while old_entries.len() > 0
            invariant
                0 <= i <= orig.len(),
                old_entries@ == orig.subrange(i, orig.len() as int),
                kept@ == orig.take(i).filter(pred),
                pred == other_than(episode_id@),
            decreases old_entries@.len(),
        {
            let e = old_entries.remove(0);
            proof {
                assert(e == orig[i]);
                assert(orig.take(i + 1) =~= orig.take(i).push(orig[i]));
                orig.take(i).lemma_filter_push(orig[i], pred);
            }
            if !str_eq(e.episode_id.as_str(), episode_id) {
                kept.push(e);
            }
            proof {
                i = i + 1;
                assert(old_entries@ =~= orig.subrange(i, orig.len() as int));
            }
        }
        proof {
            assert(orig.take(i) =~= orig);
            lemma_filter_keeps_ids_unique(orig, pred);
        }
        self.entries = kept;
    }
}

proof fn lemma_filter_keeps_ids_unique(s: Seq<ActiveEpisode>, f: spec_fn(ActiveEpisode) -> bool)
    requires
        ids_unique(s),
    ensures
        ids_unique(s.filter(f)),
    decreases s.len(),
{
    reveal(Seq::filter);
    if s.len() > 0 {
        let r = s.drop_last();
        assert(ids_unique(r)) by {
            assert forall|i: int, j: int| 0 <= i < j < r.len() implies (#[trigger] r[i]).episode_id@ != (
            #[trigger] r[j]).episode_id@ by {
                assert(r[i] == s[i] && r[j] == s[j]);
            }
        }
        lemma_filter_keeps_ids_unique(r, f);
        let fr = r.filter(f);
        if f(s.last()) {
            assert forall|i: int| 0 <= i < fr.len() implies (#[trigger] fr[i]).episode_id@ != s.last().episode_id@ by {
                r.lemma_filter_contains_rev(f, fr[i]);
                let k = choose|k: int| 0 <= k < r.len() && r[k] == fr[i];
                assert(s[k] == r[k]);
                assert(s[s.len() - 1] == s.last());
            }
            assert(s.filter(f) == fr.push(s.last()));
        } else {
            assert(s.filter(f) == fr);
        }
    }
}

/// Law: a refused second submission leaves the running episodes as they
/// were, and releasing an episode that was just started gives back the
/// running episodes as they were before it.
pub proof fn law_release_undoes_start(s: Seq<ActiveEpisode>, episode: ActiveEpisode)
    requires
        ids_unique(s),
        !episode_ids(s).contains(episode.episode_id@),
    ensures
        without_episode(s.push(episode), episode.episode_id@) == s,
{
    let id = episode.episode_id@;
    let pred = other_than(id);
    assert forall|j: int| 0 <= j < s.len() implies pred(#[trigger] s[j]) by {
        assert(episode_ids(s)[j] == s[j].episode_id@);
    }
    lemma_filter_all(s, pred);
    s.lemma_filter_push(episode, pred);
}

proof fn lemma_filter_all(s: Seq<ActiveEpisode>, f: spec_fn(ActiveEpisode) -> bool)
    requires
        forall|j: int| 0 <= j < s.len() ==> f(#[trigger] s[j]),
    ensures
        s.filter(f) == s,
    decreases s.len(),
{
    reveal(Seq::filter);
    if s.len() > 0 {
        lemma_filter_all(s.drop_last(), f);
        assert(s.drop_last().push(s.last()) =~= s);
    }
}

} // verus!
