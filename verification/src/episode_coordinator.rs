//! Ownership of persisted episodes: the first submission of an episode id
//! owns its execution; a later submission with the same request attaches to
//! it; one with a different request is a conflict.
//!
//! The table here decides; the channels that deliver the terminal result to
//! attached callers live beside it, outside the library.
use crate::string_map::StringMap;
use crate::text::str_eq;
use vstd::prelude::*;

verus! {

broadcast use vstd::string::group_string_axioms;

/// Episode id to request checksum of the submission that owns it.
#[derive(Debug)]
pub struct EpisodeCoordinator {
    entries: StringMap,
}

impl EpisodeCoordinator {
    /// The owned episodes with their request checksums.
    pub closed spec fn entries_spec(&self) -> Map<Seq<char>, Seq<char>> {
        self.entries@
    }

    /// No episode is owned.
    pub fn new() -> (c: Self)
        ensures
            c.entries_spec() == Map::<Seq<char>, Seq<char>>::empty(),
    {
        EpisodeCoordinator { entries: StringMap::new() }
    }

    /// Registers a submission: `Ok(true)` when the caller becomes the owner
    /// (the id was free), `Ok(false)` when it attaches to the owner of the
    /// same request, an `EPISODE_ID_CONFLICT` error when the id is owned by
    /// a different request.
    pub fn get_or_insert(&mut self, episode_id: &str, request_checksum: &str) -> (r: Result<bool, String>)
        ensures
            !old(self).entries_spec().contains_key(episode_id@) ==> r == Ok::<bool, String>(true)
                && final(self).entries_spec() == old(self).entries_spec().insert(episode_id@, request_checksum@),
            old(self).entries_spec().contains_key(episode_id@) ==> final(self).entries_spec() == old(self).entries_spec(),
            old(self).entries_spec().contains_key(episode_id@) && old(self).entries_spec()[episode_id@] == request_checksum@
                ==> r == Ok::<bool, String>(false),
            old(self).entries_spec().contains_key(episode_id@) && old(self).entries_spec()[episode_id@] != request_checksum@
                ==> (r matches Err(m) && m@ == "EPISODE_ID_CONFLICT: episode_id reused with different request"@),
    {
        match self.entries.get(episode_id) {
            Some(existing) => {
                if !str_eq(existing.as_str(), request_checksum) {
                    return Err("EPISODE_ID_CONFLICT: episode_id reused with different request".to_string());
                }
                Ok(false)
            },
            None => {
                self.entries.insert(episode_id.to_string(), request_checksum.to_string());
                Ok(true)
            },
        }
    }

    /// The request checksum of the owner of an episode.
    pub fn get(&self, episode_id: &str) -> (r: Option<&String>)
        ensures
            match r {
                Some(c) => self.entries_spec().contains_key(episode_id@) && self.entries_spec()[episode_id@] == c@,
                None => !self.entries_spec().contains_key(episode_id@),
            },
    {
        self.entries.get(episode_id)
    }

    /// Ends the ownership of an episode if it is still owned by the request
    /// with this checksum (a newer owner is left alone).
    pub fn remove_if_same(&mut self, episode_id: &str, request_checksum: &str)
        ensures
            old(self).entries_spec().contains_key(episode_id@) && old(self).entries_spec()[episode_id@] == request_checksum@
                ==> final(self).entries_spec() == old(self).entries_spec().remove(episode_id@),
            !(old(self).entries_spec().contains_key(episode_id@) && old(self).entries_spec()[episode_id@] == request_checksum@)
                ==> final(self).entries_spec() == old(self).entries_spec(),
    {
        let same = match self.entries.get(episode_id) {
            Some(existing) => str_eq(existing.as_str(), request_checksum),
            None => false,
        };
        if same {
            self.entries.remove(episode_id);
        }
    }

    /// Number of owned episodes.
    pub fn active_count(&self) -> (n: usize)
        ensures
            n == self.entries_spec().dom().len(),
    {
        self.entries.len()
    }
}

/// Law: once a submission owns an episode id, a submission with the same
/// request attaches to it and one with a different request conflicts, and
/// neither changes the table.
pub proof fn law_owner_decides_later_submissions(table: Map<Seq<char>, Seq<char>>, id: Seq<char>, owner: Seq<char>, later: Seq<char>)
    requires
        !table.contains_key(id),
    ensures
        table.insert(id, owner).contains_key(id),
        table.insert(id, owner)[id] == later <==> later == owner,
{
}

} // verus!
