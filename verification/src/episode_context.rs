//! What an episode keeps from submission to completion, so that a result
//! reported later is finished against the request as it was submitted.
//! Times are milliseconds on the server's clock; the Unix-seconds enqueue
//! time is kept as the bits of its `f64`.
use crate::messages::EpisodeRequest;
use vstd::prelude::*;

verus! {

/// The stable context of one episode.
#[derive(Debug)]
pub struct EpisodeContext {
    /// The whole request as submitted.
    pub request: EpisodeRequest,
    pub episode_id: String,
    pub attempt_id: u32,
    /// `sync`, `fully_async` or `one_step_off_policy`.
    pub parallel_mode: String,
    pub batch_id: String,
    /// When the server received the request.
    pub enqueue_at_ms: u64,
    /// Bits of the `f64` Unix-seconds time the server received the request.
    pub enqueue_ts: u64,
    /// When the episode must be done, whatever stage it is in.
    pub deadline_ms: u64,
}

impl EpisodeContext {
    /// The context of an already normalised request: its id and attempt
    /// are the request's own; the rest is as given.
    pub fn from_request(
        request: EpisodeRequest,
        parallel_mode: String,
        batch_id: String,
        enqueue_at_ms: u64,
        enqueue_ts: u64,
        deadline_ms: u64,
    ) -> (c: Self)
        ensures
            c.request == request,
            c.episode_id@ == request.episode_id@,
            c.attempt_id == request.attempt_id,
            c.parallel_mode@ == parallel_mode@,
            c.batch_id@ == batch_id@,
            c.enqueue_at_ms == enqueue_at_ms,
            c.enqueue_ts == enqueue_ts,
            c.deadline_ms == deadline_ms,
    {
        let episode_id = request.episode_id.clone();
        let attempt_id = request.attempt_id;
        EpisodeContext {
            request,
            episode_id,
            attempt_id,
            parallel_mode,
            batch_id,
            enqueue_at_ms,
            enqueue_ts,
            deadline_ms,
        }
    }
}

} // verus!
