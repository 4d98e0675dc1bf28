//! The short-lived records the server keeps in memory about episodes and
//! reports. Times are milliseconds on the server's clock.
use crate::messages::EpisodeResult;
use vstd::prelude::*;

verus! {

/// Where a native attempt was dispatched, kept for cancelling it.
#[derive(Debug, Clone)]
pub struct NativeDispatchInfo {
    pub endpoint: String,
    pub episode_id: String,
    pub attempt_id: u32,
    pub dispatch_lease_id: String,
    pub dispatch_token: Vec<u8>,
}

/// A SWE agent job that was handed out, kept for abandoning it.
#[derive(Debug, Clone)]
pub struct AgentJobRef {
    pub pool_id: String,
    pub job_id: String,
}

/// How a report under an idempotency key was answered, until it expires.
#[derive(Debug, Clone)]
pub struct IdempotencyRecord {
    pub expires_at_ms: u64,
    pub episode_id: String,
    pub attempt_id: u32,
    pub dispatch_lease_id: String,
    pub ack: bool,
    pub code: String,
    pub message: String,
}

/// A short-lived outcome (of a cancel or a result) with its expiry.
#[derive(Debug, Clone)]
pub struct TimedOutcome {
    pub expires_at_ms: u64,
    pub code: String,
    pub message: String,
}

/// A result of an asynchronous submission, kept for `get_result`.
#[derive(Debug)]
pub struct CompletedAsyncResult {
    pub result: EpisodeResult,
    pub completed_at_ms: u64,
}

/// An episode that is running: which attempt, on which worker, since when.
#[derive(Debug, Clone)]
pub struct ActiveEpisode {
    pub episode_id: String,
    pub attempt_id: u32,
    pub worker_id: String,
    pub started_at_ms: u64,
    pub parallel_mode: String,
    pub enqueue_at_ms: u64,
    /// Bits of the `f64` Unix-seconds enqueue time.
    pub enqueue_ts: u64,
    pub batch_id: String,
}

/// Is a record that expires at `expires_at_ms` still valid at `now_ms`?
pub fn is_live(expires_at_ms: u64, now_ms: u64) -> (b: bool)
    ensures
        b == (now_ms < expires_at_ms),
{
    now_ms < expires_at_ms
}

} // verus!
