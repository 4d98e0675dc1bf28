//! Rules the episode service applies at its boundary: the parallel mode of a
//! request, protocol-looking metadata, which scheduling failures are worth a
//! retry, which dispatch failures are deterministic, and how an agent's job
//! report becomes an episode result.
use crate::config::concat3;
use crate::messages::{
    copy_u32s, AgentJobCompleteRequest, EpisodeRequest, EpisodeResult, ErrorCode, StepRecord,
    Summary, Trajectory,
};
use crate::results::{is_protocol_key, is_protocol_metadata_key, without_protocol_keys, ResultClock};
use crate::scheduler::ScheduleError;
use crate::string_map::StringMap;
use crate::text::{chars_of, contains_lowercased, contains_lowered, str_eq, trim, trim_spec};
use vstd::prelude::*;

verus! {

broadcast use vstd::string::group_string_axioms;

/// The parallel mode that a raw field asks for: surrounding whitespace is
/// ignored, an empty field means `sync`, and only `sync`,
/// `one_step_off_policy` and `fully_async` are supported.
pub open spec fn parallel_mode_spec(raw: Seq<char>) -> Result<Seq<char>, Seq<char>> {
    let m = trim_spec(raw);
    if m.len() == 0 {
        Ok("sync"@)
    } else if m == "sync"@ || m == "one_step_off_policy"@ || m == "fully_async"@ {
        Ok(m)
    } else {
        Err("unsupported parallel_mode: "@ + m + ""@)
    }
}

/// Normalises a parallel mode; see `parallel_mode_spec`.
pub fn normalize_parallel_mode(raw: &str) -> (r: Result<String, String>)
    ensures
        match (r, parallel_mode_spec(raw@)) {
            (Ok(m), Ok(s)) => m@ == s,
            (Err(e), Err(s)) => e@ == s,
            _ => false,
        },
{
    let mode = trim(raw);
    if mode.is_empty() {
        return Ok("sync".to_string());
    }
    if str_eq(mode, "sync") || str_eq(mode, "one_step_off_policy") || str_eq(mode, "fully_async") {
        return Ok(mode.to_string());
    }
    Err(concat3("unsupported parallel_mode: ", mode, ""))
}

/// The request's parallel mode. Only the typed field counts: metadata or
/// payload entries of the same name are ignored.
pub fn extract_parallel_mode(req: &EpisodeRequest) -> (r: Result<String, String>)
    ensures
        match (r, parallel_mode_spec(req.parallel_mode@)) {
            (Ok(m), Ok(s)) => m@ == s,
            (Err(e), Err(s)) => e@ == s,
            _ => false,
        },
{
    normalize_parallel_mode(req.parallel_mode.as_str())
}

/// Removes the metadata entries whose keys name protocol fields.
pub fn strip_protocol_metadata(metadata: &mut StringMap)
    ensures
        final(metadata)@ == without_protocol_keys(old(metadata)@),
{
    let mut src = StringMap::new();
    std::mem::swap(&mut src, metadata);
    let mut kept = StringMap::new();
    let n = src.len();
    assert forall|j: int| 0 <= j < src.pairs().len() implies #[trigger] src@.contains_key(src.pairs()[j].0)
                && src@[src.pairs()[j].0] == src.pairs()[j].1 by {
        assert(src@.contains_key(src.pairs()[j].0));
    }
    let mut i: usize = 0;
    while i < n
        invariant
            n == src.pairs().len(),
            i <= n,
            src@ == old(metadata)@,
            forall|j: int| 0 <= j < src.pairs().len() ==> #[trigger] src@.contains_key(src.pairs()[j].0)
                && src@[src.pairs()[j].0] == src.pairs()[j].1,
            forall|k: Seq<char>| #[trigger] kept@.contains_key(k) <==> exists|j: int| 0 <= j < i && #[trigger] src.pairs()[j].0 == k && !is_protocol_key(k),
            forall|k: Seq<char>| #[trigger] kept@.contains_key(k) ==> kept@[k] == src@[k],
        decreases n - i,
    {
        let (k, v) = src.entry_at(i);
        proof {
            assert(src@.contains_key(src.pairs()[i as int].0));
        }
        if !is_protocol_metadata_key(k.as_str()) {
            kept.insert(k.clone(), v.clone());
        }
        proof {
            let kk = src.pairs()[i as int].0;
            assert forall|q: Seq<char>| #[trigger] kept@.contains_key(q) <==> exists|j: int| 0 <= j < i + 1 && #[trigger] src.pairs()[j].0 == q && !is_protocol_key(q) by {
                if q == kk && !is_protocol_key(q) {
                    assert(src.pairs()[i as int].0 == q);
                }
                if exists|j: int| 0 <= j < i + 1 && #[trigger] src.pairs()[j].0 == q && !is_protocol_key(q) {
                    let j = choose|j: int| 0 <= j < i + 1 && #[trigger] src.pairs()[j].0 == q && !is_protocol_key(q);
                    if j < i {
                        assert(exists|j2: int| 0 <= j2 < i && #[trigger] src.pairs()[j2].0 == q && !is_protocol_key(q));
                    }
                }
            }
        }
        i = i + 1;
    }
    proof {
        let w = without_protocol_keys(src@);
        assert forall|k: Seq<char>| #[trigger] kept@.contains_key(k) <==> w.contains_key(k) by {
            if src@.contains_key(k) && !is_protocol_key(k) {
                let j = choose|j: int| 0 <= j < src.pairs().len() && src.pairs()[j].0 == k;
                assert(exists|j2: int| 0 <= j2 < i && #[trigger] src.pairs()[j2].0 == k && !is_protocol_key(k));
            }
            if exists|j: int| 0 <= j < i && #[trigger] src.pairs()[j].0 == k && !is_protocol_key(k) {
                let j = choose|j: int| 0 <= j < i && #[trigger] src.pairs()[j].0 == k && !is_protocol_key(k);
                assert(src@.contains_key(src.pairs()[j].0));
            }
        }
        assert(kept@ =~= w);
    }
    *metadata = kept;
}

/// What the server records about a request when it accepts it.
#[derive(Debug)]
pub struct AsyncRequestContext {
    /// The normalised parallel mode.
    pub parallel_mode: String,
    /// When the request entered the server, in milliseconds since the epoch.
    pub enqueue_at_ms: u64,
    /// Bits of the `f64` Unix-seconds enqueue time.
    pub enqueue_ts: u64,
}

/// Normalises the protocol fields of a request once, at the server's
/// boundary: the parallel mode is normalised, protocol-looking metadata is
/// removed (metadata stays contextual), and the enqueue time defaults to now.
pub fn ensure_async_request_context(req: &mut EpisodeRequest, clock: ResultClock) -> (r: Result<AsyncRequestContext, String>)
    ensures
        match parallel_mode_spec(old(req).parallel_mode@) {
            Ok(m) => r matches Ok(ctx) && ctx.parallel_mode@ == m && final(req).parallel_mode@ == m
                && final(req).metadata@ == without_protocol_keys(old(req).metadata@)
                && ctx.enqueue_ts == (match old(req).enqueue_ts { Some(t) => t, None => clock.now_unix_secs })
                && final(req).enqueue_ts == Some(ctx.enqueue_ts)
                && ctx.enqueue_at_ms == clock.now_ms
                && final(req).episode_id == old(req).episode_id
                && final(req).env_type == old(req).env_type,
            Err(e) => r matches Err(m) && m@ == e && *final(req) == *old(req),
        },
{
    let parallel_mode = match extract_parallel_mode(req) {
        Ok(m) => m,
        Err(e) => return Err(e),
    };
    req.parallel_mode = parallel_mode.clone();
    strip_protocol_metadata(&mut req.metadata);
    let enqueue_ts = match req.enqueue_ts {
        Some(t) => t,
        None => clock.now_unix_secs,
    };
    req.enqueue_ts = Some(enqueue_ts);
    Ok(AsyncRequestContext { parallel_mode, enqueue_at_ms: clock.now_ms, enqueue_ts })
}

/// No free worker, or every worker busy: waiting may help. An unsupported
/// environment type or package will not change by waiting.
pub fn is_retryable_schedule_error(error: &ScheduleError) -> (b: bool)
    ensures
        b == (*error == ScheduleError::NoWorkerAvailable || *error == ScheduleError::AllWorkersAtCapacity),
{
    match error {
        ScheduleError::NoWorkerAvailable | ScheduleError::AllWorkersAtCapacity => true,
        _ => false,
    }
}

/// A dispatch failure is a deterministic environment-step failure when its
/// full text (lower-cased) names `err_env_step_failed`, or names
/// `execute_episode_failed` together with an `h2` stream that was
/// cancelled or reset (older workers).
pub open spec fn deterministic_code_spec(text: Seq<char>) -> Option<ErrorCode> {
    if contains_lowered(text, "err_env_step_failed"@) {
        Some(ErrorCode::ErrEnvStepFailed)
    } else if contains_lowered(text, "execute_episode_failed"@) && contains_lowered(text, "h2"@)
        && (contains_lowered(text, "cancel"@) || contains_lowered(text, "reset"@)) {
        Some(ErrorCode::ErrEnvStepFailed)
    } else {
        None
    }
}

/// Classifies a dispatch failure from its full error text.
pub fn deterministic_dispatch_error_code(error_text: &str) -> (c: Option<ErrorCode>)
    ensures
        c == deterministic_code_spec(error_text@),
{
    let text = chars_of(error_text);
    if contains_lowercased(&text, "err_env_step_failed") {
        return Some(ErrorCode::ErrEnvStepFailed);
    }
    let worker_execution_failed = contains_lowercased(&text, "execute_episode_failed");
    let h2_stream_failed = contains_lowercased(&text, "h2") && (contains_lowercased(&text, "cancel")
        || contains_lowercased(&text, "reset"));
    if worker_execution_failed && h2_stream_failed {
        return Some(ErrorCode::ErrEnvStepFailed);
    }
    None
}

/// The result of an episode that was cancelled before it produced anything.
pub fn cancelled_result(episode_id: &str, attempt_id: u32) -> (r: EpisodeResult)
    ensures
        r.episode_id@ == episode_id@,
        r.attempt_id == attempt_id,
        r.status@ == "cancelled"@,
        r.error_message@ == "episode cancelled"@,
        r.error_code is None,
        r.summary is None,
        r.trajectory is None,
        r.metadata@ == Map::<Seq<char>, Seq<char>>::empty(),
{
    let mut r = EpisodeResult::default();
    r.episode_id = episode_id.to_string();
    r.attempt_id = attempt_id;
    r.status = "cancelled".to_string();
    r.error_message = "episode cancelled".to_string();
    r
}

/// The result of an agent job: the agent's report mapped onto the episode.
/// A non-empty rollout trace becomes a one-step trajectory.
pub fn agent_complete_to_episode_result(complete: &AgentJobCompleteRequest, episode_id: &str, attempt_id: u32, gateway_session_id: &str, status: &str) -> (r: EpisodeResult)
    ensures
        r.episode_id@ == episode_id@,
        r.attempt_id == attempt_id,
        r.status@ == status@,
        r.error_code is None,
        r.error_message@ == complete.error_message@,
        r.trajectory_id@ == complete.trajectory_id@,
        r.gateway_session_id@ == gateway_session_id@,
        r.parallel_mode@ == complete.parallel_mode@,
        r.rollout_param_version == complete.rollout_param_version,
        r.rollout_policy_version == complete.rollout_policy_version,
        r.rollout_log_probs@ == complete.rollout_log_probs@,
        r.worker_start_ts == complete.worker_start_ts,
        r.worker_finish_ts == complete.worker_finish_ts,
        r.result_ready_ts == complete.result_ready_ts,
        r.worker_latency_ms == complete.worker_latency_ms,
        r.model_latency_ms == complete.model_latency_ms,
        r.metadata@ == complete.metadata@,
        r.summary matches Some(s) && s.total_reward == complete.reward && s.total_steps == 0 && s.terminate_reason@.len() == 0,
        match complete.rollout_trace {
            Some(t) if t.response_ids@.len() != 0 || t.response_mask@.len() != 0 => {
                &&& r.trajectory matches Some(tr)
                &&& tr.total_reward == complete.reward
                &&& tr.total_steps == 1
                &&& tr.steps@.len() == 1
                &&& tr.steps@[0].step_index == 1
                &&& tr.steps@[0].info@ == Map::<Seq<char>, Seq<char>>::empty()
                &&& tr.steps@[0].rollout_trace matches Some(rt)
                &&& rt.response_ids@ == t.response_ids@
                &&& rt.response_mask@ == t.response_mask@
            },
            _ => r.trajectory is None,
        },
{
    let trajectory = match &complete.rollout_trace {
        Some(trace) => {
            if trace.response_ids.len() == 0 && trace.response_mask.len() == 0 {
                None
            } else {
                let mut steps: Vec<StepRecord> = Vec::new();
                steps.push(StepRecord { step_index: 1, rollout_trace: Some(trace.clone()), info: StringMap::new() });
                Some(Trajectory { steps, total_reward: complete.reward, total_steps: 1 })
            }
        },
        None => None,
    };
    let mut r = EpisodeResult::default();
    r.episode_id = episode_id.to_string();
    r.attempt_id = attempt_id;
    r.status = status.to_string();
    r.error_message = complete.error_message.clone();
    r.trajectory = trajectory;
    r.trajectory_id = complete.trajectory_id.clone();
    r.gateway_session_id = gateway_session_id.to_string();
    r.parallel_mode = complete.parallel_mode.clone();
    r.rollout_param_version = complete.rollout_param_version;
    r.rollout_policy_version = complete.rollout_policy_version.clone();
    r.rollout_log_probs = copy_u32s(&complete.rollout_log_probs);
    r.worker_start_ts = complete.worker_start_ts;
    r.worker_finish_ts = complete.worker_finish_ts;
    r.result_ready_ts = complete.result_ready_ts;
    r.worker_latency_ms = complete.worker_latency_ms;
    r.model_latency_ms = complete.model_latency_ms;
    r.metadata = complete.metadata.clone();
    r.summary = Some(Summary { total_reward: complete.reward, total_steps: 0, terminate_reason: String::new() });
    r
}

/// What came of asking a native worker to cancel an episode.
#[derive(Debug, Clone)]
pub struct WorkerCancelOutcome {
    pub attempted: bool,
    pub accepted: bool,
    pub code: String,
    pub message: String,
}

impl WorkerCancelOutcome {
    /// No cancellation was sent.
    pub fn not_attempted(code: &str, message: &str) -> (o: Self)
        ensures
            !o.attempted,
            !o.accepted,
            o.code@ == code@,
            o.message@ == message@,
    {
        WorkerCancelOutcome { attempted: false, accepted: false, code: code.to_string(), message: message.to_string() }
    }

    /// The cancellation call failed with the given error text.
    pub fn rpc_failed(error: &str) -> (o: Self)
        ensures
            o.attempted,
            !o.accepted,
            o.code@ == "RPC_FAILED"@,
            o.message@ == error@,
    {
        WorkerCancelOutcome { attempted: true, accepted: false, code: "RPC_FAILED".to_string(), message: error.to_string() }
    }
}

} // verus!
