//! Terminal episode results: the results the server makes itself (cancel,
//! timeout, failure), the common fields every result gets before it leaves
//! the server, and the checks on asynchronous-training results.
use crate::config::concat3;
use crate::messages::{EpisodeRequest, EpisodeResult, ErrorCode, Summary};
use crate::string_map::{has_key, StringMap};
use crate::text::str_eq;
use vstd::prelude::*;

verus! {

broadcast use vstd::string::group_string_axioms;

/// A terminal state that the server itself decides.
#[derive(Debug)]
pub enum EpisodeTerminalEvent {
    Cancelled { reason: String },
    TimedOut { reason: String },
}

/// When an episode entered the server and when it was dispatched, for the
/// result's timing fields. Times are milliseconds since the Unix epoch;
/// `dispatch_ts` holds the bits of the `f64` Unix-seconds dispatch time.
#[derive(Debug, Clone, Copy)]
pub struct ResultTiming {
    pub enqueue_at_ms: u64,
    pub dispatch_at_ms: Option<u64>,
    pub dispatch_ts: Option<u64>,
}

/// The time at which a result is finalised: milliseconds since the Unix
/// epoch, and the bits of the same instant as `f64` Unix seconds.
#[derive(Debug, Clone, Copy)]
pub struct ResultClock {
    pub now_ms: u64,
    pub now_unix_secs: u64,
}

/// Metadata keys that name protocol fields; the typed fields are the only
/// authority for them.
pub open spec fn is_protocol_key(k: Seq<char>) -> bool {
    k == "parallel_mode"@ || k == "rollout_param_version"@ || k == "rollout_policy_version"@
        || k == "rollout_log_probs"@ || k == "enqueue_ts"@ || k == "dispatch_ts"@ || k
        == "result_ready_ts"@ || k == "worker_start_ts"@ || k == "worker_finish_ts"@ || k
        == "server_latency_ms"@ || k == "worker_latency_ms"@ || k == "model_latency_ms"@
}

/// Is the key a protocol field's name?
pub fn is_protocol_metadata_key(key: &str) -> (b: bool)
    ensures
        b == is_protocol_key(key@),
{
    str_eq(key, "parallel_mode") || str_eq(key, "rollout_param_version") || str_eq(
        key,
        "rollout_policy_version",
    ) || str_eq(key, "rollout_log_probs") || str_eq(key, "enqueue_ts") || str_eq(
        key,
        "dispatch_ts",
    ) || str_eq(key, "result_ready_ts") || str_eq(key, "worker_start_ts") || str_eq(
        key,
        "worker_finish_ts",
    ) || str_eq(key, "server_latency_ms") || str_eq(key, "worker_latency_ms") || str_eq(
        key,
        "model_latency_ms",
    )
}

/// A result's metadata after the request's contextual metadata is added:
/// the result's own entries win; protocol keys of the request are left out.
pub open spec fn merged_metadata(result_md: Map<Seq<char>, Seq<char>>, req_md: Map<Seq<char>, Seq<char>>) -> Map<Seq<char>, Seq<char>> {
    Map::new(
        |k: Seq<char>| result_md.contains_key(k) || (req_md.contains_key(k) && !is_protocol_key(k)),
        |k: Seq<char>| if result_md.contains_key(k) { result_md[k] } else { req_md[k] },
    )
}

/// `m` without its protocol keys.
pub open spec fn without_protocol_keys(m: Map<Seq<char>, Seq<char>>) -> Map<Seq<char>, Seq<char>> {
    Map::new(|k: Seq<char>| m.contains_key(k) && !is_protocol_key(k), |k: Seq<char>| m[k])
}

/// Milliseconds from `at` to `now`, 0 if `at` is later.
pub open spec fn elapsed_ms(now: u64, at: u64) -> u64 {
    if now >= at { (now - at) as u64 } else { 0 }
}

/// The server latency recorded for a result: from dispatch (or, without a
/// dispatch, from enqueue) to now.
pub open spec fn server_latency_spec(t: ResultTiming, clock: ResultClock) -> i64 {
    let at = match t.dispatch_at_ms { Some(d) => d, None => t.enqueue_at_ms };
    elapsed_ms(clock.now_ms, at) as i64
}

/// The fields that finalisation does not touch are those of `a`.
pub open spec fn same_body(a: EpisodeResult, b: EpisodeResult) -> bool {
    &&& b.episode_id == a.episode_id
    &&& b.attempt_id == a.attempt_id
    &&& b.status == a.status
    &&& b.error_code == a.error_code
    &&& b.error_message == a.error_message
    &&& b.summary == a.summary
    &&& b.trajectory == a.trajectory
    &&& b.trajectory_id == a.trajectory_id
    &&& b.trajectory_storage_url == a.trajectory_storage_url
    &&& b.gateway_session_id == a.gateway_session_id
    &&& b.rollout_param_version == a.rollout_param_version
    &&& b.rollout_policy_version == a.rollout_policy_version
    &&& b.rollout_log_probs == a.rollout_log_probs
    &&& b.worker_start_ts == a.worker_start_ts
    &&& b.worker_finish_ts == a.worker_finish_ts
    &&& b.worker_latency_ms == a.worker_latency_ms
    &&& b.model_latency_ms == a.model_latency_ms
}

/// `out` is `r` finalised for request `req`: the parallel mode defaults to
/// the request's, the request's contextual metadata is added, the ready time
/// defaults to now, and with timing the dispatch time and server latency
/// default to the timing's.
pub open spec fn finalized(req: EpisodeRequest, r: EpisodeResult, timing: Option<ResultTiming>, clock: ResultClock, out: EpisodeResult) -> bool {
    &&& same_body(r, out)
    &&& out.parallel_mode@ == (if r.parallel_mode@.len() == 0 { req.parallel_mode@ } else { r.parallel_mode@ })
    &&& out.metadata@ == merged_metadata(r.metadata@, req.metadata@)
    &&& out.result_ready_ts == Some(match r.result_ready_ts { Some(t) => t, None => clock.now_unix_secs })
    &&& out.dispatch_ts == (match (r.dispatch_ts, timing) {
        (None, Some(t)) => t.dispatch_ts,
        _ => r.dispatch_ts,
    })
    &&& out.server_latency_ms == (match (r.server_latency_ms, timing) {
        (None, Some(t)) => Some(server_latency_spec(t, clock)),
        _ => r.server_latency_ms,
    })
}

/// Law: what finalisation does to a result, read off its fields. The
/// result's own metadata wins; the request's metadata fills in the other
/// keys except the protocol fields (parallel mode, rollout versions and log
/// probabilities, and the timing keys), which never come from request
/// metadata. An empty parallel mode takes the request's. A missing server
/// latency is the time since dispatch (or, not dispatched, since enqueue),
/// zero if the clock is behind.
pub proof fn law_finalize_fills_common_fields(req: EpisodeRequest, r: EpisodeResult, timing: Option<ResultTiming>, clock: ResultClock, out: EpisodeResult)
    requires
        finalized(req, r, timing, clock, out),
    ensures
        forall|k: Seq<char>| #[trigger] r.metadata@.contains_key(k) ==> out.metadata@.contains_key(k) && out.metadata@[k] == r.metadata@[k],
        forall|k: Seq<char>|
            #![trigger out.metadata@.contains_key(k)]
            !r.metadata@.contains_key(k) ==> (out.metadata@.contains_key(k) <==> req.metadata@.contains_key(k) && !(k
                == "parallel_mode"@ || k == "rollout_param_version"@ || k == "rollout_policy_version"@ || k
                == "rollout_log_probs"@ || k == "enqueue_ts"@ || k == "dispatch_ts"@ || k == "result_ready_ts"@ || k
                == "worker_start_ts"@ || k == "worker_finish_ts"@ || k == "server_latency_ms"@ || k == "worker_latency_ms"@
                || k == "model_latency_ms"@)),
        forall|k: Seq<char>| !r.metadata@.contains_key(k) && #[trigger] out.metadata@.contains_key(k) ==> out.metadata@[k] == req.metadata@[k],
        r.parallel_mode@.len() == 0 ==> out.parallel_mode@ == req.parallel_mode@,
        r.parallel_mode@.len() != 0 ==> out.parallel_mode@ == r.parallel_mode@,
        out.status == r.status && out.episode_id == r.episode_id && out.attempt_id == r.attempt_id,
        (r.server_latency_ms is None && timing matches Some(t)) ==> out.server_latency_ms == Some(({
            let at = match timing.unwrap().dispatch_at_ms { Some(d) => d, None => timing.unwrap().enqueue_at_ms };
            if clock.now_ms >= at { clock.now_ms - at } else { 0 }
        }) as i64),
        r.server_latency_ms is Some ==> out.server_latency_ms == r.server_latency_ms,
{
}

/// Adds the common fields to a result before it leaves the server.
pub fn finalize_episode_result(req: &EpisodeRequest, result: EpisodeResult, timing: Option<ResultTiming>, clock: ResultClock) -> (out: EpisodeResult)
    ensures
        finalized(*req, result, timing, clock, out),
{
    let mut result = result;
    if result.parallel_mode.as_str().is_empty() {
        result.parallel_mode = req.parallel_mode.clone();
    }
    let mut md = StringMap::new();
    std::mem::swap(&mut md, &mut result.metadata);
    let ghost r0 = md@;
    let n = req.metadata.len();
    let mut i: usize = 0;
    while i < n
        invariant
            n == req.metadata.pairs().len(),
            i <= n,
            forall|j: int| 0 <= j < req.metadata.pairs().len() ==> #[trigger] req.metadata@.contains_key(req.metadata.pairs()[j].0)
                && req.metadata@[req.metadata.pairs()[j].0] == req.metadata.pairs()[j].1,
            forall|k: Seq<char>| #[trigger] md@.contains_key(k) <==> r0.contains_key(k) || exists|j: int|
                0 <= j < i && #[trigger] req.metadata.pairs()[j].0 == k && !is_protocol_key(k),
            forall|k: Seq<char>| #[trigger] md@.contains_key(k) ==> md@[k] == (if r0.contains_key(k) { r0[k] } else { req.metadata@[k] }),
        decreases n - i,
    {
        let (k, v) = req.metadata.entry_at(i);
        proof {
            assert(req.metadata@.contains_key(req.metadata.pairs()[i as int].0));
        }
        if !is_protocol_metadata_key(k.as_str()) {
            md.insert_if_absent(k.clone(), v.clone());
        }
        proof {
            let kk = req.metadata.pairs()[i as int].0;
            assert forall|q: Seq<char>| #[trigger] md@.contains_key(q) <==> r0.contains_key(q) || exists|j: int|
                0 <= j < i + 1 && #[trigger] req.metadata.pairs()[j].0 == q && !is_protocol_key(q) by {
                if q == kk && !is_protocol_key(q) {
                    assert(req.metadata.pairs()[i as int].0 == q);
                }
                if exists|j: int| 0 <= j < i + 1 && #[trigger] req.metadata.pairs()[j].0 == q && !is_protocol_key(q) {
                    let j = choose|j: int| 0 <= j < i + 1 && #[trigger] req.metadata.pairs()[j].0 == q && !is_protocol_key(q);
                    if j < i {
                        assert(exists|j2: int| 0 <= j2 < i && #[trigger] req.metadata.pairs()[j2].0 == q && !is_protocol_key(q));
                    }
                }
            }
        }
        i = i + 1;
    }
    proof {
        let m = merged_metadata(r0, req.metadata@);
        assert forall|k: Seq<char>| #[trigger] md@.contains_key(k) <==> m.contains_key(k) by {
            if req.metadata@.contains_key(k) && !is_protocol_key(k) {
                assert(has_key(req.metadata.pairs(), k));
                let j = choose|j: int| 0 <= j < req.metadata.pairs().len() && req.metadata.pairs()[j].0 == k;
                assert(exists|j2: int| 0 <= j2 < i && #[trigger] req.metadata.pairs()[j2].0 == k && !is_protocol_key(k));
            }
            if exists|j: int| 0 <= j < i && #[trigger] req.metadata.pairs()[j].0 == k && !is_protocol_key(k) {
                let j = choose|j: int| 0 <= j < i && #[trigger] req.metadata.pairs()[j].0 == k && !is_protocol_key(k);
                assert(req.metadata@.contains_key(req.metadata.pairs()[j].0));
            }
        }
        assert(md@ =~= m);
    }
    result.metadata = md;
    let ready = match result.result_ready_ts {
        Some(t) => t,
        None => clock.now_unix_secs,
    };
    result.result_ready_ts = Some(ready);
    if let Some(t) = timing {
        if result.dispatch_ts.is_none() {
            result.dispatch_ts = t.dispatch_ts;
        }
        if result.server_latency_ms.is_none() {
            let at = match t.dispatch_at_ms {
                Some(d) => d,
                None => t.enqueue_at_ms,
            };
            let e = clock.now_ms.saturating_sub(at);
            result.server_latency_ms = Some(#[verifier::truncate] (e as i64));
        }
    }
    result
}

/// What is wrong with a completed asynchronous-training result.
#[derive(Debug, Clone, Copy, PartialEq, Eq)]
pub enum AsyncProtocolProblem {
    ParallelModeMismatch,
    MissingParamVersion,
    MissingPolicyVersion,
    MissingLogProbs,
}

/// Only completed results of the `one_step_off_policy` and `fully_async`
/// modes must carry the training fields: the request's parallel mode, the
/// rollout parameter and policy versions and the log probabilities.
pub open spec fn async_problem(req: EpisodeRequest, r: EpisodeResult) -> Option<AsyncProtocolProblem> {
    if r.status@ != "completed"@ {
        None
    } else if req.parallel_mode@ != "one_step_off_policy"@ && req.parallel_mode@ != "fully_async"@ {
        None
    } else if r.parallel_mode@ != req.parallel_mode@ {
        Some(AsyncProtocolProblem::ParallelModeMismatch)
    } else if r.rollout_param_version is None {
        Some(AsyncProtocolProblem::MissingParamVersion)
    } else if r.rollout_policy_version is None || r.rollout_policy_version.unwrap()@.len() == 0 {
        Some(AsyncProtocolProblem::MissingPolicyVersion)
    } else if r.rollout_log_probs@.len() == 0 {
        Some(AsyncProtocolProblem::MissingLogProbs)
    } else {
        None
    }
}

/// Does a result carry what asynchronous training needs? Only completed
/// results of `one_step_off_policy` and `fully_async` requests are asked:
/// they must repeat the request's mode, carry a parameter version, a
/// nonempty policy version and at least one log probability.
pub open spec fn async_fields_complete(req: EpisodeRequest, r: EpisodeResult) -> bool {
    r.status@ == "completed"@ && (req.parallel_mode@ == "one_step_off_policy"@ || req.parallel_mode@ == "fully_async"@)
        ==> {
        &&& r.parallel_mode@ == req.parallel_mode@
        &&& r.rollout_param_version is Some
        &&& r.rollout_policy_version matches Some(v) && v@.len() > 0
        &&& r.rollout_log_probs@.len() > 0
    }
}

/// Law: a completed asynchronous-mode result passes the protocol check
/// exactly when it carries the training fields; in particular a completed
/// result without log probabilities never passes, and results of other
/// statuses or modes always do.
pub proof fn law_async_check_demands_training_fields(req: EpisodeRequest, r: EpisodeResult)
    ensures
        (async_problem(req, r) is None) <==> async_fields_complete(req, r),
        r.status@ == "completed"@ && (req.parallel_mode@ == "one_step_off_policy"@ || req.parallel_mode@ == "fully_async"@)
            && r.rollout_log_probs@.len() == 0 ==> async_problem(req, r) is Some,
        r.status@ != "completed"@ ==> async_problem(req, r) is None,
{
}

/// The message for a protocol problem.
pub open spec fn async_problem_message(req: EpisodeRequest, r: EpisodeResult, p: AsyncProtocolProblem) -> Seq<char> {
    match p {
        AsyncProtocolProblem::ParallelModeMismatch => "parallel_mode mismatch: request="@ + req.parallel_mode@
            + ", result="@ + r.parallel_mode@ + ""@,
        AsyncProtocolProblem::MissingParamVersion => "missing rollout_param_version"@,
        AsyncProtocolProblem::MissingPolicyVersion => "missing rollout_policy_version"@,
        AsyncProtocolProblem::MissingLogProbs => "missing rollout_log_probs"@,
    }
}

/// Checks the training fields of a completed asynchronous-mode result.
pub fn validate_verl_async_result(req: &EpisodeRequest, result: &EpisodeResult) -> (r: Result<(), String>)
    ensures
        r is Ok <==> async_problem(*req, *result) is None,
        r matches Err(m) ==> async_problem(*req, *result) matches Some(p) && m@ == async_problem_message(*req, *result, p),
        r is Ok <==> async_fields_complete(*req, *result),
{
    if result.status != "completed".to_string() {
        return Ok(());
    }
    if req.parallel_mode != "one_step_off_policy".to_string() && req.parallel_mode != "fully_async".to_string() {
        return Ok(());
    }
    if result.parallel_mode != req.parallel_mode {
        let head = concat3("parallel_mode mismatch: request=", req.parallel_mode.as_str(), ", result=");
        return Err(concat3(head.as_str(), result.parallel_mode.as_str(), ""));
    }
    if result.rollout_param_version.is_none() {
        return Err("missing rollout_param_version".to_string());
    }
    let missing_policy = match &result.rollout_policy_version {
        None => true,
        Some(v) => v.as_str().is_empty(),
    };
    if missing_policy {
        return Err("missing rollout_policy_version".to_string());
    }
    if result.rollout_log_probs.len() == 0 {
        return Err("missing rollout_log_probs".to_string());
    }
    Ok(())
}

/// The body of a failure result made by the server.
pub open spec fn failed_body(req: EpisodeRequest, status: Seq<char>, message: Seq<char>, code: ErrorCode, r: EpisodeResult) -> bool {
    &&& r.episode_id@ == req.episode_id@
    &&& r.attempt_id == req.attempt_id
    &&& r.status@ == status
    &&& r.error_code == Some(code)
    &&& r.error_message@ == message
    &&& r.summary matches Some(s) && s.terminate_reason@ == status && s.total_reward == 0 && s.total_steps == 0
    &&& r.trajectory is None
    &&& r.trajectory_id@.len() == 0
    &&& r.rollout_param_version is None
    &&& r.rollout_policy_version is None
    &&& r.rollout_log_probs@.len() == 0
}

/// The fields that finalisation sets on a server-made result.
pub open spec fn finalized_fresh(req: EpisodeRequest, timing: Option<ResultTiming>, clock: ResultClock, r: EpisodeResult) -> bool {
    &&& r.parallel_mode@ == req.parallel_mode@
    &&& r.result_ready_ts == Some(clock.now_unix_secs)
    &&& r.dispatch_ts == (match timing { Some(t) => t.dispatch_ts, None => None })
    &&& r.server_latency_ms == (match timing { Some(t) => Some(server_latency_spec(t, clock)), None => None })
}

fn fresh_result(req: &EpisodeRequest, status: &str, message: String, error_code: Option<ErrorCode>) -> (r: EpisodeResult)
    ensures
        r.episode_id@ == req.episode_id@,
        r.attempt_id == req.attempt_id,
        r.status@ == status@,
        r.error_code == error_code,
        r.error_message@ == message@,
        r.summary matches Some(s) && s.terminate_reason@ == status@ && s.total_reward == 0 && s.total_steps == 0,
        r.trajectory is None,
        r.trajectory_id@.len() == 0,
        r.rollout_param_version is None,
        r.rollout_policy_version is None,
        r.rollout_log_probs@.len() == 0,
        r.parallel_mode@.len() == 0,
        r.metadata@ == Map::<Seq<char>, Seq<char>>::empty(),
        r.result_ready_ts is None,
        r.dispatch_ts is None,
        r.server_latency_ms is None,
{
    let mut r = EpisodeResult::default();
    r.episode_id = req.episode_id.clone();
    r.attempt_id = req.attempt_id;
    r.status = status.to_string();
    r.error_code = error_code;
    r.error_message = message;
    r.summary = Some(Summary { total_reward: 0, total_steps: 0, terminate_reason: status.to_string() });
    r
}

/// A failure result made by the server, finalised.
pub fn failed_result_from_request(req: &EpisodeRequest, status: &str, message: String, error_code: ErrorCode, timing: Option<ResultTiming>, clock: ResultClock) -> (r: EpisodeResult)
    ensures
        failed_body(*req, status@, message@, error_code, r),
        finalized_fresh(*req, timing, clock, r),
        r.metadata@ == without_protocol_keys(req.metadata@),
{
    let ghost m = message@;
    let result = fresh_result(req, status, message, Some(error_code));
    let r = finalize_episode_result(req, result, timing, clock);
    proof {
        assert(merged_metadata(Map::empty(), req.metadata@) =~= without_protocol_keys(req.metadata@));
    }
    r
}

/// The terminal result for a server-side event: a cancellation gives status
/// `cancelled` without an error code; a timeout gives a `failed` result with
/// the timeout error code. Either way the metadata says `terminal_kind`.
pub fn terminal_result_from_request(req: &EpisodeRequest, event: EpisodeTerminalEvent, timing: Option<ResultTiming>, clock: ResultClock) -> (r: EpisodeResult)
    ensures
        finalized_fresh(*req, timing, clock, r),
        match event {
            EpisodeTerminalEvent::Cancelled { reason } => {
                &&& r.episode_id@ == req.episode_id@
                &&& r.attempt_id == req.attempt_id
                &&& r.status@ == "cancelled"@
                &&& r.error_code is None
                &&& r.error_message@ == reason@
                &&& r.summary matches Some(s) && s.terminate_reason@ == "cancelled"@
                &&& r.metadata@ == without_protocol_keys(req.metadata@).insert("terminal_kind"@, "cancelled"@)
            },
            EpisodeTerminalEvent::TimedOut { reason } => {
                &&& failed_body(*req, "failed"@, reason@, ErrorCode::ErrEpisodeTimeout, r)
                &&& r.metadata@ == without_protocol_keys(req.metadata@).insert("terminal_kind"@, "timeout"@)
            },
        },
{
    match event {
        EpisodeTerminalEvent::Cancelled { reason } => {
            let result = fresh_result(req, "cancelled", reason, None);
            let mut result = finalize_episode_result(req, result, timing, clock);
            proof {
                assert(merged_metadata(Map::empty(), req.metadata@) =~= without_protocol_keys(req.metadata@));
            }
            result.metadata.insert("terminal_kind".to_string(), "cancelled".to_string());
            result
        },
        EpisodeTerminalEvent::TimedOut { reason } => {
            let mut result = failed_result_from_request(req, "failed", reason, ErrorCode::ErrEpisodeTimeout, timing, clock);
            result.metadata.insert("terminal_kind".to_string(), "timeout".to_string());
            result
        },
    }
}

/// The terminal result of a cancelled episode.
pub fn cancelled_result_from_request(req: &EpisodeRequest, reason: String, timing: Option<ResultTiming>, clock: ResultClock) -> (r: EpisodeResult)
    ensures
        finalized_fresh(*req, timing, clock, r),
        r.episode_id@ == req.episode_id@,
        r.attempt_id == req.attempt_id,
        r.status@ == "cancelled"@,
        r.error_code is None,
        r.error_message@ == reason@,
        r.summary matches Some(s) && s.terminate_reason@ == "cancelled"@,
        r.metadata@ == without_protocol_keys(req.metadata@).insert("terminal_kind"@, "cancelled"@),
{
    terminal_result_from_request(req, EpisodeTerminalEvent::Cancelled { reason }, timing, clock)
}

/// The terminal result of a timed-out episode.
pub fn timeout_result_from_request(req: &EpisodeRequest, reason: String, timing: Option<ResultTiming>, clock: ResultClock) -> (r: EpisodeResult)
    ensures
        finalized_fresh(*req, timing, clock, r),
        failed_body(*req, "failed"@, reason@, ErrorCode::ErrEpisodeTimeout, r),
        r.metadata@ == without_protocol_keys(req.metadata@).insert("terminal_kind"@, "timeout"@),
{
    terminal_result_from_request(req, EpisodeTerminalEvent::TimedOut { reason }, timing, clock)
}

/// Finalises a result and checks its training fields; a result that breaks
/// the asynchronous protocol becomes a `failed` result with the protocol
/// error code and the problem in `async_protocol_error`.
pub fn finalize_or_protocol_failed(req: &EpisodeRequest, result: EpisodeResult, timing: Option<ResultTiming>, clock: ResultClock) -> (r: EpisodeResult)
    ensures
        exists|f: EpisodeResult| #[trigger] finalized(*req, result, timing, clock, f) && match async_problem(*req, f) {
            None => r == f,
            Some(p) => {
                &&& failed_body(*req, "failed"@, async_problem_message(*req, f, p), ErrorCode::ErrAsyncProtocolMissingField, r)
                &&& finalized_fresh(*req, timing, clock, r)
                &&& r.metadata@ == without_protocol_keys(req.metadata@).insert("async_protocol_error"@, async_problem_message(*req, f, p))
            },
        },
{
    let finalized_result = finalize_episode_result(req, result, timing, clock);
    match validate_verl_async_result(req, &finalized_result) {
        Ok(()) => finalized_result,
        Err(message) => {
            let mut failed = failed_result_from_request(req, "failed", message.clone(), ErrorCode::ErrAsyncProtocolMissingField, timing, clock);
            failed.metadata.insert("async_protocol_error".to_string(), message);
            failed
        },
    }
}

/// `None` for an empty field, else a copy of it.
pub fn optional_result_field(value: &str) -> (r: Option<String>)
    ensures
        value@.len() == 0 ==> r is None,
        value@.len() != 0 ==> (r matches Some(s) && s@ == value@),
{
    if value.is_empty() {
        None
    } else {
        Some(value.to_string())
    }
}

/// `None` for an empty field, else the field.
pub fn optional_context_field(value: String) -> (r: Option<String>)
    ensures
        value@.len() == 0 ==> r is None,
        value@.len() != 0 ==> r == Some(value),
{
    if value.as_str().is_empty() {
        None
    } else {
        Some(value)
    }
}

/// What a stored result row records besides the result itself.
#[derive(Debug)]
pub struct ResultPersistenceContext {
    /// The worker that ran the episode (for agent jobs, the worker that
    /// hosted the environment).
    pub worker_id: String,
    /// The idempotency key (native path) or job id (agent path).
    pub result_checksum: String,
    pub env_package_id: Option<String>,
    pub agent_bridge_version: Option<String>,
}

impl ResultPersistenceContext {
    /// Context of a result reported by a native worker.
    pub fn native(worker_id: String, idempotency_key: String) -> (c: Self)
        ensures
            c.worker_id == worker_id,
            c.result_checksum == idempotency_key,
            c.env_package_id is None,
            c.agent_bridge_version is None,
    {
        ResultPersistenceContext {
            worker_id,
            result_checksum: idempotency_key,
            env_package_id: None,
            agent_bridge_version: None,
        }
    }

    /// Context of a result of an agent job; empty package and bridge
    /// versions are recorded as absent.
    pub fn swe_agent(worker_id: String, job_id: String, env_package_id: String, agent_bridge_version: String) -> (c: Self)
        ensures
            c.worker_id == worker_id,
            c.result_checksum == job_id,
            env_package_id@.len() == 0 ==> c.env_package_id is None,
            env_package_id@.len() != 0 ==> c.env_package_id == Some(env_package_id),
            agent_bridge_version@.len() == 0 ==> c.agent_bridge_version is None,
            agent_bridge_version@.len() != 0 ==> c.agent_bridge_version == Some(agent_bridge_version),
    {
        ResultPersistenceContext {
            worker_id,
            result_checksum: job_id,
            env_package_id: optional_context_field(env_package_id),
            agent_bridge_version: optional_context_field(agent_bridge_version),
        }
    }
}

} // verus!
