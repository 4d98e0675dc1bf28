//! The episode protocol messages that the server's logic reads and writes.
//!
//! Floating-point protocol fields (timestamps in Unix seconds, rewards, log
//! probabilities) are carried as their IEEE-754 bit patterns: the server only
//! copies them, and a bit pattern copies exactly.
use crate::string_map::StringMap;
use vstd::prelude::*;

verus! {

/// Resource requirements of an episode, or resources that a worker offers.
/// A zero or empty field means "no requirement".
#[derive(Debug)]
pub struct ResourceSpec {
    pub cpu_cores: u32,
    pub memory_mb: u64,
    pub gpu_count: u32,
    pub gpu_type: String,
}

impl Clone for ResourceSpec {
    fn clone(&self) -> (c: Self)
        ensures
            c == *self,
    {
        ResourceSpec {
            cpu_cores: self.cpu_cores,
            memory_mb: self.memory_mb,
            gpu_count: self.gpu_count,
            gpu_type: self.gpu_type.clone(),
        }
    }
}

/// Error codes that the server puts into episode results.
#[derive(Debug, Clone, Copy, PartialEq, Eq)]
pub enum ErrorCode {
    ErrUnspecified,
    ErrEpisodeTimeout,
    ErrAsyncProtocolMissingField,
    ErrEnvStepFailed,
    ErrInternal,
    ErrNoWorkerAvailable,
}

/// An episode submission.
#[derive(Debug)]
pub struct EpisodeRequest {
    pub episode_id: String,
    pub attempt_id: u32,
    pub env_type: String,
    pub payload: Vec<u8>,
    pub timeout_seconds: u64,
    pub correlation_id: String,
    pub parallel_mode: String,
    pub metadata: StringMap,
    pub env_package_id: String,
    pub env_package_version: String,
    pub resource_spec: Option<ResourceSpec>,
    /// Bits of the `f64` Unix-seconds time at which the request was enqueued.
    pub enqueue_ts: Option<u64>,
    pub dispatch_lease_id: String,
    pub dispatch_token: Vec<u8>,
    pub scheduler_epoch: u64,
    /// When the dispatch lease ends; the worker may stop the episode then.
    pub lease_expire_at: Option<Timestamp>,
}

/// A point in time: seconds and nanoseconds since the Unix epoch.
#[derive(Debug, Clone, Copy, PartialEq, Eq)]
pub struct Timestamp {
    pub seconds: i64,
    pub nanos: i32,
}

impl Default for EpisodeRequest {
    fn default() -> (r: Self)
        ensures
            r.episode_id@.len() == 0,
            r.attempt_id == 0,
            r.env_type@.len() == 0,
            r.payload@.len() == 0,
            r.timeout_seconds == 0,
            r.correlation_id@.len() == 0,
            r.parallel_mode@.len() == 0,
            r.metadata@ == Map::<Seq<char>, Seq<char>>::empty(),
            r.env_package_id@.len() == 0,
            r.env_package_version@.len() == 0,
            r.resource_spec.is_none(),
            r.enqueue_ts.is_none(),
            r.dispatch_lease_id@.len() == 0,
            r.dispatch_token@.len() == 0,
            r.scheduler_epoch == 0,
            r.lease_expire_at.is_none(),
    {
        EpisodeRequest {
            episode_id: String::new(),
            attempt_id: 0,
            env_type: String::new(),
            payload: Vec::new(),
            timeout_seconds: 0,
            correlation_id: String::new(),
            parallel_mode: String::new(),
            metadata: StringMap::new(),
            env_package_id: String::new(),
            env_package_version: String::new(),
            resource_spec: None,
            enqueue_ts: None,
            dispatch_lease_id: String::new(),
            dispatch_token: Vec::new(),
            scheduler_epoch: 0,
            lease_expire_at: None,
        }
    }
}

/// Token-level trace of a rollout.
#[derive(Debug)]
pub struct RolloutTrace {
    pub response_ids: Vec<i32>,
    pub response_mask: Vec<i32>,
}

impl Clone for RolloutTrace {
    fn clone(&self) -> (c: Self)
        ensures
            c.response_ids@ == self.response_ids@,
            c.response_mask@ == self.response_mask@,
    {
        RolloutTrace {
            response_ids: copy_i32s(&self.response_ids),
            response_mask: copy_i32s(&self.response_mask),
        }
    }
}

/// A copy of a vector of integers.
pub fn copy_i32s(v: &Vec<i32>) -> (c: Vec<i32>)
    ensures
        c@ == v@,
{
    let mut c: Vec<i32> = Vec::new();
    let mut i: usize = 0;
    while i < v.len()
        invariant
            i <= v@.len(),
            c@ == v@.take(i as int),
        decreases v@.len() - i,
    {
        c.push(v[i]);
        proof {
            assert(v@.take(i + 1) =~= v@.take(i as int).push(v@[i as int]));
        }
        i = i + 1;
    }
    proof {
        assert(v@.take(i as int) =~= v@);
    }
    c
}

/// A copy of a vector of 32-bit patterns.
pub fn copy_u32s(v: &Vec<u32>) -> (c: Vec<u32>)
    ensures
        c@ == v@,
{
    let mut c: Vec<u32> = Vec::new();
    let mut i: usize = 0;
    while i < v.len()
        invariant
            i <= v@.len(),
            c@ == v@.take(i as int),
        decreases v@.len() - i,
    {
        c.push(v[i]);
        proof {
            assert(v@.take(i + 1) =~= v@.take(i as int).push(v@[i as int]));
        }
        i = i + 1;
    }
    proof {
        assert(v@.take(i as int) =~= v@);
    }
    c
}

/// A copy of a vector of strings.
pub fn copy_strings(v: &Vec<String>) -> (c: Vec<String>)
    ensures
        c@ == v@,
{
    let mut c: Vec<String> = Vec::new();
    let mut i: usize = 0;
    while i < v.len()
        invariant
            i <= v@.len(),
            c@ == v@.take(i as int),
        decreases v@.len() - i,
    {
        c.push(v[i].clone());
        proof {
            assert(v@.take(i + 1) =~= v@.take(i as int).push(v@[i as int]));
        }
        i = i + 1;
    }
    proof {
        assert(v@.take(i as int) =~= v@);
    }
    c
}

/// One step of a trajectory.
#[derive(Debug)]
pub struct StepRecord {
    pub step_index: u32,
    pub rollout_trace: Option<RolloutTrace>,
    pub info: StringMap,
}

/// The trajectory of an episode.
#[derive(Debug)]
pub struct Trajectory {
    pub steps: Vec<StepRecord>,
    /// Bits of the `f64` total reward.
    pub total_reward: u64,
    pub total_steps: u32,
}

/// Summary of an episode result.
#[derive(Debug)]
pub struct Summary {
    /// Bits of the `f64` total reward.
    pub total_reward: u64,
    pub total_steps: u32,
    pub terminate_reason: String,
}

/// The terminal result of an episode.
#[derive(Debug)]
pub struct EpisodeResult {
    pub episode_id: String,
    pub attempt_id: u32,
    pub status: String,
    pub error_code: Option<ErrorCode>,
    pub error_message: String,
    pub summary: Option<Summary>,
    pub trajectory: Option<Trajectory>,
    pub trajectory_id: String,
    pub trajectory_storage_url: String,
    pub gateway_session_id: String,
    pub parallel_mode: String,
    pub metadata: StringMap,
    pub rollout_param_version: Option<i64>,
    pub rollout_policy_version: Option<String>,
    /// Bits of the `f32` log probabilities.
    pub rollout_log_probs: Vec<u32>,
    /// Bits of `f64` Unix-seconds timestamps.
    pub worker_start_ts: Option<u64>,
    pub worker_finish_ts: Option<u64>,
    pub result_ready_ts: Option<u64>,
    pub dispatch_ts: Option<u64>,
    pub server_latency_ms: Option<i64>,
    pub worker_latency_ms: Option<i64>,
    pub model_latency_ms: Option<i64>,
}

impl Default for EpisodeResult {
    fn default() -> (r: Self)
        ensures
            r.episode_id@.len() == 0,
            r.attempt_id == 0,
            r.status@.len() == 0,
            r.error_code.is_none(),
            r.error_message@.len() == 0,
            r.summary.is_none(),
            r.trajectory.is_none(),
            r.trajectory_id@.len() == 0,
            r.trajectory_storage_url@.len() == 0,
            r.gateway_session_id@.len() == 0,
            r.parallel_mode@.len() == 0,
            r.metadata@ == Map::<Seq<char>, Seq<char>>::empty(),
            r.rollout_param_version.is_none(),
            r.rollout_policy_version.is_none(),
            r.rollout_log_probs@.len() == 0,
            r.worker_start_ts.is_none(),
            r.worker_finish_ts.is_none(),
            r.result_ready_ts.is_none(),
            r.dispatch_ts.is_none(),
            r.server_latency_ms.is_none(),
            r.worker_latency_ms.is_none(),
            r.model_latency_ms.is_none(),
    {
        EpisodeResult {
            episode_id: String::new(),
            attempt_id: 0,
            status: String::new(),
            error_code: None,
            error_message: String::new(),
            summary: None,
            trajectory: None,
            trajectory_id: String::new(),
            trajectory_storage_url: String::new(),
            gateway_session_id: String::new(),
            parallel_mode: String::new(),
            metadata: StringMap::new(),
            rollout_param_version: None,
            rollout_policy_version: None,
            rollout_log_probs: Vec::new(),
            worker_start_ts: None,
            worker_finish_ts: None,
            result_ready_ts: None,
            dispatch_ts: None,
            server_latency_ms: None,
            worker_latency_ms: None,
            model_latency_ms: None,
        }
    }
}

/// An agent's report that it finished a job.
#[derive(Debug)]
pub struct AgentJobCompleteRequest {
    pub job_id: String,
    pub run_id: String,
    pub agent_id: String,
    pub status: String,
    pub error_message: String,
    /// Bits of the `f64` reward.
    pub reward: u64,
    pub trajectory_id: String,
    pub parallel_mode: String,
    pub rollout_param_version: Option<i64>,
    pub rollout_policy_version: Option<String>,
    /// Bits of the `f32` log probabilities.
    pub rollout_log_probs: Vec<u32>,
    pub rollout_trace: Option<RolloutTrace>,
    /// Bits of `f64` Unix-seconds timestamps.
    pub worker_start_ts: Option<u64>,
    pub worker_finish_ts: Option<u64>,
    pub result_ready_ts: Option<u64>,
    pub worker_latency_ms: Option<i64>,
    pub model_latency_ms: Option<i64>,
    pub metadata: StringMap,
}

impl Default for AgentJobCompleteRequest {
    fn default() -> (r: Self)
        ensures
            r.job_id@.len() == 0,
            r.run_id@.len() == 0,
            r.agent_id@.len() == 0,
            r.status@.len() == 0,
            r.error_message@.len() == 0,
            r.reward == 0,
            r.trajectory_id@.len() == 0,
            r.parallel_mode@.len() == 0,
            r.rollout_param_version.is_none(),
            r.rollout_policy_version.is_none(),
            r.rollout_log_probs@.len() == 0,
            r.rollout_trace.is_none(),
            r.worker_start_ts.is_none(),
            r.worker_finish_ts.is_none(),
            r.result_ready_ts.is_none(),
            r.worker_latency_ms.is_none(),
            r.model_latency_ms.is_none(),
            r.metadata@ == Map::<Seq<char>, Seq<char>>::empty(),
    {
        AgentJobCompleteRequest {
            job_id: String::new(),
            run_id: String::new(),
            agent_id: String::new(),
            status: String::new(),
            error_message: String::new(),
            reward: 0,
            trajectory_id: String::new(),
            parallel_mode: String::new(),
            rollout_param_version: None,
            rollout_policy_version: None,
            rollout_log_probs: Vec::new(),
            rollout_trace: None,
            worker_start_ts: None,
            worker_finish_ts: None,
            result_ready_ts: None,
            worker_latency_ms: None,
            model_latency_ms: None,
            metadata: StringMap::new(),
        }
    }
}

/// A job handed to a SWE agent: where its gateway session is, what to run
/// and under which identifiers.
#[derive(Debug)]
pub struct AgentJob {
    pub job_id: String,
    pub run_id: String,
    pub gateway_url: String,
    pub gateway_api_key: String,
    pub session_id: String,
    pub instance_id: String,
    pub benchmark_variant: String,
    pub env_package_id: String,
    pub env_package_version: String,
    pub agent_bridge_id: String,
    pub agent_bridge_version: String,
    pub driver_entrypoint: String,
    pub model_endpoint_config: String,
    pub max_iterations: u32,
    pub workspace_dir: String,
    pub episode_id: String,
    pub llm_config_path: String,
    pub mode: String,
    pub parallel_mode: String,
    /// Bits of the `f64` Unix-seconds time at which the request was enqueued.
    pub enqueue_ts: Option<u64>,
    pub metadata: StringMap,
}

/// A completed agent job: the agent's report and the episode result made
/// from it.
#[derive(Debug)]
pub struct AgentJobCompletion {
    pub complete: AgentJobCompleteRequest,
    pub result: EpisodeResult,
}

/// Does the result carry nothing but, possibly, its episode id, attempt,
/// status and error message?
pub open spec fn bare_result(r: EpisodeResult) -> bool {
    &&& r.error_code.is_none()
    &&& r.summary.is_none()
    &&& r.trajectory.is_none()
    &&& r.trajectory_id@.len() == 0
    &&& r.trajectory_storage_url@.len() == 0
    &&& r.gateway_session_id@.len() == 0
    &&& r.parallel_mode@.len() == 0
    &&& r.metadata@ == Map::<Seq<char>, Seq<char>>::empty()
    &&& r.rollout_param_version.is_none()
    &&& r.rollout_policy_version.is_none()
    &&& r.rollout_log_probs@.len() == 0
    &&& r.worker_start_ts.is_none()
    &&& r.worker_finish_ts.is_none()
    &&& r.result_ready_ts.is_none()
    &&& r.dispatch_ts.is_none()
    &&& r.server_latency_ms.is_none()
    &&& r.worker_latency_ms.is_none()
    &&& r.model_latency_ms.is_none()
}

} // verus!
