//! The rules the state store applies when it records a terminal result or
//! an agent's completion: the phase a result ends in, the outcome a late
//! report is answered with, the keys of the rows written, and whether an
//! agent's completion is new, a repeat or a conflict.
use crate::config::concat3;
use crate::messages::{AgentJobCompleteRequest, EpisodeResult};
use crate::obs_merge::prefixed;
use crate::persistence::{IdempotencyDecision, IdempotencyRecord};
use crate::text::{decimal, decimal_spec, str_eq};
use vstd::prelude::*;

verus! {

broadcast use vstd::string::group_string_axioms;

/// The phase a result's status ends an episode in: `completed`,
/// `cancelled`, `timed_out` (for `timeout` or `timed_out`), else `failed`.
pub open spec fn terminal_phase_spec(status: Seq<char>) -> Seq<char> {
    if status == "completed"@ {
        "completed"@
    } else if status == "cancelled"@ {
        "cancelled"@
    } else if status == "timeout"@ || status == "timed_out"@ {
        "timed_out"@
    } else {
        "failed"@
    }
}

/// The phase a result's status ends an episode in (see `terminal_phase_spec`).
pub fn terminal_phase(status: &str) -> (p: &'static str)
    ensures
        p@ == terminal_phase_spec(status@),
{
    if str_eq(status, "completed") {
        "completed"
    } else if str_eq(status, "cancelled") {
        "cancelled"
    } else if str_eq(status, "timeout") || str_eq(status, "timed_out") {
        "timed_out"
    } else {
        "failed"
    }
}

/// The code a terminal outcome is remembered with, for a late report of the
/// same attempt: a result the server timed out answers late reports as late
/// after a timeout; otherwise the terminal code when one was given, else by
/// phase (accepted, late after cancel, late after timeout, already terminal).
pub open spec fn outcome_code_spec(timed_out_by_server: bool, terminal_code: Seq<char>, phase: Seq<char>) -> Seq<char> {
    if timed_out_by_server {
        "LATE_AFTER_TIMEOUT"@
    } else if terminal_code.len() > 0 {
        terminal_code
    } else if phase == "completed"@ {
        "ACCEPTED"@
    } else if phase == "cancelled"@ {
        "LATE_AFTER_CANCEL"@
    } else if phase == "timed_out"@ {
        "LATE_AFTER_TIMEOUT"@
    } else {
        "ALREADY_TERMINAL"@
    }
}

/// Did the server itself time the result out (`terminal_kind` is `timeout`
/// in its metadata)?
pub open spec fn timed_out_by_server(result: EpisodeResult) -> bool {
    result.metadata@.contains_key("terminal_kind"@) && result.metadata@["terminal_kind"@] == "timeout"@
}

/// The code a terminal outcome is remembered with (see `outcome_code_spec`).
pub fn terminal_outcome_code(result: &EpisodeResult, terminal_code: &str, phase: &str) -> (c: String)
    ensures
        c@ == outcome_code_spec(timed_out_by_server(*result), terminal_code@, phase@),
{
    let timed_out = match result.metadata.get("terminal_kind") {
        Some(k) => str_eq(k.as_str(), "timeout"),
        None => false,
    };
    if timed_out {
        "LATE_AFTER_TIMEOUT".to_string()
    } else if !terminal_code.is_empty() {
        terminal_code.to_string()
    } else if str_eq(phase, "completed") {
        "ACCEPTED".to_string()
    } else if str_eq(phase, "cancelled") {
        "LATE_AFTER_CANCEL".to_string()
    } else if str_eq(phase, "timed_out") {
        "LATE_AFTER_TIMEOUT".to_string()
    } else {
        "ALREADY_TERMINAL".to_string()
    }
}

/// The outbox event that publishes an attempt's result:
/// `episode-result:<episode>:<attempt>`.
pub fn result_outbox_event_id(episode_id: &str, attempt_id: u32) -> (id: String)
    ensures
        id@ == "episode-result:"@ + episode_id@ + ":"@ + decimal_spec(attempt_id as nat),
{
    let n = decimal(attempt_id as u64);
    let head = concat3("episode-result:", episode_id, ":");
    let id = prefixed(head.as_str(), n.as_str());
    proof {
        assert(id@ =~= "episode-result:"@ + episode_id@ + ":"@ + decimal_spec(attempt_id as nat));
    }
    id
}

/// The key of an attempt's remembered outcome: `<episode>:<attempt>:<lease>`.
pub fn outcome_key(episode_id: &str, attempt_id: u32, dispatch_lease_id: &str) -> (k: String)
    ensures
        k@ == episode_id@ + ":"@ + decimal_spec(attempt_id as nat) + ":"@ + dispatch_lease_id@,
{
    let n = decimal(attempt_id as u64);
    let head = concat3(episode_id, ":", n.as_str());
    let k = concat3(head.as_str(), ":", dispatch_lease_id);
    proof {
        assert(k@ =~= episode_id@ + ":"@ + decimal_spec(attempt_id as nat) + ":"@ + dispatch_lease_id@);
    }
    k
}

/// An agent job as the store knows it: its phase, run, agent and the
/// checksum of its completion once completed.
#[derive(Debug, Clone)]
pub struct AgentJobRow {
    pub phase: String,
    pub run_id: String,
    pub agent_id: String,
    pub completion_checksum: Option<String>,
}

/// What the store does with an agent's completion.
#[derive(Debug)]
pub enum CompletionDecision {
    /// Record it: the job is leased to this agent under this run.
    Commit,
    /// Answer as an idempotency decision (unknown job, repeat or conflict).
    Answer(IdempotencyDecision),
}

/// The record an agent completion is answered with: keyed by the job, for
/// the result's episode and attempt, the run as lease and the agent as
/// worker, the completion's checksum, acknowledged (as a duplicate) once the
/// job has completed, never expiring.
pub open spec fn completion_record_ok(r: IdempotencyRecord, req: AgentJobCompleteRequest, result: EpisodeResult, checksum: Seq<char>, completed: bool) -> bool {
    &&& r.idempotency_key@ == req.job_id@
    &&& r.episode_id@ == result.episode_id@
    &&& r.attempt_id == result.attempt_id
    &&& r.dispatch_lease_id@ == req.run_id@
    &&& r.worker_id@ == req.agent_id@
    &&& r.server_epoch == 0
    &&& r.result_checksum@ == checksum
    &&& r.ack == completed
    &&& r.code@ == (if completed { "DUPLICATE_ACCEPTED"@ } else { "ACCEPTED"@ })
    &&& r.message@.len() == 0
    &&& r.expires_at_ms == i64::MAX
}

/// What the store does with an agent's completion whose checksum is
/// `checksum`: an unknown job is missing; a completed job replays the same
/// completion (same checksum, run and agent) and conflicts with any other;
/// a job not leased to this agent under this run conflicts; otherwise the
/// completion is recorded.
pub fn completion_decision(
    row: Option<&AgentJobRow>,
    req: &AgentJobCompleteRequest,
    result: &EpisodeResult,
    checksum: &str,
) -> (d: CompletionDecision)
    ensures
        match row {
            None => d matches CompletionDecision::Answer(IdempotencyDecision::Missing),
            Some(j) => {
                let completed = j.phase@ == "completed"@;
                let same = j.completion_checksum matches Some(c) && c@ == checksum@ && j.run_id@ == req.run_id@
                    && j.agent_id@ == req.agent_id@;
                if completed && same {
                    d matches CompletionDecision::Answer(IdempotencyDecision::Replay(r)) && completion_record_ok(
                        r,
                        *req,
                        *result,
                        checksum@,
                        true,
                    )
                } else if completed || j.phase@ != "leased"@ || j.run_id@ != req.run_id@ || j.agent_id@
                    != req.agent_id@ {
                    d matches CompletionDecision::Answer(IdempotencyDecision::Conflict(r)) && completion_record_ok(
                        r,
                        *req,
                        *result,
                        checksum@,
                        completed,
                    )
                } else {
                    d matches CompletionDecision::Commit
                }
            },
        },
{
    let j = match row {
        Some(j) => j,
        None => {
            return CompletionDecision::Answer(IdempotencyDecision::Missing);
        },
    };
    let completed = str_eq(j.phase.as_str(), "completed");
    let record = IdempotencyRecord {
        idempotency_key: req.job_id.clone(),
        episode_id: result.episode_id.clone(),
        attempt_id: result.attempt_id,
        dispatch_lease_id: req.run_id.clone(),
        worker_id: req.agent_id.clone(),
        server_epoch: 0,
        result_checksum: checksum.to_string(),
        ack: completed,
        code: if completed { "DUPLICATE_ACCEPTED".to_string() } else { "ACCEPTED".to_string() },
        message: String::new(),
        expires_at_ms: i64::MAX,
    };
    let same_job = str_eq(j.run_id.as_str(), req.run_id.as_str()) && str_eq(j.agent_id.as_str(), req.agent_id.as_str());
    if completed {
        let same_checksum = match &j.completion_checksum {
            Some(c) => str_eq(c.as_str(), checksum),
            None => false,
        };
        if same_checksum && same_job {
            return CompletionDecision::Answer(IdempotencyDecision::Replay(record));
        }
        return CompletionDecision::Answer(IdempotencyDecision::Conflict(record));
    }
    if !str_eq(j.phase.as_str(), "leased") || !same_job {
        return CompletionDecision::Answer(IdempotencyDecision::Conflict(record));
    }
    CompletionDecision::Commit
}

} // verus!
