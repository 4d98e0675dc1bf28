//! The order in which an agent's job completion is judged, as a machine that
//! the service drives: the check against the job in flight, then (with a
//! durable store) the stored episode request and the recorded completion,
//! then the hand-over of the result to the waiting submission.
use crate::agent_job::CompleteCheck;
use crate::persistence::IdempotencyDecision;
use vstd::prelude::*;

verus! {

broadcast use vstd::string::group_string_axioms;

/// Where the judgement of a completion stands.
#[derive(Debug, Clone, Copy, PartialEq, Eq, Structural)]
pub enum CompletionStage {
    /// The job is not in flight; waiting for the store's record of it.
    AwaitStored,
    /// Waiting for the stored request of the job's episode.
    AwaitRequest,
    /// Waiting for the store to record the completion.
    AwaitCommit,
    /// Waiting to learn whether the job was still in flight when taken out.
    AwaitFinish,
    /// Answered.
    Done,
}

/// What a lookup found.
#[derive(Debug)]
pub enum CompletionEvent {
    /// The store's decision on a completion of a job not in flight.
    Stored(IdempotencyDecision),
    /// Whether the episode's request was found in the store.
    Request(bool),
    /// The store's decision on recording the completion.
    Committed(IdempotencyDecision),
    /// Whether the job was still in flight when it was taken out.
    Finished(bool),
    /// The store failed.
    StoreFailed,
}

/// What the service does next.
#[derive(Debug)]
pub enum CompletionAction {
    /// Ask the store about a completion of a job that is not in flight.
    CheckStored,
    /// Read the stored request of the job's episode.
    LoadRequest,
    /// Finalise the result against the stored request and record it.
    Commit,
    /// Take the job out of flight, give its agent the slot back and hand the
    /// result to the waiting submission.
    Finish,
    /// Answer the agent.
    Answer { ack: bool, code: String, message: String },
    /// The episode's stored request is missing.
    RequestMissing,
    /// The store is unavailable.
    Unavailable,
}

/// A completion being judged.
#[derive(Debug)]
pub struct CompletionFlow {
    pub stage: CompletionStage,
    /// Is there a durable store?
    pub durable: bool,
    /// Was the report found to be that of the job in flight (its run and its agent)?
    pub matched: bool,
}

impl CompletionFlow {
    /// The result of a job is loaded, recorded or handed over only for the
    /// report of the job in flight.
    pub open spec fn wf(&self) -> bool {
        (self.stage == CompletionStage::AwaitRequest || self.stage == CompletionStage::AwaitCommit || self.stage
            == CompletionStage::AwaitFinish) ==> self.matched
    }
}

/// Is the action an answer with these values?
pub open spec fn answers_with(a: CompletionAction, ack: bool, code: Seq<char>, message: Seq<char>) -> bool {
    a matches CompletionAction::Answer { ack: x, code: c, message: m } && x == ack && c@ == code && m@ == message
}

/// Does event `ev` answer what stage `s` waits for?
pub open spec fn completion_expects(s: CompletionStage, ev: CompletionEvent) -> bool {
    match s {
        CompletionStage::AwaitStored => ev is Stored || ev is StoreFailed,
        CompletionStage::AwaitRequest => ev is Request || ev is StoreFailed,
        CompletionStage::AwaitCommit => ev is Committed || ev is StoreFailed,
        CompletionStage::AwaitFinish => ev is Finished,
        CompletionStage::Done => false,
    }
}

fn answer(ack: bool, code: &str, message: &str) -> (a: CompletionAction)
    ensures
        answers_with(a, ack, code@, message@),
{
    CompletionAction::Answer { ack, code: code.to_string(), message: message.to_string() }
}

impl CompletionFlow {
    /// Starts judging a completion from the check against the job in flight
    /// (`AgentJobQueue::check_completion`): a job not in flight is looked up
    /// in the store (without one it is unknown); a report of another run or
    /// agent is refused; the job's own report loads the episode's stored
    /// request (with a store) or finishes the job.
    pub fn start(check: &CompleteCheck, durable: bool) -> (r: (CompletionFlow, CompletionAction))
        ensures
            r.0.durable == durable,
            r.0.wf(),
            r.0.matched == (check is Accept),
            match *check {
                CompleteCheck::UnknownJob => if durable {
                    r.0.stage == CompletionStage::AwaitStored && r.1 is CheckStored
                } else {
                    r.0.stage == CompletionStage::Done && answers_with(r.1, false, "UNKNOWN_JOB"@, "unknown job"@)
                },
                CompleteCheck::RunMismatch => r.0.stage == CompletionStage::Done && answers_with(
                    r.1,
                    false,
                    "RUN_MISMATCH"@,
                    "agent_id or run_id mismatch"@,
                ),
                CompleteCheck::AgentMismatch => r.0.stage == CompletionStage::Done && answers_with(
                    r.1,
                    false,
                    "AGENT_MISMATCH"@,
                    "agent_id or run_id mismatch"@,
                ),
                CompleteCheck::Accept(_) => if durable {
                    r.0.stage == CompletionStage::AwaitRequest && r.1 is LoadRequest
                } else {
                    r.0.stage == CompletionStage::AwaitFinish && r.1 is Finish
                },
            },
    {
        match check {
            CompleteCheck::UnknownJob => {
                if durable {
                    (CompletionFlow { stage: CompletionStage::AwaitStored, durable, matched: false }, CompletionAction::CheckStored)
                } else {
                    (CompletionFlow { stage: CompletionStage::Done, durable, matched: false }, answer(false, "UNKNOWN_JOB", "unknown job"))
                }
            },
            CompleteCheck::RunMismatch => (
                CompletionFlow { stage: CompletionStage::Done, durable, matched: false },
                answer(false, "RUN_MISMATCH", "agent_id or run_id mismatch"),
            ),
            CompleteCheck::AgentMismatch => (
                CompletionFlow { stage: CompletionStage::Done, durable, matched: false },
                answer(false, "AGENT_MISMATCH", "agent_id or run_id mismatch"),
            ),
            CompleteCheck::Accept(_) => {
                if durable {
                    (CompletionFlow { stage: CompletionStage::AwaitRequest, durable, matched: true }, CompletionAction::LoadRequest)
                } else {
                    (CompletionFlow { stage: CompletionStage::AwaitFinish, durable, matched: true }, CompletionAction::Finish)
                }
            },
        }
    }

    /// One step: the event answers what the stage waits for.
    ///
    /// - A job not in flight whose completion the store replays was already
    ///   accepted; anything else about it is unknown.
    /// - A missing stored request stops the completion; a found one is
    ///   finalised and recorded.
    /// - A recorded completion (a replay of this one) finishes the job; a
    ///   conflicting one is refused; a job the store does not know is unknown.
    /// - A finished job is accepted; one no longer in flight is unknown.
    /// - A store failure makes the store unavailable.
    ///
    /// `ACCEPTED` is answered only for the report of the job in flight.
    pub fn step(&mut self, ev: CompletionEvent) -> (a: CompletionAction)
        requires
            completion_expects(old(self).stage, ev),
            old(self).wf(),
        ensures
            final(self).durable == old(self).durable,
            final(self).matched == old(self).matched,
            final(self).wf(),
            answers_with(a, true, "ACCEPTED"@, ""@) ==> old(self).matched,
            match ev {
                CompletionEvent::Stored(IdempotencyDecision::Replay(_)) => final(self).stage == CompletionStage::Done
                    && answers_with(a, true, "DUPLICATE_ACCEPTED"@, ""@),
                CompletionEvent::Stored(_) => final(self).stage == CompletionStage::Done && answers_with(
                    a,
                    false,
                    "UNKNOWN_JOB"@,
                    "unknown job"@,
                ),
                CompletionEvent::Request(found) => if found {
                    final(self).stage == CompletionStage::AwaitCommit && a is Commit
                } else {
                    final(self).stage == CompletionStage::Done && a is RequestMissing
                },
                CompletionEvent::Committed(IdempotencyDecision::Replay(_)) => final(self).stage == CompletionStage::AwaitFinish
                    && a is Finish,
                CompletionEvent::Committed(IdempotencyDecision::Conflict(_)) => final(self).stage == CompletionStage::Done
                    && answers_with(a, false, "COMPLETION_CONFLICT"@, "persisted completion identity or checksum conflict"@),
                CompletionEvent::Committed(IdempotencyDecision::Missing) => final(self).stage == CompletionStage::Done
                    && answers_with(a, false, "UNKNOWN_JOB"@, "persisted job missing"@),
                CompletionEvent::Finished(taken) => final(self).stage == CompletionStage::Done && if taken {
                    answers_with(a, true, "ACCEPTED"@, ""@)
                } else {
                    answers_with(a, false, "UNKNOWN_JOB"@, "unknown job"@)
                },
                CompletionEvent::StoreFailed => final(self).stage == CompletionStage::Done && a is Unavailable,
            },
    {
        proof {
            reveal_strlit("ACCEPTED");
            reveal_strlit("DUPLICATE_ACCEPTED");
            assert("ACCEPTED"@.len() != "DUPLICATE_ACCEPTED"@.len());
        }
        self.stage = CompletionStage::Done;
        match ev {
            CompletionEvent::Stored(decision) => match decision {
                IdempotencyDecision::Replay(_) => answer(true, "DUPLICATE_ACCEPTED", ""),
                _ => answer(false, "UNKNOWN_JOB", "unknown job"),
            },
            CompletionEvent::Request(found) => {
                if found {
                    self.stage = CompletionStage::AwaitCommit;
                    CompletionAction::Commit
                } else {
                    CompletionAction::RequestMissing
                }
            },
            CompletionEvent::Committed(decision) => match decision {
                IdempotencyDecision::Replay(_) => {
                    self.stage = CompletionStage::AwaitFinish;
                    CompletionAction::Finish
                },
                IdempotencyDecision::Conflict(_) => answer(
                    false,
                    "COMPLETION_CONFLICT",
                    "persisted completion identity or checksum conflict",
                ),
                IdempotencyDecision::Missing => answer(false, "UNKNOWN_JOB", "persisted job missing"),
            },
            CompletionEvent::Finished(taken) => {
                if taken {
                    answer(true, "ACCEPTED", "")
                } else {
                    answer(false, "UNKNOWN_JOB", "unknown job")
                }
            },
            CompletionEvent::StoreFailed => CompletionAction::Unavailable,
        }
    }
}

} // verus!
