//! The decisions of the admin operations on episodes and workers: what a
//! cancel request stops and whom it notifies, which waiting results it
//! drops, and how much admission capacity a drained worker takes away.
use crate::config::concat3;
use crate::episode_rules::WorkerCancelOutcome;
use crate::obs_merge::prefixed;
use crate::scheduler::WorkerSnapshot;
use crate::state::{AgentJobRef, NativeDispatchInfo};
use crate::text::{decimal, decimal_spec, str_eq};
use vstd::prelude::*;

verus! {

broadcast use vstd::string::group_string_axioms;

/// The active episode a cancel request finds: its attempt and where that
/// attempt runs (a native dispatch, an agent job, or not yet anywhere).
#[derive(Debug)]
pub struct ActiveHandle {
    pub attempt_id: u32,
    pub native_dispatch: Option<NativeDispatchInfo>,
    pub agent_job: Option<AgentJobRef>,
}

/// What a cancel request does.
#[derive(Debug)]
pub struct CancelPlan {
    /// Cancel the active episode (the server has cancelled it).
    pub cancel_active: bool,
    /// The native worker to ask to cancel, if any.
    pub notify: Option<NativeDispatchInfo>,
    /// The agent job to abandon, if any.
    pub abandon: Option<AgentJobRef>,
    /// What to report of the worker cancellation when no worker is asked.
    pub worker_cancel: WorkerCancelOutcome,
}

/// Does the outcome say that nothing was sent, with this code and message?
pub open spec fn not_attempted_with(o: WorkerCancelOutcome, code: Seq<char>, message: Seq<char>) -> bool {
    !o.attempted && !o.accepted && o.code@ == code && o.message@ == message
}

/// The message of a cancel request for another attempt than the active one.
pub open spec fn attempt_mismatch_text(active: u32, requested: u32) -> Seq<char> {
    "active attempt is "@ + decimal_spec(active as nat) + ", requested attempt is "@ + decimal_spec(requested as nat)
}

/// The plan of a cancel request for attempt `requested_attempt` (0: any):
/// without an active episode nothing is cancelled; for another attempt than
/// the active one nothing is cancelled either; otherwise the active episode
/// is cancelled and its native worker is asked to cancel, or else its agent
/// job is abandoned.
pub fn cancel_plan(requested_attempt: u32, active: Option<ActiveHandle>) -> (p: CancelPlan)
    ensures
        match active {
            None => !p.cancel_active && p.notify is None && p.abandon is None && not_attempted_with(
                p.worker_cancel,
                "NOT_DISPATCHED"@,
                "episode is not dispatched to a native worker"@,
            ),
            Some(h) => if requested_attempt == 0 || requested_attempt == h.attempt_id {
                &&& p.cancel_active
                &&& match h.native_dispatch {
                    Some(info) => p.notify == Some(info) && p.abandon is None && not_attempted_with(
                        p.worker_cancel,
                        "NOT_DISPATCHED"@,
                        "episode is not dispatched to a native worker"@,
                    ),
                    None => p.notify is None && match h.agent_job {
                        Some(job) => p.abandon == Some(job) && not_attempted_with(
                            p.worker_cancel,
                            "NOT_NATIVE_WORKER"@,
                            "episode is handled by an agent job; native worker cancel RPC is not applicable"@,
                        ),
                        None => p.abandon is None && not_attempted_with(
                            p.worker_cancel,
                            "NOT_DISPATCHED"@,
                            "episode is not dispatched to a native worker"@,
                        ),
                    },
                }
            } else {
                !p.cancel_active && p.notify is None && p.abandon is None && not_attempted_with(
                    p.worker_cancel,
                    "ATTEMPT_MISMATCH"@,
                    attempt_mismatch_text(h.attempt_id, requested_attempt),
                )
            },
        },
{
    let undispatched = WorkerCancelOutcome::not_attempted("NOT_DISPATCHED", "episode is not dispatched to a native worker");
    match active {
        None => CancelPlan { cancel_active: false, notify: None, abandon: None, worker_cancel: undispatched },
        Some(h) => {
            if requested_attempt == 0 || requested_attempt == h.attempt_id {
                match h.native_dispatch {
                    Some(info) => CancelPlan {
                        cancel_active: true,
                        notify: Some(info),
                        abandon: None,
                        worker_cancel: undispatched,
                    },
                    None => match h.agent_job {
                        Some(job) => CancelPlan {
                            cancel_active: true,
                            notify: None,
                            abandon: Some(job),
                            worker_cancel: WorkerCancelOutcome::not_attempted(
                                "NOT_NATIVE_WORKER",
                                "episode is handled by an agent job; native worker cancel RPC is not applicable",
                            ),
                        },
                        None => CancelPlan { cancel_active: true, notify: None, abandon: None, worker_cancel: undispatched },
                    },
                }
            } else {
                let active_text = decimal(h.attempt_id as u64);
                let requested_text = decimal(requested_attempt as u64);
                let head = concat3("active attempt is ", active_text.as_str(), ", requested attempt is ");
                let message = prefixed(head.as_str(), requested_text.as_str());
                CancelPlan {
                    cancel_active: false,
                    notify: None,
                    abandon: None,
                    worker_cancel: WorkerCancelOutcome::not_attempted("ATTEMPT_MISMATCH", message.as_str()),
                }
            }
        },
    }
}

/// Does a cancel request for `episode_id`, attempt `attempt_id` (0: any),
/// drop the waiting result of (`key_episode`, `key_attempt`)?
pub fn cancels_waiting_result(key_episode: &str, key_attempt: u32, episode_id: &str, attempt_id: u32) -> (b: bool)
    ensures
        b == (key_episode@ == episode_id@ && (attempt_id == 0 || key_attempt == attempt_id)),
{
    str_eq(key_episode, episode_id) && (attempt_id == 0 || key_attempt == attempt_id)
}

/// The capacity that draining worker `worker_id` takes from a dynamic
/// admission: that of the first listed worker with this id (0 when none is
/// listed); a fixed admission loses nothing.
pub fn drained_capacity(dynamic: bool, workers: &Vec<WorkerSnapshot>, worker_id: &str) -> (c: u32)
    ensures
        !dynamic ==> c == 0,
        dynamic ==> (if exists|i: int| 0 <= i < workers@.len() && #[trigger] workers@[i].worker_id@ == worker_id@ {
            exists|i: int|
                0 <= i < workers@.len() && #[trigger] workers@[i].worker_id@ == worker_id@ && c == workers@[i].capacity
                    && forall|j: int| 0 <= j < i ==> workers@[j].worker_id@ != worker_id@
        } else {
            c == 0
        }),
{
    if !dynamic {
        return 0;
    }
    let mut i: usize = 0;
    while i < workers.len()
        invariant
            dynamic,
            i <= workers@.len(),
            forall|j: int| 0 <= j < i ==> #[trigger] workers@[j].worker_id@ != worker_id@,
        decreases workers@.len() - i,
    {
        if str_eq(workers[i].worker_id.as_str(), worker_id) {
            return workers[i].capacity;
        }
        i = i + 1;
    }
    0
}

} // verus!
