//! The decisions of an episode's life on the server, as step functions from
//! what just happened to what to do next: admission to the queue, the
//! attempts of a native worker episode, and the acquisition, session and
//! completion phases of a SWE agent episode. The caller performs the waits,
//! calls and broadcasts that an action names and reports back the event.
use crate::admission::AdmissionAcquireError;
use crate::agent_pool::{select_error_text, AgentSelectError};
use crate::obs_merge::prefixed;
use crate::config::concat3;
use crate::episode_rules::is_retryable_schedule_error;
use crate::scheduler::{schedule_error_text, ScheduleError};
use crate::messages::{bare_result, EpisodeResult};
use crate::text::{contains_str, contains_text, decimal, decimal_spec};
use vstd::prelude::*;

verus! {

broadcast use vstd::string::group_string_axioms;

/// `a + b + c` as a new string.
fn join3(a: &str, b: &str, c: &str) -> (s: String)
    ensures
        s@ == a@ + b@ + c@,
{
    concat3(a, b, c)
}

/// `a + b` as a new string.
fn join2(a: &str, b: &str) -> (s: String)
    ensures
        s@ == a@ + b@,
{
    let s = concat3(a, b, "");
    proof {
        reveal_strlit("");
        assert(s@ =~= a@ + b@);
    }
    s
}

/// The timeout of an episode in seconds: its own when it sets one, the
/// server's default otherwise.
pub fn effective_timeout_secs(timeout_seconds: u64, default_secs: u64) -> (t: u64)
    ensures
        t == (if timeout_seconds > 0 { timeout_seconds } else { default_secs }),
{
    if timeout_seconds > 0 {
        timeout_seconds
    } else {
        default_secs
    }
}

/// What to do with an episode after a step.
#[derive(Debug)]
pub enum SubmitStep {
    /// Go on to the next phase.
    Proceed,
    /// Broadcast and return a cancelled result.
    ReturnCancelled,
    /// Broadcast and return a timed-out result with this reason.
    ReturnTimeout(String),
    /// End the submission with this error.
    Fail(String),
}

/// The first step of a SWE agent episode: the agent pool is resolved
/// (`AgentRegistry::resolve_pool_id`); when none can serve, the submission
/// fails at once with the selection error.
pub fn swe_pool_step(resolved: &Result<String, AgentSelectError>) -> (s: SubmitStep)
    ensures
        match *resolved {
            Ok(_) => s is Proceed,
            Err(e) => s matches SubmitStep::Fail(m) && m@ == "select agent failed: "@ + select_error_text(e),
        },
{
    match resolved {
        Ok(_) => SubmitStep::Proceed,
        Err(e) => SubmitStep::Fail(prefixed("select agent failed: ", e.message())),
    }
}

/// The message of an episode that waited in the queue past its deadline.
pub open spec fn queue_timeout_text(episode_id: Seq<char>) -> Seq<char> {
    "episode "@ + episode_id + " timeout waiting in queue"@
}

/// After waiting for a queue permit: go on with it, or end as cancelled,
/// timed out (no dispatch happened) or failed when the queue is closed.
pub fn queue_admission_step(episode_id: &str, outcome: Result<(), AdmissionAcquireError>) -> (s: SubmitStep)
    ensures
        match outcome {
            Ok(()) => s is Proceed,
            Err(AdmissionAcquireError::Cancelled) => s is ReturnCancelled,
            Err(AdmissionAcquireError::TimedOut) => s matches SubmitStep::ReturnTimeout(m) && m@ == queue_timeout_text(episode_id@),
            Err(AdmissionAcquireError::Closed) => s matches SubmitStep::Fail(m) && m@ == "episode queue semaphore closed"@,
        },
{
    match outcome {
        Ok(()) => SubmitStep::Proceed,
        Err(AdmissionAcquireError::Cancelled) => SubmitStep::ReturnCancelled,
        Err(AdmissionAcquireError::TimedOut) => SubmitStep::ReturnTimeout(
            join3("episode ", episode_id, " timeout waiting in queue"),
        ),
        Err(AdmissionAcquireError::Closed) => SubmitStep::Fail("episode queue semaphore closed".to_string()),
    }
}

/// The message of a second submission of an episode that is still active.
pub open spec fn already_active_text(episode_id: Seq<char>) -> Seq<char> {
    "episode "@ + episode_id + " is already active"@
}

/// A submission may start only when its episode is not active already.
pub fn active_check(episode_id: &str, already_active: bool) -> (r: Result<(), String>)
    ensures
        already_active ==> (r matches Err(m) && m@ == already_active_text(episode_id@)),
        !already_active ==> r is Ok,
{
    if already_active {
        Err(join3("episode ", episode_id, " is already active"))
    } else {
        Ok(())
    }
}

/// What happens during one attempt of a native worker episode.
#[derive(Debug)]
pub enum NativeEvent {
    /// An attempt begins (first, again after a full slot, or after a failure).
    AttemptStart,
    /// The scheduler could not reserve a worker; `deadline_passed` tells
    /// whether the episode's deadline has gone by.
    ReserveFailed { error: ScheduleError, deadline_passed: bool },
    /// A worker was reserved.
    Reserved,
    /// The deadline passed while the attempt was running.
    DeadlineReached,
    /// The episode was cancelled while the attempt was running.
    Cancelled,
    /// The worker reported the result.
    ResultDelivered,
    /// The result channel closed without a result; `cancelled` tells whether
    /// the episode had been cancelled by then.
    ResultChannelClosed { cancelled: bool },
    /// Sending the episode to the worker failed.
    DispatchFailed { error: String },
}

/// What to do next in a native worker episode.
#[derive(Debug)]
pub enum NativeAction {
    /// End the submission with this error.
    Fail(String),
    /// Ask the scheduler to reserve a worker.
    Reserve,
    /// Wait one retry interval (unless cancelled meanwhile), then reserve again.
    WaitThenReserve,
    /// Take a lease and dispatch the attempt to the reserved worker.
    Dispatch,
    /// Release the worker, record the late timeout and return a timed-out result.
    ReturnTimeout,
    /// Release the worker and return a cancelled result.
    ReturnCancelled,
    /// Release the worker and publish the delivered result.
    Publish,
    /// The worker had no free slot: wait one retry interval and start the
    /// same attempt again.
    WaitThenRestart,
    /// The attempt failed: start the next attempt.
    Restart,
}

/// The message of an episode that used up its attempts.
pub open spec fn max_attempts_text(episode_id: Seq<char>, max_attempts: u32) -> Seq<char> {
    "episode "@ + episode_id + " exceeded max attempts ("@ + decimal_spec(max_attempts as nat) + ")"@
}

/// The reason an attempt ended without a result, if it ended so.
pub open spec fn retry_reason(ev: NativeEvent) -> Option<Seq<char>> {
    match ev {
        NativeEvent::ResultChannelClosed { cancelled } => if cancelled { None } else { Some("worker_channel_closed"@) },
        NativeEvent::DispatchFailed { error } => Some("dispatch_failed: "@ + error@),
        _ => None,
    }
}

/// The next attempt number and action of a native worker episode, for the
/// current attempt number, the attempt limit and what just happened.
pub open spec fn native_next(episode_id: Seq<char>, attempt_id: u32, max_attempts: u32, ev: NativeEvent) -> (u32, NativeAction) {
    match ev {
        NativeEvent::AttemptStart => if attempt_id > max_attempts {
            (attempt_id, NativeAction::Fail(arbitrary()))
        } else {
            (attempt_id, NativeAction::Reserve)
        },
        NativeEvent::ReserveFailed { error, deadline_passed } => if !(error == ScheduleError::NoWorkerAvailable
            || error == ScheduleError::AllWorkersAtCapacity) || deadline_passed {
            (attempt_id, NativeAction::Fail(arbitrary()))
        } else {
            (attempt_id, NativeAction::WaitThenReserve)
        },
        NativeEvent::Reserved => (attempt_id, NativeAction::Dispatch),
        NativeEvent::DeadlineReached => (attempt_id, NativeAction::ReturnTimeout),
        NativeEvent::Cancelled => (attempt_id, NativeAction::ReturnCancelled),
        NativeEvent::ResultDelivered => (attempt_id, NativeAction::Publish),
        _ => match retry_reason(ev) {
            None => (attempt_id, NativeAction::ReturnCancelled),
            Some(reason) => if contains_text(reason, "max_concurrency_acquire_timeout"@) {
                (attempt_id, NativeAction::WaitThenRestart)
            } else {
                ((attempt_id + 1) as u32, NativeAction::Restart)
            },
        },
    }
}

/// Is the action of the same kind as the one `native_next` names?
pub open spec fn same_native_kind(a: NativeAction, b: NativeAction) -> bool {
    match (a, b) {
        (NativeAction::Fail(_), NativeAction::Fail(_)) => true,
        (NativeAction::Reserve, NativeAction::Reserve) => true,
        (NativeAction::WaitThenReserve, NativeAction::WaitThenReserve) => true,
        (NativeAction::Dispatch, NativeAction::Dispatch) => true,
        (NativeAction::ReturnTimeout, NativeAction::ReturnTimeout) => true,
        (NativeAction::ReturnCancelled, NativeAction::ReturnCancelled) => true,
        (NativeAction::Publish, NativeAction::Publish) => true,
        (NativeAction::WaitThenRestart, NativeAction::WaitThenRestart) => true,
        (NativeAction::Restart, NativeAction::Restart) => true,
        _ => false,
    }
}

/// One step of a native worker episode: an attempt past the limit fails;
/// a worker is reserved, waiting while the failure is one that waiting can
/// cure and the deadline has not passed; the attempt is dispatched and ends
/// by timeout, cancellation or a delivered result; an attempt whose worker
/// had no free slot is started again after a wait, any other failed attempt
/// is followed by the next one.
pub fn native_step(episode_id: &str, attempt_id: u32, max_attempts: u32, ev: &NativeEvent) -> (r: (u32, NativeAction))
    requires
        (ev is DispatchFailed || ev is ResultChannelClosed) ==> attempt_id < u32::MAX,
    ensures
        r.0 == native_next(episode_id@, attempt_id, max_attempts, *ev).0,
        same_native_kind(r.1, native_next(episode_id@, attempt_id, max_attempts, *ev).1),
        (ev is AttemptStart && attempt_id > max_attempts) ==> (r.1 matches NativeAction::Fail(m) && m@ == max_attempts_text(
            episode_id@,
            max_attempts,
        )),
        *ev matches NativeEvent::ReserveFailed { error, deadline_passed } ==> (r.1 matches NativeAction::Fail(m) ==> (
            if !(error == ScheduleError::NoWorkerAvailable || error == ScheduleError::AllWorkersAtCapacity) {
                m@ == "select worker failed: "@ + schedule_error_text(error)
            } else {
                m@ == "no worker available: "@ + schedule_error_text(error)
            })),
{
    match ev {
        NativeEvent::AttemptStart => {
            if attempt_id > max_attempts {
                let limit = decimal(max_attempts as u64);
                let head = join3("episode ", episode_id, " exceeded max attempts (");
                let m = join3(head.as_str(), limit.as_str(), ")");
                (attempt_id, NativeAction::Fail(m))
            } else {
                (attempt_id, NativeAction::Reserve)
            }
        },
        NativeEvent::ReserveFailed { error, deadline_passed } => {
            if !is_retryable_schedule_error(error) {
                (attempt_id, NativeAction::Fail(join2("select worker failed: ", error.message())))
            } else if *deadline_passed {
                (attempt_id, NativeAction::Fail(join2("no worker available: ", error.message())))
            } else {
                (attempt_id, NativeAction::WaitThenReserve)
            }
        },
        NativeEvent::Reserved => (attempt_id, NativeAction::Dispatch),
        NativeEvent::DeadlineReached => (attempt_id, NativeAction::ReturnTimeout),
        NativeEvent::Cancelled => (attempt_id, NativeAction::ReturnCancelled),
        NativeEvent::ResultDelivered => (attempt_id, NativeAction::Publish),
        NativeEvent::ResultChannelClosed { cancelled } => {
            if *cancelled {
                (attempt_id, NativeAction::ReturnCancelled)
            } else {
                let reason = "worker_channel_closed";
                if contains_str(reason, "max_concurrency_acquire_timeout") {
                    (attempt_id, NativeAction::WaitThenRestart)
                } else {
                    (attempt_id + 1, NativeAction::Restart)
                }
            }
        },
        NativeEvent::DispatchFailed { error } => {
            let reason = join2("dispatch_failed: ", error.as_str());
            if contains_str(reason.as_str(), "max_concurrency_acquire_timeout") {
                (attempt_id, NativeAction::WaitThenRestart)
            } else {
                (attempt_id + 1, NativeAction::Restart)
            }
        },
    }
}

/// Law: an attempt number never goes down, and it goes up by exactly one
/// when an attempt fails for a reason other than a full worker slot.
pub proof fn law_attempts_only_advance(episode_id: Seq<char>, attempt_id: u32, max_attempts: u32, ev: NativeEvent)
    requires
        attempt_id < u32::MAX,
    ensures
        native_next(episode_id, attempt_id, max_attempts, ev).0 >= attempt_id,
        native_next(episode_id, attempt_id, max_attempts, ev).1 is Restart ==> native_next(
            episode_id,
            attempt_id,
            max_attempts,
            ev,
        ).0 == attempt_id + 1,
        !(native_next(episode_id, attempt_id, max_attempts, ev).1 is Restart) ==> native_next(
            episode_id,
            attempt_id,
            max_attempts,
            ev,
        ).0 == attempt_id,
{
}

/// The run and job ids of a SWE agent episode: `run-` and `job-` before the
/// episode id.
pub fn swe_run_and_job_ids(episode_id: &str) -> (r: (String, String))
    ensures
        r.0@ == "run-"@ + episode_id@,
        r.1@ == "job-"@ + episode_id@,
{
    let run = join2("run-", episode_id);
    let job = join2("job-", episode_id);
    proof {
        reveal_strlit("");
        assert(run@ =~= "run-"@ + episode_id@);
        assert(job@ =~= "job-"@ + episode_id@);
    }
    (run, job)
}

/// What happens while a SWE agent episode acquires an agent slot and a worker.
#[derive(Debug)]
pub enum SweAcquireEvent {
    /// A new round begins; `cancelled` and `deadline_passed` are their current values.
    RoundStart { cancelled: bool, deadline_passed: bool },
    /// No agent permit was free.
    PermitUnavailable,
    /// The worker reservation failed (the permit is given back first).
    ReserveFailed { error: ScheduleError, deadline_passed: bool },
    /// A worker was reserved; its id and whether it has a gateway URL.
    Reserved { worker_id: String, has_gateway_url: bool },
}

/// The message of a SWE agent episode that could not get an agent and a worker in time.
pub open spec fn acquire_timeout_text(episode_id: Seq<char>) -> Seq<char> {
    "swe agent episode "@ + episode_id + " timeout acquiring agent+worker slot"@
}

/// The message of a worker without a gateway URL.
pub open spec fn no_gateway_text(worker_id: Seq<char>) -> Seq<char> {
    "worker "@ + worker_id + " has no gateway_public_url; cannot orchestrate agent job"@
}

/// What to do next while acquiring.
#[derive(Debug)]
pub enum SweAcquireAction {
    /// Try to take an agent permit.
    TryPermit,
    /// Wait one retry interval (unless cancelled), then start a new round.
    WaitThenRetry,
    /// Hold the permit and worker and go on to create the gateway session.
    Proceed,
    /// End with a cancelled result.
    ReturnCancelled,
    /// End with a timed-out result (no dispatch happened) with this reason.
    ReturnTimeout(String),
    /// Release what is held and end with this error.
    Fail(String),
}

/// One step of acquiring an agent permit and a worker for a SWE agent episode.
pub fn swe_acquire_step(episode_id: &str, ev: &SweAcquireEvent) -> (a: SweAcquireAction)
    ensures
        match *ev {
            SweAcquireEvent::RoundStart { cancelled, deadline_passed } => if cancelled {
                a is ReturnCancelled
            } else if deadline_passed {
                a matches SweAcquireAction::ReturnTimeout(m) && m@ == acquire_timeout_text(episode_id@)
            } else {
                a is TryPermit
            },
            SweAcquireEvent::PermitUnavailable => a is WaitThenRetry,
            SweAcquireEvent::ReserveFailed { error, deadline_passed } => if !(error == ScheduleError::NoWorkerAvailable
                || error == ScheduleError::AllWorkersAtCapacity) {
                a matches SweAcquireAction::Fail(m) && m@ == "select worker failed: "@ + schedule_error_text(error)
            } else if deadline_passed {
                a matches SweAcquireAction::ReturnTimeout(m) && m@ == acquire_timeout_text(episode_id@)
            } else {
                a is WaitThenRetry
            },
            SweAcquireEvent::Reserved { worker_id, has_gateway_url } => if has_gateway_url {
                a is Proceed
            } else {
                a matches SweAcquireAction::Fail(m) && m@ == no_gateway_text(worker_id@)
            },
        },
{
    match ev {
        SweAcquireEvent::RoundStart { cancelled, deadline_passed } => {
            if *cancelled {
                SweAcquireAction::ReturnCancelled
            } else if *deadline_passed {
                SweAcquireAction::ReturnTimeout(
                    join3("swe agent episode ", episode_id, " timeout acquiring agent+worker slot"),
                )
            } else {
                SweAcquireAction::TryPermit
            }
        },
        SweAcquireEvent::PermitUnavailable => SweAcquireAction::WaitThenRetry,
        SweAcquireEvent::ReserveFailed { error, deadline_passed } => {
            if !is_retryable_schedule_error(error) {
                SweAcquireAction::Fail(join2("select worker failed: ", error.message()))
            } else if *deadline_passed {
                SweAcquireAction::ReturnTimeout(
                    join3("swe agent episode ", episode_id, " timeout acquiring agent+worker slot"),
                )
            } else {
                SweAcquireAction::WaitThenRetry
            }
        },
        SweAcquireEvent::Reserved { worker_id, has_gateway_url } => {
            if *has_gateway_url {
                SweAcquireAction::Proceed
            } else {
                SweAcquireAction::Fail(
                    join3("worker ", worker_id.as_str(), " has no gateway_public_url; cannot orchestrate agent job"),
                )
            }
        },
    }
}

/// How creating the gateway session for a SWE agent episode ended.
#[derive(Debug)]
pub enum SessionOutcome {
    Created,
    Failed(String),
    TimedOut,
    Cancelled,
}

/// After trying to create the gateway session on a worker: go on, or clean
/// up and end as cancelled, failed or timed out.
pub fn swe_session_step(worker_id: &str, outcome: &SessionOutcome) -> (s: SubmitStep)
    ensures
        match *outcome {
            SessionOutcome::Created => s is Proceed,
            SessionOutcome::Cancelled => s is ReturnCancelled,
            SessionOutcome::Failed(e) => s matches SubmitStep::Fail(m) && m@ == "for-episode failed on worker "@ + worker_id@
                + ": "@ + e@,
            SessionOutcome::TimedOut => s matches SubmitStep::ReturnTimeout(m) && m@ == "for-episode timeout on worker "@
                + worker_id@,
        },
{
    match outcome {
        SessionOutcome::Created => SubmitStep::Proceed,
        SessionOutcome::Cancelled => SubmitStep::ReturnCancelled,
        SessionOutcome::Failed(e) => {
            let head = join3("for-episode failed on worker ", worker_id, ": ");
            SubmitStep::Fail(join2(head.as_str(), e.as_str()))
        },
        SessionOutcome::TimedOut => SubmitStep::ReturnTimeout(join2("for-episode timeout on worker ", worker_id)),
    }
}

/// What happens while a SWE agent episode waits for its agent job.
#[derive(Debug)]
pub enum SweWaitEvent {
    DeadlineReached,
    /// The pickup deadline passed; `still_pending` tells whether no agent took the job.
    PickupDeadline { still_pending: bool },
    Cancelled,
    /// The agent reported completion with this status.
    Completed { status: String },
    /// The completion channel closed without a report.
    ChannelClosed,
}

/// What to do next while waiting.
#[derive(Debug)]
pub enum SweWaitAction {
    /// Keep waiting (the pickup check is done).
    KeepWaiting,
    /// Abandon the job, close the session and end with a timed-out result.
    ReturnTimeout(String),
    /// Abandon the job, close the session and end with a cancelled result.
    ReturnCancelled,
    /// Turn the completion into the episode result with this status.
    Complete(String),
    /// Close the session and end with this error.
    Fail(String),
}

/// One step of waiting for a SWE agent job: the episode deadline and a job
/// that no agent picked up in time end it as timed out; a completion with
/// an empty status counts as `completed`.
pub fn swe_wait_step(episode_id: &str, ev: &SweWaitEvent) -> (a: SweWaitAction)
    ensures
        match *ev {
            SweWaitEvent::DeadlineReached => a matches SweWaitAction::ReturnTimeout(m) && m@ == "swe agent episode "@
                + episode_id@ + " timeout waiting for agent completion"@,
            SweWaitEvent::PickupDeadline { still_pending } => if still_pending {
                a matches SweWaitAction::ReturnTimeout(m) && m@ == "swe agent episode "@ + episode_id@
                    + " timeout waiting for agent pickup"@
            } else {
                a is KeepWaiting
            },
            SweWaitEvent::Cancelled => a is ReturnCancelled,
            SweWaitEvent::Completed { status } => a matches SweWaitAction::Complete(s) && s@ == (if status@.len() == 0 {
                "completed"@
            } else {
                status@
            }),
            SweWaitEvent::ChannelClosed => a matches SweWaitAction::Fail(m) && m@ == "swe agent episode "@ + episode_id@
                + " completion channel closed"@,
        },
{
    match ev {
        SweWaitEvent::DeadlineReached => SweWaitAction::ReturnTimeout(
            join3("swe agent episode ", episode_id, " timeout waiting for agent completion"),
        ),
        SweWaitEvent::PickupDeadline { still_pending } => {
            if *still_pending {
                SweWaitAction::ReturnTimeout(join3("swe agent episode ", episode_id, " timeout waiting for agent pickup"))
            } else {
                SweWaitAction::KeepWaiting
            }
        },
        SweWaitEvent::Cancelled => SweWaitAction::ReturnCancelled,
        SweWaitEvent::Completed { status } => {
            if status.as_str().unicode_len() == 0 {
                SweWaitAction::Complete("completed".to_string())
            } else {
                SweWaitAction::Complete(status.clone())
            }
        },
        SweWaitEvent::ChannelClosed => SweWaitAction::Fail(
            join3("swe agent episode ", episode_id, " completion channel closed"),
        ),
    }
}

/// The phases of a SWE agent episode, in order: the agent pool is resolved
/// (`swe_pool_step`), an agent permit and a worker are acquired
/// (`swe_acquire_step`), the gateway session is created (`swe_session_step`),
/// and the agent job is awaited (`swe_wait_step`).
#[derive(Debug, Clone, Copy, PartialEq, Eq, Structural)]
pub enum SwePhase {
    ResolvePool,
    Acquire,
    Session,
    Wait,
    Done,
}

/// How a step of a phase ended: go on to the next phase, stay in this one,
/// or end the episode.
#[derive(Debug, Clone, Copy, PartialEq, Eq, Structural)]
pub enum PhaseOutcome {
    Next,
    Stay,
    End,
}

/// The phase after the current one.
pub open spec fn next_phase(p: SwePhase) -> SwePhase {
    match p {
        SwePhase::ResolvePool => SwePhase::Acquire,
        SwePhase::Acquire => SwePhase::Session,
        SwePhase::Session => SwePhase::Wait,
        SwePhase::Wait => SwePhase::Done,
        SwePhase::Done => SwePhase::Done,
    }
}

/// The phase a SWE agent episode is in after a step of `phase` ended with
/// `outcome`: the next phase, the same one, or done.
pub fn swe_phase_after(phase: SwePhase, outcome: PhaseOutcome) -> (p: SwePhase)
    ensures
        p == match outcome {
            PhaseOutcome::Next => next_phase(phase),
            PhaseOutcome::Stay => phase,
            PhaseOutcome::End => SwePhase::Done,
        },
{
    match outcome {
        PhaseOutcome::Stay => phase,
        PhaseOutcome::End => SwePhase::Done,
        PhaseOutcome::Next => match phase {
            SwePhase::ResolvePool => SwePhase::Acquire,
            SwePhase::Acquire => SwePhase::Session,
            SwePhase::Session => SwePhase::Wait,
            SwePhase::Wait => SwePhase::Done,
            SwePhase::Done => SwePhase::Done,
        },
    }
}

/// How a step of the pool or session phase ends: it goes on when it proceeds
/// and ends the episode otherwise.
pub fn submit_outcome(s: &SubmitStep) -> (o: PhaseOutcome)
    ensures
        o == (if *s is Proceed { PhaseOutcome::Next } else { PhaseOutcome::End }),
{
    match s {
        SubmitStep::Proceed => PhaseOutcome::Next,
        _ => PhaseOutcome::End,
    }
}

/// How a step of the acquire phase ends: a proceed goes on to the session,
/// a permit attempt or a retry stays, anything else ends the episode.
pub fn acquire_outcome(a: &SweAcquireAction) -> (o: PhaseOutcome)
    ensures
        o == (if *a is Proceed {
            PhaseOutcome::Next
        } else if *a is TryPermit || *a is WaitThenRetry {
            PhaseOutcome::Stay
        } else {
            PhaseOutcome::End
        }),
{
    match a {
        SweAcquireAction::Proceed => PhaseOutcome::Next,
        SweAcquireAction::TryPermit => PhaseOutcome::Stay,
        SweAcquireAction::WaitThenRetry => PhaseOutcome::Stay,
        _ => PhaseOutcome::End,
    }
}

/// How a step of the wait phase ends: waiting stays, a completion goes on
/// (to done), anything else ends the episode.
pub fn wait_outcome(a: &SweWaitAction) -> (o: PhaseOutcome)
    ensures
        o == (if *a is KeepWaiting {
            PhaseOutcome::Stay
        } else if *a is Complete {
            PhaseOutcome::Next
        } else {
            PhaseOutcome::End
        }),
{
    match a {
        SweWaitAction::KeepWaiting => PhaseOutcome::Stay,
        SweWaitAction::Complete(_) => PhaseOutcome::Next,
        _ => PhaseOutcome::End,
    }
}

/// How long the pickup of an agent job may take, in seconds: the configured
/// time, at least one second.
pub fn pickup_timeout_secs(configured: u64) -> (t: u64)
    ensures
        t == (if configured > 1 { configured } else { 1 }),
{
    if configured > 1 {
        configured
    } else {
        1
    }
}

/// When the lease of an attempt dispatched at `now_ms` ends, in whole Unix
/// seconds: the current second plus the lease's seconds.
pub fn lease_expire_at_secs(now_ms: u64, remaining_secs: u64) -> (t: i64)
    requires
        now_ms / 1000 + remaining_secs <= i64::MAX,
    ensures
        t == now_ms / 1000 + remaining_secs,
{
    (now_ms / 1000 + remaining_secs) as i64
}

/// The lease of a dispatched attempt lasts for the seconds left before the
/// deadline, at least one.
pub fn lease_remaining_secs(deadline_ms: u64, now_ms: u64) -> (s: u64)
    ensures
        s == (if deadline_ms > now_ms && (deadline_ms - now_ms) / 1000 > 1 { ((deadline_ms - now_ms) / 1000) as u64 } else { 1 }),
{
    let left = if deadline_ms > now_ms { (deadline_ms - now_ms) / 1000 } else { 0 };
    if left > 1 {
        left
    } else {
        1
    }
}

/// Why a batch submission failed.
#[derive(Debug, Clone)]
pub enum EpisodeServiceError {
    Failed(String),
}

impl EpisodeServiceError {
    /// The error's message, as it is displayed.
    pub fn message(&self) -> (s: &str)
        ensures
            match *self {
                EpisodeServiceError::Failed(m) => s@ == m@,
            },
    {
        match self {
            EpisodeServiceError::Failed(m) => m.as_str(),
        }
    }
}

/// The result a batch reports for a submission that ended with an error:
/// the episode id, status `failed` and the error's message, nothing else.
pub fn failed_submission_result(episode_id: String, error_message: String) -> (r: EpisodeResult)
    ensures
        r.episode_id == episode_id,
        r.attempt_id == 0,
        r.status@ == "failed"@,
        r.error_message == error_message,
        bare_result(r),
{
    let mut r = EpisodeResult::default();
    r.episode_id = episode_id;
    r.status = "failed".to_string();
    r.error_message = error_message;
    r
}

} // verus!
