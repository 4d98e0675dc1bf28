//! The SWE agent job queue: jobs wait per agent pool until an agent polls
//! for one; a polled job is in flight until its agent completes it, it is
//! abandoned, or its agent goes stale and the job is failed on its behalf.
//! Each job in flight counts as one reservation on its agent.
use crate::agent_pool::{can_run_spec, first_agent, stale_ids, AgentRegistry};
use crate::episode_rules::agent_complete_to_episode_result;
use crate::keyed_table::KeyedTable;
use crate::messages::{AgentJob, AgentJobCompleteRequest, EpisodeResult};
use crate::string_map::StringMap;
use crate::text::str_eq;
use vstd::prelude::*;

verus! {

broadcast use vstd::string::group_string_axioms;

/// A job waiting in its pool's queue.
#[derive(Debug)]
pub struct PendingJob {
    pub pool_id: String,
    pub job: AgentJob,
}

/// A job that has been handed out, or is waiting to be (empty agent id).
#[derive(Debug)]
pub struct InFlightJob {
    pub agent_id: String,
    pub run_id: String,
    pub episode_id: String,
    pub session_id: String,
}

impl Clone for InFlightJob {
    fn clone(&self) -> (c: Self)
        ensures
            c == *self,
    {
        InFlightJob {
            agent_id: self.agent_id.clone(),
            run_id: self.run_id.clone(),
            episode_id: self.episode_id.clone(),
            session_id: self.session_id.clone(),
        }
    }
}

/// Does the list hold a string equal to `s`?
fn lists_name(list: &Vec<String>, s: &str) -> (b: bool)
    ensures
        b == exists|y: int| 0 <= y < list@.len() && #[trigger] list@[y]@ == s@,
{
    let mut x: usize = 0;
    while x < list.len()
        invariant
            x <= list@.len(),
            forall|y: int| 0 <= y < x ==> #[trigger] list@[y]@ != s@,
        decreases list@.len() - x,
    {
        if str_eq(list[x].as_str(), s) {
            return true;
        }
        x = x + 1;
    }
    false
}

/// What a poll gives the polling agent.
#[derive(Debug)]
pub enum PollOutcome {
    /// The agent is not registered and must register again.
    NotRegistered,
    /// No job for the agent now.
    NoJob,
    /// This job, now in flight on the agent.
    Job(AgentJob),
}

/// Whether a completion report may be accepted.
#[derive(Debug)]
pub enum CompleteCheck {
    /// No job with this id is in flight.
    UnknownJob,
    /// The report's run is not the job's run.
    RunMismatch,
    /// The job was not handed out, or to another agent.
    AgentMismatch,
    /// The report is the job's; its record.
    Accept(InFlightJob),
}

/// A job failed on behalf of its stale agent: the failure report and the
/// result made of it.
#[derive(Debug)]
pub struct ReapedJob {
    pub job_id: String,
    pub complete: AgentJobCompleteRequest,
    pub result: EpisodeResult,
}

/// The number of waiting jobs of a pool.
pub open spec fn pool_count(p: Seq<PendingJob>, pool: Seq<char>) -> nat
    decreases p.len(),
{
    if p.len() == 0 {
        0
    } else {
        pool_count(p.drop_last(), pool) + if p.last().pool_id@ == pool { 1nat } else { 0nat }
    }
}

/// May the agent at position `k` take the waiting job?
pub open spec fn pollable(registry: AgentRegistry, k: int, pool: Seq<char>, j: PendingJob, now: u64) -> bool {
    j.pool_id@ == pool && can_run_spec(
        registry.agents_spec()[k],
        pool,
        j.job.agent_bridge_id@,
        j.job.agent_bridge_version@,
        registry.timeout_spec(),
        now,
    )
}

/// The first waiting job of the pool that the agent at position `k` may take.
pub open spec fn first_pollable(p: Seq<PendingJob>, registry: AgentRegistry, k: int, pool: Seq<char>, now: u64) -> Option<int> {
    if exists|i: int| 0 <= i < p.len() && #[trigger] pollable(registry, k, pool, p[i], now) {
        Some(choose|i: int| 0 <= i < p.len() && pollable(registry, k, pool, p[i], now) && forall|j: int|
            0 <= j < i ==> !#[trigger] pollable(registry, k, pool, p[j], now))
    } else {
        None
    }
}

/// The waiting jobs other than those of the pool with this id.
pub open spec fn without_job(p: Seq<PendingJob>, pool: Seq<char>, job_id: Seq<char>) -> Seq<PendingJob> {
    p.filter(|j: PendingJob| !(j.pool_id@ == pool && j.job.job_id@ == job_id))
}

/// The job queue.
#[derive(Debug)]
pub struct AgentJobQueue {
    pending: Vec<PendingJob>,
    in_flight: KeyedTable<InFlightJob>,
}

impl AgentJobQueue {
    /// The waiting jobs in the order they were queued (each pool's queue is
    /// the subsequence of its jobs).
    pub closed spec fn pending_spec(&self) -> Seq<PendingJob> {
        self.pending@
    }

    /// The jobs in flight, by job id.
    pub closed spec fn in_flight_spec(&self) -> Map<Seq<char>, InFlightJob> {
        self.in_flight@
    }

    /// An empty queue.
    pub fn new() -> (q: Self)
        ensures
            q.pending_spec().len() == 0,
            q.in_flight_spec() == Map::<Seq<char>, InFlightJob>::empty(),
    {
        AgentJobQueue { pending: Vec::new(), in_flight: KeyedTable::new() }
    }

    /// Queues a job for a pool and records it as in flight with no agent yet.
    pub fn enqueue(&mut self, pool_id: String, job: AgentJob)
        ensures
            final(self).pending_spec() == old(self).pending_spec().push(PendingJob { pool_id, job }),
            final(self).in_flight_spec().contains_key(job.job_id@),
            final(self).in_flight_spec()[job.job_id@].agent_id@.len() == 0,
            final(self).in_flight_spec()[job.job_id@].run_id@ == job.run_id@,
            final(self).in_flight_spec()[job.job_id@].episode_id@ == job.episode_id@,
            final(self).in_flight_spec()[job.job_id@].session_id@ == job.session_id@,
            final(self).in_flight_spec().remove(job.job_id@) == old(self).in_flight_spec().remove(job.job_id@),
    {
        let entry = InFlightJob {
            agent_id: String::new(),
            run_id: job.run_id.clone(),
            episode_id: job.episode_id.clone(),
            session_id: job.session_id.clone(),
        };
        self.in_flight.insert(job.job_id.clone(), entry);
        self.pending.push(PendingJob { pool_id, job });
        proof {
            assert(self.in_flight@.remove(job.job_id@) =~= old(self).in_flight@.remove(job.job_id@));
        }
    }

    /// Restores a job after a restart: in flight on its agent when it had
    /// been leased, queued again (in flight with no agent) otherwise.
    pub fn restore_persisted(&mut self, pool_id: String, job: AgentJob, leased_agent_id: Option<String>)
        ensures
            final(self).in_flight_spec().contains_key(job.job_id@),
            final(self).in_flight_spec()[job.job_id@].agent_id@ == (match leased_agent_id {
                Some(a) => a@,
                None => Seq::<char>::empty(),
            }),
            final(self).in_flight_spec()[job.job_id@].run_id@ == job.run_id@,
            final(self).in_flight_spec().remove(job.job_id@) == old(self).in_flight_spec().remove(job.job_id@),
            final(self).in_flight_spec()[job.job_id@].agent_id@.len() == 0 ==> final(self).pending_spec()
                == old(self).pending_spec().push(PendingJob { pool_id, job }),
            final(self).in_flight_spec()[job.job_id@].agent_id@.len() > 0 ==> final(self).pending_spec()
                == old(self).pending_spec(),
    {
        let agent_id = match leased_agent_id {
            Some(a) => a,
            None => String::new(),
        };
        let leased = agent_id.as_str().unicode_len() > 0;
        let entry = InFlightJob {
            agent_id,
            run_id: job.run_id.clone(),
            episode_id: job.episode_id.clone(),
            session_id: job.session_id.clone(),
        };
        self.in_flight.insert(job.job_id.clone(), entry);
        if !leased {
            self.pending.push(PendingJob { pool_id, job });
        }
        proof {
            assert(self.in_flight@.remove(job.job_id@) =~= old(self).in_flight@.remove(job.job_id@));
        }
    }

    /// The number of jobs waiting in a pool's queue.
    pub fn pending_len(&self, pool_id: &str) -> (n: usize)
        ensures
            n == pool_count(self.pending_spec(), pool_id@),
    {
        let mut n: usize = 0;
        let mut i: usize = 0;
        while i < self.pending.len()
            invariant
                i <= self.pending@.len(),
                n == pool_count(self.pending@.take(i as int), pool_id@),
                n <= i,
            decreases self.pending@.len() - i,
        {
            proof {
                assert(self.pending@.take(i + 1).drop_last() =~= self.pending@.take(i as int));
                assert(self.pending@.take(i + 1).last() == self.pending@[i as int]);
            }
            if str_eq(self.pending[i].pool_id.as_str(), pool_id) {
                n = n + 1;
            }
            i = i + 1;
        }
        proof {
            assert(self.pending@.take(self.pending@.len() as int) =~= self.pending@);
        }
        n
    }

    /// The pool of each waiting job, in queue order.
    pub fn pending_pool_ids(&self) -> (r: Vec<String>)
        ensures
            r@.len() == self.pending_spec().len(),
            forall|i: int| 0 <= i < r@.len() ==> #[trigger] r@[i]@ == self.pending_spec()[i].pool_id@,
    {
        let mut r: Vec<String> = Vec::new();
        let mut i: usize = 0;
        while i < self.pending.len()
            invariant
                i <= self.pending@.len(),
                r@.len() == i,
                forall|j: int| 0 <= j < i ==> #[trigger] r@[j]@ == self.pending@[j].pool_id@,
            decreases self.pending@.len() - i,
        {
            r.push(self.pending[i].pool_id.clone());
            i = i + 1;
        }
        r
    }

    /// Is the job still waiting in the pool's queue?
    pub fn is_pending(&self, pool_id: &str, job_id: &str) -> (b: bool)
        ensures
            b == exists|i: int|
                0 <= i < self.pending_spec().len() && #[trigger] self.pending_spec()[i].pool_id@ == pool_id@
                    && self.pending_spec()[i].job.job_id@ == job_id@,
    {
        let mut i: usize = 0;
        while i < self.pending.len()
            invariant
                i <= self.pending@.len(),
                forall|j: int| 0 <= j < i ==> !(#[trigger] self.pending@[j].pool_id@ == pool_id@
                    && self.pending@[j].job.job_id@ == job_id@),
            decreases self.pending@.len() - i,
        {
            if str_eq(self.pending[i].pool_id.as_str(), pool_id) && str_eq(self.pending[i].job.job_id.as_str(), job_id) {
                return true;
            }
            i = i + 1;
        }
        false
    }

    /// The number of jobs in flight (handed out or waiting for an agent).
    pub fn in_flight_len(&self) -> (n: usize)
        ensures
            n == self.in_flight_spec().dom().len(),
    {
        let n = self.in_flight.len();
        n
    }

    /// The jobs in flight with the agents they were handed to (empty for a
    /// job no agent has taken yet).
    pub fn in_flight_snapshot(&self) -> (v: Vec<(String, String)>)
        ensures
            v@.len() == self.in_flight_spec().dom().len(),
            forall|i: int|
                0 <= i < v@.len() ==> #[trigger] self.in_flight_spec().contains_key(v@[i].0@)
                    && self.in_flight_spec()[v@[i].0@].agent_id@ == v@[i].1@,
    {
        let n = self.in_flight.len();
        assert forall|a: int|
            0 <= a < self.in_flight.rows().len() implies #[trigger] self.in_flight@.contains_key(self.in_flight.rows()[a].0)
                && self.in_flight@[self.in_flight.rows()[a].0] == self.in_flight.rows()[a].1 by {
            assert(self.in_flight@.contains_key(self.in_flight.rows()[a].0));
        }
        let mut out: Vec<(String, String)> = Vec::new();
        let mut i: usize = 0;
        while i < n
            invariant
                n == self.in_flight.rows().len(),
                i <= n,
                out@.len() == i,
                forall|a: int|
                    0 <= a < self.in_flight.rows().len() ==> #[trigger] self.in_flight@.contains_key(self.in_flight.rows()[a].0)
                        && self.in_flight@[self.in_flight.rows()[a].0] == self.in_flight.rows()[a].1,
                forall|a: int|
                    0 <= a < out@.len() ==> #[trigger] self.in_flight@.contains_key(out@[a].0@)
                        && self.in_flight@[out@[a].0@].agent_id@ == out@[a].1@,
            decreases n - i,
        {
            let (k, e) = self.in_flight.entry_at(i);
            proof {
                assert(self.in_flight@.contains_key(self.in_flight.rows()[i as int].0));
            }
            out.push((k.clone(), e.agent_id.clone()));
            i = i + 1;
        }
        out
    }

    /// Gives up a job: it leaves the in-flight table (the agent that held
    /// it gets its reservation back) and the pool's queue.
    pub fn abandon(&mut self, registry: &mut AgentRegistry, pool_id: &str, job_id: &str)
        ensures
            final(self).in_flight_spec() == old(self).in_flight_spec().remove(job_id@),
            final(self).pending_spec() == without_job(old(self).pending_spec(), pool_id@, job_id@),
            (old(self).in_flight_spec().contains_key(job_id@) && old(self).in_flight_spec()[job_id@].agent_id@.len() > 0)
                ==> final(registry).agents_spec() == (match first_agent(
                old(registry).agents_spec(),
                old(self).in_flight_spec()[job_id@].agent_id@,
            ) {
                Some(k) => old(registry).agents_spec().update(
                    k,
                    crate::agent_pool::agent_released_once(old(registry).agents_spec()[k]),
                ),
                None => old(registry).agents_spec(),
            }),
            !(old(self).in_flight_spec().contains_key(job_id@) && old(self).in_flight_spec()[job_id@].agent_id@.len() > 0)
                ==> final(registry).agents_spec() == old(registry).agents_spec(),
            final(registry).timeout_spec() == old(registry).timeout_spec(),
    {
        if let Some(entry) = self.in_flight.remove(job_id) {
            if entry.agent_id.as_str().unicode_len() > 0 {
                registry.decrement_load(entry.agent_id.as_str());
            }
        }
        let mut kept: Vec<PendingJob> = Vec::new();
        let mut old_pending: Vec<PendingJob> = Vec::new();
        std::mem::swap(&mut old_pending, &mut self.pending);
        let ghost orig = old_pending@;
        let ghost keep = |j: PendingJob| !(j.pool_id@ == pool_id@ && j.job.job_id@ == job_id@);
        let ghost mut i: int = 0;
        while old_pending.len() > 0
            invariant
                0 <= i <= orig.len(),
                old_pending@ == orig.skip(i),
                kept@ == orig.take(i).filter(keep),
                keep == (|j: PendingJob| !(j.pool_id@ == pool_id@ && j.job.job_id@ == job_id@)),
            decreases old_pending@.len(),
        {
            let j = old_pending.remove(0);
            proof {
                assert(j == orig[i]);
                reveal(Seq::filter);
                assert(orig.take(i + 1).filter(keep) == if keep(j) {
                    orig.take(i).filter(keep).push(j)
                } else {
                    orig.take(i).filter(keep)
                }) by {
                    assert(orig.take(i + 1).drop_last() =~= orig.take(i));
                    assert(orig.take(i + 1).last() == j);
                }
            }
            if !(str_eq(j.pool_id.as_str(), pool_id) && str_eq(j.job.job_id.as_str(), job_id)) {
                kept.push(j);
            }
            proof {
                i = i + 1;
                assert(old_pending@ =~= orig.skip(i));
            }
        }
        proof {
            assert(orig.take(i) =~= orig);
        }
        self.pending = kept;
    }

    /// A poll by an agent for a job of a pool: an unregistered agent must
    /// register again; otherwise the first job of the pool that the agent
    /// may run (live, synced with its bridge, below its limit) is taken from
    /// the queue, reserved on the agent and marked in flight on it. When
    /// the job was abandoned meanwhile, the reservation is given back and
    /// nothing is handed out.
    pub fn poll(&mut self, registry: &mut AgentRegistry, agent_id: &str, pool_id: &str, now: u64) -> (r: PollOutcome)
        ensures
            final(registry).timeout_spec() == old(registry).timeout_spec(),
            agent_id@.len() == 0 ==> r is NoJob && *final(self) == *old(self) && final(registry).agents_spec()
                == old(registry).agents_spec(),
            agent_id@.len() > 0 ==> match first_agent(old(registry).agents_spec(), agent_id@) {
                None => r is NotRegistered && *final(self) == *old(self) && final(registry).agents_spec()
                    == old(registry).agents_spec(),
                Some(k) => match first_pollable(
                old(self).pending_spec(),
                *old(registry),
                k,
                pool_id@,
                now,
            ) {
                None => r is NoJob && *final(self) == *old(self) && final(registry).agents_spec() == old(registry).agents_spec(),
                Some(i) => {
                    let job = old(self).pending_spec()[i].job;
                    &&& final(self).pending_spec() == old(self).pending_spec().remove(i)
                    &&& if old(self).in_flight_spec().contains_key(job.job_id@) {
                        &&& r matches PollOutcome::Job(j) && j == job
                        &&& final(registry).agents_spec() == old(registry).agents_spec().update(
                            k,
                            crate::agent_pool::agent_reserved_once(old(registry).agents_spec()[k]),
                        )
                        &&& final(self).in_flight_spec().contains_key(job.job_id@)
                        &&& final(self).in_flight_spec()[job.job_id@].agent_id@ == agent_id@
                        &&& final(self).in_flight_spec()[job.job_id@].run_id == old(self).in_flight_spec()[job.job_id@].run_id
                        &&& final(self).in_flight_spec().remove(job.job_id@) == old(self).in_flight_spec().remove(
                            job.job_id@,
                        )
                    } else {
                        &&& r is NoJob
                        &&& final(self).in_flight_spec() == old(self).in_flight_spec()
                        &&& final(registry).agents_spec() == old(registry).agents_spec().update(
                            k,
                            crate::agent_pool::agent_released_once(
                                crate::agent_pool::agent_reserved_once(old(registry).agents_spec()[k]),
                            ),
                        )
                    }
                },
            },
            },
    {
        if agent_id.unicode_len() == 0 {
            return PollOutcome::NoJob;
        }
        if !registry.is_registered(agent_id) {
            return PollOutcome::NotRegistered;
        }
        let ghost k = first_agent(registry.agents_spec(), agent_id@)->0;
        let mut i: usize = 0;
        while i < self.pending.len()
            invariant
                i <= self.pending@.len(),
                *registry == *old(registry),
                *self == *old(self),
                first_agent(registry.agents_spec(), agent_id@) == Some(k),
                forall|j: int| 0 <= j < i ==> !#[trigger] pollable(*registry, k, pool_id@, self.pending@[j], now),
            ensures
                i <= self.pending@.len(),
                *registry == *old(registry),
                *self == *old(self),
                forall|j: int| 0 <= j < i ==> !#[trigger] pollable(*registry, k, pool_id@, self.pending@[j], now),
                i < self.pending@.len() ==> pollable(*registry, k, pool_id@, self.pending@[i as int], now),
            decreases self.pending@.len() - i,
        {
            let candidate = &self.pending[i];
            if str_eq(candidate.pool_id.as_str(), pool_id) && registry.agent_can_run(
                agent_id,
                pool_id,
                candidate.job.agent_bridge_id.as_str(),
                candidate.job.agent_bridge_version.as_str(),
                now,
            ) {
                break;
            }
            i = i + 1;
        }
        if i == self.pending.len() {
            return PollOutcome::NoJob;
        }
        proof {
            assert(pollable(*old(registry), k, pool_id@, self.pending@[i as int], now));
            let f = first_pollable(self.pending@, *old(registry), k, pool_id@, now);
            let c = choose|x: int| 0 <= x < self.pending@.len() && pollable(*old(registry), k, pool_id@, self.pending@[x], now)
                && forall|j: int| 0 <= j < x ==> !#[trigger] pollable(*old(registry), k, pool_id@, self.pending@[j], now);
            if c < i {
                assert(!pollable(*old(registry), k, pool_id@, self.pending@[c], now));
            }
            if c > i {
                assert(!pollable(*old(registry), k, pool_id@, self.pending@[i as int], now));
            }
            assert(f == Some(i as int));
        }
        let reserved = registry.try_reserve_exact_agent(
            agent_id,
            pool_id,
            self.pending[i].job.agent_bridge_id.as_str(),
            self.pending[i].job.agent_bridge_version.as_str(),
            now,
        );
        if !reserved {
            return PollOutcome::NoJob;
        }
        let taken = self.pending.remove(i);
        let entry = match self.in_flight.get(taken.job.job_id.as_str()) {
            Some(e) => Some(
                InFlightJob {
                    agent_id: agent_id.to_string(),
                    run_id: e.run_id.clone(),
                    episode_id: e.episode_id.clone(),
                    session_id: e.session_id.clone(),
                },
            ),
            None => None,
        };
        match entry {
            Some(e) => {
                self.in_flight.insert(taken.job.job_id.clone(), e);
                proof {
                    assert(self.in_flight@.remove(taken.job.job_id@) =~= old(self).in_flight@.remove(taken.job.job_id@));
                }
                PollOutcome::Job(taken.job)
            },
            None => {
                proof {
                    lemma_first_agent_props(old(registry).agents_spec(), agent_id@);
                    lemma_first_agent_after_update(
                        old(registry).agents_spec(),
                        agent_id@,
                        k,
                        crate::agent_pool::agent_reserved_once(old(registry).agents_spec()[k]),
                    );
                }
                registry.decrement_load(agent_id);
                PollOutcome::NoJob
            },
        }
    }
}


/// The status a completion is recorded with: `completed` when the agent
/// sent none.
pub open spec fn completion_status(status: Seq<char>) -> Seq<char> {
    if status.len() == 0 { "completed"@ } else { status }
}

/// The status a completion is recorded with.
pub fn completion_status_of(status: &str) -> (s: &str)
    ensures
        s@ == completion_status(status@),
{
    if status.unicode_len() == 0 {
        "completed"
    } else {
        status
    }
}

/// The answer to a completion report that is refused: ack, code, message.
pub fn complete_refusal(c: &CompleteCheck) -> (r: Option<(bool, &'static str, &'static str)>)
    ensures
        match *c {
            CompleteCheck::UnknownJob => r matches Some(x) && !x.0 && x.1@ == "UNKNOWN_JOB"@ && x.2@ == "unknown job"@,
            CompleteCheck::RunMismatch => r matches Some(x) && !x.0 && x.1@ == "RUN_MISMATCH"@ && x.2@
                == "agent_id or run_id mismatch"@,
            CompleteCheck::AgentMismatch => r matches Some(x) && !x.0 && x.1@ == "AGENT_MISMATCH"@ && x.2@
                == "agent_id or run_id mismatch"@,
            CompleteCheck::Accept(_) => r is None,
        },
{
    match c {
        CompleteCheck::UnknownJob => Some((false, "UNKNOWN_JOB", "unknown job")),
        CompleteCheck::RunMismatch => Some((false, "RUN_MISMATCH", "agent_id or run_id mismatch")),
        CompleteCheck::AgentMismatch => Some((false, "AGENT_MISMATCH", "agent_id or run_id mismatch")),
        CompleteCheck::Accept(_) => None,
    }
}

/// The set of agent ids in a list.
pub open spec fn id_set(ids: Seq<Seq<char>>) -> Set<Seq<char>> {
    ids.to_set()
}

impl AgentJobQueue {
    /// Checks a completion report against the job in flight: the job must
    /// be in flight, the run must be the job's run, and the agent must be
    /// the one the job was handed to.
    pub fn check_completion(&self, job_id: &str, run_id: &str, agent_id: &str) -> (c: CompleteCheck)
        ensures
            !self.in_flight_spec().contains_key(job_id@) ==> c is UnknownJob,
            self.in_flight_spec().contains_key(job_id@) ==> {
                let e = self.in_flight_spec()[job_id@];
                if e.run_id@ != run_id@ {
                    c is RunMismatch
                } else if e.agent_id@.len() == 0 || e.agent_id@ != agent_id@ {
                    c is AgentMismatch
                } else {
                    c matches CompleteCheck::Accept(x) && x == e
                }
            },
    {
        match self.in_flight.get(job_id) {
            None => CompleteCheck::UnknownJob,
            Some(e) => {
                if !str_eq(e.run_id.as_str(), run_id) {
                    CompleteCheck::RunMismatch
                } else if e.agent_id.as_str().unicode_len() == 0 || !str_eq(e.agent_id.as_str(), agent_id) {
                    CompleteCheck::AgentMismatch
                } else {
                    CompleteCheck::Accept(e.clone())
                }
            },
        }
    }

    /// Gives back a job whose lease the store refused after a poll: the
    /// agent's reservation is released, the job is no longer held by an
    /// agent, and it goes back to the front of its pool's queue.
    pub fn unlease(&mut self, registry: &mut AgentRegistry, pool_id: String, job: AgentJob, agent_id: &str)
        ensures
            final(self).pending_spec() == seq![PendingJob { pool_id, job }] + old(self).pending_spec(),
            final(self).in_flight_spec().remove(job.job_id@) == old(self).in_flight_spec().remove(job.job_id@),
            final(self).in_flight_spec().contains_key(job.job_id@) == old(self).in_flight_spec().contains_key(job.job_id@),
            old(self).in_flight_spec().contains_key(job.job_id@) ==> {
                let e = old(self).in_flight_spec()[job.job_id@];
                let f = final(self).in_flight_spec()[job.job_id@];
                f.agent_id@.len() == 0 && f.run_id == e.run_id && f.episode_id == e.episode_id && f.session_id == e.session_id
            },
            final(registry).agents_spec() == (match first_agent(old(registry).agents_spec(), agent_id@) {
                Some(k) => old(registry).agents_spec().update(
                    k,
                    crate::agent_pool::agent_released_once(old(registry).agents_spec()[k]),
                ),
                None => old(registry).agents_spec(),
            }),
            final(registry).timeout_spec() == old(registry).timeout_spec(),
    {
        registry.decrement_load(agent_id);
        let held = match self.in_flight.get(job.job_id.as_str()) {
            Some(e) => Some(InFlightJob {
                agent_id: String::new(),
                run_id: e.run_id.clone(),
                episode_id: e.episode_id.clone(),
                session_id: e.session_id.clone(),
            }),
            None => None,
        };
        let ghost before = self.in_flight@;
        if let Some(e) = held {
            self.in_flight.insert(job.job_id.clone(), e);
            proof {
                assert(self.in_flight@.remove(job.job_id@) =~= before.remove(job.job_id@));
            }
        }
        self.pending.insert(0, PendingJob { pool_id, job });
    }

    /// Takes a completed job out of the in-flight table; its agent gets its
    /// reservation back.
    pub fn finish(&mut self, registry: &mut AgentRegistry, job_id: &str) -> (r: Option<InFlightJob>)
        ensures
            final(self).in_flight_spec() == old(self).in_flight_spec().remove(job_id@),
            final(self).pending_spec() == old(self).pending_spec(),
            match r {
                Some(e) => old(self).in_flight_spec().contains_key(job_id@) && e == old(self).in_flight_spec()[job_id@]
                    && final(registry).agents_spec() == (match first_agent(old(registry).agents_spec(), e.agent_id@) {
                    Some(k) => old(registry).agents_spec().update(
                        k,
                        crate::agent_pool::agent_released_once(old(registry).agents_spec()[k]),
                    ),
                    None => old(registry).agents_spec(),
                }),
                None => !old(self).in_flight_spec().contains_key(job_id@) && final(registry).agents_spec()
                    == old(registry).agents_spec(),
            },
            final(registry).timeout_spec() == old(registry).timeout_spec(),
    {
        match self.in_flight.remove(job_id) {
            Some(e) => {
                registry.decrement_load(e.agent_id.as_str());
                Some(e)
            },
            None => None,
        }
    }

    /// Fails the jobs in flight on agents that went stale at `now`: each
    /// leaves the in-flight table, its agent gets its reservation back, and
    /// a failure report and its result are made for the waiter.
    pub fn reap_stale_agent_jobs(&mut self, registry: &mut AgentRegistry, now: u64) -> (reaped: Vec<ReapedJob>)
        ensures
            final(self).pending_spec() == old(self).pending_spec(),
            forall|id: Seq<char>| #[trigger] final(self).in_flight_spec().contains_key(id) <==> (
                old(self).in_flight_spec().contains_key(id) && !id_set(
                    stale_ids(old(registry).agents_spec(), old(registry).timeout_spec(), now),
                ).contains(old(self).in_flight_spec()[id].agent_id@)),
            forall|id: Seq<char>| #[trigger] final(self).in_flight_spec().contains_key(id) ==> final(self).in_flight_spec()[id]
                == old(self).in_flight_spec()[id],
            forall|i: int|
                0 <= i < reaped@.len() ==> {
                    let r = #[trigger] reaped@[i];
                    let e = old(self).in_flight_spec()[r.job_id@];
                    &&& old(self).in_flight_spec().contains_key(r.job_id@)
                    &&& !final(self).in_flight_spec().contains_key(r.job_id@)
                    &&& r.complete.job_id@ == r.job_id@
                    &&& r.complete.run_id@ == e.run_id@
                    &&& r.complete.agent_id@ == e.agent_id@
                    &&& r.complete.status@ == "failed"@
                    &&& r.complete.error_message@ == "agent "@ + e.agent_id@ + " stale/disconnected: heartbeat timeout"@
                    &&& r.complete.metadata@ == Map::<Seq<char>, Seq<char>>::empty().insert(
                        "failure_source"@,
                        "agent_stale_reaper"@,
                    )
                    &&& r.result.episode_id@ == e.episode_id@
                    &&& r.result.attempt_id == 0
                    &&& r.result.status@ == "failed"@
                    &&& r.result.gateway_session_id@ == e.session_id@
                },
            final(registry).timeout_spec() == old(registry).timeout_spec(),
    {
        let stale = registry.stale_agent_ids(now);
        let ghost stale_set = id_set(stale_ids(old(registry).agents_spec(), old(registry).timeout_spec(), now));
        proof {
            assert(stale@.map_values(|s: String| s@).to_set() == stale_set);
        }
        // The jobs in flight on a stale agent.
        let n = self.in_flight.len();
        let ghost rows = self.in_flight.rows();
        let ghost m0 = self.in_flight@;
        assert forall|a: int| 0 <= a < rows.len() implies #[trigger] m0.contains_key(rows[a].0) && m0[rows[a].0] == rows[a].1 by {
            assert(self.in_flight@.contains_key(self.in_flight.rows()[a].0));
        }
        let mut victims: Vec<String> = Vec::new();
        let mut i: usize = 0;
        while i < n
            invariant
                n == rows.len(),
                rows == self.in_flight.rows(),
                m0 == self.in_flight@,
                i <= n,
                stale@.map_values(|s: String| s@).to_set() == stale_set,
                forall|a: int| 0 <= a < rows.len() ==> #[trigger] m0.contains_key(rows[a].0) && m0[rows[a].0] == rows[a].1,
                forall|k: Seq<char>| #[trigger] m0.contains_key(k) <==> crate::keyed_table::holds_key(rows, k),
                crate::keyed_table::keys_distinct(rows),
                forall|a: int| 0 <= a < victims@.len() ==> #[trigger] m0.contains_key(victims@[a]@)
                    && stale_set.contains(m0[victims@[a]@].agent_id@),
                forall|a: int| 0 <= a < i && stale_set.contains(#[trigger] rows[a].1.agent_id@) ==> exists|b: int|
                    0 <= b < victims@.len() && victims@[b]@ == rows[a].0,
            decreases n - i,
        {
            let (k, e) = self.in_flight.entry_at(i);
            let hit = lists_name(&stale, e.agent_id.as_str());
            proof {
                let sv = stale@.map_values(|s: String| s@);
                if hit {
                    let y = choose|y: int| 0 <= y < stale@.len() && #[trigger] stale@[y]@ == e.agent_id@;
                    assert(sv[y] == e.agent_id@);
                    assert(sv.to_set().contains(e.agent_id@));
                } else {
                    if sv.to_set().contains(e.agent_id@) {
                        let y = choose|y: int| 0 <= y < sv.len() && sv[y] == e.agent_id@;
                        assert(stale@[y]@ == e.agent_id@);
                    }
                }
                assert(m0.contains_key(rows[i as int].0));
            }
            if hit {
                let ghost before = victims@;
                victims.push(k.clone());
                proof {
                    assert forall|a: int| 0 <= a < i + 1 && stale_set.contains(#[trigger] rows[a].1.agent_id@) implies exists|b: int|
                        0 <= b < victims@.len() && victims@[b]@ == rows[a].0 by {
                        if a < i {
                            let b = choose|b: int| 0 <= b < before.len() && before[b]@ == rows[a].0;
                            assert(victims@[b] == before[b]);
                        } else {
                            assert(victims@[before.len() as int]@ == rows[a].0);
                        }
                    }
                }
            }
            i = i + 1;
        }
        // Remove them one by one.
        let mut reaped: Vec<ReapedJob> = Vec::new();
        let mut j: usize = 0;
        while j < victims.len()
            invariant
                j <= victims@.len(),
                self.pending@ == old(self).pending@,
                m0 == old(self).in_flight@,
                registry.timeout_spec() == old(registry).timeout_spec(),
                forall|a: int| 0 <= a < victims@.len() ==> #[trigger] m0.contains_key(victims@[a]@)
                    && stale_set.contains(m0[victims@[a]@].agent_id@),
                forall|id: Seq<char>| #[trigger] self.in_flight@.contains_key(id) ==> m0.contains_key(id) && self.in_flight@[id] == m0[id],
                forall|id: Seq<char>| m0.contains_key(id) && !#[trigger] self.in_flight@.contains_key(id) ==> exists|b: int|
                    0 <= b < j && victims@[b]@ == id,
                forall|b: int| 0 <= b < j ==> !self.in_flight@.contains_key(#[trigger] victims@[b]@),
                forall|id: Seq<char>| m0.contains_key(id) && !stale_set.contains(m0[id].agent_id@) ==> #[trigger] self.in_flight@.contains_key(id),
                forall|a: int|
                    0 <= a < reaped@.len() ==> {
                        let r = #[trigger] reaped@[a];
                        let e = m0[r.job_id@];
                        &&& m0.contains_key(r.job_id@)
                        &&& (exists|b: int| 0 <= b < j && victims@[b]@ == r.job_id@)
                        &&& r.complete.job_id@ == r.job_id@
                        &&& r.complete.run_id@ == e.run_id@
                        &&& r.complete.agent_id@ == e.agent_id@
                        &&& r.complete.status@ == "failed"@
                        &&& r.complete.error_message@ == "agent "@ + e.agent_id@ + " stale/disconnected: heartbeat timeout"@
                        &&& r.complete.metadata@ == Map::<Seq<char>, Seq<char>>::empty().insert(
                            "failure_source"@,
                            "agent_stale_reaper"@,
                        )
                        &&& r.result.episode_id@ == e.episode_id@
                        &&& r.result.attempt_id == 0
                        &&& r.result.status@ == "failed"@
                        &&& r.result.gateway_session_id@ == e.session_id@
                    },
            decreases victims@.len() - j,
        {
            let job_id = victims[j].clone();
            let ghost m_before = self.in_flight@;
            match self.in_flight.remove(job_id.as_str()) {
                Some(e) => {
                    registry.decrement_load(e.agent_id.as_str());
                    let mut complete = AgentJobCompleteRequest::default();
                    complete.job_id = job_id.clone();
                    complete.run_id = e.run_id.clone();
                    complete.status = "failed".to_string();
                    complete.error_message = crate::config::concat3("agent ", e.agent_id.as_str(), " stale/disconnected: heartbeat timeout");
                    complete.agent_id = e.agent_id.clone();
                    let mut md = StringMap::new();
                    md.insert("failure_source".to_string(), "agent_stale_reaper".to_string());
                    complete.metadata = md;
                    let result = agent_complete_to_episode_result(&complete, e.episode_id.as_str(), 0, e.session_id.as_str(), "failed");
                    proof {
                        assert(md@ =~= Map::<Seq<char>, Seq<char>>::empty().insert("failure_source"@, "agent_stale_reaper"@));
                    }
                    reaped.push(ReapedJob { job_id, complete, result });
                },
                None => {},
            }
            proof {
                assert forall|id: Seq<char>| m0.contains_key(id) && !#[trigger] self.in_flight@.contains_key(id) implies exists|b: int|
                    0 <= b < j + 1 && victims@[b]@ == id by {
                    if id == victims@[j as int]@ {
                    } else {
                        assert(!m_before.contains_key(id));
                    }
                }
                assert forall|id: Seq<char>| m0.contains_key(id) && !stale_set.contains(m0[id].agent_id@) implies #[trigger] self.in_flight@.contains_key(id) by {
                    assert(m_before.contains_key(id));
                    assert(id != victims@[j as int]@);
                }
            }
            j = j + 1;
        }
        proof {
            assert forall|id: Seq<char>| #[trigger] self.in_flight@.contains_key(id) <==> (m0.contains_key(id) && !stale_set.contains(m0[id].agent_id@)) by {
                if self.in_flight@.contains_key(id) {
                    if stale_set.contains(m0[id].agent_id@) {
                        let a = choose|a: int| 0 <= a < rows.len() && rows[a].0 == id;
                        assert(m0[rows[a].0] == rows[a].1);
                        let b = choose|b: int| 0 <= b < victims@.len() && victims@[b]@ == rows[a].0;
                        assert(!self.in_flight@.contains_key(victims@[b]@));
                    }
                }
            }
        }
        reaped
    }
}

/// The first agent with an id has the id, and no agent before it does.
proof fn lemma_first_agent_props(ag: Seq<crate::agent_pool::AgentInfo>, id: Seq<char>)
    requires
        first_agent(ag, id) is Some,
    ensures
        0 <= first_agent(ag, id)->0 < ag.len(),
        ag[first_agent(ag, id)->0].agent_id@ == id,
        forall|j: int| 0 <= j < first_agent(ag, id)->0 ==> #[trigger] ag[j].agent_id@ != id,
{
    let w = choose|i: int| 0 <= i < ag.len() && #[trigger] ag[i].agent_id@ == id;
    lemma_minimal_agent_exists(ag, id, w);
}

proof fn lemma_minimal_agent_exists(ag: Seq<crate::agent_pool::AgentInfo>, id: Seq<char>, w: int)
    requires
        0 <= w < ag.len(),
        ag[w].agent_id@ == id,
    ensures
        exists|i: int| 0 <= i < ag.len() && ag[i].agent_id@ == id && forall|j: int| 0 <= j < i ==> #[trigger] ag[j].agent_id@ != id,
    decreases w,
{
    if exists|j: int| 0 <= j < w && #[trigger] ag[j].agent_id@ == id {
        let j = choose|j: int| 0 <= j < w && #[trigger] ag[j].agent_id@ == id;
        lemma_minimal_agent_exists(ag, id, j);
    } else {
        assert(forall|j: int| 0 <= j < w ==> #[trigger] ag[j].agent_id@ != id);
    }
}

/// Replacing the first agent with an id by an agent with the same id keeps
/// it the first.
proof fn lemma_first_agent_after_update(ag: Seq<crate::agent_pool::AgentInfo>, id: Seq<char>, k: int, a2: crate::agent_pool::AgentInfo)
    requires
        first_agent(ag, id) == Some(k),
        a2.agent_id@ == id,
    ensures
        first_agent(ag.update(k, a2), id) == Some(k),
{
    lemma_first_agent_props(ag, id);
    let ag2 = ag.update(k, a2);
    assert(ag2[k].agent_id@ == id);
    lemma_first_agent_props(ag2, id);
    let c = first_agent(ag2, id)->0;
    if c < k {
        assert(ag2[c] == ag[c]);
    }
    if c > k {
        assert(ag2[k].agent_id@ != id);
    }
}

} // verus!
