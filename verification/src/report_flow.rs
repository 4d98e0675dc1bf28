//! The order in which a worker's result report is judged, as a machine that
//! the service drives: each step takes what the last lookup found and says
//! what to look up next, or how to answer. The checks themselves are those
//! of `report_gate`.
use crate::persistence::{DispatchRecord, IdempotencyDecision, TerminalOutcome};
use crate::report_gate::{
    absent_pending_reply, accepted_reply, check_lease_owner, check_recovered_identity, check_report_shape,
    commit_failed_reply, idempotency_reply, needs_dispatch_recovery, recovered_dispatch_matches, reply_is,
    stale_epoch_reply, ReportReply,
};
use crate::state::{IdempotencyRecord, TimedOutcome};
use vstd::prelude::*;

verus! {

broadcast use vstd::string::group_string_axioms;

/// What a report says about itself.
#[derive(Debug)]
pub struct ReportInput {
    pub worker_id: String,
    pub server_epoch: u64,
    pub idempotency_key: String,
    /// Episode id and attempt of the reported result, when a result came.
    pub result_identity: Option<(String, u32)>,
    pub dispatch_lease_id: String,
    pub dispatch_token: Vec<u8>,
}

/// Where the judgement of a report stands.
#[derive(Debug, Clone, Copy, PartialEq, Eq, Structural)]
pub enum ReportStage {
    /// Waiting for the stored dispatch of the report's lease.
    AwaitDispatch,
    /// Waiting for the store's view of the idempotency key.
    AwaitIdempotency,
    /// Waiting for the owner and token of the attempt waiting on the lease.
    AwaitPending,
    /// Waiting to learn whether the waiting attempt was taken.
    AwaitTake,
    /// Waiting for the stored terminal outcome of the lease.
    AwaitTerminal,
    /// Waiting for the remembered outcome of the lease and the cancel state.
    AwaitOutcome,
    /// Waiting for the store to commit the result.
    AwaitCommit,
    /// Answered.
    Done,
}

/// What a lookup found.
#[derive(Debug)]
pub enum ReportEvent {
    DispatchFound(Option<DispatchRecord>),
    Idempotency(IdempotencyDecision),
    /// Owner and token of the attempt waiting on the lease, if one waits.
    Pending(Option<(String, Vec<u8>)>),
    /// Whether the waiting attempt was taken (its owner and token matched).
    Taken(bool),
    Terminal(Option<TerminalOutcome>),
    Outcome { remembered: Option<TimedOutcome>, cancelled: bool },
    Committed,
    /// The store failed.
    StoreFailed,
}

/// What the service does next.
#[derive(Debug)]
pub enum ReportAction {
    /// Read the stored dispatch of the lease.
    LoadDispatch,
    /// Ask the store whether the idempotency key was used.
    CheckIdempotency,
    /// Look at the attempt waiting on (episode, attempt, lease).
    InspectPending,
    /// Take the waiting attempt if the reporting worker and token own it.
    TakePending,
    /// Read the stored terminal outcome of the lease.
    LoadTerminal,
    /// Read the remembered outcome of the lease and whether the episode was cancelled.
    LookupOutcome,
    /// Finalise the result and commit it to the store.
    Commit,
    /// Answer; `remember` keeps the answer under the idempotency key.
    Answer { reply: ReportReply, remember: bool },
    /// Put the taken attempt back and answer.
    Restore { reply: ReportReply },
    /// Hand the result to the waiting attempt, remember it as accepted, and answer.
    Accept { reply: ReportReply },
    /// The store is unavailable.
    Unavailable,
}

/// A report being judged.
pub struct ReportFlow {
    pub stage: ReportStage,
    /// Is there a durable store?
    pub durable: bool,
    /// The owner and token of the waiting attempt, once the report was
    /// found to hold them.
    pub owner: Ghost<Option<(Seq<char>, Seq<u8>)>>,
}

impl ReportFlow {
    /// A report is taken or committed only once its worker and token were
    /// found to own the waiting attempt.
    pub open spec fn wf(&self, input: ReportInput) -> bool {
        (self.stage == ReportStage::AwaitTake || self.stage == ReportStage::AwaitCommit) ==> self.owner@ == Some(
            (input.worker_id@, input.dispatch_token@),
        )
    }
}

/// Is the action an answer with these values?
pub open spec fn answers(a: ReportAction, ack: bool, duplicate: bool, code: Seq<char>, message: Seq<char>, remember: bool) -> bool {
    a matches ReportAction::Answer { reply, remember: r } && reply_is(reply, ack, duplicate, code, message) && r == remember
}

/// The answer that the checks on the report itself give, if any: an empty
/// idempotency key; without a durable store, an answer remembered under the
/// key; no result; no lease or token.
pub open spec fn shape_answer(input: ReportInput, durable: bool, remembered: Option<IdempotencyRecord>) -> Option<(bool, bool, Seq<char>, Seq<char>)> {
    if input.idempotency_key@.len() == 0 {
        Some((false, false, "INVALID_REQUEST"@, "empty idempotency_key"@))
    } else if !durable && remembered is Some {
        let r = remembered.unwrap();
        Some((r.ack, true, if r.ack { "DUPLICATE_ACCEPTED"@ } else { "DUPLICATE_REJECTED"@ }, r.message@))
    } else if input.result_identity is None {
        Some((false, false, "INVALID_REQUEST"@, "missing result"@))
    } else if input.dispatch_lease_id@.len() == 0 || input.dispatch_token@.len() == 0 {
        Some((false, false, "INVALID_REQUEST"@, "missing dispatch lease or token"@))
    } else {
        None
    }
}

/// Does a recovered dispatch disagree with the reported episode attempt?
pub open spec fn identity_mismatch(input: ReportInput, recovered: Option<DispatchRecord>) -> bool {
    recovered matches Some(d) && (input.result_identity matches Some(id) && (d.episode_id@ != id.0@ || d.attempt_id != id.1))
}

/// Does the stored dispatch belong to the reporting worker, token and epoch?
pub open spec fn dispatch_owned(input: ReportInput, d: DispatchRecord) -> bool {
    d.worker_id@ == input.worker_id@ && d.dispatch_token@ == input.dispatch_token@ && d.server_epoch == input.server_epoch
}

/// Once the report's dispatch is settled (`recovered`), the judgement goes
/// on: the shape checks answer, then a recovered dispatch of another
/// attempt is refused; otherwise the store is asked about the key, or,
/// without a store, the waiting attempt is inspected.
pub open spec fn goes_on(
    input: ReportInput,
    durable: bool,
    remembered: Option<IdempotencyRecord>,
    recovered: Option<DispatchRecord>,
    stage: ReportStage,
    a: ReportAction,
) -> bool {
    match shape_answer(input, durable, remembered) {
        Some(x) => stage == ReportStage::Done && answers(a, x.0, x.1, x.2, x.3, false),
        None => if identity_mismatch(input, recovered) {
            stage == ReportStage::Done && answers(
                a,
                false,
                false,
                "DISPATCH_MISMATCH"@,
                "recovered dispatch does not match result identity"@,
                false,
            )
        } else if durable {
            stage == ReportStage::AwaitIdempotency && a is CheckIdempotency
        } else {
            stage == ReportStage::AwaitPending && a is InspectPending
        },
    }
}

/// No attempt waits on the lease: the store is asked for a terminal outcome,
/// or, without a store, the remembered outcome is looked up.
pub open spec fn goes_absent(durable: bool, stage: ReportStage, a: ReportAction) -> bool {
    if durable {
        stage == ReportStage::AwaitTerminal && a is LoadTerminal
    } else {
        stage == ReportStage::AwaitOutcome && a is LookupOutcome
    }
}

/// Does event `ev` answer what stage `s` waits for?
pub open spec fn expects(s: ReportStage, ev: ReportEvent) -> bool {
    match s {
        ReportStage::AwaitDispatch => ev is DispatchFound || ev is StoreFailed,
        ReportStage::AwaitIdempotency => ev is Idempotency || ev is StoreFailed,
        ReportStage::AwaitPending => ev is Pending,
        ReportStage::AwaitTake => ev is Taken,
        ReportStage::AwaitTerminal => ev is Terminal || ev is StoreFailed,
        ReportStage::AwaitOutcome => ev is Outcome,
        ReportStage::AwaitCommit => ev is Committed || ev is StoreFailed,
        ReportStage::Done => false,
    }
}

fn answer(r: ReportReply, remember: bool) -> (a: ReportAction)
    ensures
        a == (ReportAction::Answer { reply: r, remember }),
{
    ReportAction::Answer { reply: r, remember }
}

/// The judgement once the dispatch is settled (see `goes_on`).
fn go_on(
    input: &ReportInput,
    durable: bool,
    remembered: Option<&IdempotencyRecord>,
    recovered: Option<&DispatchRecord>,
) -> (r: (ReportStage, ReportAction))
    ensures
        goes_on(
            *input,
            durable,
            match remembered { Some(x) => Some(*x), None => None },
            match recovered { Some(x) => Some(*x), None => None },
            r.0,
            r.1,
        ),
{
    let shape = check_report_shape(
        input.idempotency_key.as_str(),
        durable,
        remembered,
        input.result_identity.is_some(),
        input.dispatch_lease_id.as_str(),
        &input.dispatch_token,
    );
    if let Some(reply) = shape {
        return (ReportStage::Done, answer(reply, false));
    }
    let (episode_id, attempt_id) = match &input.result_identity {
        Some(id) => (id.0.as_str(), id.1),
        None => ("", 0),
    };
    if let Some(reply) = check_recovered_identity(recovered, episode_id, attempt_id) {
        return (ReportStage::Done, answer(reply, false));
    }
    if durable {
        (ReportStage::AwaitIdempotency, ReportAction::CheckIdempotency)
    } else {
        (ReportStage::AwaitPending, ReportAction::InspectPending)
    }
}

impl ReportFlow {
    /// Starts judging a report at server epoch `current_epoch`. A report
    /// from another epoch needs its stored dispatch (without a store it is
    /// refused as stale); else the judgement goes on (see `goes_on`), with
    /// `remembered` the answer kept in memory under the report's key.
    pub fn start(input: &ReportInput, current_epoch: u64, durable: bool, remembered: Option<&IdempotencyRecord>) -> (r: (
        ReportFlow,
        ReportAction,
    ))
        ensures
            r.0.durable == durable,
            r.0.owner@ is None,
            r.0.wf(*input),
            input.server_epoch != 0 && input.server_epoch != current_epoch ==> if durable {
                r.0.stage == ReportStage::AwaitDispatch && r.1 is LoadDispatch
            } else {
                r.0.stage == ReportStage::Done && answers(r.1, false, false, "STALE_EPOCH"@, "server epoch mismatch"@, false)
            },
            !(input.server_epoch != 0 && input.server_epoch != current_epoch) ==> goes_on(
                *input,
                durable,
                match remembered { Some(x) => Some(*x), None => None },
                None,
                r.0.stage,
                r.1,
            ),
    {
        if needs_dispatch_recovery(input.server_epoch, current_epoch) {
            if durable {
                (ReportFlow { stage: ReportStage::AwaitDispatch, durable, owner: Ghost(None) }, ReportAction::LoadDispatch)
            } else {
                (ReportFlow { stage: ReportStage::Done, durable, owner: Ghost(None) }, answer(stale_epoch_reply(), false))
            }
        } else {
            let (stage, action) = go_on(input, durable, remembered, None);
            (ReportFlow { stage, durable, owner: Ghost(None) }, action)
        }
    }

    /// One step: the event answers what the stage waits for.
    ///
    /// - A stored dispatch owned by the reporter (see `dispatch_owned`) lets
    ///   the judgement go on with it; otherwise the report is stale.
    /// - The store's idempotency decision answers a replay or a conflict;
    ///   a new key goes on to the waiting attempt.
    /// - A waiting attempt of another worker or token is refused (and the
    ///   answer remembered); one that the reporter owns is taken. No
    ///   waiting attempt, or none taken, leads to the absent answers.
    /// - A taken attempt is committed (with a store) or accepted; a commit
    ///   that fails puts the attempt back.
    /// - A stored terminal outcome, or else the remembered outcome and the
    ///   cancel state, give the absent answer, remembered.
    /// - A store failure anywhere else makes the store unavailable.
    ///
    /// Nothing is accepted for a report whose worker and token do not own the
    /// waiting attempt: `owner` records them only when they do, and an
    /// `Accept` comes only with `owner` naming the report's worker and token.
    pub fn step(&mut self, input: &ReportInput, ev: ReportEvent) -> (a: ReportAction)
        requires
            expects(old(self).stage, ev),
            old(self).wf(*input),
        ensures
            final(self).durable == old(self).durable,
            final(self).wf(*input),
            (a is Accept) ==> final(self).owner@ == Some((input.worker_id@, input.dispatch_token@)),
            match (old(self).stage, ev) {
                (ReportStage::AwaitPending, ReportEvent::Pending(Some(o))) => final(self).owner@ == old(self).owner@
                    || final(self).owner@ == Some((o.0@, o.1@)),
                _ => final(self).owner@ == old(self).owner@,
            },
            match (old(self).stage, ev) {
                (ReportStage::AwaitDispatch, ReportEvent::DispatchFound(Some(d))) => if dispatch_owned(*input, d) {
                    goes_on(*input, old(self).durable, None, Some(d), final(self).stage, a)
                } else {
                    final(self).stage == ReportStage::Done && answers(a, false, false, "STALE_EPOCH"@, "server epoch mismatch"@, false)
                },
                (ReportStage::AwaitDispatch, ReportEvent::DispatchFound(None)) => final(self).stage == ReportStage::Done
                    && answers(a, false, false, "STALE_EPOCH"@, "server epoch mismatch"@, false),
                (ReportStage::AwaitIdempotency, ReportEvent::Idempotency(IdempotencyDecision::Missing)) => final(self).stage
                    == ReportStage::AwaitPending && a is InspectPending,
                (ReportStage::AwaitIdempotency, ReportEvent::Idempotency(IdempotencyDecision::Replay(rec))) => final(self).stage
                    == ReportStage::Done && answers(a, rec.ack, true, "DUPLICATE_ACCEPTED"@, rec.message@, false),
                (ReportStage::AwaitIdempotency, ReportEvent::Idempotency(IdempotencyDecision::Conflict(_))) => final(self).stage
                    == ReportStage::Done && answers(
                    a,
                    false,
                    true,
                    "IDEMPOTENCY_CONFLICT"@,
                    "idempotency key reused with different report"@,
                    false,
                ),
                (ReportStage::AwaitPending, ReportEvent::Pending(Some(owner))) => if owner.0@ != input.worker_id@ {
                    final(self).stage == ReportStage::Done && answers(
                        a,
                        false,
                        false,
                        "WORKER_MISMATCH"@,
                        "worker_id does not own this dispatch lease"@,
                        true,
                    )
                } else if owner.1@ != input.dispatch_token@ {
                    final(self).stage == ReportStage::Done && answers(a, false, false, "TOKEN_MISMATCH"@, "dispatch token mismatch"@, true)
                } else {
                    final(self).stage == ReportStage::AwaitTake && a is TakePending
                },
                (ReportStage::AwaitPending, ReportEvent::Pending(None)) => goes_absent(old(self).durable, final(self).stage, a),
                (ReportStage::AwaitTake, ReportEvent::Taken(taken)) => if !taken {
                    goes_absent(old(self).durable, final(self).stage, a)
                } else if old(self).durable {
                    final(self).stage == ReportStage::AwaitCommit && a is Commit
                } else {
                    final(self).stage == ReportStage::Done && (a matches ReportAction::Accept { reply } && reply_is(
                        reply,
                        true,
                        false,
                        "ACCEPTED"@,
                        "accepted"@,
                    ))
                },
                (ReportStage::AwaitTerminal, ReportEvent::Terminal(Some(t))) => final(self).stage == ReportStage::Done
                    && answers(a, false, true, if t.code@ == "ACCEPTED"@ { "ALREADY_COMPLETED"@ } else { t.code@ }, t.message@, true),
                (ReportStage::AwaitTerminal, ReportEvent::Terminal(None)) => final(self).stage == ReportStage::AwaitOutcome
                    && a is LookupOutcome,
                (ReportStage::AwaitOutcome, ReportEvent::Outcome { remembered, cancelled }) => final(self).stage
                    == ReportStage::Done && match remembered {
                    Some(o) => if o.code@ == "ACCEPTED"@ {
                        answers(a, false, false, "ALREADY_COMPLETED"@, "result already accepted for this lease"@, true)
                    } else {
                        answers(a, false, false, o.code@, o.message@, true)
                    },
                    None => if cancelled {
                        answers(a, false, false, "LATE_AFTER_CANCEL"@, "episode was cancelled"@, true)
                    } else {
                        answers(a, false, false, "UNKNOWN_PENDING"@, "pending result not found"@, true)
                    },
                },
                (ReportStage::AwaitCommit, ReportEvent::Committed) => final(self).stage == ReportStage::Done && (a matches ReportAction::Accept {
                    reply,
                } && reply_is(reply, true, false, "ACCEPTED"@, "accepted"@)),
                (ReportStage::AwaitCommit, ReportEvent::StoreFailed) => final(self).stage == ReportStage::Done && (a matches ReportAction::Restore {
                    reply,
                } && reply_is(
                    reply,
                    false,
                    false,
                    "PERSISTENCE_FAILED"@,
                    "result was not committed; retry with the same idempotency key"@,
                )),
                (_, ReportEvent::StoreFailed) => final(self).stage == ReportStage::Done && a is Unavailable,
                _ => false,
            },
    {
        let durable = self.durable;
        match ev {
            ReportEvent::DispatchFound(found) => {
                match found {
                    Some(d) => {
                        if recovered_dispatch_matches(&d, input.worker_id.as_str(), &input.dispatch_token, input.server_epoch) {
                            let (stage, action) = go_on(input, durable, None, Some(&d));
                            self.stage = stage;
                            action
                        } else {
                            self.stage = ReportStage::Done;
                            answer(stale_epoch_reply(), false)
                        }
                    },
                    None => {
                        self.stage = ReportStage::Done;
                        answer(stale_epoch_reply(), false)
                    },
                }
            },
            ReportEvent::Idempotency(decision) => {
                match idempotency_reply(&decision) {
                    Some(reply) => {
                        self.stage = ReportStage::Done;
                        answer(reply, false)
                    },
                    None => {
                        self.stage = ReportStage::AwaitPending;
                        ReportAction::InspectPending
                    },
                }
            },
            ReportEvent::Pending(owner) => {
                match owner {
                    Some(o) => {
                        match check_lease_owner(o.0.as_str(), &o.1, input.worker_id.as_str(), &input.dispatch_token) {
                            Some(reply) => {
                                self.stage = ReportStage::Done;
                                answer(reply, true)
                            },
                            None => {
                                self.stage = ReportStage::AwaitTake;
                                self.owner = Ghost(Some((o.0@, o.1@)));
                                ReportAction::TakePending
                            },
                        }
                    },
                    None => self.absent(),
                }
            },
            ReportEvent::Taken(taken) => {
                if !taken {
                    self.absent()
                } else if durable {
                    self.stage = ReportStage::AwaitCommit;
                    ReportAction::Commit
                } else {
                    self.stage = ReportStage::Done;
                    ReportAction::Accept { reply: accepted_reply() }
                }
            },
            ReportEvent::Terminal(found) => {
                match found {
                    Some(t) => {
                        self.stage = ReportStage::Done;
                        answer(absent_pending_reply(Some(&t), None, false), true)
                    },
                    None => {
                        self.stage = ReportStage::AwaitOutcome;
                        ReportAction::LookupOutcome
                    },
                }
            },
            ReportEvent::Outcome { remembered, cancelled } => {
                self.stage = ReportStage::Done;
                answer(absent_pending_reply(None, remembered.as_ref(), cancelled), true)
            },
            ReportEvent::Committed => {
                self.stage = ReportStage::Done;
                ReportAction::Accept { reply: accepted_reply() }
            },
            ReportEvent::StoreFailed => {
                if self.stage == ReportStage::AwaitCommit {
                    self.stage = ReportStage::Done;
                    ReportAction::Restore { reply: commit_failed_reply() }
                } else {
                    self.stage = ReportStage::Done;
                    ReportAction::Unavailable
                }
            },
        }
    }

    fn absent(&mut self) -> (a: ReportAction)
        ensures
            final(self).durable == old(self).durable,
            final(self).owner == old(self).owner,
            goes_absent(old(self).durable, final(self).stage, a),
    {
        if self.durable {
            self.stage = ReportStage::AwaitTerminal;
            ReportAction::LoadTerminal
        } else {
            self.stage = ReportStage::AwaitOutcome;
            ReportAction::LookupOutcome
        }
    }
}

} // verus!
