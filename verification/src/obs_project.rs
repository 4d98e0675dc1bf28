//! The observability events this server emits about episodes and workers:
//! the run and batch each episode is filed under, and the fields of every
//! event it produces.
use crate::config::concat3;
use crate::execution_backend::{json_str_field, opt_view, payload_str_field};
use crate::ids::new_uuid_string;
use crate::messages::{EpisodeRequest, EpisodeResult};
use crate::obs::{next_server_seq, orphan_run_id, resolve_training_run_id, resolved_run_id, server_source_id, ServerSeq};
use crate::obs_merge::{prefixed, signed_decimal, signed_text, ObservabilityEvent};
use crate::text::{decimal, decimal_spec, eq_lowercased, lowered_eq};
use vstd::prelude::*;

verus! {

broadcast use vstd::string::group_string_axioms;

/// What the JSON text `payload` holds at the JSON pointer `pointer`: nothing,
/// a value that is no string (`Some(None)`), or a string.
pub uninterp spec fn payload_pointer(payload: Seq<u8>, pointer: Seq<char>) -> Option<Option<Seq<char>>>;

/// The JSON text of an object whose members are the given strings.
pub uninterp spec fn string_object_json(entries: Seq<(Seq<char>, Seq<char>)>) -> Seq<u8>;

/// An optional optional string by its characters.
pub open spec fn opt_opt_view(o: Option<Option<String>>) -> Option<Option<Seq<char>>> {
    match o {
        Some(Some(s)) => Some(Some(s@)),
        Some(None) => Some(None),
        None => None,
    }
}

/// Parses the payload with `serde_json::from_slice` into a `Value`, looks up
/// `Value::pointer` and reads the value found with `as_str`. The result is
/// named, not stated.
#[verifier::external_body]
fn json_pointer(payload: &Vec<u8>, pointer: &str) -> (r: Option<Option<String>>)
    ensures
        opt_opt_view(r) == payload_pointer(payload@, pointer@),
{
    let v: serde_json::Value = serde_json::from_slice(payload.as_slice()).ok()?;
    v.pointer(pointer).map(|x| x.as_str().map(|s| s.to_string()))
}

/// The entries by their characters.
pub open spec fn entry_views(entries: Seq<(String, String)>) -> Seq<(Seq<char>, Seq<char>)> {
    entries.map_values(|e: (String, String)| (e.0@, e.1@))
}

/// Builds a `serde_json::Map` with each entry as a `Value::String` member and
/// writes it with `serde_json::to_vec`. The result is named, not stated.
#[verifier::external_body]
pub(crate) fn json_string_object(entries: &Vec<(String, String)>) -> (b: Vec<u8>)
    ensures
        b@ == string_object_json(entry_views(entries@)),
{
    let mut m = serde_json::Map::new();
    for (k, v) in entries {
        m.insert(k.clone(), serde_json::Value::String(v.clone()));
    }
    serde_json::to_vec(&serde_json::Value::Object(m)).unwrap_or_default()
}

/// The run id a request's metadata names: `training_run_id`, else `run_id`,
/// else `stress_run_id`, whichever key is present first.
pub open spec fn meta_run_value(m: Map<Seq<char>, Seq<char>>) -> Option<Seq<char>> {
    if m.contains_key("training_run_id"@) {
        Some(m["training_run_id"@])
    } else if m.contains_key("run_id"@) {
        Some(m["run_id"@])
    } else if m.contains_key("stress_run_id"@) {
        Some(m["stress_run_id"@])
    } else {
        None
    }
}

/// The run id a request's payload names: the first of
/// `/metadata/training_run_id`, `/metadata/run_id`, `/metadata/stress_run_id`,
/// `/sample_context/training_run_id`, `/sample_context/stress_run_id` that is
/// present, when it is a string; otherwise the top-level `training_run_id`.
pub open spec fn payload_run_value(p: Seq<u8>) -> Option<Seq<char>> {
    let a = payload_pointer(p, "/metadata/training_run_id"@);
    let b = payload_pointer(p, "/metadata/run_id"@);
    let c = payload_pointer(p, "/metadata/stress_run_id"@);
    let d = payload_pointer(p, "/sample_context/training_run_id"@);
    let e = payload_pointer(p, "/sample_context/stress_run_id"@);
    let first = if a is Some { a } else if b is Some { b } else if c is Some { c } else if d is Some { d } else { e };
    match first {
        Some(Some(s)) => Some(s),
        _ => payload_str_field(p, "training_run_id"@),
    }
}

/// The run an episode's events are filed under: a non-empty run id from its
/// metadata, else one from its payload, else the orphan run.
pub open spec fn request_run_id(req: EpisodeRequest) -> Seq<char> {
    let m = meta_run_value(req.metadata@);
    if m is Some && m->0.len() > 0 {
        m->0
    } else {
        match payload_run_value(req.payload@) {
            Some(s) => resolved_run_id(Some(s)),
            None => "_orphan"@,
        }
    }
}

/// The batch an episode's events carry: a non-empty `batch_id` from its
/// metadata, else a non-empty string at `/metadata/batch_id` in its payload,
/// else its correlation id when not empty.
pub open spec fn request_batch(req: EpisodeRequest) -> Option<Seq<char>> {
    if req.metadata@.contains_key("batch_id"@) && req.metadata@["batch_id"@].len() > 0 {
        Some(req.metadata@["batch_id"@])
    } else {
        match payload_pointer(req.payload@, "/metadata/batch_id"@) {
            Some(Some(s)) => if s.len() > 0 {
                Some(s)
            } else if req.correlation_id@.len() > 0 {
                Some(req.correlation_id@)
            } else {
                None
            },
            _ => if req.correlation_id@.len() > 0 {
                Some(req.correlation_id@)
            } else {
                None
            },
        }
    }
}

fn first_present(payload: &Vec<u8>) -> (r: Option<Option<String>>)
    ensures
        ({
            let p = payload@;
            let a = payload_pointer(p, "/metadata/training_run_id"@);
            let b = payload_pointer(p, "/metadata/run_id"@);
            let c = payload_pointer(p, "/metadata/stress_run_id"@);
            let d = payload_pointer(p, "/sample_context/training_run_id"@);
            let e = payload_pointer(p, "/sample_context/stress_run_id"@);
            opt_opt_view(r) == (if a is Some { a } else if b is Some { b } else if c is Some { c } else if d is Some { d } else { e })
        }),
{
    let a = json_pointer(payload, "/metadata/training_run_id");
    if a.is_some() {
        return a;
    }
    let b = json_pointer(payload, "/metadata/run_id");
    if b.is_some() {
        return b;
    }
    let c = json_pointer(payload, "/metadata/stress_run_id");
    if c.is_some() {
        return c;
    }
    let d = json_pointer(payload, "/sample_context/training_run_id");
    if d.is_some() {
        return d;
    }
    json_pointer(payload, "/sample_context/stress_run_id")
}

/// The run an episode's events are filed under (see `request_run_id`).
pub fn training_run_from_req(req: &EpisodeRequest) -> (r: String)
    ensures
        r@ == request_run_id(*req),
{
    let meta = match req.metadata.get("training_run_id") {
        Some(v) => Some(v),
        None => match req.metadata.get("run_id") {
            Some(v) => Some(v),
            None => req.metadata.get("stress_run_id"),
        },
    };
    match meta {
        Some(v) => {
            if !v.as_str().is_empty() {
                return resolve_training_run_id(Some(v.as_str()));
            }
        },
        None => {},
    }
    match first_present(&req.payload) {
        Some(Some(s)) => {
            return resolve_training_run_id(Some(s.as_str()));
        },
        _ => {},
    }
    match json_str_field(&req.payload, "training_run_id") {
        Some(s) => resolve_training_run_id(Some(s.as_str())),
        None => resolve_training_run_id(None),
    }
}

/// The batch an episode's events carry (see `request_batch`).
pub fn batch_from_req(req: &EpisodeRequest) -> (r: Option<String>)
    ensures
        opt_view(r) == request_batch(*req),
{
    match req.metadata.get("batch_id") {
        Some(v) => {
            if !v.as_str().is_empty() {
                return Some(v.clone());
            }
        },
        None => {},
    }
    match json_pointer(&req.payload, "/metadata/batch_id") {
        Some(Some(s)) => {
            if !s.as_str().is_empty() {
                return Some(s);
            }
        },
        _ => {},
    }
    if req.correlation_id.as_str().is_empty() {
        None
    } else {
        Some(req.correlation_id.clone())
    }
}

/// The fields every event of this server has: a fresh 36-character id,
/// schema 1, no adapter run or environment instance, the server's source for
/// the epoch, the server module, number `seq` and time `now`.
pub open spec fn server_event(ev: ObservabilityEvent, epoch: u64, seq: u64, now: i64) -> bool {
    &&& ev.event_id@.len() == 36
    &&& ev.schema_version@ == "1"@
    &&& ev.adapter_run_id is None
    &&& ev.env_instance_id is None
    &&& ev.source_id@ == "server:"@ + decimal_spec(epoch as nat)
    &&& ev.module@ == "server"@
    &&& ev.seq == seq
    &&& ev.source_ts == now
}

/// The fields every event about a request's episode has: its correlation,
/// run, batch and environment type.
pub open spec fn request_event(ev: ObservabilityEvent, req: EpisodeRequest) -> bool {
    &&& ev.correlation_id@ == req.correlation_id@
    &&& opt_view(ev.training_run_id) == Some(request_run_id(req))
    &&& opt_view(ev.batch_id) == request_batch(req)
    &&& opt_view(ev.env_type) == Some(req.env_type@)
}

/// An attempt number as events show it: at least 1.
pub open spec fn shown_attempt(a: u32) -> u32 {
    if a >= 1 { a } else { 1 }
}

fn base_event(epoch: u64, counter: &mut ServerSeq, now: i64) -> (ev: ObservabilityEvent)
    ensures
        server_event(ev, epoch, old(counter).upcoming(), now),
        final(counter).upcoming() == (if old(counter).upcoming() == u64::MAX { 0 } else { (old(counter).upcoming() + 1) as u64 }),
        ev.training_run_id is None && ev.batch_id is None && ev.episode_id is None && ev.attempt_id is None,
        ev.worker_id is None && ev.step_index is None && ev.dispatch_lease_id is None && ev.env_type is None,
        ev.scheduler_epoch == Some(epoch),
        ev.payload is None,
{
    ObservabilityEvent {
        event_id: new_uuid_string(),
        schema_version: "1".to_string(),
        correlation_id: String::new(),
        training_run_id: None,
        adapter_run_id: None,
        batch_id: None,
        episode_id: None,
        attempt_id: None,
        worker_id: None,
        env_instance_id: None,
        step_index: None,
        dispatch_lease_id: None,
        scheduler_epoch: Some(epoch),
        env_type: None,
        source_id: server_source_id(epoch),
        module: "server".to_string(),
        entity_type: String::new(),
        entity_id: String::new(),
        event_type: String::new(),
        seq: next_server_seq(counter),
        source_ts: now,
        payload: None,
    }
}

/// The counter after handing out one number.
pub open spec fn after_one(n: u64) -> u64 {
    if n == u64::MAX { 0 } else { (n + 1) as u64 }
}

/// An episode was submitted (type `EPISODE_SUBMITTED`): about the request's
/// episode and attempt (at least 1), with the environment package in the
/// payload.
pub open spec fn submitted_ok(ev: ObservabilityEvent, req: EpisodeRequest, epoch: u64, seq: u64, now: i64, event_type: Seq<char>) -> bool {
    &&& server_event(ev, epoch, seq, now)
    &&& request_event(ev, req)
    &&& opt_view(ev.episode_id) == Some(req.episode_id@)
    &&& ev.attempt_id == Some(shown_attempt(req.attempt_id))
    &&& ev.worker_id is None && ev.step_index is None && ev.dispatch_lease_id is None
    &&& ev.scheduler_epoch == Some(epoch)
    &&& ev.entity_type@ == "episode"@ && ev.entity_id@ == req.episode_id@
    &&& ev.event_type@ == event_type
    &&& ev.payload matches Some(p) && p@ == string_object_json(seq![("env_package_id"@, req.env_package_id@)])
}

fn request_fields(ev: &mut ObservabilityEvent, req: &EpisodeRequest)
    ensures
        request_event(*final(ev), *req),
        (ObservabilityEvent {
            correlation_id: old(ev).correlation_id,
            training_run_id: old(ev).training_run_id,
            batch_id: old(ev).batch_id,
            env_type: old(ev).env_type,
            ..*final(ev)
        }) == *old(ev),
{
    ev.correlation_id = req.correlation_id.clone();
    ev.training_run_id = Some(training_run_from_req(req));
    ev.batch_id = batch_from_req(req);
    ev.env_type = Some(req.env_type.clone());
}

fn one_entry(k: &str, v: &str) -> (e: Vec<(String, String)>)
    ensures
        entry_views(e@) == seq![(k@, v@)],
{
    let mut e: Vec<(String, String)> = Vec::new();
    e.push((k.to_string(), v.to_string()));
    proof {
        assert(entry_views(e@) =~= seq![(k@, v@)]);
    }
    e
}

/// The event that an episode was submitted (see `submitted_ok`).
pub fn episode_submitted(req: &EpisodeRequest, epoch: u64, counter: &mut ServerSeq, now: i64) -> (ev: ObservabilityEvent)
    ensures
        submitted_ok(ev, *req, epoch, old(counter).upcoming(), now, "EPISODE_SUBMITTED"@),
        final(counter).upcoming() == after_one(old(counter).upcoming()),
{
    let mut ev = base_event(epoch, counter, now);
    request_fields(&mut ev, req);
    ev.episode_id = Some(req.episode_id.clone());
    ev.attempt_id = Some(if req.attempt_id >= 1 { req.attempt_id } else { 1 });
    ev.entity_type = "episode".to_string();
    ev.entity_id = req.episode_id.clone();
    ev.event_type = "EPISODE_SUBMITTED".to_string();
    ev.payload = Some(json_string_object(&one_entry("env_package_id", req.env_package_id.as_str())));
    ev
}

/// The event that an episode passed admission and is being scheduled: the
/// submission event under type `EPISODE_SCHEDULING`.
pub fn episode_scheduling(req: &EpisodeRequest, epoch: u64, counter: &mut ServerSeq, now: i64) -> (ev: ObservabilityEvent)
    ensures
        submitted_ok(ev, *req, epoch, old(counter).upcoming(), now, "EPISODE_SCHEDULING"@),
        final(counter).upcoming() == after_one(old(counter).upcoming()),
{
    let mut ev = episode_submitted(req, epoch, counter, now);
    ev.event_type = "EPISODE_SCHEDULING".to_string();
    ev
}

/// `episode:attempt` as an attempt's entity id.
pub open spec fn attempt_entity(episode_id: Seq<char>, attempt_id: u32) -> Seq<char> {
    episode_id + ":"@ + decimal_spec(attempt_id as nat)
}

/// A dispatch event of the request's episode to `worker_id`: its attempt
/// (at least 1), worker, lease, the later of the request's and the server's
/// epoch, no payload.
pub open spec fn dispatch_ok(ev: ObservabilityEvent, req: EpisodeRequest, worker_id: Seq<char>, epoch: u64, seq: u64, now: i64) -> bool {
    &&& server_event(ev, epoch, seq, now)
    &&& request_event(ev, req)
    &&& opt_view(ev.episode_id) == Some(req.episode_id@)
    &&& ev.attempt_id == Some(shown_attempt(req.attempt_id))
    &&& opt_view(ev.worker_id) == Some(worker_id)
    &&& ev.step_index is None
    &&& opt_view(ev.dispatch_lease_id) == Some(req.dispatch_lease_id@)
    &&& ev.scheduler_epoch == Some(if req.scheduler_epoch >= epoch { req.scheduler_epoch } else { epoch })
    &&& ev.payload is None
}

fn dispatch_event(req: &EpisodeRequest, worker_id: &str, epoch: u64, counter: &mut ServerSeq, now: i64) -> (ev: ObservabilityEvent)
    ensures
        dispatch_ok(ev, *req, worker_id@, epoch, old(counter).upcoming(), now),
        final(counter).upcoming() == after_one(old(counter).upcoming()),
        ev.entity_type@ == "episode"@ && ev.entity_id@ == req.episode_id@,
{
    let mut ev = base_event(epoch, counter, now);
    request_fields(&mut ev, req);
    ev.episode_id = Some(req.episode_id.clone());
    ev.attempt_id = Some(if req.attempt_id >= 1 { req.attempt_id } else { 1 });
    ev.worker_id = Some(worker_id.to_string());
    ev.dispatch_lease_id = Some(req.dispatch_lease_id.clone());
    ev.scheduler_epoch = Some(if req.scheduler_epoch >= epoch { req.scheduler_epoch } else { epoch });
    ev.entity_type = "episode".to_string();
    ev.entity_id = req.episode_id.clone();
    ev
}

/// The events that an episode was dispatched to a worker: `EPISODE_DISPATCHED`
/// about the episode, then `ATTEMPT_STARTED` about the attempt
/// (`episode:attempt`), numbered one after the other.
pub fn episode_dispatched(req: &EpisodeRequest, worker_id: &str, epoch: u64, counter: &mut ServerSeq, now: i64) -> (evs: Vec<ObservabilityEvent>)
    ensures
        evs@.len() == 2,
        dispatch_ok(evs@[0], *req, worker_id@, epoch, old(counter).upcoming(), now),
        evs@[0].event_type@ == "EPISODE_DISPATCHED"@,
        evs@[0].entity_type@ == "episode"@ && evs@[0].entity_id@ == req.episode_id@,
        dispatch_ok(evs@[1], *req, worker_id@, epoch, after_one(old(counter).upcoming()), now),
        evs@[1].event_type@ == "ATTEMPT_STARTED"@,
        evs@[1].entity_type@ == "attempt"@ && evs@[1].entity_id@ == attempt_entity(req.episode_id@, req.attempt_id),
        final(counter).upcoming() == after_one(after_one(old(counter).upcoming())),
{
    let mut dispatched = dispatch_event(req, worker_id, epoch, counter, now);
    dispatched.event_type = "EPISODE_DISPATCHED".to_string();
    let mut attempt = dispatch_event(req, worker_id, epoch, counter, now);
    attempt.event_type = "ATTEMPT_STARTED".to_string();
    attempt.entity_type = "attempt".to_string();
    let n = decimal(req.attempt_id as u64);
    attempt.entity_id = concat3(req.episode_id.as_str(), ":", n.as_str());
    let mut evs: Vec<ObservabilityEvent> = Vec::new();
    evs.push(dispatched);
    evs.push(attempt);
    evs
}

/// An event about an episode's result: filed as the request's episode
/// events, about the result's episode and attempt (at least 1), with the
/// result's step count as step, the request's lease, and the result's status,
/// trajectory and error message in the payload.
pub open spec fn result_event_ok(
    ev: ObservabilityEvent,
    req: EpisodeRequest,
    result: EpisodeResult,
    epoch: u64,
    seq: u64,
    now: i64,
    event_type: Seq<char>,
) -> bool {
    &&& server_event(ev, epoch, seq, now)
    &&& request_event(ev, req)
    &&& opt_view(ev.episode_id) == Some(result.episode_id@)
    &&& ev.attempt_id == Some(shown_attempt(result.attempt_id))
    &&& ev.worker_id is None
    &&& ev.step_index == (match result.summary {
        Some(s) => Some(s.total_steps as i32),
        None => None,
    })
    &&& opt_view(ev.dispatch_lease_id) == Some(req.dispatch_lease_id@)
    &&& ev.scheduler_epoch == Some(epoch)
    &&& ev.entity_type@ == "episode"@ && ev.entity_id@ == result.episode_id@
    &&& ev.event_type@ == event_type
    &&& ev.payload matches Some(p) && p@ == string_object_json(
        seq![
            ("status"@, result.status@),
            ("trajectory_id"@, result.trajectory_id@),
            ("error_message"@, result.error_message@),
        ],
    )
}

fn result_event(req: &EpisodeRequest, result: &EpisodeResult, epoch: u64, event_type: &str, counter: &mut ServerSeq, now: i64) -> (ev: ObservabilityEvent)
    ensures
        result_event_ok(ev, *req, *result, epoch, old(counter).upcoming(), now, event_type@),
        final(counter).upcoming() == after_one(old(counter).upcoming()),
{
    let mut ev = base_event(epoch, counter, now);
    request_fields(&mut ev, req);
    ev.episode_id = Some(result.episode_id.clone());
    ev.attempt_id = Some(if result.attempt_id >= 1 { result.attempt_id } else { 1 });
    ev.step_index = match &result.summary {
        Some(s) => {
            #[verifier::truncate]
            let steps = s.total_steps as i32;
            Some(steps)
        },
        None => None,
    };
    ev.dispatch_lease_id = Some(req.dispatch_lease_id.clone());
    ev.entity_type = "episode".to_string();
    ev.entity_id = result.episode_id.clone();
    ev.event_type = event_type.to_string();
    let mut entries: Vec<(String, String)> = Vec::new();
    entries.push(("status".to_string(), result.status.clone()));
    entries.push(("trajectory_id".to_string(), result.trajectory_id.clone()));
    entries.push(("error_message".to_string(), result.error_message.clone()));
    proof {
        assert(entry_views(entries@) =~= seq![
            ("status"@, result.status@),
            ("trajectory_id"@, result.trajectory_id@),
            ("error_message"@, result.error_message@),
        ]);
    }
    ev.payload = Some(json_string_object(&entries));
    ev
}

/// The event that a worker's result arrived and is being reported
/// (`EPISODE_REPORTING`, see `result_event_ok`).
pub fn episode_reporting(req: &EpisodeRequest, result: &EpisodeResult, epoch: u64, counter: &mut ServerSeq, now: i64) -> (ev: ObservabilityEvent)
    ensures
        result_event_ok(ev, *req, *result, epoch, old(counter).upcoming(), now, "EPISODE_REPORTING"@),
        final(counter).upcoming() == after_one(old(counter).upcoming()),
{
    result_event(req, result, epoch, "EPISODE_REPORTING", counter, now)
}

/// Does a result status count as success (`completed` or `success`, in any
/// case)?
pub open spec fn succeeded(status: Seq<char>) -> bool {
    lowered_eq(status, "completed"@) || lowered_eq(status, "success"@)
}

/// The events that an episode ended: `EPISODE_COMPLETED` for a successful
/// status, `EPISODE_FAILED` otherwise, then `EPISODE_CLOSED` (see
/// `result_event_ok`), numbered one after the other.
pub fn episode_terminal(req: &EpisodeRequest, result: &EpisodeResult, epoch: u64, counter: &mut ServerSeq, now: i64) -> (evs: Vec<ObservabilityEvent>)
    ensures
        evs@.len() == 2,
        result_event_ok(
            evs@[0],
            *req,
            *result,
            epoch,
            old(counter).upcoming(),
            now,
            if succeeded(result.status@) { "EPISODE_COMPLETED"@ } else { "EPISODE_FAILED"@ },
        ),
        result_event_ok(evs@[1], *req, *result, epoch, after_one(old(counter).upcoming()), now, "EPISODE_CLOSED"@),
        final(counter).upcoming() == after_one(after_one(old(counter).upcoming())),
{
    let ok = eq_lowercased(result.status.as_str(), "completed") || eq_lowercased(result.status.as_str(), "success");
    let first = if ok { "EPISODE_COMPLETED" } else { "EPISODE_FAILED" };
    let a = result_event(req, result, epoch, first, counter, now);
    let b = result_event(req, result, epoch, "EPISODE_CLOSED", counter, now);
    let mut evs: Vec<ObservabilityEvent> = Vec::new();
    evs.push(a);
    evs.push(b);
    evs
}

/// The event that an attempt was closed (`ATTEMPT_CLOSED`): about the
/// request's episode and attempt (at least 1; `episode:attempt` as entity),
/// its lease, with the reason in the payload.
pub fn attempt_closed(req: &EpisodeRequest, epoch: u64, reason: &str, counter: &mut ServerSeq, now: i64) -> (ev: ObservabilityEvent)
    ensures
        server_event(ev, epoch, old(counter).upcoming(), now),
        request_event(ev, *req),
        opt_view(ev.episode_id) == Some(req.episode_id@),
        ev.attempt_id == Some(shown_attempt(req.attempt_id)),
        ev.worker_id is None && ev.step_index is None,
        opt_view(ev.dispatch_lease_id) == Some(req.dispatch_lease_id@),
        ev.scheduler_epoch == Some(epoch),
        ev.entity_type@ == "attempt"@ && ev.entity_id@ == attempt_entity(req.episode_id@, req.attempt_id),
        ev.event_type@ == "ATTEMPT_CLOSED"@,
        ev.payload matches Some(p) && p@ == string_object_json(seq![("reason"@, reason@)]),
        final(counter).upcoming() == after_one(old(counter).upcoming()),
{
    let mut ev = base_event(epoch, counter, now);
    request_fields(&mut ev, req);
    ev.episode_id = Some(req.episode_id.clone());
    ev.attempt_id = Some(if req.attempt_id >= 1 { req.attempt_id } else { 1 });
    ev.dispatch_lease_id = Some(req.dispatch_lease_id.clone());
    ev.entity_type = "attempt".to_string();
    let n = decimal(req.attempt_id as u64);
    ev.entity_id = concat3(req.episode_id.as_str(), ":", n.as_str());
    ev.event_type = "ATTEMPT_CLOSED".to_string();
    ev.payload = Some(json_string_object(&one_entry("reason", reason)));
    ev
}

/// An event about worker `worker_id` filed under the orphan run: correlation
/// `worker:<id>`, no episode, the worker as entity, no payload.
pub open spec fn worker_event_ok(ev: ObservabilityEvent, worker_id: Seq<char>, epoch: u64, seq: u64, now: i64, event_type: Seq<char>) -> bool {
    &&& server_event(ev, epoch, seq, now)
    &&& ev.correlation_id@ == "worker:"@ + worker_id
    &&& opt_view(ev.training_run_id) == Some("_orphan"@)
    &&& ev.batch_id is None && ev.episode_id is None && ev.attempt_id is None
    &&& opt_view(ev.worker_id) == Some(worker_id)
    &&& ev.step_index is None && ev.dispatch_lease_id is None && ev.env_type is None
    &&& ev.scheduler_epoch == Some(epoch)
    &&& ev.entity_type@ == "worker"@ && ev.entity_id@ == worker_id
    &&& ev.event_type@ == event_type
    &&& ev.payload is None
}

/// The event that a worker registered (`WORKER_REGISTERED`).
pub fn worker_registered(worker_id: &str, epoch: u64, counter: &mut ServerSeq, now: i64) -> (ev: ObservabilityEvent)
    ensures
        worker_event_ok(ev, worker_id@, epoch, old(counter).upcoming(), now, "WORKER_REGISTERED"@),
        final(counter).upcoming() == after_one(old(counter).upcoming()),
{
    let mut ev = base_event(epoch, counter, now);
    ev.correlation_id = prefixed("worker:", worker_id);
    ev.training_run_id = Some(resolve_training_run_id(None));
    ev.worker_id = Some(worker_id.to_string());
    ev.entity_type = "worker".to_string();
    ev.entity_id = worker_id.to_string();
    ev.event_type = "WORKER_REGISTERED".to_string();
    ev
}

/// The event that a worker sent a heartbeat (`WORKER_HEARTBEAT`).
pub fn worker_heartbeat(worker_id: &str, epoch: u64, counter: &mut ServerSeq, now: i64) -> (ev: ObservabilityEvent)
    ensures
        worker_event_ok(ev, worker_id@, epoch, old(counter).upcoming(), now, "WORKER_HEARTBEAT"@),
        final(counter).upcoming() == after_one(old(counter).upcoming()),
{
    let mut ev = worker_registered(worker_id, epoch, counter, now);
    ev.event_type = "WORKER_HEARTBEAT".to_string();
    ev
}

/// The event that carries a snapshot of the worker fleet
/// (`WORKER_STATUS_SNAPSHOT`), filed under the orphan run with correlation
/// `worker-status:<epoch>`; `payload` is the snapshot's JSON text.
pub fn worker_status_snapshot(payload: Vec<u8>, epoch: u64, counter: &mut ServerSeq, now: i64) -> (ev: ObservabilityEvent)
    ensures
        server_event(ev, epoch, old(counter).upcoming(), now),
        ev.correlation_id@ == "worker-status:"@ + decimal_spec(epoch as nat),
        opt_view(ev.training_run_id) == Some("_orphan"@),
        ev.batch_id is None && ev.episode_id is None && ev.attempt_id is None && ev.worker_id is None,
        ev.step_index is None && ev.dispatch_lease_id is None && ev.env_type is None,
        ev.scheduler_epoch == Some(epoch),
        ev.entity_type@ == "worker_fleet"@ && ev.entity_id@ == "worker-fleet"@,
        ev.event_type@ == "WORKER_STATUS_SNAPSHOT"@,
        ev.payload == Some(payload),
        final(counter).upcoming() == after_one(old(counter).upcoming()),
{
    let mut ev = base_event(epoch, counter, now);
    let n = decimal(epoch);
    ev.correlation_id = prefixed("worker-status:", n.as_str());
    ev.training_run_id = Some(orphan_run_id().to_string());
    ev.entity_type = "worker_fleet".to_string();
    ev.entity_id = "worker-fleet".to_string();
    ev.event_type = "WORKER_STATUS_SNAPSHOT".to_string();
    ev.payload = Some(payload);
    ev
}

/// A worker's progress report on a running episode. Its reward stays with
/// the caller, which puts it in the event's payload.
#[derive(Debug, Clone)]
pub struct StreamReport {
    pub episode_id: String,
    pub attempt_id: u32,
    pub worker_id: String,
    pub correlation_id: String,
    pub report_type: i32,
    pub phase: String,
    pub current_step: i32,
    pub total_steps: i32,
}

/// The event type of a progress report: a step-complete report, or a
/// `step_complete` phase, completes a step; a `running` or `step_started`
/// phase starts one; the end of an episode is reported with its result
/// instead (none); otherwise a report past step 0 completes a step and one
/// at step 0 starts it.
pub open spec fn stream_event_type(report_type: i32, phase: Seq<char>, current_step: i32) -> Option<Seq<char>> {
    if report_type == 2 {
        Some("STEP_COMPLETE"@)
    } else if phase == "step_complete"@ {
        Some("STEP_COMPLETE"@)
    } else if phase == "running"@ || phase == "step_started"@ {
        Some("STEP_STARTED"@)
    } else if phase == "episode_complete"@ || phase == "episode_failed"@ {
        None
    } else if current_step > 0 {
        Some("STEP_COMPLETE"@)
    } else {
        Some("STEP_STARTED"@)
    }
}

fn stream_type(report: &StreamReport) -> (t: Option<&'static str>)
    ensures
        match stream_event_type(report.report_type, report.phase@, report.current_step) {
            Some(s) => t matches Some(x) && x@ == s,
            None => t is None,
        },
{
    let p = report.phase.as_str();
    if report.report_type == 2 {
        Some("STEP_COMPLETE")
    } else if crate::text::str_eq(p, "step_complete") {
        Some("STEP_COMPLETE")
    } else if crate::text::str_eq(p, "running") || crate::text::str_eq(p, "step_started") {
        Some("STEP_STARTED")
    } else if crate::text::str_eq(p, "episode_complete") || crate::text::str_eq(p, "episode_failed") {
        None
    } else if report.current_step > 0 {
        Some("STEP_COMPLETE")
    } else {
        Some("STEP_STARTED")
    }
}

/// The event a progress report gives, if any (see `stream_event_type`):
/// filed under the request's run (the orphan run without a request) and
/// batch, with the report's correlation (else the request's, else empty),
/// episode, attempt (at least 1), worker (none if empty) and step, the
/// request's lease and environment type, `episode:step` as step entity, and
/// `payload` as payload. The counter moves on only when there is an event.
pub fn from_stream_report(
    report: &StreamReport,
    req: Option<&EpisodeRequest>,
    epoch: u64,
    counter: &mut ServerSeq,
    now: i64,
    payload: Vec<u8>,
) -> (r: Option<ObservabilityEvent>)
    ensures
        match stream_event_type(report.report_type, report.phase@, report.current_step) {
            None => r is None && final(counter).upcoming() == old(counter).upcoming(),
            Some(t) => r matches Some(ev) && {
                &&& server_event(ev, epoch, old(counter).upcoming(), now)
                &&& final(counter).upcoming() == after_one(old(counter).upcoming())
                &&& ev.event_type@ == t
                &&& opt_view(ev.training_run_id) == Some(match req {
                    Some(q) => request_run_id(*q),
                    None => "_orphan"@,
                })
                &&& ev.correlation_id@ == (if report.correlation_id@.len() > 0 {
                    report.correlation_id@
                } else {
                    match req {
                        Some(q) => q.correlation_id@,
                        None => Seq::empty(),
                    }
                })
                &&& opt_view(ev.batch_id) == (match req {
                    Some(q) => request_batch(*q),
                    None => None,
                })
                &&& opt_view(ev.episode_id) == Some(report.episode_id@)
                &&& ev.attempt_id == Some(shown_attempt(report.attempt_id))
                &&& opt_view(ev.worker_id) == (if report.worker_id@.len() > 0 { Some(report.worker_id@) } else { None })
                &&& ev.step_index == Some(report.current_step)
                &&& opt_view(ev.dispatch_lease_id) == (match req {
                    Some(q) => Some(q.dispatch_lease_id@),
                    None => None,
                })
                &&& ev.scheduler_epoch == Some(epoch)
                &&& opt_view(ev.env_type) == (match req {
                    Some(q) => Some(q.env_type@),
                    None => None,
                })
                &&& ev.entity_type@ == "step"@
                &&& ev.entity_id@ == report.episode_id@ + ":"@ + signed_decimal(report.current_step)
                &&& ev.payload == Some(payload)
            },
        },
{
    let t = match stream_type(report) {
        Some(t) => t,
        None => {
            return None;
        },
    };
    let mut ev = base_event(epoch, counter, now);
    ev.training_run_id = Some(
        match req {
            Some(q) => training_run_from_req(q),
            None => resolve_training_run_id(None),
        },
    );
    ev.correlation_id = if !report.correlation_id.as_str().is_empty() {
        report.correlation_id.clone()
    } else {
        match req {
            Some(q) => q.correlation_id.clone(),
            None => String::new(),
        }
    };
    ev.batch_id = match req {
        Some(q) => batch_from_req(q),
        None => None,
    };
    ev.episode_id = Some(report.episode_id.clone());
    ev.attempt_id = Some(if report.attempt_id >= 1 { report.attempt_id } else { 1 });
    ev.worker_id = if report.worker_id.as_str().is_empty() { None } else { Some(report.worker_id.clone()) };
    ev.step_index = Some(report.current_step);
    ev.dispatch_lease_id = match req {
        Some(q) => Some(q.dispatch_lease_id.clone()),
        None => None,
    };
    ev.env_type = match req {
        Some(q) => Some(q.env_type.clone()),
        None => None,
    };
    ev.entity_type = "step".to_string();
    let step = signed_text(report.current_step);
    ev.entity_id = concat3(report.episode_id.as_str(), ":", step.as_str());
    ev.event_type = t.to_string();
    ev.payload = Some(payload);
    Some(ev)
}

} // verus!
