//! The decisions around merging one observability event: which events are
//! taken at all, under what name a refused one is kept, when an empty run is
//! seeded with demo data, and the demo events themselves.
use crate::chain_state::ChainState;
use crate::config::concat3;
use crate::ids::new_uuid_string;
use crate::obs::Disposition;
use crate::obs_merge::{prefixed, ObservabilityEvent};
use crate::text::{str_eq, trim, trim_spec};
use vstd::prelude::*;

verus! {

broadcast use vstd::string::group_string_axioms;

/// An event lacking its id, source or type is refused with this message.
pub fn check_event(ev: &ObservabilityEvent) -> (r: Result<(), String>)
    ensures
        r is Err <==> (ev.event_id@.len() == 0 || ev.source_id@.len() == 0 || ev.event_type@.len() == 0),
        r matches Err(m) ==> m@ == "missing event_id/source_id/event_type"@,
{
    if ev.event_id.as_str().is_empty() || ev.source_id.as_str().is_empty() || ev.event_type.as_str().is_empty() {
        Err("missing event_id/source_id/event_type".to_string())
    } else {
        Ok(())
    }
}

/// The reason under which an event the merge did not take is kept: stale,
/// refused by a closed run, or late; accepted and duplicate events are not
/// kept this way.
pub fn late_reason(d: Disposition) -> (r: Option<&'static str>)
    ensures
        match d {
            Disposition::SeqStale => r matches Some(s) && s@ == "seq_stale"@,
            Disposition::RejectedClosed => r matches Some(s) && s@ == "rejected_closed"@,
            Disposition::LateArrival => r matches Some(s) && s@ == "late_arrival"@,
            Disposition::Accepted | Disposition::Duplicate => r is None,
        },
{
    match d {
        Disposition::SeqStale => Some("seq_stale"),
        Disposition::RejectedClosed => Some("rejected_closed"),
        Disposition::LateArrival => Some("late_arrival"),
        Disposition::Accepted | Disposition::Duplicate => None,
    }
}

/// Does an event come from this server (source `server:` and an epoch)?
/// Those events are numbered again in the order the merge receives them.
pub fn is_server_source(source_id: &str) -> (b: bool)
    ensures
        b == (source_id@.len() >= 7 && source_id@.subrange(0, 7) == "server:"@),
{
    proof {
        reveal_strlit("server:");
    }
    let chars = crate::text::chars_of(source_id);
    if chars.len() < 7 {
        return false;
    }
    let ok = chars[0] == 's' && chars[1] == 'e' && chars[2] == 'r' && chars[3] == 'v' && chars[4] == 'e' && chars[5]
        == 'r' && chars[6] == ':';
    proof {
        if ok {
            assert(source_id@.subrange(0, 7) =~= "server:"@);
        } else {
            if source_id@.subrange(0, 7) == "server:"@ {
                assert(source_id@.subrange(0, 7)[0] == 's');
                assert(source_id@[0] == 's');
                assert(source_id@.subrange(0, 7)[1] == 'e');
                assert(source_id@.subrange(0, 7)[2] == 'r');
                assert(source_id@.subrange(0, 7)[3] == 'v');
                assert(source_id@.subrange(0, 7)[4] == 'e');
                assert(source_id@.subrange(0, 7)[5] == 'r');
                assert(source_id@.subrange(0, 7)[6] == ':');
            }
        }
    }
    ok
}

/// Does an accepted event change the server's fleet, so that every run's
/// state must be pushed again? Fleet snapshots filed under the orphan run do.
pub fn refreshes_fleet(run_id: &str, event_type: &str) -> (b: bool)
    ensures
        b == (run_id@ == "_orphan"@ && event_type@ == "WORKER_STATUS_SNAPSHOT"@),
{
    str_eq(run_id, "_orphan") && str_eq(event_type, "WORKER_STATUS_SNAPSHOT")
}

/// Is a run sparse enough to be seeded with demo data when that is enabled:
/// unknown, or without episodes and with at most one event merged?
pub fn wants_demo_seed(existing: Option<&ChainState>, auto_mock_empty_run: bool) -> (b: bool)
    ensures
        b == (auto_mock_empty_run && match existing {
            Some(s) => s@.episodes.dom().len() == 0 && s@.global_event_seq <= 1,
            None => true,
        }),
{
    if !auto_mock_empty_run {
        return false;
    }
    match existing {
        Some(s) => {
            let n = s.episodes.len();
            proof {
                assert(s@.episodes.dom() =~= s.episodes@.dom());
            }
            n == 0 && s.global_event_seq <= 1
        },
        None => true,
    }
}

/// The JSON payload the demo events carry, `{"mock":true}`.
pub open spec fn mock_payload() -> Seq<u8> {
    seq![123u8, 34u8, 109u8, 111u8, 99u8, 107u8, 34u8, 58u8, 116u8, 114u8, 117u8, 101u8, 125u8]
}

/// The fields every demo event of run `run` at time `now` has: schema 1,
/// filed under the run, from the seed source of the server module, at
/// `now`, with the mock payload, a fresh 36-character id, and no adapter
/// run, environment instance, step or scheduler epoch.
pub open spec fn demo_common(ev: ObservabilityEvent, run: Seq<char>, now: i64) -> bool {
    &&& ev.event_id@.len() == 36
    &&& ev.schema_version@ == "1"@
    &&& ev.training_run_id matches Some(r) && r@ == run
    &&& ev.adapter_run_id is None
    &&& ev.env_instance_id is None
    &&& ev.step_index is None
    &&& ev.scheduler_epoch is None
    &&& ev.source_id@ == "server:seed"@
    &&& ev.module@ == "server"@
    &&& ev.source_ts == now
    &&& ev.payload matches Some(p) && p@ == mock_payload()
}

/// Is `s` the string `lit`?
pub open spec fn is_some_text(o: Option<String>, lit: Seq<char>) -> bool {
    o matches Some(s) && s@ == lit
}

/// The demo events of a run: the run starts (seq 1), mock-worker-01
/// registers (seq 2), and episode mock-ep-01 of environment `math` is
/// submitted (seq 3) and dispatched to that worker under lease mock-lease
/// (seq 4).
pub open spec fn demo_events_ok(evs: Seq<ObservabilityEvent>, run: Seq<char>, now: i64) -> bool {
    &&& evs.len() == 4
    &&& forall|i: int| 0 <= i < 4 ==> demo_common(#[trigger] evs[i], run, now)
    &&& evs[0].correlation_id@ == "seed:"@ + run
    &&& is_some_text(evs[0].batch_id, "seed-batch"@)
    &&& evs[0].episode_id is None && evs[0].attempt_id is None && evs[0].worker_id is None
    &&& evs[0].dispatch_lease_id is None && evs[0].env_type is None
    &&& evs[0].entity_type@ == "training_run"@ && evs[0].entity_id@ == run
    &&& evs[0].event_type@ == "RUN_STARTED"@ && evs[0].seq == 1
    &&& evs[1].correlation_id@ == "seed:"@ + run + ":worker"@
    &&& evs[1].batch_id is None && evs[1].episode_id is None && evs[1].attempt_id is None
    &&& is_some_text(evs[1].worker_id, "mock-worker-01"@)
    &&& evs[1].dispatch_lease_id is None && evs[1].env_type is None
    &&& evs[1].entity_type@ == "worker"@ && evs[1].entity_id@ == "mock-worker-01"@
    &&& evs[1].event_type@ == "WORKER_REGISTERED"@ && evs[1].seq == 2
    &&& forall|i: int| 2 <= i < 4 ==> {
        &&& (#[trigger] evs[i]).correlation_id@ == "seed:"@ + run + ":ep"@
        &&& is_some_text(evs[i].batch_id, "seed-batch"@)
        &&& is_some_text(evs[i].episode_id, "mock-ep-01"@)
        &&& evs[i].attempt_id == Some(1u32)
        &&& is_some_text(evs[i].worker_id, "mock-worker-01"@)
        &&& is_some_text(evs[i].env_type, "math"@)
        &&& evs[i].entity_type@ == "episode"@ && evs[i].entity_id@ == "mock-ep-01"@
    }
    &&& evs[2].dispatch_lease_id is None
    &&& evs[2].event_type@ == "EPISODE_SUBMITTED"@ && evs[2].seq == 3
    &&& is_some_text(evs[3].dispatch_lease_id, "mock-lease"@)
    &&& evs[3].event_type@ == "EPISODE_DISPATCHED"@ && evs[3].seq == 4
}

fn some_text(s: &str) -> (o: Option<String>)
    ensures
        is_some_text(o, s@),
{
    Some(s.to_string())
}

fn mock_payload_bytes() -> (b: Vec<u8>)
    ensures
        b@ == mock_payload(),
{
    let b: Vec<u8> = vec![123u8, 34u8, 109u8, 111u8, 99u8, 107u8, 34u8, 58u8, 116u8, 114u8, 117u8, 101u8, 125u8];
    proof {
        assert(b@ =~= mock_payload());
    }
    b
}

/// A demo event with the fields all demo events share.
fn demo_event(
    run: &str,
    now: i64,
    correlation_id: String,
    batch_id: Option<String>,
    episode_id: Option<String>,
    attempt_id: Option<u32>,
    worker_id: Option<String>,
    dispatch_lease_id: Option<String>,
    env_type: Option<String>,
    entity_type: &str,
    entity_id: &str,
    event_type: &str,
    seq: u64,
) -> (ev: ObservabilityEvent)
    ensures
        demo_common(ev, run@, now),
        ev.correlation_id == correlation_id,
        ev.batch_id == batch_id,
        ev.episode_id == episode_id,
        ev.attempt_id == attempt_id,
        ev.worker_id == worker_id,
        ev.dispatch_lease_id == dispatch_lease_id,
        ev.env_type == env_type,
        ev.entity_type@ == entity_type@,
        ev.entity_id@ == entity_id@,
        ev.event_type@ == event_type@,
        ev.seq == seq,
{
    ObservabilityEvent {
        event_id: new_uuid_string(),
        schema_version: "1".to_string(),
        correlation_id,
        training_run_id: Some(run.to_string()),
        adapter_run_id: None,
        batch_id,
        episode_id,
        attempt_id,
        worker_id,
        env_instance_id: None,
        step_index: None,
        dispatch_lease_id,
        scheduler_epoch: None,
        env_type,
        source_id: "server:seed".to_string(),
        module: "server".to_string(),
        entity_type: entity_type.to_string(),
        entity_id: entity_id.to_string(),
        event_type: event_type.to_string(),
        seq,
        source_ts: now,
        payload: Some(mock_payload_bytes()),
    }
}

/// The demo events that seed a run at time `now` (see `demo_events_ok`).
pub fn demo_events(run_id: &str, now: i64) -> (evs: Vec<ObservabilityEvent>)
    ensures
        demo_events_ok(evs@, run_id@, now),
{
    let mut evs: Vec<ObservabilityEvent> = Vec::new();
    evs.push(
        demo_event(
            run_id,
            now,
            prefixed("seed:", run_id),
            some_text("seed-batch"),
            None,
            None,
            None,
            None,
            None,
            "training_run",
            run_id,
            "RUN_STARTED",
            1,
        ),
    );
    evs.push(
        demo_event(
            run_id,
            now,
            concat3("seed:", run_id, ":worker"),
            None,
            None,
            None,
            some_text("mock-worker-01"),
            None,
            None,
            "worker",
            "mock-worker-01",
            "WORKER_REGISTERED",
            2,
        ),
    );
    evs.push(
        demo_event(
            run_id,
            now,
            concat3("seed:", run_id, ":ep"),
            some_text("seed-batch"),
            some_text("mock-ep-01"),
            Some(1),
            some_text("mock-worker-01"),
            None,
            some_text("math"),
            "episode",
            "mock-ep-01",
            "EPISODE_SUBMITTED",
            3,
        ),
    );
    evs.push(
        demo_event(
            run_id,
            now,
            concat3("seed:", run_id, ":ep"),
            some_text("seed-batch"),
            some_text("mock-ep-01"),
            Some(1),
            some_text("mock-worker-01"),
            some_text("mock-lease"),
            some_text("math"),
            "episode",
            "mock-ep-01",
            "EPISODE_DISPATCHED",
            4,
        ),
    );
    evs
}

/// The token of an `Authorization` header value: after trimming, what
/// follows `Bearer ` or `bearer `, trimmed; none for another scheme.
pub open spec fn bearer_of(h: Seq<char>) -> Option<Seq<char>> {
    let v = trim_spec(h);
    if v.len() >= 7 && (v.take(7) == "Bearer "@ || v.take(7) == "bearer "@) {
        Some(trim_spec(v.skip(7)))
    } else {
        None
    }
}

/// The token of an `Authorization` header value (see `bearer_of`).
pub fn bearer_token(header: &str) -> (r: Option<&str>)
    ensures
        match bearer_of(header@) {
            Some(t) => r matches Some(x) && x@ == t,
            None => r is None,
        },
{
    let v = trim(header);
    let n = v.unicode_len();
    if n < 7 {
        return None;
    }
    let head = v.substring_char(0, 7);
    proof {
        assert(head@ == v@.take(7));
    }
    if str_eq(head, "Bearer ") || str_eq(head, "bearer ") {
        let rest = v.substring_char(7, n);
        proof {
            assert(rest@ =~= v@.skip(7));
        }
        Some(trim(rest))
    } else {
        None
    }
}

/// May a request to the observability interface go on? Always when no
/// token (or an empty one) is configured; otherwise when the query's token,
/// the bearer token of the `Authorization` header, or the `x-obs-token`
/// header equals the configured token.
pub open spec fn obs_authorized(expected: Option<Seq<char>>, query_token: Option<Seq<char>>, authorization: Option<Seq<char>>, obs_token: Option<Seq<char>>) -> bool {
    match expected {
        None => true,
        Some(e) => e.len() == 0 || query_token == Some(e) || (authorization matches Some(a) && bearer_of(a) == Some(e))
            || obs_token == Some(e),
    }
}

/// The characters of an optional text.
pub open spec fn opt_chars(o: Option<&str>) -> Option<Seq<char>> {
    match o {
        Some(s) => Some(s@),
        None => None,
    }
}

/// May a request to the observability interface go on (see
/// `obs_authorized`)? `authorization` and `obs_token` are the header values
/// that could be read as text.
pub fn request_authorized(
    expected: Option<&str>,
    query_token: Option<&str>,
    authorization: Option<&str>,
    obs_token: Option<&str>,
) -> (b: bool)
    ensures
        b == obs_authorized(opt_chars(expected), opt_chars(query_token), opt_chars(authorization), opt_chars(obs_token)),
{
    let e = match expected {
        None => return true,
        Some(e) => e,
    };
    if e.unicode_len() == 0 {
        return true;
    }
    if let Some(t) = query_token {
        if str_eq(t, e) {
            return true;
        }
    }
    if let Some(v) = authorization {
        if let Some(t) = bearer_token(v) {
            if str_eq(t, e) {
                return true;
            }
        }
    }
    if let Some(v) = obs_token {
        if str_eq(v, e) {
            return true;
        }
    }
    false
}

} // verus!
