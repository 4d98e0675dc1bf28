use uenv_server::messages::{EpisodeRequest, EpisodeResult};
use uenv_server::obs::ServerSeq;
use uenv_server::obs_project::{
    attempt_closed, batch_from_req, episode_dispatched, episode_scheduling, episode_submitted, episode_terminal,
    from_stream_report, training_run_from_req, worker_heartbeat, worker_registered, worker_status_snapshot,
    StreamReport,
};

#[test]
fn pressure_sample_context_maps_stress_run_to_observability_run() {
    let req = EpisodeRequest {
        episode_id: "pressure-episode".into(),
        payload: br#"{"sample_context":{"stress_run_id":"pressure-run-42"}}"#.to_vec(),
        ..Default::default()
    };
    let mut seq = ServerSeq::new();
    let event = episode_submitted(&req, 1, &mut seq, 0);
    assert_eq!(event.training_run_id.as_deref(), Some("pressure-run-42"));
    assert_eq!(episode_scheduling(&req, 1, &mut seq, 0).event_type, "EPISODE_SCHEDULING");
}

#[test]
fn run_ids_come_from_metadata_then_payload_then_orphan() {
    let mut req = EpisodeRequest::default();
    assert_eq!(training_run_from_req(&req), "_orphan");
    req.payload = br#"{"training_run_id":"top"}"#.to_vec();
    assert_eq!(training_run_from_req(&req), "top");
    req.payload = br#"{"metadata":{"run_id":"meta-run"},"training_run_id":"top"}"#.to_vec();
    assert_eq!(training_run_from_req(&req), "meta-run");
    req.payload = br#"{"metadata":{"run_id":7},"training_run_id":"top"}"#.to_vec();
    assert_eq!(training_run_from_req(&req), "top");
    req.metadata.insert("run_id".into(), "from-meta".into());
    assert_eq!(training_run_from_req(&req), "from-meta");
    req.metadata.insert("training_run_id".into(), String::new());
    assert_eq!(training_run_from_req(&req), "top");
}

#[test]
fn batches_come_from_metadata_payload_or_correlation() {
    let mut req = EpisodeRequest::default();
    assert_eq!(batch_from_req(&req), None);
    req.correlation_id = "corr".into();
    assert_eq!(batch_from_req(&req).as_deref(), Some("corr"));
    req.payload = br#"{"metadata":{"batch_id":"b-7"}}"#.to_vec();
    assert_eq!(batch_from_req(&req).as_deref(), Some("b-7"));
    req.metadata.insert("batch_id".into(), "b-meta".into());
    assert_eq!(batch_from_req(&req).as_deref(), Some("b-meta"));
}

fn request() -> EpisodeRequest {
    EpisodeRequest {
        episode_id: "ep-1".into(),
        attempt_id: 0,
        env_type: "math".into(),
        correlation_id: "c-1".into(),
        env_package_id: "pkg".into(),
        dispatch_lease_id: "lease".into(),
        scheduler_epoch: 3,
        ..Default::default()
    }
}

#[test]
fn submission_events_carry_the_request_fields() {
    let mut seq = ServerSeq::new();
    let ev = episode_submitted(&request(), 5, &mut seq, 99);
    assert_eq!(ev.seq, 1);
    assert_eq!(ev.source_ts, 99);
    assert_eq!(ev.source_id, "server:5");
    assert_eq!(ev.attempt_id, Some(1));
    assert_eq!(ev.batch_id.as_deref(), Some("c-1"));
    assert_eq!(ev.env_type.as_deref(), Some("math"));
    assert_eq!(ev.scheduler_epoch, Some(5));
    assert_eq!(ev.event_id.len(), 36);
    let payload: serde_json::Value = serde_json::from_slice(ev.payload.as_ref().unwrap()).unwrap();
    assert_eq!(payload, serde_json::from_str::<serde_json::Value>(r#"{"env_package_id":"pkg"}"#).unwrap());
}

#[test]
fn dispatch_gives_dispatched_then_attempt_started() {
    let mut seq = ServerSeq::new();
    let evs = episode_dispatched(&request(), "w-1", 2, &mut seq, 0);
    assert_eq!(evs.len(), 2);
    assert_eq!(evs[0].event_type, "EPISODE_DISPATCHED");
    assert_eq!(evs[1].event_type, "ATTEMPT_STARTED");
    assert_eq!(evs[1].entity_id, "ep-1:0");
    assert_eq!((evs[0].seq, evs[1].seq), (1, 2));
    assert_eq!(evs[0].scheduler_epoch, Some(3));
    assert_eq!(evs[0].worker_id.as_deref(), Some("w-1"));
    assert_eq!(evs[0].dispatch_lease_id.as_deref(), Some("lease"));
}

#[test]
fn terminal_events_follow_the_status() {
    let mut seq = ServerSeq::new();
    let mut result = EpisodeResult::default();
    result.episode_id = "ep-1".into();
    result.status = "SUCCESS".into();
    let evs = episode_terminal(&request(), &result, 1, &mut seq, 0);
    assert_eq!(evs[0].event_type, "EPISODE_COMPLETED");
    assert_eq!(evs[1].event_type, "EPISODE_CLOSED");
    result.status = "timeout".into();
    let evs = episode_terminal(&request(), &result, 1, &mut seq, 0);
    assert_eq!(evs[0].event_type, "EPISODE_FAILED");
    let payload: serde_json::Value = serde_json::from_slice(evs[0].payload.as_ref().unwrap()).unwrap();
    assert_eq!(payload["status"], "timeout");
}

#[test]
fn attempt_and_worker_events() {
    let mut seq = ServerSeq::new();
    let closed = attempt_closed(&request(), 1, "cancelled", &mut seq, 0);
    assert_eq!(closed.event_type, "ATTEMPT_CLOSED");
    assert_eq!(closed.entity_type, "attempt");
    let payload: serde_json::Value = serde_json::from_slice(closed.payload.as_ref().unwrap()).unwrap();
    assert_eq!(payload["reason"], "cancelled");
    let reg = worker_registered("w-9", 4, &mut seq, 0);
    assert_eq!(reg.correlation_id, "worker:w-9");
    assert_eq!(reg.training_run_id.as_deref(), Some("_orphan"));
    let hb = worker_heartbeat("w-9", 4, &mut seq, 0);
    assert_eq!(hb.event_type, "WORKER_HEARTBEAT");
    assert_eq!(hb.seq, reg.seq + 1);
    let snap = worker_status_snapshot(b"{}".to_vec(), 4, &mut seq, 0);
    assert_eq!(snap.correlation_id, "worker-status:4");
    assert_eq!(snap.entity_id, "worker-fleet");
}

#[test]
fn progress_reports_map_to_step_events() {
    let mut seq = ServerSeq::new();
    let mut report = StreamReport {
        episode_id: "ep".into(),
        attempt_id: 2,
        worker_id: String::new(),
        correlation_id: String::new(),
        report_type: 0,
        phase: "running".into(),
        current_step: 3,
        total_steps: 10,
    };
    let ev = from_stream_report(&report, Some(&request()), 1, &mut seq, 0, Vec::new()).unwrap();
    assert_eq!(ev.event_type, "STEP_STARTED");
    assert_eq!(ev.entity_id, "ep:3");
    assert_eq!(ev.correlation_id, "c-1");
    assert!(ev.worker_id.is_none());
    report.phase = "episode_failed".into();
    assert!(from_stream_report(&report, None, 1, &mut seq, 0, Vec::new()).is_none());
    assert_eq!(seq_next(&mut seq), 2);
    report.phase = "other".into();
    assert_eq!(from_stream_report(&report, None, 1, &mut seq, 0, Vec::new()).unwrap().event_type, "STEP_COMPLETE");
    report.current_step = 0;
    assert_eq!(from_stream_report(&report, None, 1, &mut seq, 0, Vec::new()).unwrap().event_type, "STEP_STARTED");
    report.report_type = 2;
    let ev = from_stream_report(&report, None, 1, &mut seq, 0, Vec::new()).unwrap();
    assert_eq!(ev.event_type, "STEP_COMPLETE");
    assert_eq!(ev.training_run_id.as_deref(), Some("_orphan"));
}

fn seq_next(seq: &mut ServerSeq) -> u64 {
    uenv_server::obs::next_server_seq(seq)
}
