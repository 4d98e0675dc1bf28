use uenv_server::chain_state::{ChainState, TreeMeta};
use uenv_server::clock::now_ms;
use uenv_server::obs::Disposition;
use uenv_server::obs_ingest::{check_event, demo_events, late_reason, refreshes_fleet, wants_demo_seed};
use uenv_server::obs_merge::{ensure_seed_run, DeltaPatch, MergeEngine, ObservabilityEvent};
use uenv_server::obs_summary::{overlay_global_workers, run_summary};

fn event(run: &str, ep: Option<&str>, worker: Option<&str>, step: Option<i32>, source: &str) -> ObservabilityEvent {
    ObservabilityEvent {
        event_id: String::new(),
        schema_version: "1".into(),
        correlation_id: "c1".into(),
        training_run_id: Some(run.into()),
        adapter_run_id: None,
        batch_id: None,
        episode_id: ep.map(|s| s.to_string()),
        attempt_id: Some(1),
        worker_id: worker.map(|s| s.to_string()),
        env_instance_id: None,
        step_index: step,
        dispatch_lease_id: None,
        scheduler_epoch: None,
        env_type: None,
        source_id: source.into(),
        module: "server".into(),
        entity_type: "episode".into(),
        entity_id: ep.unwrap_or("").into(),
        event_type: String::new(),
        seq: 0,
        source_ts: now_ms(),
        payload: None,
    }
}

fn node_status(state: &ChainState, node_id: &str) -> Option<String> {
    state.tree.nodes.iter().find(|n| n.node_id == node_id).map(|n| n.status.clone())
}

fn stage_count(state: &ChainState, stage: &str) -> i64 {
    state
        .workflow
        .nodes
        .iter()
        .find(|n| n.node_id == stage)
        .and_then(|n| n.count)
        .map(|c| c as i64)
        .unwrap_or(0)
}

#[test]
fn episode_stage_tracks_real_server_flow() {
    let mut engine = MergeEngine::new();
    let run = "run-stage";
    let ep = "ep-stage";
    let ts = now_ms();
    let base = ObservabilityEvent {
        correlation_id: "c-stage".into(),
        env_type: Some("qa".into()),
        step_index: Some(3),
        source_ts: ts,
        ..event(run, Some(ep), Some("worker-stage"), Some(3), "test-stage")
    };

    for (seq, event_type, expected_stage, expected_status) in [
        (1, "EPISODE_SUBMITTED", "SUBMIT", "ACTIVE"),
        (2, "EPISODE_SCHEDULING", "DISPATCH", "ACTIVE"),
        (3, "EPISODE_DISPATCHED", "EXECUTE", "ACTIVE"),
        (4, "EPISODE_REPORTING", "REPORT", "ACTIVE"),
        (5, "EPISODE_COMPLETED", "DONE", "DONE"),
    ] {
        let event = ObservabilityEvent {
            event_id: format!("stage-{seq}"),
            event_type: event_type.into(),
            seq,
            ..base.clone()
        };
        assert!(matches!(engine.apply(&event, ts + seq as i64).disposition, Disposition::Accepted));
        let episode = engine.get(run).expect("run state").episodes.get(ep).expect("episode");
        assert_eq!(episode.stage, expected_stage, "event {event_type}");
        assert_eq!(episode.status, expected_status, "event {event_type}");
        assert_eq!(episode.env_type, "qa", "event {event_type}");
    }

    let failed_ep = "ep-stage-failed";
    for (seq, event_type) in [(6, "EPISODE_SUBMITTED"), (7, "EPISODE_FAILED"), (8, "EPISODE_CLOSED")] {
        let event = ObservabilityEvent {
            event_id: format!("stage-{seq}"),
            episode_id: Some(failed_ep.into()),
            entity_id: failed_ep.into(),
            event_type: event_type.into(),
            seq,
            ..base.clone()
        };
        assert!(matches!(engine.apply(&event, ts + seq as i64).disposition, Disposition::Accepted));
    }
    let failed = engine.get(run).expect("run state").episodes.get(failed_ep).expect("episode");
    assert_eq!(failed.status, "FAILED");
    assert_eq!(failed.stage, "FAILED");
}

#[test]
fn episode_delta_uses_run_entity_key() {
    let mut engine = MergeEngine::new();
    let run = "run-x";
    let ev = ObservabilityEvent {
        event_id: "e-delta".into(),
        step_index: Some(2),
        source_id: "test".into(),
        ..event(run, Some("ep1"), Some("w1"), Some(2), "test")
    };
    let submit = ObservabilityEvent {
        event_type: "EPISODE_SUBMITTED".into(),
        seq: 1,
        event_id: "e0".into(),
        ..ev.clone()
    };
    let o1 = engine.apply(&submit, now_ms());
    assert_eq!(o1.delta.as_ref().unwrap().entity_key, "run");
    assert!(matches!(o1.delta.as_ref().unwrap().patch, DeltaPatch::RunState));

    let step = ObservabilityEvent {
        event_type: "STEP_STARTED".into(),
        seq: 2,
        event_id: "e1".into(),
        ..ev
    };
    let o2 = engine.apply(&step, now_ms());
    let delta = o2.delta.expect("step delta");
    assert_eq!(delta.entity_key, "run");
    assert!(matches!(delta.patch, DeltaPatch::RunState));
    assert_eq!(delta.event_seq, 2);
}

#[test]
fn terminal_events_close_run_and_step_tree_nodes() {
    let mut engine = MergeEngine::new();
    let run = "run-tree-close";
    let ep = "ep-tree-close";
    let ts = now_ms();
    let base = ObservabilityEvent {
        event_id: "e0".into(),
        correlation_id: "c-tree".into(),
        batch_id: Some("b-tree".into()),
        env_type: Some("qa".into()),
        event_type: "RUN_STARTED".into(),
        seq: 1,
        source_ts: ts,
        ..event(run, Some(ep), Some("w-tree"), Some(0), "test-tree")
    };

    for (seq, event_type) in [
        (1, "RUN_STARTED"),
        (2, "EPISODE_SUBMITTED"),
        (3, "EPISODE_DISPATCHED"),
        (4, "STEP_STARTED"),
        (5, "EPISODE_COMPLETED"),
        (6, "EPISODE_CLOSED"),
        (7, "RUN_CLOSED"),
    ] {
        let ev = ObservabilityEvent {
            event_id: format!("e{seq}"),
            event_type: event_type.into(),
            seq,
            ..base.clone()
        };
        assert!(matches!(engine.apply(&ev, ts + seq as i64).disposition, Disposition::Accepted));
    }

    let state = engine.get(run).expect("run state");
    assert_eq!(state.run_state, "CLOSED");
    assert_eq!(node_status(state, &format!("run:{run}")).as_deref(), Some("CLOSED"));
    assert_eq!(node_status(state, &format!("episode:{ep}")).as_deref(), Some("DONE"));
    assert_eq!(node_status(state, &format!("step:{ep}:0")).as_deref(), Some("DONE"));
}

#[test]
fn workflow_stage_counts_track_distinct_episodes() {
    let mut engine = MergeEngine::new();
    let run = "run-stage-count";
    let ts = now_ms();
    let base = ObservabilityEvent {
        event_id: "e0".into(),
        correlation_id: "c-count".into(),
        batch_id: Some("b-count".into()),
        env_type: Some("qa".into()),
        event_type: "RUN_STARTED".into(),
        source_ts: ts,
        ..event(run, None, Some("w-count"), Some(0), "test-count")
    };
    let mut seq = 0u64;
    let mut feed = |engine: &mut MergeEngine, event_type: &str, ep: &str| {
        seq += 1;
        let ev = ObservabilityEvent {
            event_id: format!("e{seq}"),
            event_type: event_type.into(),
            episode_id: if ep.is_empty() { None } else { Some(ep.into()) },
            entity_id: ep.into(),
            seq,
            ..base.clone()
        };
        assert!(matches!(engine.apply(&ev, ts + seq as i64).disposition, Disposition::Accepted));
    };

    feed(&mut engine, "RUN_STARTED", "");
    feed(&mut engine, "EPISODE_SUBMITTED", "ep-1");
    feed(&mut engine, "EPISODE_DISPATCHED", "ep-1");
    let state = engine.get(run).expect("run state after dispatch");
    assert_eq!(stage_count(state, "dispatch"), 1);
    assert_eq!(stage_count(state, "execute"), 1);
    feed(&mut engine, "ATTEMPT_STARTED", "ep-1");
    feed(&mut engine, "STEP_STARTED", "ep-1");
    feed(&mut engine, "STEP_COMPLETE", "ep-1");
    feed(&mut engine, "EPISODE_COMPLETED", "ep-1");
    feed(&mut engine, "EPISODE_CLOSED", "ep-1");

    let state = engine.get(run).expect("run state");
    for stage in ["submit", "dispatch", "execute", "report", "done"] {
        assert_eq!(stage_count(state, stage), 1, "stage {stage} after ep-1");
    }

    feed(&mut engine, "EPISODE_SUBMITTED", "ep-2");
    feed(&mut engine, "EPISODE_DISPATCHED", "ep-2");
    feed(&mut engine, "STEP_STARTED", "ep-2");
    feed(&mut engine, "STEP_STARTED", "ep-2");
    feed(&mut engine, "EPISODE_FAILED", "ep-2");
    feed(&mut engine, "EPISODE_CLOSED", "ep-2");

    let state = engine.get(run).expect("run state");
    for stage in ["submit", "dispatch", "execute", "report", "done"] {
        assert_eq!(stage_count(state, stage), 2, "stage {stage} after ep-2");
    }
}

#[test]
fn new_run_state_has_default_workflow_and_root_node() {
    let s = ChainState::empty_at("run-a", 77);
    assert_eq!(s.run_state, "PENDING");
    assert_eq!(s.run_status, "pending");
    assert_eq!(s.heartbeat_state, "unknown");
    assert_eq!(s.updated_at, 77);
    assert_eq!(s.cursor.last_ingest_ts, 77);
    assert_eq!(s.tree.root_id, "run:run-a");
    assert_eq!(s.tree.nodes.len(), 1);
    assert!(matches!(s.tree.nodes[0].meta, TreeMeta::Null));
    let ids: Vec<&str> = s.workflow.nodes.iter().map(|n| n.node_id.as_str()).collect();
    assert_eq!(ids, vec!["submit", "dispatch", "execute", "report", "done"]);
    assert_eq!(s.workflow.active_node_id, "submit");
    assert_eq!(s.workflow.nodes[4].label, "完成");
    assert_eq!(s.workflow.edges.len(), 4);
}

#[test]
fn merge_gate_decisions_reach_the_outcome() {
    let mut engine = MergeEngine::new();
    let mut ev = event("run-g", Some("ep"), None, None, "src");
    ev.event_type = "EPISODE_SUBMITTED".into();
    ev.seq = 5;
    let first = engine.apply(&ev, 10);
    assert_eq!(first.disposition, Disposition::Accepted);
    assert!(!first.full_hint);
    assert_eq!(engine.get("run-g").unwrap().global_event_seq, 1);
    assert_eq!(engine.get("run-g").unwrap().updated_at, 10);
    let again = engine.apply(&ev, 11);
    assert_eq!(again.disposition, Disposition::Duplicate);
    assert!(again.delta.is_none());
    ev.seq = 4;
    assert_eq!(engine.apply(&ev, 12).disposition, Disposition::SeqStale);
    assert_eq!(engine.get("run-g").unwrap().global_event_seq, 1);

    let mut close = event("run-g", None, None, None, "src2");
    close.event_type = "RUN_CLOSED".into();
    close.seq = 1;
    let closed = engine.apply(&close, 13);
    assert!(closed.full_hint);
    let mut late = event("run-g", Some("ep"), None, None, "src3");
    late.event_type = "EPISODE_SUBMITTED".into();
    late.seq = 1;
    assert_eq!(engine.apply(&late, 14).disposition, Disposition::RejectedClosed);

    let mut orphan = event("", None, None, None, "src4");
    orphan.event_type = "WORKER_REGISTERED".into();
    orphan.seq = 1;
    orphan.entity_id = "w-9".into();
    let o = engine.apply(&orphan, 15);
    assert_eq!(o.training_run_id, "_orphan");
    assert_eq!(engine.get("_orphan").unwrap().workers.get("w-9").unwrap().status, "ACTIVE");
}

#[test]
fn heartbeats_push_nothing_and_unknown_events_push_only_the_time() {
    let mut engine = MergeEngine::new();
    let mut hb = event("run-h", None, Some("w-1"), None, "src");
    hb.event_type = "WORKER_HEARTBEAT".into();
    hb.seq = 1;
    hb.source_ts = 500;
    let o = engine.apply(&hb, 20);
    assert_eq!(o.disposition, Disposition::Accepted);
    assert!(o.delta.is_none());
    let w = engine.get("run-h").unwrap().workers.get("w-1").unwrap();
    assert_eq!(w.status, "ACTIVE");
    assert_eq!(w.last_heartbeat_ts, 500);

    let mut other = event("run-h", None, None, None, "src");
    other.event_type = "SOMETHING_ELSE".into();
    other.seq = 2;
    let d = engine.apply(&other, 30).delta.unwrap();
    assert!(matches!(d.patch, DeltaPatch::UpdatedAt(30)));
    assert_eq!(d.cursor.last_seq, 2);
}

#[test]
fn dispatch_lists_episode_on_worker_once_and_completion_releases_it() {
    let mut engine = MergeEngine::new();
    let mut ev = event("run-w", Some("ep-1"), Some("w-1"), None, "src");
    for (seq, t) in [(1, "EPISODE_SUBMITTED"), (2, "EPISODE_DISPATCHED"), (3, "ATTEMPT_STARTED")] {
        ev.event_type = t.into();
        ev.seq = seq;
        engine.apply(&ev, seq as i64);
    }
    let state = engine.get("run-w").unwrap();
    assert_eq!(state.workers.get("w-1").unwrap().active_episodes, vec!["ep-1".to_string()]);
    assert_eq!(node_status(state, "worker:w-1").as_deref(), Some("ACTIVE"));
    let run_node = state.tree.nodes.iter().find(|n| n.node_id == "run:run-w").unwrap();
    assert_eq!(run_node.children_count, 1);
    let worker_node = state.tree.nodes.iter().find(|n| n.node_id == "worker:w-1").unwrap();
    assert_eq!(worker_node.children_count, 1);

    ev.event_type = "EPISODE_COMPLETED".into();
    ev.seq = 4;
    ev.payload = Some(br#"{"trajectory_id":"traj-7"}"#.to_vec());
    engine.apply(&ev, 4);
    let state = engine.get("run-w").unwrap();
    assert!(state.workers.get("w-1").unwrap().active_episodes.is_empty());
    let e = state.episodes.get("ep-1").unwrap();
    assert_eq!(e.status, "DONE");
    assert_eq!(e.trajectory_id.as_deref(), Some("traj-7"));
}

#[test]
fn negative_steps_are_named_with_their_sign() {
    let mut engine = MergeEngine::new();
    let mut ev = event("run-s", Some("ep"), None, Some(-2), "src");
    ev.event_type = "STEP_STARTED".into();
    ev.seq = 1;
    engine.apply(&ev, 1);
    let state = engine.get("run-s").unwrap();
    let step = state.tree.nodes.iter().find(|n| n.node_id == "step:ep:-2").unwrap();
    assert_eq!(step.ref_id, "-2");
    assert_eq!(step.parent_id, "episode:ep");
    assert!(matches!(step.meta, TreeMeta::Step { step_index: -2 }));
}

#[test]
fn summaries_count_episodes_by_status() {
    let mut engine = MergeEngine::new();
    let mut ev = event("run-sum", Some("a"), None, None, "src");
    ev.source_ts = 1000;
    let mut seq = 0;
    for (ep, t) in [("a", "EPISODE_SUBMITTED"), ("b", "EPISODE_SUBMITTED"), ("c", "EPISODE_SUBMITTED"), ("b", "EPISODE_FAILED"), ("c", "EPISODE_COMPLETED")] {
        seq += 1;
        ev.episode_id = Some(ep.into());
        ev.event_type = t.into();
        ev.seq = seq;
        engine.apply(&ev, 5000);
    }
    let s = run_summary(engine.get("run-sum").unwrap());
    assert_eq!(s.episode_total, 3);
    assert_eq!(s.episode_active, 1);
    assert_eq!(s.episode_failed, 1);
    assert_eq!(s.episode_done, 1);
    assert_eq!(s.started_at, 1000);
    assert_eq!(s.updated_at, 5000);
    assert_eq!(s.global_event_seq, 5);
    assert_eq!(s.active_stage, "DISPATCH");
}

#[test]
fn empty_run_summary_uses_update_time_and_submit_stage() {
    let s = run_summary(&ChainState::empty_at("r", 42));
    assert_eq!(s.started_at, 42);
    assert_eq!(s.active_stage, "SUBMIT");
    assert_eq!(s.active_stage_label, "接入提交");
    assert_eq!(s.episode_total, 0);
    assert_eq!(s.worker_total, 0);
}

#[test]
fn fleet_overlay_marks_unknown_workers_offline() {
    let mut engine = MergeEngine::new();
    let mut ev = event("run-o", Some("ep"), Some("w-run"), None, "src");
    ev.event_type = "EPISODE_DISPATCHED".into();
    ev.seq = 1;
    engine.apply(&ev, 1);

    let no_fleet = overlay_global_workers(&engine, "run-o", engine.get("run-o").unwrap().duplicate());
    let w = no_fleet.workers.get("w-run").unwrap();
    assert_eq!(w.status, "OFFLINE");
    assert_eq!(w.status_reason, "NOT_REGISTERED");
    assert_eq!(w.current_load, 0);

    let mut reg = event("", None, Some("w-fleet"), None, "src-f");
    reg.event_type = "WORKER_REGISTERED".into();
    reg.seq = 1;
    reg.source_ts = 900;
    engine.apply(&reg, 2);
    let seen = overlay_global_workers(&engine, "run-o", engine.get("run-o").unwrap().duplicate());
    assert_eq!(seen.workers.get("w-run").unwrap().status, "OFFLINE");
    let fleet_worker = seen.workers.get("w-fleet").unwrap();
    assert_eq!(fleet_worker.status, "ACTIVE");
    assert_eq!(fleet_worker.last_heartbeat_ts, 900);

    let orphan = overlay_global_workers(&engine, "_orphan", engine.get("_orphan").unwrap().duplicate());
    assert_eq!(orphan.workers.get("w-fleet").unwrap().status, "ACTIVE");
}

#[test]
fn seeding_starts_a_pending_run_with_demo_events() {
    let mut engine = MergeEngine::new();
    ensure_seed_run(&mut engine, "demo");
    assert_eq!(engine.get("demo").unwrap().run_state, "RUNNING");
    let evs = demo_events("demo", 1234);
    assert_eq!(evs.len(), 4);
    assert_eq!(evs[0].event_type, "RUN_STARTED");
    assert_eq!(evs[0].correlation_id, "seed:demo");
    assert_eq!(evs[1].correlation_id, "seed:demo:worker");
    assert_eq!(evs[3].dispatch_lease_id.as_deref(), Some("mock-lease"));
    assert_eq!(evs[2].payload.as_deref(), Some(&br#"{"mock":true}"#[..]));
    assert_eq!(evs[0].event_id.len(), 36);
    assert_ne!(evs[0].event_id, evs[1].event_id);
    for ev in &evs {
        engine.apply(ev, 2000);
    }
    let state = engine.get("demo").unwrap();
    assert!(state.episodes.get("mock-ep-01").is_some());
    assert_eq!(state.episodes.get("mock-ep-01").unwrap().stage, "EXECUTE");
    assert!(state.workers.get("mock-worker-01").is_some());
}

#[test]
fn ingest_checks_and_late_reasons() {
    let mut ev = event("r", None, None, None, "src");
    ev.event_type = "X".into();
    assert_eq!(check_event(&ev), Err("missing event_id/source_id/event_type".to_string()));
    ev.event_id = "id".into();
    assert_eq!(check_event(&ev), Ok(()));
    assert_eq!(late_reason(Disposition::SeqStale), Some("seq_stale"));
    assert_eq!(late_reason(Disposition::RejectedClosed), Some("rejected_closed"));
    assert_eq!(late_reason(Disposition::LateArrival), Some("late_arrival"));
    assert_eq!(late_reason(Disposition::Duplicate), None);
    assert!(refreshes_fleet("_orphan", "WORKER_STATUS_SNAPSHOT"));
    assert!(!refreshes_fleet("run", "WORKER_STATUS_SNAPSHOT"));
    assert!(wants_demo_seed(None, true));
    assert!(!wants_demo_seed(None, false));
    let s = ChainState::empty_at("r", 0);
    assert!(wants_demo_seed(Some(&s), true));
}
