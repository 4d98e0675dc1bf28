# uenv-server

The episode server of the uenv environment platform: it schedules episodes
onto native workers and SWE agents, judges the results they report, keeps
the durable records needed to recover after a restart, and projects
everything that happens into an observability model of training runs.

The library under `src/` is written in Verus; every function there carries a
contract that Verus proves. Notable parts:

- `scheduler`, `admission`, `agent_pool`, `agent_job`: worker and agent
  selection, capacity accounting, the agent job queue.
- `episode_flow`, `report_flow`, `completion_flow`, `report_gate`,
  `admin_actions`: the decisions of the episode, report, completion and admin
  operations, as step machines that the service drives.
- `results`, `episode_rules`, `store_rules`, `persistence`, `recovery`: result
  finalisation, checksums, the rules of the durable store and of recovery.
- `obs`, `obs_merge`, `chain_state`, `obs_summary`, `obs_timeline`,
  `obs_project`, `obs_ingest`, `fleet_sync`, `worker_status`: the
  observability model, the event gate, the merge of events into run state and
  the fleet status projection.
- `gateway_session`, `execution_backend`, `control_plane`, `config`: the
  gateway session interface, backend selection, worker registration and the
  configuration rules.
- `server_caches`, `active_episodes`, `episode_context`: the server's
  in-memory state: expiring answers and outcomes, finished asynchronous
  results, dispatch lease numbering, the running episodes.
- `admin_http`, `admin_query`: the admin HTTP interface (routing, the token
  check, the reply) and the views it serves.

Public proof functions named `law_*` state properties that hold across
operations (distinct ids, capacity bounds, monotone sequence numbers, sound
stage counters, and more).

`app/` is the process around the library: command line, configuration
files, the observability runtime, the fleet status loop, the cache sweeper
and the admin HTTP listener (sockets and JSON rendering). `tests/` runs
the library on concrete scenarios.
