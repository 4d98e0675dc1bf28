//! Verified core of the uenv episode server: worker scheduling, agent-pool
//! routing, configuration rules, episode result finalisation and the small
//! protocol helpers around them.

pub mod text;
pub mod string_map;
pub mod keyed_table;
pub mod clock;
pub mod messages;
pub mod scheduler;
pub mod config;
pub mod admission;
pub mod agent_pool;
pub mod results;
pub mod episode_rules;
pub mod worker_status;
pub mod episode_coordinator;
pub mod obs;
pub mod episode_flow;
pub mod persistence;
pub mod state;
pub mod report_gate;
pub mod admin_query;
pub mod registry;
pub mod backend;
pub mod ids;
pub mod obs_views;
pub mod execution_backend;
pub mod agent_job;
pub mod obs_timeline;
pub mod chain_state;
pub mod obs_merge;
pub mod obs_summary;
pub mod obs_ingest;
pub mod control_plane;
pub mod recovery;
pub mod obs_project;
pub mod store_rules;
pub mod fleet_sync;
pub mod report_flow;
pub mod completion_flow;
pub mod admin_actions;
pub mod gateway_session;
pub mod admin_http;
pub mod server_caches;
pub mod episode_context;
pub mod active_episodes;
