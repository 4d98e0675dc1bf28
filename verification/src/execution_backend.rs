//! Which backend runs an episode: a native worker, or a SWE agent when the
//! request is a `swe` episode whose JSON payload asks for agent execution
//! and names an instance.
use crate::messages::EpisodeRequest;
use crate::string_map::StringMap;
use crate::text::str_eq;
use vstd::prelude::*;

verus! {

broadcast use vstd::string::group_string_axioms;

/// The string at `key` of the JSON object that the payload holds; `None`
/// when the payload is not JSON, not an object, lacks the key or holds no
/// string there.
pub uninterp spec fn payload_str_field(payload: Seq<u8>, key: Seq<char>) -> Option<Seq<char>>;

/// The integer at `key` of the JSON object that the payload holds, when it
/// is one that fits an `i64`.
pub uninterp spec fn payload_i64_field(payload: Seq<u8>, key: Seq<char>) -> Option<i64>;

/// The entries of the JSON object at `key` of the payload's object, each
/// with its string value or `None` for a value that is no string.
pub uninterp spec fn payload_object_field(payload: Seq<u8>, key: Seq<char>) -> Option<Seq<(Seq<char>, Option<Seq<char>>)>>;

/// The character view of an optional string.
pub open spec fn opt_view(o: Option<String>) -> Option<Seq<char>> {
    match o {
        Some(s) => Some(s@),
        None => None,
    }
}

/// The character view of an object's entries.
pub open spec fn entries_view(v: Seq<(String, Option<String>)>) -> Seq<(Seq<char>, Option<Seq<char>>)> {
    v.map_values(|e: (String, Option<String>)| (e.0@, opt_view(e.1)))
}

/// The character view of an optional object.
pub open spec fn object_view(o: Option<Vec<(String, Option<String>)>>) -> Option<Seq<(Seq<char>, Option<Seq<char>>)>> {
    match o {
        Some(v) => Some(entries_view(v@)),
        None => None,
    }
}

/// Parses the payload with `serde_json::from_slice` into a `Value` and reads
/// `get(key)` then `as_str`. The result is named, not stated.
#[verifier::external_body]
pub(crate) fn json_str_field(payload: &Vec<u8>, key: &str) -> (r: Option<String>)
    ensures
        opt_view(r) == payload_str_field(payload@, key@),
{
    let v: serde_json::Value = serde_json::from_slice(payload.as_slice()).ok()?;
    v.get(key).and_then(|x| x.as_str()).map(|s| s.to_string())
}

/// Parses the payload with `serde_json::from_slice` into a `Value` and reads
/// `get(key)` then `as_i64`. The result is named, not stated.
#[verifier::external_body]
fn json_i64_field(payload: &Vec<u8>, key: &str) -> (r: Option<i64>)
    ensures
        r == payload_i64_field(payload@, key@),
{
    let v: serde_json::Value = serde_json::from_slice(payload.as_slice()).ok()?;
    v.get(key).and_then(|x| x.as_i64())
}

/// Parses the payload with `serde_json::from_slice` into a `Value`, reads
/// `get(key)` then `as_object`, and lists the object's entries with each
/// value's `as_str`. The result is named, not stated.
#[verifier::external_body]
fn json_object_field(payload: &Vec<u8>, key: &str) -> (r: Option<Vec<(String, Option<String>)>>)
    ensures
        object_view(r) == payload_object_field(payload@, key@),
{
    let v: serde_json::Value = serde_json::from_slice(payload.as_slice()).ok()?;
    let obj = v.get(key)?.as_object()?;
    let mut out = Vec::new();
    for (k, val) in obj.iter() {
        out.push((k.clone(), val.as_str().map(|s| s.to_string())));
    }
    Some(out)
}

/// How a SWE agent runs an episode, as its request's payload gives it.
#[derive(Debug)]
pub struct SweAgentSpec {
    /// The benchmark instance the agent works on.
    pub instance_id: String,
    pub benchmark_variant: String,
    pub command_mode: String,
    /// The agent's mode; `llm` unless the payload names one.
    pub mode: String,
    pub agent_bridge_id: String,
    pub agent_bridge_version: String,
    /// The agent pool to use; empty to let the registry choose.
    pub agent_pool_id: String,
    pub driver_entrypoint: String,
    pub workspace_dir: String,
    pub llm_config_path: String,
    /// The agent's iteration limit; 0 leaves it to the agent.
    pub max_iterations: i32,
    /// Labels an agent must carry.
    pub pool_selector: StringMap,
}

/// The payload fields that make a SWE agent spec, as read from the JSON.
#[derive(Debug)]
pub struct SwePayloadFields {
    pub execution_mode: Option<String>,
    pub instance_id: Option<String>,
    pub benchmark_variant: Option<String>,
    pub command_mode: Option<String>,
    pub mode: Option<String>,
    pub agent_bridge_id: Option<String>,
    pub agent_bridge_version: Option<String>,
    pub agent_pool_id: Option<String>,
    pub driver_entrypoint: Option<String>,
    pub workspace_dir: Option<String>,
    pub llm_config_path: Option<String>,
    pub max_iterations: Option<i64>,
    pub pool_selector: Option<Vec<(String, Option<String>)>>,
}

/// A string field, empty when absent.
pub open spec fn or_empty(o: Option<Seq<char>>) -> Seq<char> {
    match o {
        Some(s) => s,
        None => Seq::empty(),
    }
}

/// The map that a list of entries gives when only the string values are
/// kept, a later entry for a key replacing an earlier one.
pub open spec fn string_entries_map(v: Seq<(Seq<char>, Option<Seq<char>>)>) -> Map<Seq<char>, Seq<char>>
    decreases v.len(),
{
    if v.len() == 0 {
        Map::empty()
    } else {
        let m = string_entries_map(v.drop_last());
        match v.last().1 {
            Some(s) => m.insert(v.last().0, s),
            None => m,
        }
    }
}

/// Does the spec carry exactly what the fields say: the string fields (empty
/// when absent), mode `llm` when empty, the iteration limit cut to 32 bits
/// (0 when absent), and the selector's string-valued entries?
pub open spec fn spec_matches_fields(
    s: SweAgentSpec,
    instance_id: Seq<char>,
    benchmark_variant: Option<Seq<char>>,
    command_mode: Option<Seq<char>>,
    mode: Option<Seq<char>>,
    agent_bridge_id: Option<Seq<char>>,
    agent_bridge_version: Option<Seq<char>>,
    agent_pool_id: Option<Seq<char>>,
    driver_entrypoint: Option<Seq<char>>,
    workspace_dir: Option<Seq<char>>,
    llm_config_path: Option<Seq<char>>,
    max_iterations: Option<i64>,
    pool_selector: Option<Seq<(Seq<char>, Option<Seq<char>>)>>,
) -> bool {
    &&& s.instance_id@ == instance_id
    &&& s.benchmark_variant@ == or_empty(benchmark_variant)
    &&& s.command_mode@ == or_empty(command_mode)
    &&& s.mode@ == (if or_empty(mode).len() == 0 { "llm"@ } else { or_empty(mode) })
    &&& s.agent_bridge_id@ == or_empty(agent_bridge_id)
    &&& s.agent_bridge_version@ == or_empty(agent_bridge_version)
    &&& s.agent_pool_id@ == or_empty(agent_pool_id)
    &&& s.driver_entrypoint@ == or_empty(driver_entrypoint)
    &&& s.workspace_dir@ == or_empty(workspace_dir)
    &&& s.llm_config_path@ == or_empty(llm_config_path)
    &&& s.max_iterations == (match max_iterations {
        Some(n) => n as i32,
        None => 0i32,
    })
    &&& s.pool_selector@ == (match pool_selector {
        Some(v) => string_entries_map(v),
        None => Map::empty(),
    })
}

fn text_or_empty(o: Option<String>) -> (s: String)
    ensures
        s@ == or_empty(opt_view(o)),
{
    match o {
        Some(s) => s,
        None => String::new(),
    }
}

fn selector_map(entries: Option<Vec<(String, Option<String>)>>) -> (m: StringMap)
    ensures
        m@ == (match object_view(entries) {
            Some(v) => string_entries_map(v),
            None => Map::empty(),
        }),
{
    let mut m = StringMap::new();
    match entries {
        Some(v) => {
            let ghost ev = entries_view(v@);
            let mut i: usize = 0;
            while i < v.len()
                invariant
                    i <= v@.len(),
                    ev == entries_view(v@),
                    m@ == string_entries_map(ev.take(i as int)),
                decreases v@.len() - i,
            {
                proof {
                    assert(ev.take(i + 1).drop_last() =~= ev.take(i as int));
                    assert(ev.take(i + 1).last() == ev[i as int]);
                }
                match &v[i].1 {
                    Some(s) => {
                        m.insert(v[i].0.clone(), s.clone());
                    },
                    None => {},
                }
                i = i + 1;
            }
            proof {
                assert(ev.take(v@.len() as int) =~= ev);
            }
            m
        },
        None => m,
    }
}

impl SweAgentSpec {
    /// The spec that the payload fields give: none unless the execution mode
    /// is `agent` and an instance id is named.
    pub fn from_fields(f: SwePayloadFields) -> (r: Option<SweAgentSpec>)
        ensures
            (opt_view(f.execution_mode) == Some("agent"@) && or_empty(opt_view(f.instance_id)).len() > 0) <==> r is Some,
            r matches Some(s) ==> spec_matches_fields(
                s,
                or_empty(opt_view(f.instance_id)),
                opt_view(f.benchmark_variant),
                opt_view(f.command_mode),
                opt_view(f.mode),
                opt_view(f.agent_bridge_id),
                opt_view(f.agent_bridge_version),
                opt_view(f.agent_pool_id),
                opt_view(f.driver_entrypoint),
                opt_view(f.workspace_dir),
                opt_view(f.llm_config_path),
                f.max_iterations,
                object_view(f.pool_selector),
            ),
    {
        let is_agent = match &f.execution_mode {
            Some(m) => str_eq(m.as_str(), "agent"),
            None => false,
        };
        if !is_agent {
            return None;
        }
        let instance_id = text_or_empty(f.instance_id);
        if instance_id.as_str().unicode_len() == 0 {
            return None;
        }
        let mode = text_or_empty(f.mode);
        let mode = if mode.as_str().unicode_len() == 0 { "llm".to_string() } else { mode };
        let max_iterations: i32 = match f.max_iterations {
            Some(n) => n as i32,
            None => 0,
        };
        Some(
            SweAgentSpec {
                instance_id,
                benchmark_variant: text_or_empty(f.benchmark_variant),
                command_mode: text_or_empty(f.command_mode),
                mode,
                agent_bridge_id: text_or_empty(f.agent_bridge_id),
                agent_bridge_version: text_or_empty(f.agent_bridge_version),
                agent_pool_id: text_or_empty(f.agent_pool_id),
                driver_entrypoint: text_or_empty(f.driver_entrypoint),
                workspace_dir: text_or_empty(f.workspace_dir),
                llm_config_path: text_or_empty(f.llm_config_path),
                max_iterations,
                pool_selector: selector_map(f.pool_selector),
            },
        )
    }

    /// The SWE agent spec of a request's JSON payload: present only when the
    /// payload's `execution_mode` is `agent` and its `instance_id` is not
    /// empty.
    pub fn from_payload(req: &EpisodeRequest) -> (r: Option<SweAgentSpec>)
        ensures
            (payload_str_field(req.payload@, "execution_mode"@) == Some("agent"@) && or_empty(
                payload_str_field(req.payload@, "instance_id"@),
            ).len() > 0) <==> r is Some,
            r matches Some(s) ==> spec_matches_fields(
                s,
                or_empty(payload_str_field(req.payload@, "instance_id"@)),
                payload_str_field(req.payload@, "benchmark_variant"@),
                payload_str_field(req.payload@, "command_mode"@),
                payload_str_field(req.payload@, "mode"@),
                payload_str_field(req.payload@, "agent_bridge_id"@),
                payload_str_field(req.payload@, "agent_bridge_version"@),
                payload_str_field(req.payload@, "agent_pool_id"@),
                payload_str_field(req.payload@, "driver_entrypoint"@),
                payload_str_field(req.payload@, "workspace_dir"@),
                payload_str_field(req.payload@, "llm_config_path"@),
                payload_i64_field(req.payload@, "max_iterations"@),
                payload_object_field(req.payload@, "pool_selector"@),
            ),
    {
        let p = &req.payload;
        let fields = SwePayloadFields {
            execution_mode: json_str_field(p, "execution_mode"),
            instance_id: json_str_field(p, "instance_id"),
            benchmark_variant: json_str_field(p, "benchmark_variant"),
            command_mode: json_str_field(p, "command_mode"),
            mode: json_str_field(p, "mode"),
            agent_bridge_id: json_str_field(p, "agent_bridge_id"),
            agent_bridge_version: json_str_field(p, "agent_bridge_version"),
            agent_pool_id: json_str_field(p, "agent_pool_id"),
            driver_entrypoint: json_str_field(p, "driver_entrypoint"),
            workspace_dir: json_str_field(p, "workspace_dir"),
            llm_config_path: json_str_field(p, "llm_config_path"),
            max_iterations: json_i64_field(p, "max_iterations"),
            pool_selector: json_object_field(p, "pool_selector"),
        };
        SweAgentSpec::from_fields(fields)
    }
}

/// The backend chosen for an episode.
#[derive(Debug)]
pub enum SelectedExecutionBackend {
    Native,
    SweAgent(SweAgentSpec),
}

/// A `swe` episode whose payload gives a SWE agent spec runs on an agent,
/// with that spec (see `SweAgentSpec::from_payload`); every other episode
/// runs on a native worker.
pub fn select_execution_backend(req: &EpisodeRequest) -> (b: SelectedExecutionBackend)
    ensures
        (req.env_type@ == "swe"@ && payload_str_field(req.payload@, "execution_mode"@) == Some("agent"@) && or_empty(
            payload_str_field(req.payload@, "instance_id"@),
        ).len() > 0) <==> b is SweAgent,
        b matches SelectedExecutionBackend::SweAgent(s) ==> spec_matches_fields(
            s,
            or_empty(payload_str_field(req.payload@, "instance_id"@)),
            payload_str_field(req.payload@, "benchmark_variant"@),
            payload_str_field(req.payload@, "command_mode"@),
            payload_str_field(req.payload@, "mode"@),
            payload_str_field(req.payload@, "agent_bridge_id"@),
            payload_str_field(req.payload@, "agent_bridge_version"@),
            payload_str_field(req.payload@, "agent_pool_id"@),
            payload_str_field(req.payload@, "driver_entrypoint"@),
            payload_str_field(req.payload@, "workspace_dir"@),
            payload_str_field(req.payload@, "llm_config_path"@),
            payload_i64_field(req.payload@, "max_iterations"@),
            payload_object_field(req.payload@, "pool_selector"@),
        ),
{
    if str_eq(req.env_type.as_str(), "swe") {
        if let Some(spec) = SweAgentSpec::from_payload(req) {
            return SelectedExecutionBackend::SweAgent(spec);
        }
    }
    SelectedExecutionBackend::Native
}

} // verus!
