//! The runtime gateway's session interface as the server uses it: the
//! addresses to call, the body that asks for an episode's session, and how
//! the gateway's answer is read.
use crate::execution_backend::{json_str_field, payload_str_field, SweAgentSpec};
use crate::obs_merge::prefixed;
use crate::obs_project::{entry_views, json_string_object, string_object_json};
use crate::text::{chars_of, string_from_chars};
use vstd::prelude::*;

verus! {

broadcast use vstd::string::group_string_axioms;

/// The session a gateway opened for an episode.
#[derive(Debug, Clone)]
pub struct ForEpisodeSession {
    pub session_id: String,
    /// Where the agent reaches the session.
    pub gateway_url: String,
}

/// `s` without the `/` characters at its end.
pub open spec fn without_trailing_slashes(s: Seq<char>) -> Seq<char>
    decreases s.len(),
{
    if s.len() > 0 && s.last() == '/' {
        without_trailing_slashes(s.drop_last())
    } else {
        s
    }
}

pub(crate) fn trim_trailing_slashes(s: &str) -> (r: String)
    ensures
        r@ == without_trailing_slashes(s@),
{
    let mut chars = chars_of(s);
    proof {
        assert(chars@ =~= s@);
    }
    while chars.len() > 0 && chars[chars.len() - 1] == '/'
        invariant
            without_trailing_slashes(chars@) == without_trailing_slashes(s@),
        decreases chars@.len(),
    {
        let ghost before = chars@;
        chars.pop();
        proof {
            assert(chars@ =~= before.drop_last());
        }
    }
    string_from_chars(&chars)
}

/// The address that asks the gateway for an episode's session.
pub fn for_episode_url(gateway_public_url: &str) -> (u: String)
    ensures
        u@ == without_trailing_slashes(gateway_public_url@) + "/runtime/v1/sessions/for-episode"@,
{
    let base = trim_trailing_slashes(gateway_public_url);
    prefixed(base.as_str(), "/runtime/v1/sessions/for-episode")
}

/// The address of a session, for closing it.
pub fn session_url(gateway_public_url: &str, session_id: &str) -> (u: String)
    ensures
        u@ == without_trailing_slashes(gateway_public_url@) + "/runtime/v1/sessions/"@ + session_id@,
{
    let base = trim_trailing_slashes(gateway_public_url);
    let head = prefixed(base.as_str(), "/runtime/v1/sessions/");
    prefixed(head.as_str(), session_id)
}

/// The members of the request for an episode's session: the instance, the
/// episode and the run, then the benchmark variant and the command mode when
/// they are set.
pub open spec fn for_episode_members(instance_id: Seq<char>, episode_id: Seq<char>, run_id: Seq<char>, benchmark_variant: Seq<char>, command_mode: Seq<char>) -> Seq<(Seq<char>, Seq<char>)> {
    let base = seq![("instance_id"@, instance_id), ("episode_id"@, episode_id), ("run_id"@, run_id)];
    let with_variant = if benchmark_variant.len() > 0 { base.push(("benchmark_variant"@, benchmark_variant)) } else { base };
    if command_mode.len() > 0 { with_variant.push(("command_mode"@, command_mode)) } else { with_variant }
}

/// The JSON body that asks for an episode's session (see `for_episode_members`).
pub fn for_episode_body(spec: &SweAgentSpec, episode_id: &str, run_id: &str) -> (b: Vec<u8>)
    ensures
        b@ == string_object_json(
            for_episode_members(spec.instance_id@, episode_id@, run_id@, spec.benchmark_variant@, spec.command_mode@),
        ),
{
    let mut entries: Vec<(String, String)> = Vec::new();
    entries.push(("instance_id".to_string(), spec.instance_id.clone()));
    entries.push(("episode_id".to_string(), episode_id.to_string()));
    entries.push(("run_id".to_string(), run_id.to_string()));
    if spec.benchmark_variant.as_str().unicode_len() > 0 {
        entries.push(("benchmark_variant".to_string(), spec.benchmark_variant.clone()));
    }
    if spec.command_mode.as_str().unicode_len() > 0 {
        entries.push(("command_mode".to_string(), spec.command_mode.clone()));
    }
    proof {
        assert(entry_views(entries@) =~= for_episode_members(
            spec.instance_id@,
            episode_id@,
            run_id@,
            spec.benchmark_variant@,
            spec.command_mode@,
        ));
    }
    json_string_object(&entries)
}

/// The gateway's answer read: its `session_id` (none when missing) and its
/// `gateway_url`, or the public address when that is missing or empty. A
/// session without an id cannot be closed later, so it is refused.
pub fn read_for_episode_reply(body: &Vec<u8>, gateway_public_url: &str) -> (r: Result<ForEpisodeSession, String>)
    ensures
        match payload_str_field(body@, "session_id"@) {
            Some(id) if id.len() > 0 => r matches Ok(s) && s.session_id@ == id && s.gateway_url@ == match payload_str_field(
                body@,
                "gateway_url"@,
            ) {
                Some(g) if g.len() > 0 => g,
                _ => gateway_public_url@,
            },
            _ => r matches Err(m) && m@ == "for-episode returned empty session_id"@,
        },
{
    let session_id = match json_str_field(body, "session_id") {
        Some(s) => s,
        None => String::new(),
    };
    if session_id.as_str().unicode_len() == 0 {
        return Err("for-episode returned empty session_id".to_string());
    }
    let gateway_url = match json_str_field(body, "gateway_url") {
        Some(g) => {
            if g.as_str().unicode_len() > 0 {
                g
            } else {
                gateway_public_url.to_string()
            }
        },
        None => gateway_public_url.to_string(),
    };
    Ok(ForEpisodeSession { session_id, gateway_url })
}

} // verus!
