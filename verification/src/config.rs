//! Server configuration: the built-in defaults, the rules that a loaded
//! configuration must meet, and where the state database lives.
//!
//! Reading and parsing the YAML file happens outside the library; the parsed
//! values arrive here as a `ServerConfig`.
use crate::string_map::StringMap;
use crate::text::{is_blank, trim_spec};
use vstd::prelude::*;
use vstd::string::StringExecFns;

verus! {

broadcast use vstd::string::group_string_axioms;

/// Scheduler settings.
#[derive(Debug, Clone)]
pub struct SchedulerConfig {
    pub strategy: String,
    /// A worker with load and no completed episode for this long is degraded.
    pub worker_degraded_threshold_secs: u64,
    /// Wait between scheduling attempts when no worker is free.
    pub schedule_retry_interval_ms: u64,
    /// Heartbeat interval suggested to workers.
    pub heartbeat_interval_ms: u64,
    /// A worker silent for this long counts as disconnected.
    pub heartbeat_timeout_secs: u64,
    /// A worker silent for this long is shown as offline.
    pub worker_offline_timeout_secs: u64,
    /// Benchmark variant to agent pool routing.
    pub agent_pool_routing: StringMap,
}

/// Episode execution settings.
#[derive(Debug, Clone)]
pub struct EpisodeConfig {
    pub default_timeout_secs: u64,
    pub stale_warning_secs: u64,
    pub max_attempts: u32,
    pub broadcast_capacity: usize,
    /// Static in-flight limit; 0 means unlimited. Ignored in dynamic mode.
    pub queue_max_in_flight: usize,
    /// The in-flight limit follows the registered worker capacity.
    pub queue_dynamic: bool,
    pub completed_async_ttl_secs: u64,
    pub completed_async_max_entries: usize,
    pub agent_job_pickup_timeout_secs: u64,
}

/// State database settings.
#[derive(Debug, Clone)]
pub struct PersistenceConfig {
    pub enabled: bool,
    pub db_path: String,
    pub busy_timeout_ms: u64,
    pub terminal_ttl_secs: u64,
    pub idempotency_ttl_secs: u64,
    pub recovery_grace_secs: u64,
    pub max_completed_entries: usize,
    pub max_result_bytes: u64,
    pub max_database_bytes: u64,
    pub max_wal_bytes: u64,
    pub min_free_space_bytes: u64,
    pub writer_queue_capacity: usize,
    pub shutdown_grace_secs: u64,
}

/// The whole server configuration.
#[derive(Debug, Clone)]
pub struct ServerConfig {
    pub port: u16,
    /// Admin HTTP port; 0 disables it.
    pub admin_http_port: u16,
    pub admin_http_bind: String,
    /// Admin token; empty means no token is checked.
    pub admin_http_token: String,
    pub scheduler: SchedulerConfig,
    pub episode: EpisodeConfig,
    pub persistence: PersistenceConfig,
}

impl Default for SchedulerConfig {
    fn default() -> (c: Self)
        ensures
            c.strategy@ == "round_robin"@,
            c.worker_degraded_threshold_secs == 400,
            c.schedule_retry_interval_ms == 500,
            c.heartbeat_interval_ms == 5000,
            c.heartbeat_timeout_secs == 30,
            c.worker_offline_timeout_secs == 90,
            c.agent_pool_routing@ == Map::<Seq<char>, Seq<char>>::empty(),
    {
        SchedulerConfig {
            strategy: "round_robin".to_string(),
            worker_degraded_threshold_secs: 400,
            schedule_retry_interval_ms: 500,
            heartbeat_interval_ms: 5000,
            heartbeat_timeout_secs: 30,
            worker_offline_timeout_secs: 90,
            agent_pool_routing: StringMap::new(),
        }
    }
}

impl Default for EpisodeConfig {
    fn default() -> (c: Self)
        ensures
            c.default_timeout_secs == 300,
            c.stale_warning_secs == 150,
            c.max_attempts == 3,
            c.broadcast_capacity == 1024,
            c.queue_max_in_flight == 0,
            !c.queue_dynamic,
            c.completed_async_ttl_secs == 3600,
            c.completed_async_max_entries == 10000,
            c.agent_job_pickup_timeout_secs == 30,
    {
        EpisodeConfig {
            default_timeout_secs: 300,
            stale_warning_secs: 150,
            max_attempts: 3,
            broadcast_capacity: 1024,
            queue_max_in_flight: 0,
            queue_dynamic: false,
            completed_async_ttl_secs: 3600,
            completed_async_max_entries: 10000,
            agent_job_pickup_timeout_secs: 30,
        }
    }
}

impl Default for PersistenceConfig {
    fn default() -> (c: Self)
        ensures
            c.enabled,
            c.db_path@ == "./server-state/server-state.db"@,
            c.busy_timeout_ms == 5000,
            c.terminal_ttl_secs == 86400,
            c.idempotency_ttl_secs == 3600,
            c.recovery_grace_secs == 30,
            c.max_completed_entries == 100000,
            c.max_result_bytes == 16 * 1024 * 1024,
            c.max_database_bytes == 100 * 1024 * 1024 * 1024,
            c.max_wal_bytes == 1024 * 1024 * 1024,
            c.min_free_space_bytes == 10 * 1024 * 1024 * 1024,
            c.writer_queue_capacity == 4096,
            c.shutdown_grace_secs == 45,
    {
        PersistenceConfig {
            enabled: true,
            db_path: "./server-state/server-state.db".to_string(),
            busy_timeout_ms: 5000,
            terminal_ttl_secs: 86400,
            idempotency_ttl_secs: 3600,
            recovery_grace_secs: 30,
            max_completed_entries: 100000,
            max_result_bytes: 16 * 1024 * 1024,
            max_database_bytes: 100 * 1024 * 1024 * 1024,
            max_wal_bytes: 1024 * 1024 * 1024,
            min_free_space_bytes: 10 * 1024 * 1024 * 1024,
            writer_queue_capacity: 4096,
            shutdown_grace_secs: 45,
        }
    }
}

impl Default for ServerConfig {
    fn default() -> (c: Self)
        ensures
            c.port == 50051,
            c.admin_http_port == 50052,
            c.admin_http_bind@ == "127.0.0.1"@,
            c.admin_http_token@.len() == 0,
            c.scheduler.strategy@ == "round_robin"@,
            c.scheduler.worker_degraded_threshold_secs == 400,
            c.scheduler.schedule_retry_interval_ms == 500,
            c.scheduler.heartbeat_interval_ms == 5000,
            c.scheduler.heartbeat_timeout_secs == 30,
            c.scheduler.worker_offline_timeout_secs == 90,
            c.scheduler.agent_pool_routing@ == Map::<Seq<char>, Seq<char>>::empty(),
            c.episode.default_timeout_secs == 300,
            c.episode.stale_warning_secs == 150,
            c.episode.max_attempts == 3,
            c.episode.broadcast_capacity == 1024,
            c.episode.queue_max_in_flight == 0,
            !c.episode.queue_dynamic,
            c.episode.completed_async_ttl_secs == 3600,
            c.episode.completed_async_max_entries == 10000,
            c.episode.agent_job_pickup_timeout_secs == 30,
            c.persistence.enabled,
            c.persistence.db_path@ == "./server-state/server-state.db"@,
            c.persistence.busy_timeout_ms == 5000,
            c.persistence.terminal_ttl_secs == 86400,
            c.persistence.idempotency_ttl_secs == 3600,
            c.persistence.recovery_grace_secs == 30,
            c.persistence.max_completed_entries == 100000,
            c.persistence.max_result_bytes == 16 * 1024 * 1024,
            c.persistence.max_database_bytes == 100 * 1024 * 1024 * 1024,
            c.persistence.max_wal_bytes == 1024 * 1024 * 1024,
            c.persistence.min_free_space_bytes == 10 * 1024 * 1024 * 1024,
            c.persistence.writer_queue_capacity == 4096,
            c.persistence.shutdown_grace_secs == 45,
    {
        ServerConfig {
            port: 50051,
            admin_http_port: 50052,
            admin_http_bind: "127.0.0.1".to_string(),
            admin_http_token: String::new(),
            scheduler: SchedulerConfig::default(),
            episode: EpisodeConfig::default(),
            persistence: PersistenceConfig::default(),
        }
    }
}

/// The first rule that a configuration breaks, in the order they are checked.
#[derive(Debug, Clone, Copy, PartialEq, Eq)]
pub enum ConfigProblem {
    UnsupportedStrategy,
    ZeroScheduleRetryInterval,
    ZeroHeartbeatInterval,
    ZeroHeartbeatTimeout,
    ZeroDefaultTimeout,
    ZeroMaxAttempts,
    ZeroBroadcastCapacity,
    EmptyDbPath,
    ZeroBusyTimeout,
    ZeroWriterQueueCapacity,
    ZeroByteLimit,
    ResultLimitAboveDatabaseLimit,
    ZeroShutdownGrace,
}

/// The first rule that `c` breaks, if any. Persistence rules apply only when
/// persistence is enabled.
pub open spec fn first_problem(c: ServerConfig) -> Option<ConfigProblem> {
    if c.scheduler.strategy@ != "round_robin"@ {
        Some(ConfigProblem::UnsupportedStrategy)
    } else if c.scheduler.schedule_retry_interval_ms == 0 {
        Some(ConfigProblem::ZeroScheduleRetryInterval)
    } else if c.scheduler.heartbeat_interval_ms == 0 {
        Some(ConfigProblem::ZeroHeartbeatInterval)
    } else if c.scheduler.heartbeat_timeout_secs == 0 {
        Some(ConfigProblem::ZeroHeartbeatTimeout)
    } else if c.episode.default_timeout_secs == 0 {
        Some(ConfigProblem::ZeroDefaultTimeout)
    } else if c.episode.max_attempts == 0 {
        Some(ConfigProblem::ZeroMaxAttempts)
    } else if c.episode.broadcast_capacity == 0 {
        Some(ConfigProblem::ZeroBroadcastCapacity)
    } else if !c.persistence.enabled {
        None
    } else if trim_spec(c.persistence.db_path@).len() == 0 {
        Some(ConfigProblem::EmptyDbPath)
    } else if c.persistence.busy_timeout_ms == 0 {
        Some(ConfigProblem::ZeroBusyTimeout)
    } else if c.persistence.writer_queue_capacity == 0 {
        Some(ConfigProblem::ZeroWriterQueueCapacity)
    } else if c.persistence.max_result_bytes == 0 || c.persistence.max_database_bytes == 0
        || c.persistence.max_wal_bytes == 0 {
        Some(ConfigProblem::ZeroByteLimit)
    } else if c.persistence.max_result_bytes > c.persistence.max_database_bytes {
        Some(ConfigProblem::ResultLimitAboveDatabaseLimit)
    } else if c.persistence.shutdown_grace_secs == 0 {
        Some(ConfigProblem::ZeroShutdownGrace)
    } else {
        None
    }
}

/// The error message for a broken rule.
pub open spec fn problem_message(c: ServerConfig, p: ConfigProblem) -> Seq<char> {
    match p {
        ConfigProblem::UnsupportedStrategy => "unsupported scheduler.strategy '"@
            + c.scheduler.strategy@ + "': expected 'round_robin'"@,
        ConfigProblem::ZeroScheduleRetryInterval => "scheduler.schedule_retry_interval_ms must be greater than 0"@,
        ConfigProblem::ZeroHeartbeatInterval => "scheduler.heartbeat_interval_ms must be greater than 0"@,
        ConfigProblem::ZeroHeartbeatTimeout => "scheduler.heartbeat_timeout_secs must be greater than 0"@,
        ConfigProblem::ZeroDefaultTimeout => "episode.default_timeout_secs must be greater than 0"@,
        ConfigProblem::ZeroMaxAttempts => "episode.max_attempts must be greater than 0"@,
        ConfigProblem::ZeroBroadcastCapacity => "episode.broadcast_capacity must be greater than 0"@,
        ConfigProblem::EmptyDbPath => "persistence.db_path must not be empty"@,
        ConfigProblem::ZeroBusyTimeout => "persistence.busy_timeout_ms must be greater than 0"@,
        ConfigProblem::ZeroWriterQueueCapacity => "persistence.writer_queue_capacity must be greater than 0"@,
        ConfigProblem::ZeroByteLimit => "persistence byte limits must be greater than 0"@,
        ConfigProblem::ResultLimitAboveDatabaseLimit => "persistence.max_result_bytes must not exceed max_database_bytes"@,
        ConfigProblem::ZeroShutdownGrace => "persistence.shutdown_grace_secs must be greater than 0"@,
    }
}

/// `a`, `b` and `c` written one after another.
pub(crate) fn concat3(a: &str, b: &str, c: &str) -> (s: String)
    ensures
        s@ == a@ + b@ + c@,
{
    let mut s = <String as StringExecFns>::from_str(a);
    s.append(b);
    s.append(c);
    s
}

fn message(s: &str) -> (m: String)
    ensures
        m@ == s@,
{
    s.to_string()
}

/// `p` read as a Unix path: does it start at the root?
pub open spec fn is_absolute_path(p: Seq<char>) -> bool {
    p.len() > 0 && p[0] == '/'
}

/// Position of the last `/` in the first `n` characters of `p`, if any.
pub open spec fn last_slash_before(p: Seq<char>, n: int) -> Option<int>
    decreases n,
{
    if n <= 0 {
        None
    } else if p[n - 1] == '/' {
        Some(n - 1)
    } else {
        last_slash_before(p, n - 1)
    }
}

/// Length of `p` without its trailing slashes.
pub open spec fn trimmed_len(p: Seq<char>, n: int) -> int
    decreases n,
{
    if n <= 0 {
        0
    } else if p[n - 1] == '/' {
        trimmed_len(p, n - 1)
    } else {
        n
    }
}

/// The directory that holds `p`, read as a Unix path: everything before its
/// last component (trailing slashes ignored); `""` for a bare file name,
/// `"/"` for a file at the root, and `None` for the root or the empty path.
pub open spec fn parent_dir(p: Seq<char>) -> Option<Seq<char>> {
    let t = trimmed_len(p, p.len() as int);
    if t == 0 {
        None
    } else {
        match last_slash_before(p, t) {
            None => Some(Seq::empty()),
            Some(i) => if i == 0 { Some(seq!['/']) } else { Some(p.subrange(0, i)) },
        }
    }
}

/// `base` joined with a relative path.
pub open spec fn join_path(base: Seq<char>, rel: Seq<char>) -> Seq<char> {
    if base.len() == 0 {
        rel
    } else if base[base.len() - 1] == '/' {
        base + rel
    } else {
        base + seq!['/'] + rel
    }
}

/// Where the state database lives: an absolute `db_path` as it is, a
/// relative one next to the configuration file (or under `.` when the file
/// name has no directory part).
pub open spec fn db_path_spec(db_path: Seq<char>, config_path: Seq<char>) -> Seq<char> {
    if is_absolute_path(db_path) {
        db_path
    } else {
        match parent_dir(config_path) {
            Some(d) => join_path(d, db_path),
            None => join_path(seq!['.'], db_path),
        }
    }
}

fn trimmed_length(p: &str) -> (t: usize)
    ensures
        t == trimmed_len(p@, p@.len() as int),
        t <= p@.len(),
{
    let mut n = p.unicode_len();
    while n > 0 && p.get_char(n - 1) == '/'
        invariant
            n <= p@.len(),
            trimmed_len(p@, p@.len() as int) == trimmed_len(p@, n as int),
        decreases n,
    {
        n = n - 1;
    }
    n
}

fn last_slash(p: &str, n: usize) -> (r: Option<usize>)
    requires
        n <= p@.len(),
    ensures
        match last_slash_before(p@, n as int) {
            Some(i) => r == Some(i as usize),
            None => r is None,
        },
        r matches Some(i) ==> i < n && last_slash_before(p@, n as int) == Some(i as int),
{
    let mut k = n;
    while k > 0 && p.get_char(k - 1) != '/'
        invariant
            k <= n <= p@.len(),
            last_slash_before(p@, n as int) == last_slash_before(p@, k as int),
        decreases k,
    {
        k = k - 1;
    }
    if k == 0 {
        None
    } else {
        Some(k - 1)
    }
}

pub(crate) fn join(base: &str, rel: &str) -> (s: String)
    ensures
        s@ == join_path(base@, rel@),
{
    let n = base.unicode_len();
    if n == 0 {
        rel.to_string()
    } else if base.get_char(n - 1) == '/' {
        let s = concat3(base, "", rel);
        proof {
            reveal_strlit("");
            assert(base@ + ""@ + rel@ =~= base@ + rel@);
        }
        s
    } else {
        let s = concat3(base, "/", rel);
        proof {
            reveal_strlit("/");
            assert("/"@ =~= seq!['/']);
        }
        s
    }
}

impl ServerConfig {
    /// Checks the configuration rules; the error names the first rule broken.
    pub fn validate(&self) -> (r: Result<(), String>)
        ensures
            r is Ok <==> first_problem(*self) is None,
            r matches Err(m) ==> first_problem(*self) matches Some(p) && m@ == problem_message(*self, p),
    {
        if self.scheduler.strategy != "round_robin".to_string() {
            return Err(concat3("unsupported scheduler.strategy '", self.scheduler.strategy.as_str(), "': expected 'round_robin'"));
        }
        if self.scheduler.schedule_retry_interval_ms == 0 {
            return Err(message("scheduler.schedule_retry_interval_ms must be greater than 0"));
        }
        if self.scheduler.heartbeat_interval_ms == 0 {
            return Err(message("scheduler.heartbeat_interval_ms must be greater than 0"));
        }
        if self.scheduler.heartbeat_timeout_secs == 0 {
            return Err(message("scheduler.heartbeat_timeout_secs must be greater than 0"));
        }
        if self.episode.default_timeout_secs == 0 {
            return Err(message("episode.default_timeout_secs must be greater than 0"));
        }
        if self.episode.max_attempts == 0 {
            return Err(message("episode.max_attempts must be greater than 0"));
        }
        if self.episode.broadcast_capacity == 0 {
            return Err(message("episode.broadcast_capacity must be greater than 0"));
        }
        if self.persistence.enabled {
            if is_blank(self.persistence.db_path.as_str()) {
                return Err(message("persistence.db_path must not be empty"));
            }
            if self.persistence.busy_timeout_ms == 0 {
                return Err(message("persistence.busy_timeout_ms must be greater than 0"));
            }
            if self.persistence.writer_queue_capacity == 0 {
                return Err(message("persistence.writer_queue_capacity must be greater than 0"));
            }
            if self.persistence.max_result_bytes == 0 || self.persistence.max_database_bytes == 0
                || self.persistence.max_wal_bytes == 0 {
                return Err(message("persistence byte limits must be greater than 0"));
            }
            if self.persistence.max_result_bytes > self.persistence.max_database_bytes {
                return Err(message("persistence.max_result_bytes must not exceed max_database_bytes"));
            }
            if self.persistence.shutdown_grace_secs == 0 {
                return Err(message("persistence.shutdown_grace_secs must be greater than 0"));
            }
        }
        Ok(())
    }

    /// Resolves `persistence.db_path` against the directory of the
    /// configuration file, so that it does not depend on the working
    /// directory.
    pub fn resolve_persistence_db_path(&self, config_path: &str) -> (p: String)
        ensures
            p@ == db_path_spec(self.persistence.db_path@, config_path@),
    {
        let db = self.persistence.db_path.as_str();
        if db.unicode_len() > 0 && db.get_char(0) == '/' {
            return self.persistence.db_path.clone();
        }
        let t = trimmed_length(config_path);
        if t == 0 {
            let r = join(".", db);
            proof {
                reveal_strlit(".");
                assert("."@ =~= seq!['.']);
            }
            return r;
        }
        match last_slash(config_path, t) {
            None => {
                let r = join("", db);
                proof {
                    reveal_strlit("");
                    assert(""@ =~= Seq::<char>::empty());
                    assert(parent_dir(config_path@) == Some(Seq::<char>::empty()));
                    assert(!is_absolute_path(db@));
                    assert(r@ == db@);
                }
                r
            },
            Some(0) => {
                let r = join("/", db);
                proof {
                    reveal_strlit("/");
                    assert("/"@ =~= seq!['/']);
                    assert(parent_dir(config_path@) == Some(seq!['/']));
                    assert(r@ == join_path(seq!['/'], db@));
                }
                r
            },
            Some(i) => {
                let d = config_path.substring_char(0, i);
                let r = join(d, db);
                assert(parent_dir(config_path@) == Some(config_path@.subrange(0, i as int)));
                r
            },
        }
    }
}

} // verus!
