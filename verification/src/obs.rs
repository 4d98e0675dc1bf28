//! Observability: the run identifiers events are filed under, the admission
//! rules that decide whether an event is merged into a run's state (closed
//! runs, per-source sequence numbers), the run lifecycle that run events
//! drive, and the configuration read from the environment.
use crate::config::{concat3, join, join_path};
use crate::keyed_table::KeyedTable;
use crate::text::{decimal, decimal_spec, eq_lowercased, lowered_eq, parse_usize, parsed_usize, str_eq, trim, trim_spec};
use vstd::prelude::*;

verus! {

broadcast use vstd::string::group_string_axioms;

/// What the merge did with an event.
#[derive(Debug, Clone, Copy, PartialEq, Eq, Structural)]
pub enum Disposition {
    Accepted,
    LateArrival,
    RejectedClosed,
    Duplicate,
    SeqStale,
}

/// The last event merged into a run.
#[derive(Debug, Clone)]
pub struct EventCursor {
    pub last_event_id: String,
    pub last_source_id: String,
    pub last_seq: u64,
    pub last_ingest_ts: i64,
}

/// Per-entity version bookkeeping.
#[derive(Debug)]
pub struct EntityVersion {
    pub confirmed_seq: u64,
    pub event_seq: u64,
    pub source_id: String,
}

impl Default for EntityVersion {
    fn default() -> (v: Self)
        ensures
            v.confirmed_seq == 0,
            v.event_seq == 0,
            v.source_id@ == Seq::<char>::empty(),
    {
        EntityVersion { confirmed_seq: 0, event_seq: 0, source_id: String::new() }
    }
}

/// The lifecycle of a run as the run events leave it.
#[derive(Debug)]
pub struct RunLifecycle {
    pub run_state: String,
    pub closed: bool,
}

impl Default for RunLifecycle {
    fn default() -> (l: Self)
        ensures
            l.run_state@ == Seq::<char>::empty(),
            !l.closed,
    {
        RunLifecycle { run_state: String::new(), closed: false }
    }
}

/// The states a run's lifecycle moves through.
#[derive(Debug, Clone, Copy, PartialEq, Eq, Structural)]
pub enum RunPhase {
    Pending,
    Running,
    Stopping,
    Closed,
}

/// The name a phase is shown under.
pub open spec fn phase_name(p: RunPhase) -> Seq<char> {
    match p {
        RunPhase::Pending => "PENDING"@,
        RunPhase::Running => "RUNNING"@,
        RunPhase::Stopping => "STOPPING"@,
        RunPhase::Closed => "CLOSED"@,
    }
}

/// The name a phase is shown under.
pub fn run_phase_name(p: RunPhase) -> (s: &'static str)
    ensures
        s@ == phase_name(p),
{
    match p {
        RunPhase::Pending => "PENDING",
        RunPhase::Running => "RUNNING",
        RunPhase::Stopping => "STOPPING",
        RunPhase::Closed => "CLOSED",
    }
}

/// The run under which events without a training run are filed.
pub fn orphan_run_id() -> (s: &'static str)
    ensures
        s@ == "_orphan"@,
{
    "_orphan"
}

/// The run an event is filed under: its training run id when it has a
/// non-empty one, the orphan run otherwise.
pub open spec fn resolved_run_id(raw: Option<Seq<char>>) -> Seq<char> {
    match raw {
        Some(s) => if s.len() > 0 { s } else { "_orphan"@ },
        None => "_orphan"@,
    }
}

/// The character view of an optional string slice.
pub open spec fn opt_str_view(raw: Option<&str>) -> Option<Seq<char>> {
    match raw {
        Some(s) => Some(s@),
        None => None,
    }
}

/// The run an event is filed under.
pub fn resolve_training_run_id(raw: Option<&str>) -> (s: String)
    ensures
        s@ == resolved_run_id(opt_str_view(raw)),
{
    match raw {
        Some(s) => {
            if s.unicode_len() > 0 {
                s.to_string()
            } else {
                orphan_run_id().to_string()
            }
        },
        None => orphan_run_id().to_string(),
    }
}

/// The source id of events that this server emits in an epoch: `server:` and
/// the epoch in decimal.
pub fn server_source_id(epoch: u64) -> (s: String)
    ensures
        s@ == "server:"@ + decimal_spec(epoch as nat),
{
    let n = decimal(epoch);
    let s = concat3("server:", n.as_str(), "");
    proof {
        reveal_strlit("");
        assert(s@ =~= "server:"@ + decimal_spec(epoch as nat));
    }
    s
}

/// The sequence counter of events that this server emits; numbers start at 1.
#[derive(Debug)]
pub struct ServerSeq {
    next: u64,
}

impl ServerSeq {
    /// The number the next event will get.
    pub closed spec fn upcoming(&self) -> u64 {
        self.next
    }

    /// A counter whose first number is 1.
    pub fn new() -> (c: Self)
        ensures
            c.upcoming() == 1,
    {
        ServerSeq { next: 1 }
    }
}

/// Takes the next server sequence number: numbers are handed out once each,
/// in increasing order (the counter wraps past `u64::MAX`).
pub fn next_server_seq(counter: &mut ServerSeq) -> (n: u64)
    ensures
        n == old(counter).upcoming(),
        final(counter).upcoming() == (if n == u64::MAX { 0 } else { (n + 1) as u64 }),
{
    let n = counter.next;
    counter.next = if n == u64::MAX { 0 } else { n + 1 };
    n
}

/// Is this one of the events that drive a run's lifecycle?
pub open spec fn is_run_event(t: Seq<char>) -> bool {
    t == "RUN_STARTED"@ || t == "RUN_STOPPED"@ || t == "RUN_CLOSED"@
}

/// Is the run closed?
pub open spec fn run_closed(lifecycles: Map<Seq<char>, (RunPhase, bool)>, run: Seq<char>) -> bool {
    lifecycles.contains_key(run) && lifecycles[run].1
}

/// What the merge does with an event of type `t` from `source` numbered
/// `seq`, filed under `run`: a closed run takes only run events; a source's
/// numbers must grow (a repeat is a duplicate, a lower one is stale).
pub open spec fn gate_decision(
    lifecycles: Map<Seq<char>, (RunPhase, bool)>,
    seqs: Map<Seq<char>, u64>,
    run: Seq<char>,
    t: Seq<char>,
    source: Seq<char>,
    seq: u64,
) -> Disposition {
    if run_closed(lifecycles, run) && !is_run_event(t) {
        Disposition::RejectedClosed
    } else if seqs.contains_key(source) && seq < seqs[source] {
        Disposition::SeqStale
    } else if seqs.contains_key(source) && seq == seqs[source] {
        Disposition::Duplicate
    } else {
        Disposition::Accepted
    }
}

/// A run's lifecycle, a fresh run being pending and open.
pub open spec fn lifecycle_of(lifecycles: Map<Seq<char>, (RunPhase, bool)>, run: Seq<char>) -> (RunPhase, bool) {
    if lifecycles.contains_key(run) {
        lifecycles[run]
    } else {
        (RunPhase::Pending, false)
    }
}

/// The lifecycle after an accepted event of type `t`.
pub open spec fn lifecycle_after(cur: (RunPhase, bool), t: Seq<char>) -> (RunPhase, bool) {
    if t == "RUN_STARTED"@ {
        (RunPhase::Running, false)
    } else if t == "RUN_STOPPED"@ {
        (RunPhase::Stopping, cur.1)
    } else if t == "RUN_CLOSED"@ {
        (RunPhase::Closed, true)
    } else {
        cur
    }
}

/// Does an accepted event of type `t` ask clients for a full state refresh?
pub open spec fn full_refresh_event(t: Seq<char>) -> bool {
    t == "RUN_STARTED"@ || t == "RUN_CLOSED"@
}

/// What `MergeGate::decide` reports.
#[derive(Debug)]
pub struct GateOutcome {
    pub disposition: Disposition,
    pub training_run_id: String,
    pub full_hint: bool,
}

/// The admission half of the observability merge: run lifecycles and the
/// last number merged from each source.
#[derive(Debug)]
pub struct MergeGate {
    lifecycles: KeyedTable<(RunPhase, bool)>,
    source_seq: KeyedTable<u64>,
}

impl MergeGate {
    /// Lifecycle (phase, closed) of each run seen so far.
    pub closed spec fn lifecycles_spec(&self) -> Map<Seq<char>, (RunPhase, bool)> {
        self.lifecycles@
    }

    /// Last number merged from each source.
    pub closed spec fn source_seqs(&self) -> Map<Seq<char>, u64> {
        self.source_seq@
    }

    /// No run and no source seen yet.
    pub fn new() -> (g: Self)
        ensures
            g.lifecycles_spec() == Map::<Seq<char>, (RunPhase, bool)>::empty(),
            g.source_seqs() == Map::<Seq<char>, u64>::empty(),
    {
        MergeGate { lifecycles: KeyedTable::new(), source_seq: KeyedTable::new() }
    }

    /// The lifecycle of a run, if it has been seen.
    pub fn lifecycle(&self, run_id: &str) -> (r: Option<RunLifecycle>)
        ensures
            match r {
                Some(l) => self.lifecycles_spec().contains_key(run_id@)
                    && l.run_state@ == phase_name(self.lifecycles_spec()[run_id@].0)
                    && l.closed == self.lifecycles_spec()[run_id@].1,
                None => !self.lifecycles_spec().contains_key(run_id@),
            },
    {
        match self.lifecycles.get(run_id) {
            Some(entry) => {
                let (phase, closed) = *entry;
                Some(RunLifecycle { run_state: run_phase_name(phase).to_string(), closed })
            },
            None => None,
        }
    }

    /// Moves a known run that is still pending to running (its closed flag
    /// kept); any other run is left as it is.
    pub fn start_if_pending(&mut self, run_id: &str)
        ensures
            final(self).source_seqs() == old(self).source_seqs(),
            final(self).lifecycles_spec() == (if old(self).lifecycles_spec().contains_key(run_id@)
                && old(self).lifecycles_spec()[run_id@].0 == RunPhase::Pending {
                old(self).lifecycles_spec().insert(run_id@, (RunPhase::Running, old(self).lifecycles_spec()[run_id@].1))
            } else {
                old(self).lifecycles_spec()
            }),
    {
        let current: Option<(RunPhase, bool)> = match self.lifecycles.get(run_id) {
            Some(entry) => Some(*entry),
            None => None,
        };
        match current {
            Some((RunPhase::Pending, closed)) => {
                self.lifecycles.insert(run_id.to_string(), (RunPhase::Running, closed));
            },
            _ => {},
        }
    }

    /// Decides on an event and, when it is accepted, records its number for
    /// its source and moves its run's lifecycle on. Every event makes its run
    /// known (pending and open) before the decision.
    pub fn decide(&mut self, training_run_id: Option<&str>, event_type: &str, source_id: &str, seq: u64) -> (r: GateOutcome)
        ensures
            r.training_run_id@ == resolved_run_id(opt_str_view(training_run_id)),
            r.disposition == gate_decision(
                old(self).lifecycles_spec(),
                old(self).source_seqs(),
                r.training_run_id@,
                event_type@,
                source_id@,
                seq,
            ),
            r.full_hint == (r.disposition == Disposition::Accepted && full_refresh_event(event_type@)),
            r.disposition == Disposition::Accepted ==> final(self).source_seqs() == old(self).source_seqs().insert(source_id@, seq)
                && final(self).lifecycles_spec() == old(self).lifecycles_spec().insert(
                    r.training_run_id@,
                    lifecycle_after(lifecycle_of(old(self).lifecycles_spec(), r.training_run_id@), event_type@),
                ),
            r.disposition != Disposition::Accepted ==> final(self).source_seqs() == old(self).source_seqs()
                && final(self).lifecycles_spec() == old(self).lifecycles_spec().insert(
                    r.training_run_id@,
                    lifecycle_of(old(self).lifecycles_spec(), r.training_run_id@),
                ),
    {
        let run = resolve_training_run_id(training_run_id);
        let ghost run_v = run@;
        let current: (RunPhase, bool) = match self.lifecycles.get(run.as_str()) {
            Some(entry) => *entry,
            None => (RunPhase::Pending, false),
        };
        let run_event = str_eq(event_type, "RUN_STARTED") || str_eq(event_type, "RUN_STOPPED") || str_eq(
            event_type,
            "RUN_CLOSED",
        );
        let disposition = if current.1 && !run_event {
            Disposition::RejectedClosed
        } else {
            match self.source_seq.get(source_id) {
                Some(prev) => {
                    if seq < *prev {
                        Disposition::SeqStale
                    } else if seq == *prev {
                        Disposition::Duplicate
                    } else {
                        Disposition::Accepted
                    }
                },
                None => Disposition::Accepted,
            }
        };
        let mut next = current;
        if disposition == Disposition::Accepted {
            self.source_seq.insert(source_id.to_string(), seq);
            if str_eq(event_type, "RUN_STARTED") {
                next = (RunPhase::Running, false);
            } else if str_eq(event_type, "RUN_STOPPED") {
                next = (RunPhase::Stopping, current.1);
            } else if str_eq(event_type, "RUN_CLOSED") {
                next = (RunPhase::Closed, true);
            }
        }
        self.lifecycles.insert(run.clone(), next);
        let full_hint = disposition == Disposition::Accepted && (str_eq(event_type, "RUN_STARTED") || str_eq(
            event_type,
            "RUN_CLOSED",
        ));
        GateOutcome { disposition, training_run_id: run, full_hint }
    }
}

/// Law: once an event numbered `seq` from a source is accepted, that source
/// can never again have `seq` or a lower number accepted, whatever run or
/// event type it comes with.
pub proof fn law_accepted_numbers_are_not_accepted_again(
    lifecycles: Map<Seq<char>, (RunPhase, bool)>,
    seqs: Map<Seq<char>, u64>,
    run: Seq<char>,
    t: Seq<char>,
    source: Seq<char>,
    seq: u64,
    later_lifecycles: Map<Seq<char>, (RunPhase, bool)>,
    later_run: Seq<char>,
    later_t: Seq<char>,
    later_seq: u64,
)
    requires
        gate_decision(lifecycles, seqs, run, t, source, seq) == Disposition::Accepted,
        later_seq <= seq,
    ensures
        gate_decision(later_lifecycles, seqs.insert(source, seq), later_run, later_t, source, later_seq)
            != Disposition::Accepted,
        later_seq == seq && !(run_closed(later_lifecycles, later_run) && !is_run_event(later_t))
            ==> gate_decision(later_lifecycles, seqs.insert(source, seq), later_run, later_t, source, later_seq)
            == Disposition::Duplicate,
{
}

/// Law: a source's recorded number never goes down: an admission either
/// leaves the numbers as they were or raises the event's source to its
/// number.
pub proof fn law_source_numbers_only_grow(
    lifecycles: Map<Seq<char>, (RunPhase, bool)>,
    seqs: Map<Seq<char>, u64>,
    run: Seq<char>,
    t: Seq<char>,
    source: Seq<char>,
    seq: u64,
    other: Seq<char>,
)
    requires
        gate_decision(lifecycles, seqs, run, t, source, seq) == Disposition::Accepted,
        seqs.contains_key(other),
    ensures
        seqs.insert(source, seq).contains_key(other),
        seqs.insert(source, seq)[other] >= seqs[other],
{
}

/// Law: a closed run takes no event but run events until a `RUN_STARTED`
/// reopens it, and a `RUN_CLOSED` always closes it.
pub proof fn law_closed_runs_take_only_run_events(
    lifecycles: Map<Seq<char>, (RunPhase, bool)>,
    seqs: Map<Seq<char>, u64>,
    run: Seq<char>,
    t: Seq<char>,
    source: Seq<char>,
    seq: u64,
    cur: (RunPhase, bool),
)
    ensures
        run_closed(lifecycles, run) && !is_run_event(t) ==> gate_decision(lifecycles, seqs, run, t, source, seq)
            == Disposition::RejectedClosed,
        t == "RUN_CLOSED"@ ==> lifecycle_after(cur, t).1,
        t == "RUN_STARTED"@ ==> !lifecycle_after(cur, t).1,
        cur.1 && t != "RUN_STARTED"@ ==> lifecycle_after(cur, t).1,
{
    reveal_strlit("RUN_STARTED");
    reveal_strlit("RUN_STOPPED");
    reveal_strlit("RUN_CLOSED");
    assert("RUN_CLOSED"@.len() != "RUN_STARTED"@.len());
    assert("RUN_CLOSED"@.len() != "RUN_STOPPED"@.len());
}

/// Observability settings, as read from the environment.
#[derive(Debug, Clone)]
pub struct ObsConfig {
    pub enabled: bool,
    pub http_listen: String,
    pub data_dir: String,
    pub db_path: String,
    pub token: Option<String>,
    pub queue_capacity: usize,
    pub seed_on_start: bool,
    /// When the state of a run without events is read, inject a seeded
    /// placeholder.
    pub auto_mock_empty_run: bool,
}

/// The environment variables that `ObsConfig` reads, `None` where a
/// variable is unset (or not valid Unicode).
#[derive(Debug, Clone)]
pub struct ObsEnv {
    pub enabled: Option<String>,
    pub data_dir: Option<String>,
    pub token: Option<String>,
    pub http_listen: Option<String>,
    pub queue_capacity: Option<String>,
    pub seed_on_start: Option<String>,
    pub auto_mock: Option<String>,
}

/// Is a flag's value, trimmed and lower-cased, one of `1`, `true`, `yes`, `on`?
pub open spec fn truthy(v: Seq<char>) -> bool {
    let t = trim_spec(v);
    lowered_eq(t, "1"@) || lowered_eq(t, "true"@) || lowered_eq(t, "yes"@) || lowered_eq(t, "on"@)
}

/// Is a flag's value, trimmed and lower-cased, one of `1`, `true`, `yes`, `on`?
pub fn is_truthy(v: &str) -> (b: bool)
    ensures
        b == truthy(v@),
{
    let t = trim(v);
    eq_lowercased(t, "1") || eq_lowercased(t, "true") || eq_lowercased(t, "yes") || eq_lowercased(t, "on")
}

/// A flag: its truthiness when set, `default` when unset.
pub open spec fn flag_value(v: Option<String>, default: bool) -> bool {
    match v {
        Some(s) => truthy(s@),
        None => default,
    }
}

fn flag(v: &Option<String>, default: bool) -> (b: bool)
    ensures
        b == flag_value(*v, default),
{
    match v {
        Some(s) => is_truthy(s.as_str()),
        None => default,
    }
}

/// A string setting, or its default when unset.
pub open spec fn text_or(v: Option<String>, default: Seq<char>) -> Seq<char> {
    match v {
        Some(s) => s@,
        None => default,
    }
}

fn text_or_default(v: &Option<String>, default: &str) -> (s: String)
    ensures
        s@ == text_or(*v, default@),
{
    match v {
        Some(s) => s.clone(),
        None => default.to_string(),
    }
}

impl ObsConfig {
    /// The settings: observability is on unless `enabled` is set and not
    /// truthy; data lives in `./obs-data` unless set, with the database
    /// `obs.db` in it; an empty token counts as none; the queue holds 8192
    /// events unless a valid number is set; seeding and mock runs are off
    /// unless set truthy; the listener is `0.0.0.0:50053` unless set.
    pub fn from_env_values(env: &ObsEnv) -> (c: Self)
        ensures
            c.enabled == flag_value(env.enabled, true),
            c.data_dir@ == text_or(env.data_dir, "./obs-data"@),
            c.db_path@ == join_path(c.data_dir@, "obs.db"@),
            c.token == (match env.token {
                Some(t) => if t@.len() > 0 { Some(t) } else { None },
                None => None,
            }),
            c.http_listen@ == text_or(env.http_listen, "0.0.0.0:50053"@),
            c.queue_capacity == (match env.queue_capacity {
                Some(q) => match parsed_usize(q@) {
                    Some(n) => n as usize,
                    None => 8192usize,
                },
                None => 8192usize,
            }),
            c.seed_on_start == flag_value(env.seed_on_start, false),
            c.auto_mock_empty_run == flag_value(env.auto_mock, false),
    {
        let enabled = flag(&env.enabled, true);
        let data_dir = text_or_default(&env.data_dir, "./obs-data");
        let db_path = join(data_dir.as_str(), "obs.db");
        let token = match &env.token {
            Some(t) => if t.as_str().unicode_len() > 0 { Some(t.clone()) } else { None },
            None => None,
        };
        let http_listen = text_or_default(&env.http_listen, "0.0.0.0:50053");
        let queue_capacity = match &env.queue_capacity {
            Some(q) => match parse_usize(q.as_str()) {
                Some(n) => n,
                None => 8192,
            },
            None => 8192,
        };
        ObsConfig {
            enabled,
            http_listen,
            data_dir,
            db_path,
            token,
            queue_capacity,
            seed_on_start: flag(&env.seed_on_start, false),
            auto_mock_empty_run: flag(&env.auto_mock, false),
        }
    }
}

} // verus!
