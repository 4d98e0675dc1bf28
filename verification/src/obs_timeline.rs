//! A run's timeline: its events grouped by workflow stage, each stage with
//! the time of its first and last event, its event count, the distinct
//! episodes it saw and its status, ordered by when the stage began.
use crate::obs::opt_str_view;
use crate::obs_views::{stage_of, timeline_stage, RunTimelineItem};
use crate::text::str_eq;
use crate::chain_state::strs;
use vstd::prelude::*;

verus! {

broadcast use {vstd::string::group_string_axioms, vstd::seq_lib::group_to_multiset_ensures};

/// An event as the timeline reads it.
#[derive(Debug)]
pub struct TimelineEvent {
    pub event_type: String,
    pub source_ts: i64,
    pub episode_id: Option<String>,
    pub entity_type: String,
    pub entity_id: String,
}

/// The episode an event is about: its episode id, or its entity id when it
/// is an episode entity with a non-empty id.
pub open spec fn event_episode(e: TimelineEvent) -> Option<Seq<char>> {
    match e.episode_id {
        Some(id) => Some(id@),
        None => if e.entity_type@ == "episode"@ && e.entity_id@.len() > 0 { Some(e.entity_id@) } else { None },
    }
}

fn episode_of(e: &TimelineEvent) -> (r: Option<&str>)
    ensures
        match r {
            Some(s) => event_episode(*e) == Some(s@),
            None => event_episode(*e) is None,
        },
{
    match &e.episode_id {
        Some(id) => Some(id.as_str()),
        None => {
            if str_eq(e.entity_type.as_str(), "episode") && e.entity_id.as_str().unicode_len() > 0 {
                Some(e.entity_id.as_str())
            } else {
                None
            }
        },
    }
}

/// What the timeline knows of a stage so far.
pub struct StageTally {
    pub stage: Seq<char>,
    pub status: Seq<char>,
    pub order: u8,
    pub first_ts: i64,
    pub last_ts: i64,
    pub event_count: nat,
    pub episodes: Seq<Seq<char>>,
}

/// The tallies after the events, in the order the stages first appear, and
/// the episodes that failed (`EPISODE_FAILED`) so far. `active` is the stage
/// the run is active in, if it runs.
pub open spec fn tally(events: Seq<TimelineEvent>, active: Option<Seq<char>>) -> (Seq<StageTally>, Seq<Seq<char>>)
    decreases events.len(),
{
    if events.len() == 0 {
        (Seq::empty(), Seq::empty())
    } else {
        let (ts, failed) = tally(events.drop_last(), active);
        let ev = events.last();
        let ep = event_episode(ev);
        let ep_failed = match ep {
            Some(id) => failed.contains(id),
            None => false,
        };
        let failed2 = if ev.event_type@ == "EPISODE_FAILED"@ && ep is Some { add_once(failed, ep->0) } else { failed };
        match stage_of(ev.event_type@, ep_failed) {
            None => (ts, failed2),
            Some((name, order, status)) => {
                let pos = tally_pos(ts, name);
                let base = if pos < ts.len() {
                    ts[pos]
                } else {
                    StageTally {
                        stage: name,
                        status,
                        order,
                        first_ts: ev.source_ts,
                        last_ts: ev.source_ts,
                        event_count: 0,
                        episodes: Seq::empty(),
                    }
                };
                let s1 = if status == "FAILED"@ { "FAILED"@ } else { base.status };
                let s2 = if active == Some(name) && s1 != "FAILED"@ { "ACTIVE"@ } else { s1 };
                let t = StageTally {
                    stage: name,
                    status: s2,
                    order: base.order,
                    first_ts: if ev.source_ts < base.first_ts { ev.source_ts } else { base.first_ts },
                    last_ts: if ev.source_ts > base.last_ts { ev.source_ts } else { base.last_ts },
                    event_count: base.event_count + 1,
                    episodes: match ep {
                        Some(id) => add_once(base.episodes, id),
                        None => base.episodes,
                    },
                };
                (if pos < ts.len() { ts.update(pos, t) } else { ts.push(t) }, failed2)
            },
        }
    }
}

/// The list with `x` added at the end unless it holds it already.
pub open spec fn add_once(v: Seq<Seq<char>>, x: Seq<char>) -> Seq<Seq<char>> {
    if v.contains(x) { v } else { v.push(x) }
}

/// The position of the stage's tally, or the length when it has none.
pub open spec fn tally_pos(ts: Seq<StageTally>, name: Seq<char>) -> int
    decreases ts.len(),
{
    if ts.len() == 0 {
        0
    } else if tally_pos(ts.drop_last(), name) < ts.len() - 1 {
        tally_pos(ts.drop_last(), name)
    } else if ts.last().stage == name {
        ts.len() - 1
    } else {
        ts.len() as int
    }
}

/// Does `a` come no later than `b`: earlier first event, or the same time
/// and a stage no later in the workflow?
pub open spec fn not_later(a: (i64, u8), b: (i64, u8)) -> bool {
    a.0 < b.0 || (a.0 == b.0 && a.1 <= b.1)
}

/// The timeline ordering key of a stage name.
pub open spec fn stage_order(name: Seq<char>) -> u8 {
    if name == "RUN_STARTED"@ { 0 }
    else if name == "SUBMIT"@ { 10 }
    else if name == "DISPATCH"@ { 20 }
    else if name == "EXECUTE"@ { 30 }
    else if name == "REPORT"@ { 40 }
    else if name == "DONE"@ { 50 }
    else if name == "FAILED"@ { 60 }
    else if name == "RUN_STOPPED"@ { 90 }
    else if name == "RUN_COMPLETED"@ { 95 }
    else if name == "RUN_TERMINATED"@ { 96 }
    else if name == "RUN_FAILED"@ { 97 }
    else { 99 }
}

/// The values an item shows.
pub open spec fn item_key(it: RunTimelineItem) -> (Seq<char>, Seq<char>, i64, i64, nat, nat, u8) {
    (it.stage@, it.status@, it.first_source_ts, it.last_source_ts, it.event_count as nat, it.episode_count as nat, 0u8)
}

/// The values a tally shows.
pub open spec fn tally_key(t: StageTally) -> (Seq<char>, Seq<char>, i64, i64, nat, nat, u8) {
    (t.stage, t.status, t.first_ts, t.last_ts, t.event_count, t.episodes.len(), 0u8)
}

/// One stage's running tally.
struct Tally {
    stage: &'static str,
    label: &'static str,
    status: String,
    order: u8,
    first_ts: i64,
    last_ts: i64,
    event_count: usize,
    episodes: Vec<String>,
}

spec fn tally_view(t: Tally) -> StageTally {
    StageTally {
        stage: t.stage@,
        status: t.status@,
        order: t.order,
        first_ts: t.first_ts,
        last_ts: t.last_ts,
        event_count: t.event_count as nat,
        episodes: strs(t.episodes@),
    }
}

spec fn tallies_view(v: Seq<Tally>) -> Seq<StageTally> {
    v.map_values(|t: Tally| tally_view(t))
}

/// `v` with `x` added unless present.
pub(crate) fn push_once(v: &mut Vec<String>, x: &str)
    ensures
        strs(final(v)@) == add_once(strs(old(v)@), x@),
{
    let mut i: usize = 0;
    while i < v.len()
        invariant
            i <= v@.len(),
            forall|j: int| 0 <= j < i ==> #[trigger] v@[j]@ != x@,
        decreases v@.len() - i,
    {
        if str_eq(v[i].as_str(), x) {
            proof {
                assert(strs(v@)[i as int] == x@);
                assert(strs(v@).contains(x@));
            }
            return;
        }
        i = i + 1;
    }
    proof {
        assert(!strs(v@).contains(x@)) by {
            if strs(v@).contains(x@) {
                let j = choose|j: int| 0 <= j < strs(v@).len() && strs(v@)[j] == x@;
                assert(v@[j]@ == x@);
            }
        }
    }
    let ghost before = v@;
    v.push(x.to_string());
    proof {
        assert(strs(v@) =~= strs(before).push(x@));
    }
}

/// Does the list hold `x`?
pub(crate) fn holds(v: &Vec<String>, x: &str) -> (b: bool)
    ensures
        b == strs(v@).contains(x@),
{
    let mut i: usize = 0;
    while i < v.len()
        invariant
            i <= v@.len(),
            forall|j: int| 0 <= j < i ==> #[trigger] v@[j]@ != x@,
        decreases v@.len() - i,
    {
        if str_eq(v[i].as_str(), x) {
            proof {
                assert(strs(v@)[i as int] == x@);
            }
            return true;
        }
        i = i + 1;
    }
    proof {
        if strs(v@).contains(x@) {
            let j = choose|j: int| 0 <= j < strs(v@).len() && strs(v@)[j] == x@;
            assert(v@[j]@ == x@);
        }
    }
    false
}

/// `tally_pos` is the first tally of the stage, or the length.
proof fn lemma_tally_pos(ts: Seq<StageTally>, name: Seq<char>)
    ensures
        0 <= tally_pos(ts, name) <= ts.len(),
        tally_pos(ts, name) < ts.len() ==> ts[tally_pos(ts, name)].stage == name,
        forall|j: int| 0 <= j < tally_pos(ts, name) ==> #[trigger] ts[j].stage != name,
    decreases ts.len(),
{
    if ts.len() > 0 {
        lemma_tally_pos(ts.drop_last(), name);
        assert forall|j: int| 0 <= j < tally_pos(ts, name) implies #[trigger] ts[j].stage != name by {
            if j < ts.len() - 1 {
                assert(ts[j] == ts.drop_last()[j]);
            }
        }
    }
}

/// The order a stage of an event has is the order of its name.
proof fn lemma_stage_order(event_type: Seq<char>, failed: bool)
    ensures
        stage_of(event_type, failed) matches Some((n, o, _)) ==> o == stage_order(n),
{
    reveal_strlit("RUN_STARTED");
    reveal_strlit("SUBMIT");
    reveal_strlit("DISPATCH");
    reveal_strlit("EXECUTE");
    reveal_strlit("REPORT");
    reveal_strlit("DONE");
    reveal_strlit("FAILED");
    reveal_strlit("RUN_STOPPED");
    reveal_strlit("RUN_COMPLETED");
    reveal_strlit("RUN_TERMINATED");
    reveal_strlit("RUN_FAILED");
    reveal_strlit("RUN_CLOSED");
    assert("SUBMIT"@ != "RUN_STARTED"@) by {
        assert("SUBMIT"@.len() != "RUN_STARTED"@.len());
    }
    assert("DISPATCH"@ != "RUN_STARTED"@) by {
        assert("DISPATCH"@.len() != "RUN_STARTED"@.len());
    }
    assert("EXECUTE"@ != "RUN_STARTED"@) by {
        assert("EXECUTE"@.len() != "RUN_STARTED"@.len());
    }
    assert("REPORT"@ != "RUN_STARTED"@) by {
        assert("REPORT"@.len() != "RUN_STARTED"@.len());
    }
    assert("DONE"@ != "RUN_STARTED"@) by {
        assert("DONE"@.len() != "RUN_STARTED"@.len());
    }
    assert("FAILED"@ != "RUN_STARTED"@) by {
        assert("FAILED"@.len() != "RUN_STARTED"@.len());
    }
    assert("RUN_STOPPED"@ != "RUN_STARTED"@) by {
        assert("RUN_STOPPED"@[6] != "RUN_STARTED"@[6]);
    }
    assert("RUN_COMPLETED"@ != "RUN_STARTED"@) by {
        assert("RUN_COMPLETED"@.len() != "RUN_STARTED"@.len());
    }
    assert("RUN_TERMINATED"@ != "RUN_STARTED"@) by {
        assert("RUN_TERMINATED"@.len() != "RUN_STARTED"@.len());
    }
    assert("RUN_FAILED"@ != "RUN_STARTED"@) by {
        assert("RUN_FAILED"@.len() != "RUN_STARTED"@.len());
    }
    assert("RUN_CLOSED"@ != "RUN_STARTED"@) by {
        assert("RUN_CLOSED"@.len() != "RUN_STARTED"@.len());
    }
    assert("DISPATCH"@ != "SUBMIT"@) by {
        assert("DISPATCH"@.len() != "SUBMIT"@.len());
    }
    assert("EXECUTE"@ != "SUBMIT"@) by {
        assert("EXECUTE"@.len() != "SUBMIT"@.len());
    }
    assert("REPORT"@ != "SUBMIT"@) by {
        assert("REPORT"@[0] != "SUBMIT"@[0]);
    }
    assert("DONE"@ != "SUBMIT"@) by {
        assert("DONE"@.len() != "SUBMIT"@.len());
    }
    assert("FAILED"@ != "SUBMIT"@) by {
        assert("FAILED"@[0] != "SUBMIT"@[0]);
    }
    assert("RUN_STOPPED"@ != "SUBMIT"@) by {
        assert("RUN_STOPPED"@.len() != "SUBMIT"@.len());
    }
    assert("RUN_COMPLETED"@ != "SUBMIT"@) by {
        assert("RUN_COMPLETED"@.len() != "SUBMIT"@.len());
    }
    assert("RUN_TERMINATED"@ != "SUBMIT"@) by {
        assert("RUN_TERMINATED"@.len() != "SUBMIT"@.len());
    }
    assert("RUN_FAILED"@ != "SUBMIT"@) by {
        assert("RUN_FAILED"@.len() != "SUBMIT"@.len());
    }
    assert("RUN_CLOSED"@ != "SUBMIT"@) by {
        assert("RUN_CLOSED"@.len() != "SUBMIT"@.len());
    }
    assert("EXECUTE"@ != "DISPATCH"@) by {
        assert("EXECUTE"@.len() != "DISPATCH"@.len());
    }
    assert("REPORT"@ != "DISPATCH"@) by {
        assert("REPORT"@.len() != "DISPATCH"@.len());
    }
    assert("DONE"@ != "DISPATCH"@) by {
        assert("DONE"@.len() != "DISPATCH"@.len());
    }
    assert("FAILED"@ != "DISPATCH"@) by {
        assert("FAILED"@.len() != "DISPATCH"@.len());
    }
    assert("RUN_STOPPED"@ != "DISPATCH"@) by {
        assert("RUN_STOPPED"@.len() != "DISPATCH"@.len());
    }
    assert("RUN_COMPLETED"@ != "DISPATCH"@) by {
        assert("RUN_COMPLETED"@.len() != "DISPATCH"@.len());
    }
    assert("RUN_TERMINATED"@ != "DISPATCH"@) by {
        assert("RUN_TERMINATED"@.len() != "DISPATCH"@.len());
    }
    assert("RUN_FAILED"@ != "DISPATCH"@) by {
        assert("RUN_FAILED"@.len() != "DISPATCH"@.len());
    }
    assert("RUN_CLOSED"@ != "DISPATCH"@) by {
        assert("RUN_CLOSED"@.len() != "DISPATCH"@.len());
    }
    assert("REPORT"@ != "EXECUTE"@) by {
        assert("REPORT"@.len() != "EXECUTE"@.len());
    }
    assert("DONE"@ != "EXECUTE"@) by {
        assert("DONE"@.len() != "EXECUTE"@.len());
    }
    assert("FAILED"@ != "EXECUTE"@) by {
        assert("FAILED"@.len() != "EXECUTE"@.len());
    }
    assert("RUN_STOPPED"@ != "EXECUTE"@) by {
        assert("RUN_STOPPED"@.len() != "EXECUTE"@.len());
    }
    assert("RUN_COMPLETED"@ != "EXECUTE"@) by {
        assert("RUN_COMPLETED"@.len() != "EXECUTE"@.len());
    }
    assert("RUN_TERMINATED"@ != "EXECUTE"@) by {
        assert("RUN_TERMINATED"@.len() != "EXECUTE"@.len());
    }
    assert("RUN_FAILED"@ != "EXECUTE"@) by {
        assert("RUN_FAILED"@.len() != "EXECUTE"@.len());
    }
    assert("RUN_CLOSED"@ != "EXECUTE"@) by {
        assert("RUN_CLOSED"@.len() != "EXECUTE"@.len());
    }
    assert("DONE"@ != "REPORT"@) by {
        assert("DONE"@.len() != "REPORT"@.len());
    }
    assert("FAILED"@ != "REPORT"@) by {
        assert("FAILED"@[0] != "REPORT"@[0]);
    }
    assert("RUN_STOPPED"@ != "REPORT"@) by {
        assert("RUN_STOPPED"@.len() != "REPORT"@.len());
    }
    assert("RUN_COMPLETED"@ != "REPORT"@) by {
        assert("RUN_COMPLETED"@.len() != "REPORT"@.len());
    }
    assert("RUN_TERMINATED"@ != "REPORT"@) by {
        assert("RUN_TERMINATED"@.len() != "REPORT"@.len());
    }
    assert("RUN_FAILED"@ != "REPORT"@) by {
        assert("RUN_FAILED"@.len() != "REPORT"@.len());
    }
    assert("RUN_CLOSED"@ != "REPORT"@) by {
        assert("RUN_CLOSED"@.len() != "REPORT"@.len());
    }
    assert("FAILED"@ != "DONE"@) by {
        assert("FAILED"@.len() != "DONE"@.len());
    }
    assert("RUN_STOPPED"@ != "DONE"@) by {
        assert("RUN_STOPPED"@.len() != "DONE"@.len());
    }
    assert("RUN_COMPLETED"@ != "DONE"@) by {
        assert("RUN_COMPLETED"@.len() != "DONE"@.len());
    }
    assert("RUN_TERMINATED"@ != "DONE"@) by {
        assert("RUN_TERMINATED"@.len() != "DONE"@.len());
    }
    assert("RUN_FAILED"@ != "DONE"@) by {
        assert("RUN_FAILED"@.len() != "DONE"@.len());
    }
    assert("RUN_CLOSED"@ != "DONE"@) by {
        assert("RUN_CLOSED"@.len() != "DONE"@.len());
    }
    assert("RUN_STOPPED"@ != "FAILED"@) by {
        assert("RUN_STOPPED"@.len() != "FAILED"@.len());
    }
    assert("RUN_COMPLETED"@ != "FAILED"@) by {
        assert("RUN_COMPLETED"@.len() != "FAILED"@.len());
    }
    assert("RUN_TERMINATED"@ != "FAILED"@) by {
        assert("RUN_TERMINATED"@.len() != "FAILED"@.len());
    }
    assert("RUN_FAILED"@ != "FAILED"@) by {
        assert("RUN_FAILED"@.len() != "FAILED"@.len());
    }
    assert("RUN_CLOSED"@ != "FAILED"@) by {
        assert("RUN_CLOSED"@.len() != "FAILED"@.len());
    }
    assert("RUN_COMPLETED"@ != "RUN_STOPPED"@) by {
        assert("RUN_COMPLETED"@.len() != "RUN_STOPPED"@.len());
    }
    assert("RUN_TERMINATED"@ != "RUN_STOPPED"@) by {
        assert("RUN_TERMINATED"@.len() != "RUN_STOPPED"@.len());
    }
    assert("RUN_FAILED"@ != "RUN_STOPPED"@) by {
        assert("RUN_FAILED"@.len() != "RUN_STOPPED"@.len());
    }
    assert("RUN_CLOSED"@ != "RUN_STOPPED"@) by {
        assert("RUN_CLOSED"@.len() != "RUN_STOPPED"@.len());
    }
    assert("RUN_TERMINATED"@ != "RUN_COMPLETED"@) by {
        assert("RUN_TERMINATED"@.len() != "RUN_COMPLETED"@.len());
    }
    assert("RUN_FAILED"@ != "RUN_COMPLETED"@) by {
        assert("RUN_FAILED"@.len() != "RUN_COMPLETED"@.len());
    }
    assert("RUN_CLOSED"@ != "RUN_COMPLETED"@) by {
        assert("RUN_CLOSED"@.len() != "RUN_COMPLETED"@.len());
    }
    assert("RUN_FAILED"@ != "RUN_TERMINATED"@) by {
        assert("RUN_FAILED"@.len() != "RUN_TERMINATED"@.len());
    }
    assert("RUN_CLOSED"@ != "RUN_TERMINATED"@) by {
        assert("RUN_CLOSED"@.len() != "RUN_TERMINATED"@.len());
    }
    assert("RUN_CLOSED"@ != "RUN_FAILED"@) by {
        assert("RUN_CLOSED"@[4] != "RUN_FAILED"@[4]);
    }
}

/// The tally's order is the order of its stage and its count is at most `n`.
spec fn tally_ok(t: StageTally, n: int) -> bool {
    t.order == stage_order(t.stage) && t.event_count <= n
}

/// Every tally's order is the order of its stage and its count is at most
/// the number of events seen.
spec fn tallies_sound(ts: Seq<StageTally>, n: int) -> bool {
    forall|j: int| 0 <= j < ts.len() ==> #[trigger] tally_ok(ts[j], n)
}

proof fn lemma_tally_sound(events: Seq<TimelineEvent>, active: Option<Seq<char>>)
    ensures
        tallies_sound(tally(events, active).0, events.len() as int),
    decreases events.len(),
{
    if events.len() > 0 {
        lemma_tally_sound(events.drop_last(), active);
        let (ts, failed) = tally(events.drop_last(), active);
        let ev = events.last();
        let ep = event_episode(ev);
        let ep_failed = match ep {
            Some(id) => failed.contains(id),
            None => false,
        };
        lemma_stage_order(ev.event_type@, ep_failed);
        let n = events.len() as int;
        let res = tally(events, active).0;
        match stage_of(ev.event_type@, ep_failed) {
            None => {
                assert forall|j: int| 0 <= j < res.len() implies #[trigger] tally_ok(res[j], n) by {
                    assert(tally_ok(ts[j], n - 1));
                }
            },
            Some((name, order, status)) => {
                lemma_tally_pos(ts, name);
                let p = tally_pos(ts, name);
                assert forall|j: int| 0 <= j < res.len() implies #[trigger] tally_ok(res[j], n) by {
                    if j != p {
                        assert(res[j] == ts[j]);
                        assert(tally_ok(ts[j], n - 1));
                    } else if p < ts.len() {
                        assert(tally_ok(ts[p], n - 1));
                    }
                }
            },
        }
    }
}

/// The tallies of the events, in the order the stages first appear.
fn tally_events(events: &Vec<TimelineEvent>, active: Option<&str>) -> (r: Vec<Tally>)
    ensures
        tallies_view(r@) == tally(events@, opt_str_view(active)).0,
{
    let ghost av = opt_str_view(active);
    let mut ts: Vec<Tally> = Vec::new();
    let mut failed: Vec<String> = Vec::new();
    let mut i: usize = 0;
    while i < events.len()
        invariant
            i <= events@.len(),
            av == opt_str_view(active),
            tallies_view(ts@) == tally(events@.take(i as int), av).0,
            strs(failed@) == tally(events@.take(i as int), av).1,
        decreases events@.len() - i,
    {
        let ghost pre = events@.take(i as int);
        let ghost post = events@.take(i + 1);
        proof {
            assert(post.drop_last() =~= pre);
            assert(post.last() == events@[i as int]);
            lemma_tally_sound(pre, av);
        }
        let ev = &events[i];
        let ghost failed_before = strs(failed@);
        let ep = episode_of(ev);
        let ep_failed = match ep {
            Some(id) => holds(&failed, id),
            None => false,
        };
        if str_eq(ev.event_type.as_str(), "EPISODE_FAILED") {
            if let Some(id) = ep {
                push_once(&mut failed, id);
            }
        }
        match timeline_stage(ev.event_type.as_str(), ep_failed) {
            None => {},
            Some(st) => {
                let ghost old_view = tallies_view(ts@);
                let mut pos: usize = 0;
                while pos < ts.len() && !str_eq(ts[pos].stage, st.stage)
                    invariant
                        pos <= ts@.len(),
                        old_view == tallies_view(ts@),
                        forall|j: int| 0 <= j < pos ==> #[trigger] ts@[j].stage@ != st.stage@,
                    decreases ts@.len() - pos,
                {
                    pos = pos + 1;
                }
                proof {
                    lemma_tally_pos(old_view, st.stage@);
                    let tp = tally_pos(old_view, st.stage@);
                    if tp < pos {
                        assert(old_view[tp].stage == ts@[tp].stage@);
                    }
                    if pos < tp {
                        assert(old_view[pos as int].stage == ts@[pos as int].stage@);
                    }
                    assert(tp == pos);
                    assert(tallies_sound(old_view, i as int));
                }
                let found = pos < ts.len();
                let ghost ts_before = ts@;
                proof {
                    if pos < ts@.len() {
                        assert(old_view[pos as int] == tally_view(ts@[pos as int]));
                    }
                }
                let mut t = if found {
                    ts.remove(pos)
                } else {
                    Tally {
                        stage: st.stage,
                        label: st.label,
                        status: st.status.to_string(),
                        order: st.order,
                        first_ts: ev.source_ts,
                        last_ts: ev.source_ts,
                        event_count: 0,
                        episodes: Vec::new(),
                    }
                };
                proof {
                    if pos < old_view.len() {
                        assert(t == ts_before[pos as int]);
                        assert(tally_view(t) == old_view[pos as int]);
                        assert(tally_ok(old_view[pos as int], i as int));
                    }
                    assert(t.event_count <= i);
                }
                if str_eq(st.status, "FAILED") {
                    t.status = "FAILED".to_string();
                }
                let is_active = match active {
                    Some(a) => str_eq(a, st.stage),
                    None => false,
                };
                if is_active && !str_eq(t.status.as_str(), "FAILED") {
                    t.status = "ACTIVE".to_string();
                }
                if ev.source_ts < t.first_ts {
                    t.first_ts = ev.source_ts;
                }
                if ev.source_ts > t.last_ts {
                    t.last_ts = ev.source_ts;
                }
                t.event_count = t.event_count + 1;
                if let Some(id) = ep {
                    push_once(&mut t.episodes, id);
                }
                let ghost tv = tally_view(t);
                if found {
                    ts.insert(pos, t);
                    proof {
                        assert(tallies_view(ts@) =~= old_view.update(pos as int, tv));
                    }
                } else {
                    ts.push(t);
                    proof {
                        assert(ts@ == ts_before.push(t));
                        assert(tallies_view(ts@) =~= old_view.push(tv));
                    }
                }
                proof {
                    let (pts, pf) = tally(pre, av);
                    assert(pts == old_view);
                    assert(pf == failed_before);
                    let sep = event_episode(events@[i as int]);
                    let sfailed = match sep {
                        Some(id) => pf.contains(id),
                        None => false,
                    };
                    assert(sfailed == ep_failed);
                    assert(stage_of(events@[i as int].event_type@, sfailed) == Some((st.stage@, st.order, st.status@)));
                    assert(tally_pos(pts, st.stage@) == pos);
                    let evs = events@[i as int];
                    let name = st.stage@;
                    let status = st.status@;
                    let base = if found {
                        pts[pos as int]
                    } else {
                        StageTally {
                            stage: name,
                            status,
                            order: st.order,
                            first_ts: evs.source_ts,
                            last_ts: evs.source_ts,
                            event_count: 0,
                            episodes: Seq::empty(),
                        }
                    };
                    let s1 = if status == "FAILED"@ { "FAILED"@ } else { base.status };
                    let s2 = if av == Some(name) && s1 != "FAILED"@ { "ACTIVE"@ } else { s1 };
                    assert(tv.stage == name);
                    assert(tv.status == s2);
                    assert(tv.order == base.order);
                    assert(tv.first_ts == (if evs.source_ts < base.first_ts { evs.source_ts } else { base.first_ts }));
                    assert(tv.last_ts == (if evs.source_ts > base.last_ts { evs.source_ts } else { base.last_ts }));
                    assert(tv.event_count == base.event_count + 1);
                    assert(tv.episodes == (match sep {
                        Some(id) => add_once(base.episodes, id),
                        None => base.episodes,
                    }));
                    assert(tally(post, av).0 == (if found { pts.update(pos as int, tv) } else { pts.push(tv) }));
                }
            },
        }
        i = i + 1;
    }
    proof {
        assert(events@.take(events@.len() as int) =~= events@);
    }
    ts
}

/// Do the items come in timeline order?
pub open spec fn timeline_sorted(v: Seq<RunTimelineItem>) -> bool {
    forall|i: int, j: int|
        0 <= i < j < v.len() ==> not_later(
            (#[trigger] v[i].first_source_ts, stage_order(v[i].stage@)),
            (#[trigger] v[j].first_source_ts, stage_order(v[j].stage@)),
        )
}

spec fn pair_key(p: (RunTimelineItem, u8)) -> (Seq<char>, Seq<char>, i64, i64, nat, nat, u8) {
    item_key(p.0)
}

/// A run's timeline: the stages of its events, each with the time of its
/// first and last event, its event count, its number of distinct episodes
/// and its status (failed when a failure event fell in it, else active when
/// it is the stage the running run is in, else done), ordered by the time
/// of their first event and then by their place in the workflow.
/// `active_stage` is the stage the run is active in, if it is running.
pub fn run_timeline(events: &Vec<TimelineEvent>, active_stage: Option<&str>) -> (r: Vec<RunTimelineItem>)
    ensures
        r@.map_values(|it: RunTimelineItem| item_key(it)).to_multiset() == tally(events@, opt_str_view(active_stage)).0.map_values(
            |t: StageTally| tally_key(t),
        ).to_multiset(),
        timeline_sorted(r@),
{
    let ts = tally_events(events, active_stage);
    let ghost tv = tallies_view(ts@);
    proof {
        lemma_tally_sound(events@, opt_str_view(active_stage));
    }
    let mut rest = ts;
    let ghost orig = rest@;
    let mut out: Vec<(RunTimelineItem, u8)> = Vec::new();
    let ghost mut k: int = 0;
    while rest.len() > 0
        invariant
            0 <= k <= orig.len(),
            rest@ == orig.skip(k),
            tv == tallies_view(orig),
            tallies_sound(tv, events@.len() as int),
            forall|a: int| 0 <= a < out@.len() ==> #[trigger] out@[a].1 == stage_order(out@[a].0.stage@),
            forall|a: int, b: int|
                0 <= a < b < out@.len() ==> not_later(
                    (#[trigger] out@[a].0.first_source_ts, out@[a].1),
                    (#[trigger] out@[b].0.first_source_ts, out@[b].1),
                ),
            out@.map_values(|p: (RunTimelineItem, u8)| pair_key(p)).to_multiset() == tv.take(k).map_values(
                |t: StageTally| tally_key(t),
            ).to_multiset(),
        decreases rest@.len(),
    {
        let t = rest.remove(0);
        proof {
            assert(t == orig[k]);
            assert(tv[k] == tally_view(t));
            assert(tally_ok(tv[k], events@.len() as int));
        }
        let item = RunTimelineItem {
            stage: t.stage.to_string(),
            label: t.label.to_string(),
            status: t.status,
            first_source_ts: t.first_ts,
            last_source_ts: t.last_ts,
            event_count: t.event_count,
            episode_count: t.episodes.len(),
        };
        let order = t.order;
        let mut pos: usize = 0;
        while pos < out.len() && (out[pos].0.first_source_ts < item.first_source_ts || (out[pos].0.first_source_ts
            == item.first_source_ts && out[pos].1 <= order))
            invariant
                pos <= out@.len(),
                forall|a: int| 0 <= a < pos ==> not_later((#[trigger] out@[a].0.first_source_ts, out@[a].1), (item.first_source_ts, order)),
            decreases out@.len() - pos,
        {
            pos = pos + 1;
        }
        let ghost before = out@;
        let ghost pr = (item, order);
        out.insert(pos, (item, order));
        proof {
            assert(out@ == before.insert(pos as int, pr));
            assert(item_key(pr.0) == tally_key(tv[k])) by {
                assert(strs(t.episodes@).len() == t.episodes@.len());
            }
            assert(tv.take(k + 1) =~= tv.take(k).push(tv[k]));
            assert(tv.take(k + 1).map_values(|t: StageTally| tally_key(t)) =~= tv.take(k).map_values(|t: StageTally| tally_key(t)).push(tally_key(tv[k])));
            assert(out@.map_values(|p: (RunTimelineItem, u8)| pair_key(p)) =~= before.map_values(|p: (RunTimelineItem, u8)| pair_key(p)).insert(pos as int, pair_key(pr)));
            vstd::seq_lib::to_multiset_insert(before.map_values(|p: (RunTimelineItem, u8)| pair_key(p)), pos as int, pair_key(pr));
            vstd::seq_lib::to_multiset_build(tv.take(k).map_values(|t: StageTally| tally_key(t)), tally_key(tv[k]));
            assert forall|a: int, b: int| 0 <= a < b < out@.len() implies not_later(
                (#[trigger] out@[a].0.first_source_ts, out@[a].1),
                (#[trigger] out@[b].0.first_source_ts, out@[b].1),
            ) by {
                if b < pos {
                    assert(out@[a] == before[a] && out@[b] == before[b]);
                } else if b == pos {
                    assert(out@[a] == before[a]);
                } else if a == pos {
                    assert(out@[b] == before[b - 1]);
                    if b - 1 > pos {
                        assert(not_later((before[pos as int].0.first_source_ts, before[pos as int].1), (before[b - 1].0.first_source_ts, before[b - 1].1)));
                    }
                } else if a < pos {
                    assert(out@[a] == before[a] && out@[b] == before[b - 1]);
                    if pos < before.len() {
                        assert(not_later((before[pos as int].0.first_source_ts, before[pos as int].1), (before[b - 1].0.first_source_ts, before[b - 1].1)) || b - 1 == pos);
                    }
                } else {
                    assert(out@[a] == before[a - 1] && out@[b] == before[b - 1]);
                }
            }
            assert forall|a: int| 0 <= a < out@.len() implies #[trigger] out@[a].1 == stage_order(out@[a].0.stage@) by {
                if a < pos {
                    assert(out@[a] == before[a]);
                } else if a > pos {
                    assert(out@[a] == before[a - 1]);
                }
            }
            k = k + 1;
            assert(rest@ =~= orig.skip(k));
        }
    }
    proof {
        assert(tv.take(k) =~= tv);
    }
    let mut items: Vec<RunTimelineItem> = Vec::new();
    let ghost pairs = out@;
    let mut src = out;
    let ghost mut m: int = 0;
    while src.len() > 0
        invariant
            0 <= m <= pairs.len(),
            src@ == pairs.skip(m),
            items@ == pairs.take(m).map_values(|p: (RunTimelineItem, u8)| p.0),
        decreases src@.len(),
    {
        let p = src.remove(0);
        proof {
            assert(p == pairs[m]);
        }
        items.push(p.0);
        proof {
            assert(pairs.take(m + 1).map_values(|p: (RunTimelineItem, u8)| p.0) =~= pairs.take(m).map_values(|p: (RunTimelineItem, u8)| p.0).push(pairs[m].0));
            m = m + 1;
            assert(src@ =~= pairs.skip(m));
        }
    }
    proof {
        assert(pairs.take(m) =~= pairs);
        assert(items@.map_values(|it: RunTimelineItem| item_key(it)) =~= pairs.map_values(|p: (RunTimelineItem, u8)| pair_key(p)));
        assert forall|i: int, j: int| 0 <= i < j < items@.len() implies not_later(
            (#[trigger] items@[i].first_source_ts, stage_order(items@[i].stage@)),
            (#[trigger] items@[j].first_source_ts, stage_order(items@[j].stage@)),
        ) by {
            assert(items@[i] == pairs[i].0 && items@[j] == pairs[j].0);
            assert(pairs[i].1 == stage_order(pairs[i].0.stage@));
            assert(pairs[j].1 == stage_order(pairs[j].0.stage@));
        }
    }
    items
}

} // verus!
