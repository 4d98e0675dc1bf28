//! Episode admission: how many episodes may be in flight, and how the
//! number of admission permits follows capacity changes.
//!
//! The permits themselves live in an async semaphore outside the library;
//! the decisions about them are made here.
use crate::config::EpisodeConfig;
use vstd::prelude::*;

verus! {

/// Why an episode could not be admitted.
#[derive(Debug, Clone, Copy, PartialEq, Eq)]
pub enum AdmissionAcquireError {
    /// The episode was cancelled while it waited.
    Cancelled,
    /// The episode's deadline passed while it waited.
    TimedOut,
    /// The permit pool was closed.
    Closed,
}

/// How admission limits episodes.
#[derive(Debug, Clone, Copy, PartialEq, Eq)]
pub enum AdmissionMode {
    /// No limit.
    Unlimited,
    /// A fixed number of permits.
    Static(usize),
    /// Permits follow the registered capacity; there are none at first.
    Dynamic,
}

/// What to do with a permit pool whose size moves from one value to another.
#[derive(Debug, Clone, Copy, PartialEq, Eq)]
pub enum PermitChange {
    Unchanged,
    /// Add this many permits.
    Grow(u32),
    /// Withdraw this many permits as they come back (held ones are not taken).
    Shrink(u32),
}

/// The change that takes a pool of `old` permits to `new`.
pub open spec fn permit_change_spec(old: u32, new: u32) -> PermitChange {
    if new > old {
        PermitChange::Grow((new - old) as u32)
    } else if old > new {
        PermitChange::Shrink((old - new) as u32)
    } else {
        PermitChange::Unchanged
    }
}

/// The size of a pool of `old` permits after `c`.
pub open spec fn apply_change(old: int, c: PermitChange) -> int {
    match c {
        PermitChange::Unchanged => old,
        PermitChange::Grow(n) => old + n,
        PermitChange::Shrink(n) => old - n,
    }
}

/// The change that takes a pool of `old` permits to `new`.
pub fn permit_change(old: u32, new: u32) -> (c: PermitChange)
    ensures
        c == permit_change_spec(old, new),
        apply_change(old as int, c) == new,
{
    if new > old {
        PermitChange::Grow(new - old)
    } else if old > new {
        PermitChange::Shrink(old - new)
    } else {
        PermitChange::Unchanged
    }
}

/// Law: the change from `old` to `new` permits takes a pool of `old`
/// permits to exactly `new`; it grows the pool only when `new` is larger,
/// shrinks it only when smaller, and leaves it alone when they are equal.
pub proof fn law_permit_change_reaches_target(old: u32, new: u32)
    ensures
        apply_change(old as int, permit_change_spec(old, new)) == new,
        permit_change_spec(old, new) matches PermitChange::Grow(n) ==> new > old && n == new - old,
        permit_change_spec(old, new) matches PermitChange::Shrink(n) ==> new < old && n == old - new,
        permit_change_spec(old, new) is Unchanged <==> old == new,
{
}

/// Law: applying the change from `a` to `b` and then the change from `b` to
/// `c` gives a pool of `c` permits, as the single change from `a` to `c` does.
pub proof fn law_permit_changes_compose(a: u32, b: u32, c: u32)
    ensures
        apply_change(apply_change(a as int, permit_change_spec(a, b)), permit_change_spec(b, c))
            == apply_change(a as int, permit_change_spec(a, c)),
        apply_change(a as int, permit_change_spec(a, a)) == a,
{
}

/// The admission mode that an episode configuration asks for.
pub open spec fn mode_spec(config: EpisodeConfig) -> AdmissionMode {
    if config.queue_dynamic {
        AdmissionMode::Dynamic
    } else if config.queue_max_in_flight > 0 {
        AdmissionMode::Static(config.queue_max_in_flight)
    } else {
        AdmissionMode::Unlimited
    }
}

/// Law: how many episodes a new controller lets in at first, read off the
/// configuration: with a fixed limit (`queue_max_in_flight > 0`, not
/// dynamic) exactly that many; dynamic admission starts with none; with
/// neither there is no limit.
pub proof fn law_initial_permits_follow_config(config: EpisodeConfig)
    ensures
        (match mode_spec(config) {
            AdmissionMode::Unlimited => None,
            AdmissionMode::Static(n) => Some(n),
            AdmissionMode::Dynamic => Some(0usize),
        }) == (if config.queue_dynamic {
            Some(0usize)
        } else if config.queue_max_in_flight > 0 {
            Some(config.queue_max_in_flight)
        } else {
            None
        }),
{
}

/// Admission decisions for the whole server.
#[derive(Debug, Clone, Copy)]
pub struct AdmissionController {
    mode: AdmissionMode,
}

impl AdmissionController {
    /// The controller's mode.
    pub closed spec fn mode_of(&self) -> AdmissionMode {
        self.mode
    }

    /// Dynamic mode starts with no permits; static mode with
    /// `queue_max_in_flight`; otherwise there is no limit.
    pub fn new(config: &EpisodeConfig) -> (a: Self)
        ensures
            a.mode_of() == mode_spec(*config),
            config.queue_dynamic ==> a.mode_of() == AdmissionMode::Dynamic,
            !config.queue_dynamic && config.queue_max_in_flight > 0 ==> a.mode_of() == AdmissionMode::Static(
                config.queue_max_in_flight,
            ),
            !config.queue_dynamic && config.queue_max_in_flight == 0 ==> a.mode_of() == AdmissionMode::Unlimited,
    {
        let mode = if config.queue_dynamic {
            AdmissionMode::Dynamic
        } else if config.queue_max_in_flight > 0 {
            AdmissionMode::Static(config.queue_max_in_flight)
        } else {
            AdmissionMode::Unlimited
        };
        AdmissionController { mode }
    }

    /// The mode.
    pub fn mode(&self) -> (m: AdmissionMode)
        ensures
            m == self.mode_of(),
    {
        self.mode
    }

    /// Does the permit count follow the registered capacity?
    pub fn is_dynamic(&self) -> (b: bool)
        ensures
            b == (self.mode_of() == AdmissionMode::Dynamic),
    {
        match self.mode {
            AdmissionMode::Dynamic => true,
            _ => false,
        }
    }

    /// Permits to start with: `None` when there is no limit.
    pub fn initial_permits(&self) -> (p: Option<usize>)
        ensures
            p == (match self.mode_of() {
                AdmissionMode::Unlimited => None,
                AdmissionMode::Static(n) => Some(n),
                AdmissionMode::Dynamic => Some(0usize),
            }),
    {
        match self.mode {
            AdmissionMode::Unlimited => None,
            AdmissionMode::Static(n) => Some(n),
            AdmissionMode::Dynamic => Some(0),
        }
    }

    /// The permit change when the capacity moves from `old_capacity` to
    /// `new_capacity`; only dynamic mode follows capacity.
    pub fn on_capacity_changed(&self, old_capacity: u32, new_capacity: u32) -> (c: PermitChange)
        ensures
            self.mode_of() == AdmissionMode::Dynamic ==> c == permit_change_spec(old_capacity, new_capacity),
            self.mode_of() != AdmissionMode::Dynamic ==> c == PermitChange::Unchanged,
    {
        if !self.is_dynamic() {
            return PermitChange::Unchanged;
        }
        permit_change(old_capacity, new_capacity)
    }

    /// The permit change when a worker of capacity `old_capacity` leaves.
    pub fn on_worker_removed(&self, old_capacity: u32) -> (c: PermitChange)
        ensures
            self.mode_of() == AdmissionMode::Dynamic ==> c == permit_change_spec(old_capacity, 0),
            self.mode_of() != AdmissionMode::Dynamic ==> c == PermitChange::Unchanged,
    {
        self.on_capacity_changed(old_capacity, 0)
    }
}

} // verus!
