//! Background continual refresh of a slow, fallible value.
//!
//! The engine side is a state machine: it owns the last-known-good value and
//! decides, from what the host observed of the single in-flight worker, what
//! to adopt and when to spawn the next worker. The host runs the worker on an
//! OS thread and polls it non-blockingly; it reports each poll here as a
//! `RefreshOutcome` and spawns a new worker exactly when the returned report
//! asks for one, so exactly one worker is ever in flight per instance.

use vstd::prelude::*;

verus! {

/// A value that can refresh itself: a fallible, possibly slow operation, run
/// by the host's worker thread, never on the render thread.
pub trait Updatable {
    /// Refresh in place; on failure, give the reason.
    fn update(&mut self) -> Result<(), String>;
}

/// What the host observed of the in-flight worker at one non-blocking poll.
pub enum RefreshOutcome<T> {
    /// The worker has not finished yet.
    Pending,
    /// The worker finished with a freshly refreshed value.
    Refreshed(T),
    /// The worker's refresh failed for the given reason.
    Failed(String),
}

/// What one poll decided.
pub struct PollReport {
    /// False exactly when the observed refresh failed: the instance is
    /// degraded but keeps serving its last-known-good value.
    pub healthy: bool,
    /// True exactly when a worker finished (either way): the host must spawn
    /// the next worker, seeded from the instance's current value.
    pub respawn: bool,
}

/// The last-known-good value of a background-refreshed data source.
pub struct ContinuallyUpdated<T> {
    data: T,
    name: &'static str,
}

impl<T> RefreshOutcome<T> {
    /// A worker completed (successfully or not) at this poll.
    pub open spec fn is_completion(self) -> bool {
        !(self is Pending)
    }
}

/// The value held after folding a sequence of poll outcomes over an initial
/// value: each successful refresh is adopted, everything else keeps the value.
pub open spec fn data_after<T>(initial: T, outcomes: Seq<RefreshOutcome<T>>) -> T
    decreases outcomes.len(),
{
    if outcomes.len() == 0 {
        initial
    } else {
        match outcomes.last() {
            RefreshOutcome::Refreshed(v) => v,
            _ => data_after(initial, outcomes.drop_last()),
        }
    }
}

/// The most recent successfully refreshed value in a sequence of outcomes.
pub open spec fn latest_success<T>(outcomes: Seq<RefreshOutcome<T>>) -> Option<T>
    decreases outcomes.len(),
{
    if outcomes.len() == 0 {
        None
    } else {
        match outcomes.last() {
            RefreshOutcome::Refreshed(v) => Some(v),
            _ => latest_success(outcomes.drop_last()),
        }
    }
}

/// How many polls in a sequence observed a completed worker.
pub open spec fn count_completions<T>(outcomes: Seq<RefreshOutcome<T>>) -> int
    decreases outcomes.len(),
{
    if outcomes.len() == 0 {
        0
    } else {
        count_completions(outcomes.drop_last()) + if outcomes.last().is_completion() {
            1int
        } else {
            0int
        }
    }
}

/// How many polls in a sequence asked the host to spawn the next worker,
/// going by each poll's report.
pub open spec fn count_respawns<T>(outcomes: Seq<RefreshOutcome<T>>) -> int
    decreases outcomes.len(),
{
    if outcomes.len() == 0 {
        0
    } else {
        count_respawns(outcomes.drop_last()) + if !(outcomes.last() is Pending) {
            1int
        } else {
            0int
        }
    }
}

/// Workers in flight after construction (which spawns one) and a sequence of
/// polls, when the host spawns exactly when asked: one initial worker, plus
/// one per respawn request, minus one per observed completion.
pub open spec fn workers_outstanding<T>(outcomes: Seq<RefreshOutcome<T>>) -> int {
    1 + count_respawns(outcomes) - count_completions(outcomes)
}

impl<T: Updatable> ContinuallyUpdated<T> {
    pub closed spec fn spec_data(self) -> T {
        self.data
    }

    pub closed spec fn spec_name(self) -> &'static str {
        self.name
    }

    /// Take ownership of the current value and hand back the pre-refresh
    /// state; the host must spawn the first worker right away, seeded from a
    /// duplicate of this value.
    pub fn new(data: T, name: &'static str) -> (r: Self)
        ensures
            r.spec_data() == data,
            r.spec_name() == name,
    {
        Self { data, name }
    }

    /// Fold one non-blocking poll of the worker into the state: no result is
    /// a healthy no-op; a refreshed value is adopted and the next worker is
    /// requested; a failure keeps the last-good value, requests a retry
    /// worker from that same value, and reports the instance degraded.
    pub fn update(&mut self, outcome: RefreshOutcome<T>) -> (r: PollReport)
        ensures
            final(self).spec_name() == old(self).spec_name(),
            final(self).spec_data() == data_after(old(self).spec_data(), seq![outcome]),
            outcome matches RefreshOutcome::Refreshed(v) ==> final(self).spec_data() == v,
            !(outcome is Refreshed) ==> final(self).spec_data() == old(self).spec_data(),
            r.healthy == !(outcome is Failed),
            r.respawn == outcome.is_completion(),
    {
        proof {
            let s = seq![outcome];
            assert(s.drop_last() =~= Seq::<RefreshOutcome<T>>::empty());
            assert(data_after(old(self).spec_data(), Seq::<RefreshOutcome<T>>::empty())
                == old(self).spec_data());
        }
        match outcome {
            RefreshOutcome::Pending => PollReport { healthy: true, respawn: false },
            RefreshOutcome::Refreshed(value) => {
                self.data = value;
                PollReport { healthy: true, respawn: true }
            },
            RefreshOutcome::Failed(_reason) => PollReport { healthy: false, respawn: true },
        }
    }

    pub fn get_data(&self) -> (r: &T)
        ensures
            *r == self.spec_data(),
    {
        &self.data
    }

    pub fn name(&self) -> (r: &'static str)
        ensures
            r == self.spec_name(),
    {
        self.name
    }
}

/// LAW: when no poll in a sequence observed a successful refresh, the held
/// value after folding the whole sequence is the initial value, unchanged.
pub proof fn lemma_no_success_keeps_value<T>(initial: T, outcomes: Seq<RefreshOutcome<T>>)
    requires
        forall|i: int| 0 <= i < outcomes.len() ==> !(#[trigger] outcomes[i] is Refreshed),
    ensures
        data_after(initial, outcomes) == initial,
    decreases outcomes.len(),
{
    if outcomes.len() > 0 {
        assert(!(outcomes.last() is Refreshed));
        lemma_no_success_keeps_value(initial, outcomes.drop_last());
    }
}

/// LAW: the held value always equals the most recent successful refresh, and
/// the initial value where none has succeeded yet; a failed attempt is never
/// adopted.
pub proof fn lemma_value_is_latest_success<T>(initial: T, outcomes: Seq<RefreshOutcome<T>>)
    ensures
        data_after(initial, outcomes) == (match latest_success(outcomes) {
            Some(v) => v,
            None => initial,
        }),
    decreases outcomes.len(),
{
    if outcomes.len() > 0 && !(outcomes.last() is Refreshed) {
        lemma_value_is_latest_success(initial, outcomes.drop_last());
    }
}

/// LAW: exactly one worker is ever outstanding: with the host spawning
/// exactly when a poll's report asks (which is exactly when a poll observed a
/// completion), the workers in flight after any sequence of polls number one.
pub proof fn lemma_exactly_one_worker_outstanding<T>(outcomes: Seq<RefreshOutcome<T>>)
    ensures
        workers_outstanding(outcomes) == 1,
    decreases outcomes.len(),
{
    if outcomes.len() > 0 {
        lemma_exactly_one_worker_outstanding::<T>(outcomes.drop_last());
    }
}

} // verus!
