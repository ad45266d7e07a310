//! The collector's decisions: when its loop stops, which listed sessions a
//! sweep visits, and which of them it evicts by age.
use vstd::prelude::*;

verus! {

/// Whether a session created at `created` has reached `lifetime` at `now`.
pub open spec fn is_stale(now: u64, created: u64, lifetime: u64) -> bool {
    now >= created + lifetime
}

/// Whether a sweep at `now` evicts a session whose age lookup gave `age`:
/// only an existing session that has reached its lifetime.
pub open spec fn is_due(now: u64, lifetime: u64, age: Option<u64>) -> bool {
    match age {
        Some(created) => is_stale(now, created, lifetime),
        None => false,
    }
}

/// What the collector does at the top of a cycle.
#[derive(PartialEq, Eq, Structural, Debug)]
pub enum Cycle {
    /// A shutdown signal is pending: end the loop.
    Stop,
    /// Wait out the period, then sweep.
    Sweep,
}

/// The step at the top of a cycle: stop exactly when shutdown was signalled.
pub fn next_cycle(shutdown_pending: bool) -> (r: Cycle)
    ensures
        r == (if shutdown_pending {
            Cycle::Stop
        } else {
            Cycle::Sweep
        }),
{
    if shutdown_pending {
        Cycle::Stop
    } else {
        Cycle::Sweep
    }
}

/// Whether a sweep at `now` evicts a session whose age lookup gave `age`.
pub fn should_evict(now: u64, lifetime: u64, age: Option<u64>) -> (r: bool)
    ensures
        r == is_due(now, lifetime, age),
{
    match age {
        Some(created) => created <= now && now - created >= lifetime,
        None => false,
    }
}

/// The state of a sweep: the sessions listed at its start, how many of
/// them it has visited, its time and the lifetime it applies.
pub struct SweepState {
    pub listed: Seq<String>,
    pub visited: nat,
    pub now: u64,
    pub lifetime: u64,
}

/// One sweep over the sessions listed at its start, each visited once, in
/// the order listed; sessions created after the listing wait for the next.
pub struct Sweep {
    listed: Vec<String>,
    visited: usize,
    now: u64,
    lifetime: u64,
}

impl View for Sweep {
    type V = SweepState;

    closed spec fn view(&self) -> SweepState {
        SweepState {
            listed: self.listed@,
            visited: self.visited as nat,
            now: self.now,
            lifetime: self.lifetime,
        }
    }
}

impl Sweep {
    /// Starts a sweep at `now` over the sessions `listed`.
    pub fn new(listed: Vec<String>, now: u64, lifetime: u64) -> (r: Self)
        ensures
            r@ == (SweepState { listed: listed@, visited: 0, now, lifetime }),
            r.wf(),
    {
        Sweep { listed, visited: 0, now, lifetime }
    }

    /// Whether the sweep is well formed: it never visits past its listing.
    pub closed spec fn wf(&self) -> bool {
        self.visited <= self.listed@.len()
    }

    /// The next listed session to visit, or none when all have been visited.
    pub fn next_session(&mut self) -> (r: Option<String>)
        requires
            old(self).wf(),
        ensures
            final(self).wf(),
            old(self)@.visited < old(self)@.listed.len() ==> r == Some(
                old(self)@.listed[old(self)@.visited as int],
            ) && final(self)@ == (SweepState { visited: old(self)@.visited + 1, ..old(self)@ }),
            old(self)@.visited >= old(self)@.listed.len() ==> r is None && final(self)@ == old(
                self,
            )@,
    {
        if self.visited < self.listed.len() {
            let id = self.listed[self.visited].clone();
            self.visited = self.visited + 1;
            Some(id)
        } else {
            None
        }
    }

    /// Whether this sweep evicts a session whose age lookup gave `age`.
    pub fn is_due(&self, age: Option<u64>) -> (r: bool)
        ensures
            r == is_due(self@.now, self@.lifetime, age),
    {
        should_evict(self.now, self.lifetime, age)
    }
}

/// A session that has reached its lifetime is evicted by any sweep that
/// finds it: with `created + lifetime <= now`, the sweep at `now` evicts it.
pub proof fn lemma_stale_session_evicted(created: u64, lifetime: u64, now: u64)
    requires
        created + lifetime <= now,
    ensures
        is_due(now, lifetime, Some(created)),
{
}

/// A session younger than its lifetime survives every sweep: no sweep at a
/// time before `created + lifetime` evicts it, however many there are.
pub proof fn lemma_young_session_kept(created: u64, lifetime: u64, sweeps: Seq<u64>)
    requires
        forall|i: int| 0 <= i < sweeps.len() ==> sweeps[i] < created + lifetime,
    ensures
        forall|i: int| 0 <= i < sweeps.len() ==> !is_due(#[trigger] sweeps[i], lifetime, Some(created)),
{
}

} // verus!
