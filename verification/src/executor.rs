//! Bounded-concurrency deletion accounting. Selected repositories
//! wait in `pending`; at most `limit` requests are in flight at once;
//! every completion is recorded as a success or a failure and never
//! affects its siblings. The driver performs the HTTP requests: it
//! takes work out with `launch` and reports each outcome with
//! `complete`.

use vstd::prelude::*;
use crate::repo::Repo;

verus! {

/// State of one bounded-concurrency deletion run.
pub struct Executor {
    /// Repositories not yet handed out, in selection order.
    pub pending: Vec<Repo>,
    /// Number of requests currently in flight.
    pub in_flight: usize,
    /// Upper bound on `in_flight`; at least 1.
    pub limit: usize,
    /// Completed requests that succeeded.
    pub succeeded: usize,
    /// Completed requests that failed.
    pub failed: usize,
    /// Number of repositories this run started with.
    pub total: Ghost<nat>,
}

impl Executor {
    /// Well-formedness: the concurrency bound holds and every
    /// repository is accounted for exactly once.
    pub open spec fn wf(self) -> bool {
        &&& 1 <= self.limit
        &&& self.in_flight <= self.limit
        &&& self.succeeded + self.failed + self.in_flight + self.pending@.len() == self.total@
        &&& self.total@ <= usize::MAX
    }

    /// Start a run over the selected repositories with the requested
    /// concurrency limit, raised to at least 1.
    pub fn new(selected: Vec<Repo>, limit: usize) -> (e: Executor)
        ensures
            e.wf(),
            e.pending@ == selected@,
            e.in_flight == 0,
            e.succeeded == 0,
            e.failed == 0,
            e.limit == (if limit < 1 {
                1int
            } else {
                limit as int
            }),
            e.total@ == selected@.len(),
    {
        let n = selected.len();
        let lim = if limit < 1 {
            1
        } else {
            limit
        };
        Executor {
            pending: selected,
            in_flight: 0,
            limit: lim,
            succeeded: 0,
            failed: 0,
            total: Ghost(n as nat),
        }
    }

    /// Hand out the next repository if capacity allows and any remain;
    /// it is then counted as in flight.
    pub fn launch(&mut self) -> (r: Option<Repo>)
        requires
            old(self).wf(),
        ensures
            final(self).wf(),
            final(self).limit == old(self).limit,
            final(self).total == old(self).total,
            final(self).succeeded == old(self).succeeded,
            final(self).failed == old(self).failed,
            old(self).in_flight < old(self).limit && old(self).pending@.len() > 0 ==> r == Some(
                old(self).pending@[0],
            ) && final(self).pending@ == old(self).pending@.skip(1) && final(self).in_flight == old(
                self,
            ).in_flight + 1,
            !(old(self).in_flight < old(self).limit && old(self).pending@.len() > 0) ==> r is None
                && *final(self) == *old(self),
    {
        if self.in_flight < self.limit && self.pending.len() > 0 {
            let repo = self.pending.remove(0);
            self.in_flight = self.in_flight + 1;
            proof {
                assert(self.pending@ =~= old(self).pending@.skip(1));
            }
            Some(repo)
        } else {
            None
        }
    }

    /// Record one completed request; its outcome affects only the two
    /// counters.
    pub fn complete(&mut self, success: bool)
        requires
            old(self).wf(),
            old(self).in_flight > 0,
        ensures
            final(self).wf(),
            final(self).limit == old(self).limit,
            final(self).total == old(self).total,
            final(self).pending == old(self).pending,
            final(self).in_flight == old(self).in_flight - 1,
            final(self).succeeded == old(self).succeeded + (if success {
                1int
            } else {
                0int
            }),
            final(self).failed == old(self).failed + (if success {
                0int
            } else {
                1int
            }),
    {
        self.in_flight = self.in_flight - 1;
        if success {
            self.succeeded = self.succeeded + 1;
        } else {
            self.failed = self.failed + 1;
        }
    }

    /// Whether every repository has been handed out and every request
    /// has completed.
    pub fn done(&self) -> (b: bool)
        ensures
            b == (self.pending@.len() == 0 && self.in_flight == 0),
    {
        self.pending.len() == 0 && self.in_flight == 0
    }
}

/// Law: a well-formed run never has more requests in flight than its
/// concurrency limit — `new` establishes well-formedness and `launch`
/// and `complete` preserve it, so the bound holds throughout.
pub proof fn lemma_in_flight_bounded(e: Executor)
    requires
        e.wf(),
    ensures
        e.in_flight <= e.limit,
{
}

/// Law: when a well-formed run is done, every repository's outcome
/// was recorded — successes and failures add up to the total.
pub proof fn lemma_all_outcomes_recorded(e: Executor)
    requires
        e.wf(),
        e.pending@.len() == 0,
        e.in_flight == 0,
    ensures
        e.succeeded + e.failed == e.total@,
{
}

} // verus!
