//! The counters that the oracle exposes.

use vstd::prelude::*;

verus! {

/// A counter one higher; it stays at the largest value once it is there,
/// so it never goes back.
pub open spec fn bumped(count: u64) -> u64 {
    if count < u64::MAX {
        (count + 1) as u64
    } else {
        count
    }
}

/// A counter `n` higher, with the same stop at the largest value.
pub open spec fn bumped_by(count: u64, n: nat) -> u64 {
    if count + n <= u64::MAX {
        (count + n) as u64
    } else {
        u64::MAX
    }
}

/// The counters, all of which only grow.
#[derive(Debug, Clone, Copy, PartialEq, Eq)]
pub struct Metrics {
    pub reconcile_runs_total: u64,
    pub reconcile_runs_ok: u64,
    pub reconcile_runs_err: u64,
    pub valid_deployment_cache_hits: u64,
}

fn bump(count: u64) -> (r: u64)
    ensures
        r == bumped(count),
{
    if count < u64::MAX {
        count + 1
    } else {
        count
    }
}

impl Metrics {
    /// All counters at zero.
    pub open spec fn zero() -> Metrics {
        Metrics {
            reconcile_runs_total: 0,
            reconcile_runs_ok: 0,
            reconcile_runs_err: 0,
            valid_deployment_cache_hits: 0,
        }
    }

    /// All counters at zero.
    pub fn new() -> (r: Metrics)
        ensures
            r == Metrics::zero(),
    {
        Metrics {
            reconcile_runs_total: 0,
            reconcile_runs_ok: 0,
            reconcile_runs_err: 0,
            valid_deployment_cache_hits: 0,
        }
    }

    /// The counters after a cycle has begun.
    pub open spec fn run_begun(self) -> Metrics {
        Metrics { reconcile_runs_total: bumped(self.reconcile_runs_total), ..self }
    }

    /// The counters after a cycle has ended well.
    pub open spec fn run_succeeded(self) -> Metrics {
        Metrics { reconcile_runs_ok: bumped(self.reconcile_runs_ok), ..self }
    }

    /// The counters after a cycle has ended in an error.
    pub open spec fn run_failed(self) -> Metrics {
        Metrics { reconcile_runs_err: bumped(self.reconcile_runs_err), ..self }
    }

    /// The counters after `n` deployments were found in the cache.
    pub open spec fn cache_hits(self, n: nat) -> Metrics {
        Metrics {
            valid_deployment_cache_hits: bumped_by(self.valid_deployment_cache_hits, n),
            ..self
        }
    }

    /// The counters after a deployment was found in the cache.
    pub open spec fn cache_hit(self) -> Metrics {
        Metrics { valid_deployment_cache_hits: bumped(self.valid_deployment_cache_hits), ..self }
    }

    /// Counts a cycle that begins.
    pub fn inc_reconcile_runs_total(&mut self)
        ensures
            *final(self) == old(self).run_begun(),
    {
        self.reconcile_runs_total = bump(self.reconcile_runs_total);
    }

    /// Counts a cycle that ended well.
    pub fn inc_reconcile_runs_ok(&mut self)
        ensures
            *final(self) == old(self).run_succeeded(),
    {
        self.reconcile_runs_ok = bump(self.reconcile_runs_ok);
    }

    /// Counts a cycle that ended in an error.
    pub fn inc_reconcile_runs_err(&mut self)
        ensures
            *final(self) == old(self).run_failed(),
    {
        self.reconcile_runs_err = bump(self.reconcile_runs_err);
    }

    /// Counts a deployment that was found in the cache.
    pub fn inc_valid_deployment_cache_hits(&mut self)
        ensures
            *final(self) == old(self).cache_hit(),
    {
        self.valid_deployment_cache_hits = bump(self.valid_deployment_cache_hits);
    }
}

/// No counter ever goes back: whatever is counted, each counter is at
/// least what it was.
pub proof fn lemma_counters_only_grow(m: Metrics)
    ensures
        bumped(m.reconcile_runs_total) >= m.reconcile_runs_total,
        m.run_begun().reconcile_runs_total >= m.reconcile_runs_total,
        m.run_succeeded().reconcile_runs_ok >= m.reconcile_runs_ok,
        m.run_failed().reconcile_runs_err >= m.reconcile_runs_err,
        m.cache_hit().valid_deployment_cache_hits >= m.valid_deployment_cache_hits,
{
}

} // verus!
