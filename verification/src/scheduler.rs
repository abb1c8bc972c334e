//! The scheduler's decisions: one cycle and out, or a cycle at every
//! tick; what is counted, and which cache the next cycle starts from.

use crate::cid::Cid;
use crate::metrics::Metrics;
use crate::reconcile::{concluded, cycle_outcome_view};
use vstd::prelude::*;

verus! {

/// What the caller is to do once a cycle has ended.
#[derive(Debug, PartialEq, Eq)]
pub enum Command {
    /// Drop the file store's cache and run the next cycle at the next
    /// tick. A tick that was missed is skipped, not made up for.
    NextTick,
    /// Leave, with the outcome of the one cycle that ran.
    Exit(Result<(), String>),
}

/// The mathematical value of a [`Command`].
pub enum CommandView {
    NextTick,
    Exit(Result<(), Seq<char>>),
}

impl View for Command {
    type V = CommandView;

    open spec fn view(&self) -> CommandView {
        match self {
            Command::NextTick => CommandView::NextTick,
            Command::Exit(Ok(_)) => CommandView::Exit(Ok(())),
            Command::Exit(Err(e)) => CommandView::Exit(Err(e@)),
        }
    }
}

/// The scheduler between two cycles.
#[derive(Debug)]
pub struct Scheduler {
    /// Seconds between two cycles; zero for a single cycle.
    pub period: u64,
    /// The deployments last found valid, each with the time of validation.
    pub valid_deployment_cache: Vec<(Cid, u64)>,
    pub metrics: Metrics,
}

/// The mathematical value of a [`Scheduler`].
pub struct SchedulerView {
    pub period: u64,
    pub valid_deployment_cache: Seq<(Seq<u8>, u64)>,
    pub metrics: Metrics,
}

impl View for Scheduler {
    type V = SchedulerView;

    open spec fn view(&self) -> SchedulerView {
        SchedulerView {
            period: self.period,
            valid_deployment_cache: self.valid_deployment_cache.deep_view(),
            metrics: self.metrics,
        }
    }
}

impl SchedulerView {
    /// Whether cycles run at every tick.
    pub open spec fn periodic(self) -> bool {
        self.period > 0
    }

    /// The scheduler once a cycle has begun: a periodic one counts the
    /// run.
    pub open spec fn begun(self) -> SchedulerView {
        if self.periodic() {
            SchedulerView { metrics: self.metrics.run_begun(), ..self }
        } else {
            self
        }
    }

    /// The scheduler once a cycle has ended. A periodic one counts the
    /// outcome, takes over the cache of a cycle that ended well and keeps
    /// its own after one that did not. A single cycle leaves it as it is.
    pub open spec fn ended(self, outcome: Result<Seq<(Seq<u8>, u64)>, Seq<char>>) -> SchedulerView {
        if self.periodic() {
            match outcome {
                Ok(cache) => SchedulerView {
                    valid_deployment_cache: cache,
                    metrics: self.metrics.run_succeeded(),
                    ..self
                },
                Err(_) => SchedulerView { metrics: self.metrics.run_failed(), ..self },
            }
        } else {
            self
        }
    }

    /// What follows a cycle.
    pub open spec fn command(self, outcome: Result<Seq<(Seq<u8>, u64)>, Seq<char>>) -> CommandView {
        if self.periodic() {
            CommandView::NextTick
        } else {
            match outcome {
                Ok(_) => CommandView::Exit(Ok(())),
                Err(e) => CommandView::Exit(Err(e)),
            }
        }
    }
}

/// A copy of a cache.
pub fn clone_cache(cache: &Vec<(Cid, u64)>) -> (r: Vec<(Cid, u64)>)
    ensures
        r.deep_view() == cache.deep_view(),
{
    let mut r: Vec<(Cid, u64)> = Vec::new();
    let mut i: usize = 0;
    while i < cache.len()
        invariant
            i <= cache.len(),
            r.deep_view() == cache.deep_view().take(i as int),
        decreases cache.len() - i,
    {
        r.push((cache[i].0.clone(), cache[i].1));
        assert(cache.deep_view().take(i + 1) =~= cache.deep_view().take(i as int).push(
            cache.deep_view()[i as int],
        ));
        i += 1;
    }
    r
}

impl Scheduler {
    /// A scheduler that has run no cycle: the cache is empty and nothing
    /// is counted.
    pub fn new(period: u64) -> (r: Scheduler)
        ensures
            r@ == (SchedulerView {
                period,
                valid_deployment_cache: Seq::empty(),
                metrics: Metrics::zero(),
            }),
    {
        let r = Scheduler { period, valid_deployment_cache: Vec::new(), metrics: Metrics::new() };
        assert(r.valid_deployment_cache.deep_view() =~= Seq::empty());
        r
    }

    /// Whether cycles run at every tick, not once.
    pub fn is_periodic(&self) -> (r: bool)
        ensures
            r == self@.periodic(),
    {
        self.period > 0
    }

    /// Begins a cycle: hands out a copy of the cache for the cycle to
    /// read.
    pub fn begin_cycle(&mut self) -> (cache: Vec<(Cid, u64)>)
        ensures
            final(self)@ == old(self)@.begun(),
            cache.deep_view() == old(self)@.valid_deployment_cache,
    {
        if self.period > 0 {
            self.metrics.inc_reconcile_runs_total();
        }
        clone_cache(&self.valid_deployment_cache)
    }

    /// Ends a cycle with its outcome: the cache it returned, or its
    /// error.
    pub fn end_cycle(&mut self, outcome: Result<Vec<(Cid, u64)>, String>) -> (r: Command)
        ensures
            final(self)@ == old(self)@.ended(cycle_outcome_view(outcome)),
            r@ == old(self)@.command(cycle_outcome_view(outcome)),
    {
        if self.period > 0 {
            match outcome {
                Ok(cache) => {
                    self.metrics.inc_reconcile_runs_ok();
                    self.valid_deployment_cache = cache;
                },
                Err(_) => {
                    self.metrics.inc_reconcile_runs_err();
                },
            }
            Command::NextTick
        } else {
            match outcome {
                Ok(_) => Command::Exit(Ok(())),
                Err(e) => Command::Exit(Err(e)),
            }
        }
    }
}

/// A periodic scheduler goes on whatever a cycle ended in: the next
/// cycle runs at the next tick, with the same period. After a cycle that
/// ended in an error it starts from the cache that the scheduler had
/// before, and the error is counted once.
pub proof fn lemma_periodic_run_goes_on(
    s: SchedulerView,
    outcome: Result<Seq<(Seq<u8>, u64)>, Seq<char>>,
)
    requires
        s.periodic(),
    ensures
        s.command(outcome) == CommandView::NextTick,
        s.ended(outcome).period == s.period,
        s.ended(outcome).periodic(),
        outcome is Err ==> s.ended(outcome).valid_deployment_cache == s.valid_deployment_cache,
        outcome is Err ==> s.ended(outcome).metrics == s.metrics.run_failed(),
        outcome is Ok ==> s.ended(outcome).valid_deployment_cache == outcome->Ok_0,
        outcome is Ok ==> s.ended(outcome).metrics == s.metrics.run_succeeded(),
{
}

/// A scheduler for a single cycle leaves with the outcome of that cycle
/// and counts nothing.
pub proof fn lemma_single_run_exits(
    s: SchedulerView,
    outcome: Result<Seq<(Seq<u8>, u64)>, Seq<char>>,
)
    requires
        !s.periodic(),
    ensures
        s.begun() == s,
        s.ended(outcome) == s,
        outcome is Ok ==> s.command(outcome) == CommandView::Exit(Ok(())),
        outcome is Err ==> s.command(outcome) == CommandView::Exit(Err(outcome->Err_0)),
{
}

/// Where the state manager did not apply the changes of a cycle, the
/// scheduler keeps the cache it had: nothing that this cycle validated is
/// seen by the next one.
pub proof fn lemma_failed_submission_keeps_cache(
    s: SchedulerView,
    cache: Seq<(Seq<u8>, u64)>,
    error: Seq<char>,
)
    ensures
        concluded(cache, Err(error)) == Err::<Seq<(Seq<u8>, u64)>, Seq<char>>(error),
        s.ended(concluded(cache, Err(error))).valid_deployment_cache == s.valid_deployment_cache,
        s.periodic() ==> s.ended(concluded(cache, Err(error))).metrics == s.metrics.run_failed(),
        s.periodic() ==> s.ended(concluded(cache, Ok(()))).valid_deployment_cache == cache,
{
}

} // verus!
