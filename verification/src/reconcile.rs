//! One reconciliation cycle: which deployments the cache answers for, what
//! each verdict means for the deny bit on chain, which entries are handed
//! to the state manager, and the cache that the next cycle starts from.

use crate::cid::{bytes32_to_cid_v0, cid_text, cid_v0, Cid};
use crate::metrics::Metrics;
use crate::validity::{Valid, ValidView};
use vstd::prelude::*;

verus! {

/// For how many seconds a deployment found valid is taken to be valid
/// still.
pub const VALID_DEPLOYMENT_CACHE_TTL: u64 = 60 * 60 * 24;

/// How many deployments are validated at a time.
pub const VALIDATION_CONCURRENCY: usize = 100;

/// A deployment as the network subgraph reports it. Times are in seconds
/// since the Unix epoch.
#[derive(Debug, Clone, Copy, PartialEq, Eq)]
pub struct Deployment {
    pub id: [u8; 32],
    pub deny: bool,
    pub signal: u128,
    pub created_at: u64,
}

impl Deployment {
    /// The identifier of the deployment's manifest.
    pub fn cid(&self) -> (r: Cid)
        ensures
            r@ == cid_v0(self.id@),
    {
        bytes32_to_cid_v0(self.id)
    }

    /// The identifier of the deployment's manifest, as text.
    pub fn ipfs_hash(&self) -> (r: String)
        ensures
            r@ == cid_text(cid_v0(self.id@)),
    {
        self.cid().to_text()
    }
}

/// Whether a deployment is to be checked: it has the signal, and the
/// grace period since its creation is over.
pub open spec fn over_threshold(
    deployment: Deployment,
    min_signal: u64,
    grace_period: u64,
    now: u64,
) -> bool {
    deployment.signal >= min_signal && now - deployment.created_at >= grace_period
}

/// The deployments that are to be checked, in the order given.
pub fn deployments_over_threshold(
    deployments: &Vec<Deployment>,
    min_signal: u64,
    grace_period: u64,
    now: u64,
) -> (r: Vec<Deployment>)
    ensures
        r@ == deployments@.filter(|d: Deployment| over_threshold(d, min_signal, grace_period, now)),
{
    let ghost pred = |d: Deployment| over_threshold(d, min_signal, grace_period, now);
    let mut r: Vec<Deployment> = Vec::new();
    let mut i: usize = 0;
    proof {
        reveal(Seq::filter);
    }
    while i < deployments.len()
        invariant
            i <= deployments.len(),
            pred == |d: Deployment| over_threshold(d, min_signal, grace_period, now),
            r@ == deployments@.take(i as int).filter(pred),
        decreases deployments.len() - i,
    {
        let d = deployments[i];
        proof {
            deployments@.lemma_take_succ_push(i as int);
            deployments@.take(i as int).lemma_filter_push(d, pred);
        }
        if d.signal >= min_signal as u128 && now >= d.created_at && now - d.created_at
            >= grace_period {
            r.push(d);
        }
        i += 1;
    }
    proof {
        deployments@.lemma_take_len();
    }
    r
}

/// Whether a validation at `last_validated` still counts at `now`.
pub open spec fn is_fresh(last_validated: u64, now: u64) -> bool {
    now - last_validated < VALID_DEPLOYMENT_CACHE_TTL
}

/// No entry of the cache is from the future.
pub open spec fn cache_in_past(cache: Seq<(Seq<u8>, u64)>, now: u64) -> bool {
    forall|i: int| 0 <= i < cache.len() ==> (#[trigger] cache[i]).1 <= now
}

/// When the deployment was last found valid, by the first entry of the
/// cache that names it and is still fresh.
pub open spec fn cached(cache: Seq<(Seq<u8>, u64)>, cid: Seq<u8>, now: u64) -> Option<u64>
    decreases cache.len(),
{
    if cache.len() == 0 {
        None
    } else if is_fresh(cache[0].1, now) && cache[0].0 == cid {
        Some(cache[0].1)
    } else {
        cached(cache.skip(1), cid, now)
    }
}

/// Looks a deployment up in the cache of valid deployments.
pub fn cached_validation(cache: &Vec<(Cid, u64)>, cid: &Cid, now: u64) -> (r: Option<u64>)
    requires
        cache_in_past(cache.deep_view(), now),
    ensures
        r == cached(cache.deep_view(), cid@, now),
{
    let ghost entries = cache.deep_view();
    let mut i: usize = 0;
    assert(entries.skip(0) =~= entries);
    while i < cache.len()
        invariant
            i <= cache.len(),
            entries == cache.deep_view(),
            cache_in_past(entries, now),
            cached(entries, cid@, now) == cached(entries.skip(i as int), cid@, now),
        decreases cache.len() - i,
    {
        if now - cache[i].1 < VALID_DEPLOYMENT_CACHE_TTL && cache[i].0 == *cid {
            return Some(cache[i].1);
        }
        assert(entries.skip(i as int).skip(1) =~= entries.skip(i + 1));
        i += 1;
    }
    None
}

/// A deployment together with its verdict and the time of the validation
/// that gave it.
#[derive(Debug, Clone, PartialEq, Eq)]
pub struct Checked {
    pub deployment: Deployment,
    pub validity: Valid,
    pub last_validated: u64,
}

/// The mathematical value of a [`Checked`].
pub struct CheckedView {
    pub deployment: Deployment,
    pub validity: ValidView,
    pub last_validated: u64,
}

impl DeepView for Checked {
    type V = CheckedView;

    open spec fn deep_view(&self) -> CheckedView {
        CheckedView {
            deployment: self.deployment,
            validity: self.validity@,
            last_validated: self.last_validated,
        }
    }
}

/// Answers for a deployment from the cache where the cache can: the
/// deployment is then valid as of the cached time, and the hit is counted.
/// Where it cannot, nothing is counted and the deployment is to be
/// validated.
pub fn validated_from_cache(
    deployment: &Deployment,
    valid_deployment_cache: &Vec<(Cid, u64)>,
    now: u64,
    metrics: &mut Metrics,
) -> (r: Option<Checked>)
    requires
        cache_in_past(valid_deployment_cache.deep_view(), now),
    ensures
        match cached(valid_deployment_cache.deep_view(), cid_v0(deployment.id@), now) {
            Some(last_validated) => r.deep_view() == Some(
                CheckedView { deployment: *deployment, validity: ValidView::Yes, last_validated },
            ) && *final(metrics) == old(metrics).cache_hit(),
            None => r is None && *final(metrics) == *old(metrics),
        },
{
    let id = deployment.cid();
    match cached_validation(valid_deployment_cache, &id, now) {
        Some(last_validated) => {
            metrics.inc_valid_deployment_cache_hits();
            Some(Checked { deployment: *deployment, validity: Valid::Yes, last_validated })
        },
        None => None,
    }
}

/// What the cache answers for a deployment: valid as of the cached time,
/// or nothing.
pub open spec fn cache_answer(
    deployment: Deployment,
    cache: Seq<(Seq<u8>, u64)>,
    now: u64,
) -> Option<CheckedView> {
    match cached(cache, cid_v0(deployment.id@), now) {
        Some(last_validated) => Some(
            CheckedView { deployment, validity: ValidView::Yes, last_validated },
        ),
        None => None,
    }
}

/// What the cache answers for each deployment of a stream, in order.
pub open spec fn cache_answers(
    deployments: Seq<Deployment>,
    cache: Seq<(Seq<u8>, u64)>,
    now: u64,
) -> Seq<Option<CheckedView>> {
    deployments.map_values(|d: Deployment| cache_answer(d, cache, now))
}

/// How many deployments of a stream the cache answers for. A deployment
/// counts once, however many entries of the cache name it, and as often
/// as it comes in the stream.
pub open spec fn hits(deployments: Seq<Deployment>, cache: Seq<(Seq<u8>, u64)>, now: u64) -> nat
    decreases deployments.len(),
{
    if deployments.len() == 0 {
        0
    } else {
        hits(deployments.drop_last(), cache, now) + if cache_answer(
            deployments.last(),
            cache,
            now,
        ) is Some {
            1nat
        } else {
            0nat
        }
    }
}

/// Answers for every deployment of a stream from the cache where the
/// cache can, and counts each such deployment once. The deployments for
/// which it answers nothing are to be validated; nothing is counted for
/// them.
pub fn answers_from_cache(
    deployments: &Vec<Deployment>,
    valid_deployment_cache: &Vec<(Cid, u64)>,
    now: u64,
    metrics: &mut Metrics,
) -> (r: Vec<Option<Checked>>)
    requires
        cache_in_past(valid_deployment_cache.deep_view(), now),
    ensures
        r.deep_view() == cache_answers(deployments@, valid_deployment_cache.deep_view(), now),
        *final(metrics) == old(metrics).cache_hits(
            hits(deployments@, valid_deployment_cache.deep_view(), now),
        ),
{
    let ghost cache = valid_deployment_cache.deep_view();
    let mut r: Vec<Option<Checked>> = Vec::new();
    let mut i: usize = 0;
    assert(r.deep_view() =~= cache_answers(deployments@, cache, now).take(0));
    assert(deployments@.take(0) =~= Seq::<Deployment>::empty());
    while i < deployments.len()
        invariant
            i <= deployments.len(),
            cache == valid_deployment_cache.deep_view(),
            cache_in_past(cache, now),
            r.deep_view() == cache_answers(deployments@, cache, now).take(i as int),
            *metrics == old(metrics).cache_hits(hits(deployments@.take(i as int), cache, now)),
        decreases deployments.len() - i,
    {
        let ghost before = r.deep_view();
        let answer = validated_from_cache(&deployments[i], valid_deployment_cache, now, metrics);
        proof {
            assert(deployments@.take(i + 1).drop_last() =~= deployments@.take(i as int));
            assert(deployments@.take(i + 1).last() == deployments@[i as int]);
            assert(answer.deep_view() == cache_answer(deployments@[i as int], cache, now));
        }
        r.push(answer);
        assert(r.deep_view() =~= before.push(cache_answer(deployments@[i as int], cache, now)));
        assert(cache_answers(deployments@, cache, now).take(i + 1) =~= before.push(
            cache_answer(deployments@[i as int], cache, now),
        ));
        i += 1;
    }
    assert(deployments@.take(i as int) =~= deployments@);
    assert(cache_answers(deployments@, cache, now).take(i as int) =~= cache_answers(
        deployments@,
        cache,
        now,
    ));
    r
}

/// What a cycle found of one deployment: whether it is to be denied,
/// whether that differs from the deny bit on chain, and when it was
/// validated.
#[derive(Debug, Clone, Copy, PartialEq, Eq)]
pub struct DeploymentStatus {
    pub id: [u8; 32],
    pub should_deny: bool,
    pub changed: bool,
    pub last_validated: u64,
}

/// The status that a verdict gives a deployment.
pub open spec fn status_of(checked: CheckedView) -> DeploymentStatus {
    DeploymentStatus {
        id: checked.deployment.id,
        should_deny: checked.validity is No,
        changed: checked.deployment.deny != (checked.validity is No),
        last_validated: checked.last_validated,
    }
}

/// What is handed to the state manager for a deployment: its new deny
/// bit, if that changed.
pub open spec fn changed_entry(status: DeploymentStatus) -> Option<([u8; 32], bool)> {
    if status.changed {
        Some((status.id, status.should_deny))
    } else {
        None
    }
}

/// The cache entry of a deployment: one if it is valid, none if it is
/// not.
pub open spec fn cache_entry(status: DeploymentStatus) -> Option<(Seq<u8>, u64)> {
    if status.should_deny {
        None
    } else {
        Some((cid_v0(status.id@), status.last_validated))
    }
}

/// The entries for the state manager: the deployments whose deny bit
/// changed, in order.
pub open spec fn changed_deployments(status: Seq<DeploymentStatus>) -> Seq<([u8; 32], bool)> {
    status.filter_map(|s: DeploymentStatus| changed_entry(s))
}

/// The cache after the cycle: the valid deployments, in order, each with
/// the time of its validation.
pub open spec fn updated_deployment_cache(status: Seq<DeploymentStatus>) -> Seq<(Seq<u8>, u64)> {
    status.filter_map(|s: DeploymentStatus| cache_entry(s))
}

/// The status of every deployment of a cycle, in order.
pub open spec fn deployment_statuses(checked: Seq<CheckedView>) -> Seq<DeploymentStatus> {
    checked.map_values(|c: CheckedView| status_of(c))
}

/// The status that a verdict gives a deployment.
pub fn deployment_status(checked: &Checked) -> (r: DeploymentStatus)
    ensures
        r == status_of(checked.deep_view()),
{
    let should_deny = checked.validity.is_no();
    DeploymentStatus {
        id: checked.deployment.id,
        should_deny,
        changed: checked.deployment.deny != should_deny,
        last_validated: checked.last_validated,
    }
}

/// The outcome of a cycle.
#[derive(Debug, Clone, PartialEq, Eq)]
pub struct Reconciliation {
    /// The status of every deployment of the cycle, in order.
    pub deployment_status: Vec<DeploymentStatus>,
    /// What the state manager is to apply.
    pub changed_deployments: Vec<([u8; 32], bool)>,
    /// The cache to keep once the state manager has applied the changes.
    pub updated_deployment_cache: Vec<(Cid, u64)>,
}

/// Reduces the verdicts of a cycle to the status of each deployment, the
/// entries whose deny bit is to flip, and the cache of the deployments
/// that are valid.
pub fn reconcile_deny_list(checked: &Vec<Checked>) -> (r: Reconciliation)
    ensures
        r.deployment_status@ == deployment_statuses(checked.deep_view()),
        r.changed_deployments@ == changed_deployments(r.deployment_status@),
        r.updated_deployment_cache.deep_view() == updated_deployment_cache(r.deployment_status@),
        forall|i: int|
            0 <= i < checked.len() ==> (#[trigger] r.deployment_status[i]).changed == (
            checked[i].deployment.deny != r.deployment_status[i].should_deny),
{
    let ghost all = deployment_statuses(checked.deep_view());
    let ghost to_changed = |s: DeploymentStatus| changed_entry(s);
    let ghost to_cache = |s: DeploymentStatus| cache_entry(s);
    let mut deployment_status: Vec<DeploymentStatus> = Vec::new();
    let mut changed: Vec<([u8; 32], bool)> = Vec::new();
    let mut cache: Vec<(Cid, u64)> = Vec::new();
    let mut i: usize = 0;
    while i < checked.len()
        invariant
            i <= checked.len(),
            all == deployment_statuses(checked.deep_view()),
            to_changed == |s: DeploymentStatus| changed_entry(s),
            to_cache == |s: DeploymentStatus| cache_entry(s),
            deployment_status@ == all.take(i as int),
            changed@ == all.take(i as int).filter_map(to_changed),
            cache.deep_view() == all.take(i as int).filter_map(to_cache),
        decreases checked.len() - i,
    {
        let status = self::deployment_status(&checked[i]);
        proof {
            all.lemma_take_succ_push(i as int);
            all.lemma_filter_map_take_succ(to_changed, i as int);
            all.lemma_filter_map_take_succ(to_cache, i as int);
        }
        deployment_status.push(status);
        if status.changed {
            changed.push((status.id, status.should_deny));
        }
        if !status.should_deny {
            cache.push((bytes32_to_cid_v0(status.id), status.last_validated));
        }
        i += 1;
    }
    proof {
        all.lemma_take_len();
    }
    Reconciliation { deployment_status, changed_deployments: changed, updated_deployment_cache: cache }
}

/// What a cycle hands back once the state manager has answered, as a
/// mathematical value: the new cache where the changes were applied, the
/// state manager's error where they were not.
pub open spec fn concluded(
    cache: Seq<(Seq<u8>, u64)>,
    submitted: Result<(), Seq<char>>,
) -> Result<Seq<(Seq<u8>, u64)>, Seq<char>> {
    match submitted {
        Ok(_) => Ok(cache),
        Err(e) => Err(e),
    }
}

/// The answer of the state manager as a mathematical value.
pub open spec fn submitted_view(submitted: Result<(), String>) -> Result<(), Seq<char>> {
    match submitted {
        Ok(_) => Ok(()),
        Err(e) => Err(e@),
    }
}

/// The outcome of a cycle as a mathematical value.
pub open spec fn cycle_outcome_view(outcome: Result<Vec<(Cid, u64)>, String>) -> Result<
    Seq<(Seq<u8>, u64)>,
    Seq<char>,
> {
    match outcome {
        Ok(cache) => Ok(cache.deep_view()),
        Err(e) => Err(e@),
    }
}

impl Reconciliation {
    /// Ends the cycle with the answer of the state manager: the new cache
    /// is handed back only where the changes were applied. Where they
    /// were not, the cycle ends in the state manager's error and no cache
    /// of this cycle is seen.
    pub fn conclude(self, submitted: Result<(), String>) -> (r: Result<Vec<(Cid, u64)>, String>)
        ensures
            cycle_outcome_view(r) == concluded(
                self.updated_deployment_cache.deep_view(),
                submitted_view(submitted),
            ),
    {
        match submitted {
            Ok(_) => Ok(self.updated_deployment_cache),
            Err(e) => Err(e),
        }
    }
}

} // verus!
