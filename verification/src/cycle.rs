//! What holds of a reconciliation cycle as a whole.

use crate::cid::{cid_v0, lemma_same_cid_same_deployment};
use crate::reconcile::{
    cache_answer, cache_entry, cached, changed_deployments, changed_entry, deployment_statuses,
    hits, is_fresh, updated_deployment_cache, CheckedView, Deployment, DeploymentStatus,
};
use crate::validity::ValidView;
use vstd::prelude::*;

verus! {

/// What a cycle makes of one deployment: the cache answers for it where
/// it can, and else the validator's verdict stands, as of `now`.
pub open spec fn cycle_checked(
    deployment: Deployment,
    cache: Seq<(Seq<u8>, u64)>,
    now: u64,
    verdicts: spec_fn(Seq<u8>) -> ValidView,
) -> CheckedView {
    match cached(cache, cid_v0(deployment.id@), now) {
        Some(last_validated) => CheckedView {
            deployment,
            validity: ValidView::Yes,
            last_validated,
        },
        None => CheckedView {
            deployment,
            validity: verdicts(cid_v0(deployment.id@)),
            last_validated: now,
        },
    }
}

/// The statuses of a cycle over the deployments, with the cache it
/// started from and the verdicts that the validator would give.
pub open spec fn cycle(
    deployments: Seq<Deployment>,
    cache: Seq<(Seq<u8>, u64)>,
    now: u64,
    verdicts: spec_fn(Seq<u8>) -> ValidView,
) -> Seq<DeploymentStatus> {
    deployment_statuses(
        deployments.map_values(|d: Deployment| cycle_checked(d, cache, now, verdicts)),
    )
}

/// What a filter-map keeps of an item is among its results.
proof fn lemma_filter_map_keeps<A, B>(s: Seq<A>, f: spec_fn(A) -> Option<B>, k: int)
    requires
        0 <= k < s.len(),
        f(s[k]) is Some,
    ensures
        s.filter_map(f).contains(f(s[k])->0),
    decreases s.len(),
{
    broadcast use vstd::seq_lib::group_seq_properties;

    let rest = s.drop_last();
    if k == s.len() - 1 {
        let r = rest.filter_map(f) + seq![f(s[k])->0];
        assert(r[r.len() - 1] == f(s[k])->0);
    } else {
        lemma_filter_map_keeps(rest, f, k);
        assert(rest[k] == s[k]);
        let e = f(s[k])->0;
        let i = choose|i: int| 0 <= i < rest.filter_map(f).len() && rest.filter_map(f)[i] == e;
        match f(s.last()) {
            Some(x) => {
                assert((rest.filter_map(f) + seq![x])[i] == e);
            },
            None => {},
        }
    }
}

/// Every result of a filter-map is what it keeps of some item.
proof fn lemma_filter_map_source<A, B>(s: Seq<A>, f: spec_fn(A) -> Option<B>, i: int) -> (k: int)
    requires
        0 <= i < s.filter_map(f).len(),
    ensures
        0 <= k < s.len(),
        f(s[k]) == Some(s.filter_map(f)[i]),
{
    let e = s.filter_map(f)[i];
    assert(s.filter_map(f).contains(e));
    s.lemma_filter_map_contains(f, e);
    let t = choose|t: A| #[trigger] s.contains(t) && f(t) == Some(e);
    choose|k: int| 0 <= k < s.len() && s[k] == t
}

/// A deployment that the cycle did not see is handed to the state
/// manager in no entry and stands in no entry of the new cache: its deny
/// bit is left alone.
pub proof fn lemma_absent_deployment_untouched(checked: Seq<CheckedView>, id: [u8; 32])
    requires
        forall|k: int| 0 <= k < checked.len() ==> (#[trigger] checked[k]).deployment.id != id,
    ensures
        forall|i: int|
            0 <= i < changed_deployments(deployment_statuses(checked)).len() ==> (
            #[trigger] changed_deployments(deployment_statuses(checked))[i]).0 != id,
        forall|i: int|
            0 <= i < updated_deployment_cache(deployment_statuses(checked)).len() ==> (
            #[trigger] updated_deployment_cache(deployment_statuses(checked))[i]).0 != cid_v0(id@),
{
    let status = deployment_statuses(checked);
    assert forall|i: int| 0 <= i < changed_deployments(status).len() implies (
    #[trigger] changed_deployments(status)[i]).0 != id by {
        let k = lemma_filter_map_source(status, |s: DeploymentStatus| changed_entry(s), i);
        assert(status[k].id == checked[k].deployment.id);
    }
    assert forall|i: int| 0 <= i < updated_deployment_cache(status).len() implies (
    #[trigger] updated_deployment_cache(status)[i]).0 != cid_v0(id@) by {
        let k = lemma_filter_map_source(status, |s: DeploymentStatus| cache_entry(s), i);
        assert(status[k].id == checked[k].deployment.id);
        if cid_v0(status[k].id@) == cid_v0(id@) {
            lemma_same_cid_same_deployment(status[k].id, id);
        }
    }
}

/// Whether the entry flips the deny bit of a deployment of the cycle.
pub open spec fn flips_deny_bit(checked: Seq<CheckedView>, entry: ([u8; 32], bool)) -> bool {
    exists|k: int|
        0 <= k < checked.len() && (#[trigger] checked[k]).deployment.id == entry.0
            && checked[k].deployment.deny != entry.1
}

/// A deployment counts as changed exactly where the deny bit on chain
/// differs from what the verdict asks for, and every entry handed to the
/// state manager is of a deployment of the cycle whose deny bit it flips.
pub proof fn lemma_changed_iff_deny_differs(checked: Seq<CheckedView>)
    ensures
        forall|k: int|
            0 <= k < checked.len() ==> (#[trigger] deployment_statuses(checked)[k]).changed == (
            checked[k].deployment.deny != deployment_statuses(checked)[k].should_deny),
        forall|i: int|
            0 <= i < changed_deployments(deployment_statuses(checked)).len() ==> flips_deny_bit(
                checked,
                #[trigger] changed_deployments(deployment_statuses(checked))[i],
            ),
{
    let status = deployment_statuses(checked);
    assert forall|i: int| 0 <= i < changed_deployments(status).len() implies flips_deny_bit(
        checked,
        #[trigger] changed_deployments(status)[i],
    ) by {
        let k = lemma_filter_map_source(status, |s: DeploymentStatus| changed_entry(s), i);
        assert(checked[k].deployment.id == status[k].id);
    }
}

/// Whether the cache entry is that of a deployment found valid.
pub open spec fn entry_of_valid(status: Seq<DeploymentStatus>, entry: (Seq<u8>, u64)) -> bool {
    exists|k: int|
        0 <= k < status.len() && !(#[trigger] status[k]).should_deny && entry == (
            cid_v0(status[k].id@),
            status[k].last_validated,
        )
}

/// Every entry of the new cache is of a deployment that the cycle found
/// valid, with the time of its validation.
pub proof fn lemma_cache_holds_only_valid(status: Seq<DeploymentStatus>)
    ensures
        forall|i: int|
            0 <= i < updated_deployment_cache(status).len() ==> entry_of_valid(
                status,
                #[trigger] updated_deployment_cache(status)[i],
            ),
{
    assert forall|i: int| 0 <= i < updated_deployment_cache(status).len() implies entry_of_valid(
        status,
        #[trigger] updated_deployment_cache(status)[i],
    ) by {
        let k = lemma_filter_map_source(status, |s: DeploymentStatus| cache_entry(s), i);
        assert(!status[k].should_deny);
    }
}

/// A deployment that the cycle found invalid, and never valid, stands in
/// no entry of the new cache.
pub proof fn lemma_invalid_never_cached(status: Seq<DeploymentStatus>, id: [u8; 32])
    requires
        forall|k: int| 0 <= k < status.len() && (#[trigger] status[k]).id == id ==> status[k].should_deny,
    ensures
        forall|i: int|
            0 <= i < updated_deployment_cache(status).len() ==> (#[trigger] updated_deployment_cache(
                status,
            )[i]).0 != cid_v0(id@),
{
    assert forall|i: int| 0 <= i < updated_deployment_cache(status).len() implies (
    #[trigger] updated_deployment_cache(status)[i]).0 != cid_v0(id@) by {
        let k = lemma_filter_map_source(status, |s: DeploymentStatus| cache_entry(s), i);
        if cid_v0(status[k].id@) == cid_v0(id@) {
            lemma_same_cid_same_deployment(status[k].id, id);
        }
    }
}

/// What the cache answers is the time of a fresh entry of the deployment;
/// it answers nothing only where the deployment has no fresh entry.
pub proof fn lemma_cached_is_fresh_entry(cache: Seq<(Seq<u8>, u64)>, cid: Seq<u8>, now: u64)
    ensures
        match cached(cache, cid, now) {
            Some(last_validated) => is_fresh(last_validated, now) && cache.contains(
                (cid, last_validated),
            ),
            None => forall|i: int|
                0 <= i < cache.len() && (#[trigger] cache[i]).0 == cid ==> !is_fresh(
                    cache[i].1,
                    now,
                ),
        },
    decreases cache.len(),
{
    if cache.len() > 0 {
        if is_fresh(cache[0].1, now) && cache[0].0 == cid {
            assert(cache[0] == (cid, cache[0].1));
        } else {
            lemma_cached_is_fresh_entry(cache.skip(1), cid, now);
            match cached(cache, cid, now) {
                Some(last_validated) => {
                    let j = choose|j: int|
                        0 <= j < cache.skip(1).len() && cache.skip(1)[j] == (cid, last_validated);
                    assert(cache[j + 1] == (cid, last_validated));
                },
                None => {
                    assert forall|i: int| 0 <= i < cache.len() && (#[trigger] cache[i]).0
                        == cid implies !is_fresh(cache[i].1, now) by {
                        if i > 0 {
                            assert(cache.skip(1)[i - 1] == cache[i]);
                        }
                    }
                },
            }
        }
    }
}

/// A deployment with a fresh entry in the cache is answered from the
/// cache, so that nothing is fetched for it.
pub proof fn lemma_fresh_entry_hits(cache: Seq<(Seq<u8>, u64)>, i: int, now: u64)
    requires
        0 <= i < cache.len(),
        is_fresh(cache[i].1, now),
    ensures
        cached(cache, cache[i].0, now) is Some,
{
    lemma_cached_is_fresh_entry(cache, cache[i].0, now);
}

/// A deployment that a cycle found valid is answered from that cycle's
/// cache for as long as the validation is fresh.
pub proof fn lemma_valid_deployment_hits_next_cycle(
    status: Seq<DeploymentStatus>,
    k: int,
    now: u64,
)
    requires
        0 <= k < status.len(),
        !status[k].should_deny,
        is_fresh(status[k].last_validated, now),
    ensures
        cached(updated_deployment_cache(status), cid_v0(status[k].id@), now) is Some,
{
    let cache = updated_deployment_cache(status);
    lemma_filter_map_keeps(status, |s: DeploymentStatus| cache_entry(s), k);
    let entry = (cid_v0(status[k].id@), status[k].last_validated);
    let i = choose|i: int| 0 <= i < cache.len() && cache[i] == entry;
    lemma_fresh_entry_hits(cache, i, now);
}

/// With the cache of a cycle in which every deployment was valid, a
/// second cycle over the same deployments, run while those validations are
/// fresh, asks nothing of the validator: whatever verdicts it would give,
/// every deployment is answered from the cache and found valid.
pub proof fn lemma_second_cycle_needs_no_validation(
    deployments: Seq<Deployment>,
    cache: Seq<(Seq<u8>, u64)>,
    now: u64,
    verdicts: spec_fn(Seq<u8>) -> ValidView,
    later: u64,
    other_verdicts: spec_fn(Seq<u8>) -> ValidView,
)
    requires
        forall|k: int|
            0 <= k < deployments.len() ==> !(#[trigger] cycle(deployments, cache, now, verdicts)[k]).should_deny
                && is_fresh(cycle(deployments, cache, now, verdicts)[k].last_validated, later),
    ensures
        forall|k: int|
            0 <= k < deployments.len() ==> cached(
                updated_deployment_cache(cycle(deployments, cache, now, verdicts)),
                cid_v0((#[trigger] deployments[k]).id@),
                later,
            ) is Some,
        forall|k: int|
            0 <= k < deployments.len() ==> !(#[trigger] cycle(
                deployments,
                updated_deployment_cache(cycle(deployments, cache, now, verdicts)),
                later,
                other_verdicts,
            )[k]).should_deny,
{
    let first = cycle(deployments, cache, now, verdicts);
    assert forall|k: int| 0 <= k < deployments.len() implies cached(
        updated_deployment_cache(first),
        cid_v0((#[trigger] deployments[k]).id@),
        later,
    ) is Some by {
        assert(first[k].id == deployments[k].id);
        lemma_valid_deployment_hits_next_cycle(first, k, later);
    }
}

/// Without a cache, the entries handed to the state manager depend on
/// the deployments and the verdicts alone, not on the time of the cycle.
pub proof fn lemma_same_calls_without_cache(
    deployments: Seq<Deployment>,
    now: u64,
    later: u64,
    verdicts: spec_fn(Seq<u8>) -> ValidView,
)
    ensures
        changed_deployments(cycle(deployments, Seq::empty(), now, verdicts)) == changed_deployments(
            cycle(deployments, Seq::empty(), later, verdicts),
        ),
    decreases deployments.len(),
{
    let a = cycle(deployments, Seq::empty(), now, verdicts);
    let b = cycle(deployments, Seq::empty(), later, verdicts);
    let f = |s: DeploymentStatus| changed_entry(s);
    if deployments.len() > 0 {
        let rest = deployments.drop_last();
        lemma_same_calls_without_cache(rest, now, later, verdicts);
        assert(a.drop_last() =~= cycle(rest, Seq::empty(), now, verdicts));
        assert(b.drop_last() =~= cycle(rest, Seq::empty(), later, verdicts));
        assert(f(a.last()) == f(b.last()));
    }
}

/// Where no deployment comes twice in a cycle, none is handed to the
/// state manager twice.
pub proof fn lemma_diff_mentions_deployment_once(status: Seq<DeploymentStatus>)
    requires
        forall|i: int, j: int|
            0 <= i < j < status.len() ==> (#[trigger] status[i]).id != (#[trigger] status[j]).id,
    ensures
        forall|a: int, b: int|
            0 <= a < b < changed_deployments(status).len() ==> (#[trigger] changed_deployments(
                status,
            )[a]).0 != (#[trigger] changed_deployments(status)[b]).0,
    decreases status.len(),
{
    let f = |s: DeploymentStatus| changed_entry(s);
    if status.len() > 0 {
        let rest = status.drop_last();
        lemma_diff_mentions_deployment_once(rest);
        let earlier = changed_deployments(rest);
        assert forall|a: int, b: int| 0 <= a < b < changed_deployments(status).len() implies (
        #[trigger] changed_deployments(status)[a]).0 != (#[trigger] changed_deployments(
            status,
        )[b]).0 by {
            if b < earlier.len() {
                assert(changed_deployments(status)[a] == earlier[a]);
                assert(changed_deployments(status)[b] == earlier[b]);
            } else {
                assert(changed_deployments(status)[a] == earlier[a]);
                let k = lemma_filter_map_source(rest, f, a);
                assert(rest[k] == status[k]);
                assert(status[k].id != status[status.len() - 1].id);
            }
        }
    }
}

/// A filter-map that keeps something of every item is a map.
proof fn lemma_filter_map_of_all<A, B>(s: Seq<A>, f: spec_fn(A) -> Option<B>)
    requires
        forall|k: int| 0 <= k < s.len() ==> f(#[trigger] s[k]) is Some,
    ensures
        s.filter_map(f) == s.map_values(|a: A| f(a)->0),
    decreases s.len(),
{
    if s.len() > 0 {
        let rest = s.drop_last();
        assert forall|k: int| 0 <= k < rest.len() implies f(#[trigger] rest[k]) is Some by {
            assert(rest[k] == s[k]);
        }
        lemma_filter_map_of_all(rest, f);
        assert(f(s.last()) is Some);
        assert(rest.map_values(|a: A| f(a)->0) + seq![f(s.last())->0] =~= s.map_values(
            |a: A| f(a)->0,
        ));
    } else {
        assert(s.filter_map(f) =~= s.map_values(|a: A| f(a)->0));
    }
}

/// A filter-map that keeps nothing of any item is empty.
proof fn lemma_filter_map_of_none<A, B>(s: Seq<A>, f: spec_fn(A) -> Option<B>)
    requires
        forall|k: int| 0 <= k < s.len() ==> f(#[trigger] s[k]) is None,
    ensures
        s.filter_map(f) == Seq::<B>::empty(),
    decreases s.len(),
{
    if s.len() > 0 {
        let rest = s.drop_last();
        assert forall|k: int| 0 <= k < rest.len() implies f(#[trigger] rest[k]) is None by {
            assert(rest[k] == s[k]);
        }
        lemma_filter_map_of_none(rest, f);
        assert(f(s.last()) is None);
    }
}

/// The cache answers with the entry at `k` where that entry is fresh and
/// no entry before it names the same file.
pub proof fn lemma_cached_first_entry(cache: Seq<(Seq<u8>, u64)>, k: int, now: u64)
    requires
        0 <= k < cache.len(),
        is_fresh(cache[k].1, now),
        forall|j: int| 0 <= j < k ==> (#[trigger] cache[j]).0 != cache[k].0,
    ensures
        cached(cache, cache[k].0, now) == Some(cache[k].1),
    decreases k,
{
    if k > 0 {
        let rest = cache.skip(1);
        assert(rest[k - 1] == cache[k]);
        assert forall|j: int| 0 <= j < k - 1 implies (#[trigger] rest[j]).0 != rest[k - 1].0 by {
            assert(rest[j] == cache[j + 1]);
        }
        lemma_cached_first_entry(rest, k - 1, now);
        assert(cache[0].0 != cache[k].0);
    }
}

/// With the cache kept and nothing changed, a second cycle changes
/// nothing. Let a cycle find every deployment valid, each deployment
/// coming once. Let a second cycle run over the same deployments while
/// those validations are fresh, starting from the cache of the first, at
/// a time when no deployment is denied on chain. Then, whatever the
/// validator would say, every deployment is answered from the cache, no
/// entry is handed to the state manager, and the cache is carried over as
/// it is, times of validation included.
pub proof fn lemma_second_cycle_changes_nothing(
    deployments: Seq<Deployment>,
    cache: Seq<(Seq<u8>, u64)>,
    now: u64,
    verdicts: spec_fn(Seq<u8>) -> ValidView,
    again: Seq<Deployment>,
    later: u64,
    other_verdicts: spec_fn(Seq<u8>) -> ValidView,
)
    requires
        forall|i: int, j: int|
            0 <= i < j < deployments.len() ==> (#[trigger] deployments[i]).id != (
            #[trigger] deployments[j]).id,
        forall|k: int|
            0 <= k < deployments.len() ==> !(#[trigger] cycle(deployments, cache, now, verdicts)[k]).should_deny
                && is_fresh(cycle(deployments, cache, now, verdicts)[k].last_validated, later),
        again.len() == deployments.len(),
        forall|k: int|
            0 <= k < again.len() ==> (#[trigger] again[k]).id == deployments[k].id && !again[k].deny,
    ensures
        changed_deployments(
            cycle(
                again,
                updated_deployment_cache(cycle(deployments, cache, now, verdicts)),
                later,
                other_verdicts,
            ),
        ) == Seq::<([u8; 32], bool)>::empty(),
        updated_deployment_cache(
            cycle(
                again,
                updated_deployment_cache(cycle(deployments, cache, now, verdicts)),
                later,
                other_verdicts,
            ),
        ) == updated_deployment_cache(cycle(deployments, cache, now, verdicts)),
{
    let first = cycle(deployments, cache, now, verdicts);
    let kept = updated_deployment_cache(first);
    let to_cache = |s: DeploymentStatus| cache_entry(s);
    let to_changed = |s: DeploymentStatus| changed_entry(s);
    lemma_filter_map_of_all(first, to_cache);
    assert(kept.len() == first.len());
    let second = cycle(again, kept, later, other_verdicts);
    assert forall|k: int| 0 <= k < second.len() implies (#[trigger] second[k]) == (
    DeploymentStatus {
        id: first[k].id,
        should_deny: false,
        changed: false,
        last_validated: first[k].last_validated,
    }) by {
        assert(first[k].id == deployments[k].id);
        assert(kept[k] == (cid_v0(first[k].id@), first[k].last_validated));
        assert forall|j: int| 0 <= j < k implies (#[trigger] kept[j]).0 != kept[k].0 by {
            assert(first[j].id == deployments[j].id);
            assert(kept[j] == (cid_v0(first[j].id@), first[j].last_validated));
            if kept[j].0 == kept[k].0 {
                lemma_same_cid_same_deployment(first[j].id, first[k].id);
            }
        }
        lemma_cached_first_entry(kept, k, later);
        assert(again[k].id == deployments[k].id);
    }
    assert forall|k: int| 0 <= k < second.len() implies to_changed(#[trigger] second[k]) is None by {
    }
    lemma_filter_map_of_none(second, to_changed);
    assert forall|k: int| 0 <= k < second.len() implies to_cache(#[trigger] second[k]) is Some by {
    }
    lemma_filter_map_of_all(second, to_cache);
    assert(updated_deployment_cache(second) =~= kept);
}

/// Where the cache answers for every deployment of a stream, each
/// deployment is counted as a hit.
pub proof fn lemma_hits_count_every_answer(
    deployments: Seq<Deployment>,
    cache: Seq<(Seq<u8>, u64)>,
    now: u64,
)
    requires
        forall|k: int|
            0 <= k < deployments.len() ==> cache_answer(#[trigger] deployments[k], cache, now) is Some,
    ensures
        hits(deployments, cache, now) == deployments.len(),
    decreases deployments.len(),
{
    if deployments.len() > 0 {
        let rest = deployments.drop_last();
        assert forall|k: int| 0 <= k < rest.len() implies cache_answer(
            #[trigger] rest[k],
            cache,
            now,
        ) is Some by {
            assert(rest[k] == deployments[k]);
        }
        lemma_hits_count_every_answer(rest, cache, now);
        assert(cache_answer(deployments[deployments.len() - 1], cache, now) is Some);
    }
}

/// With the cache of a cycle in which every deployment was valid, a
/// second cycle over the same deployments, run while those validations
/// are fresh, is answered from the cache for every deployment, and the
/// hits it counts are as many as the deployments.
pub proof fn lemma_second_cycle_hits_every_deployment(
    deployments: Seq<Deployment>,
    cache: Seq<(Seq<u8>, u64)>,
    now: u64,
    verdicts: spec_fn(Seq<u8>) -> ValidView,
    again: Seq<Deployment>,
    later: u64,
)
    requires
        forall|k: int|
            0 <= k < deployments.len() ==> !(#[trigger] cycle(deployments, cache, now, verdicts)[k]).should_deny
                && is_fresh(cycle(deployments, cache, now, verdicts)[k].last_validated, later),
        again.len() == deployments.len(),
        forall|k: int| 0 <= k < again.len() ==> (#[trigger] again[k]).id == deployments[k].id,
    ensures
        forall|k: int|
            0 <= k < again.len() ==> cache_answer(
                #[trigger] again[k],
                updated_deployment_cache(cycle(deployments, cache, now, verdicts)),
                later,
            ) is Some,
        hits(again, updated_deployment_cache(cycle(deployments, cache, now, verdicts)), later)
            == again.len(),
{
    let kept = updated_deployment_cache(cycle(deployments, cache, now, verdicts));
    lemma_second_cycle_needs_no_validation(deployments, cache, now, verdicts, later, verdicts);
    assert forall|k: int| 0 <= k < again.len() implies cache_answer(
        #[trigger] again[k],
        kept,
        later,
    ) is Some by {
        assert(again[k].id == deployments[k].id);
        assert(cached(kept, cid_v0(deployments[k].id@), later) is Some);
    }
    lemma_hits_count_every_answer(again, kept, later);
}

/// Where no deployment comes twice in a cycle, no two entries of the new
/// cache name the same file.
pub proof fn lemma_cache_names_deployment_once(status: Seq<DeploymentStatus>)
    requires
        forall|i: int, j: int|
            0 <= i < j < status.len() ==> (#[trigger] status[i]).id != (#[trigger] status[j]).id,
    ensures
        forall|a: int, b: int|
            0 <= a < b < updated_deployment_cache(status).len() ==> (
            #[trigger] updated_deployment_cache(status)[a]).0 != (#[trigger] updated_deployment_cache(
                status,
            )[b]).0,
    decreases status.len(),
{
    let f = |s: DeploymentStatus| cache_entry(s);
    if status.len() > 0 {
        let rest = status.drop_last();
        lemma_cache_names_deployment_once(rest);
        let earlier = updated_deployment_cache(rest);
        let all = updated_deployment_cache(status);
        assert forall|a: int, b: int| 0 <= a < b < all.len() implies (#[trigger] all[a]).0 != (
        #[trigger] all[b]).0 by {
            if b < earlier.len() {
                assert(all[a] == earlier[a]);
                assert(all[b] == earlier[b]);
            } else {
                assert(all[a] == earlier[a]);
                let k = lemma_filter_map_source(rest, f, a);
                assert(rest[k] == status[k]);
                assert(status[k].id != status[status.len() - 1].id);
                assert(all[b] == (
                    cid_v0(status[status.len() - 1].id@),
                    status[status.len() - 1].last_validated,
                ));
                if all[a].0 == all[b].0 {
                    lemma_same_cid_same_deployment(status[k].id, status[status.len() - 1].id);
                }
            }
        }
    }
}

/// What a cache with one entry for a file answers for that file: the
/// time of the entry while it is fresh, and nothing after.
pub proof fn lemma_cached_single_entry(cache: Seq<(Seq<u8>, u64)>, i: int, now: u64)
    requires
        0 <= i < cache.len(),
        forall|j: int| 0 <= j < cache.len() && j != i ==> (#[trigger] cache[j]).0 != cache[i].0,
    ensures
        cached(cache, cache[i].0, now) == if is_fresh(cache[i].1, now) {
            Some(cache[i].1)
        } else {
            None
        },
{
    if is_fresh(cache[i].1, now) {
        lemma_cached_first_entry(cache, i, now);
    } else {
        lemma_cached_is_fresh_entry(cache, cache[i].0, now);
        match cached(cache, cache[i].0, now) {
            Some(t) => {
                let j = choose|j: int| 0 <= j < cache.len() && cache[j] == (cache[i].0, t);
                assert(j == i);
            },
            None => {},
        }
    }
}

/// A deployment that a cycle found valid is answered from the cache of
/// that cycle with the time of that validation for as long as it is
/// fresh, and not at all after, provided that no deployment came twice.
pub proof fn lemma_valid_deployment_is_cached_with_its_time(
    deployments: Seq<Deployment>,
    cache: Seq<(Seq<u8>, u64)>,
    now: u64,
    verdicts: spec_fn(Seq<u8>) -> ValidView,
    k: int,
    later: u64,
)
    requires
        forall|i: int, j: int|
            0 <= i < j < deployments.len() ==> (#[trigger] deployments[i]).id != (
            #[trigger] deployments[j]).id,
        0 <= k < deployments.len(),
        !cycle(deployments, cache, now, verdicts)[k].should_deny,
    ensures
        cached(
            updated_deployment_cache(cycle(deployments, cache, now, verdicts)),
            cid_v0(deployments[k].id@),
            later,
        ) == if is_fresh(cycle(deployments, cache, now, verdicts)[k].last_validated, later) {
            Some(cycle(deployments, cache, now, verdicts)[k].last_validated)
        } else {
            None
        },
{
    let status = cycle(deployments, cache, now, verdicts);
    let kept = updated_deployment_cache(status);
    assert forall|i: int, j: int| 0 <= i < j < status.len() implies (#[trigger] status[i]).id != (
    #[trigger] status[j]).id by {
        assert(status[i].id == deployments[i].id);
        assert(status[j].id == deployments[j].id);
    }
    lemma_cache_names_deployment_once(status);
    assert(status[k].id == deployments[k].id);
    lemma_filter_map_keeps(status, |s: DeploymentStatus| cache_entry(s), k);
    let entry = (cid_v0(status[k].id@), status[k].last_validated);
    let i = choose|i: int| 0 <= i < kept.len() && kept[i] == entry;
    assert forall|j: int| 0 <= j < kept.len() && j != i implies (#[trigger] kept[j]).0
        != kept[i].0 by {
        if j < i {
            assert(kept[j].0 != kept[i].0);
        } else {
            assert(kept[i].0 != kept[j].0);
        }
    }
    lemma_cached_single_entry(kept, i, later);
}

/// The cache after cycles over the same deployments at the given times,
/// one after the other, each starting from the cache of the one before.
pub open spec fn cache_after_cycles(
    deployments: Seq<Deployment>,
    cache: Seq<(Seq<u8>, u64)>,
    times: Seq<u64>,
    verdicts: spec_fn(Seq<u8>) -> ValidView,
) -> Seq<(Seq<u8>, u64)>
    decreases times.len(),
{
    if times.len() == 0 {
        cache
    } else {
        updated_deployment_cache(
            cycle(
                deployments,
                cache_after_cycles(deployments, cache, times.drop_last(), verdicts),
                times.last(),
                verdicts,
            ),
        )
    }
}

/// Hits do not extend the time for which a validation counts. Let a
/// cycle find a deployment valid as of some time, and let cycles follow
/// over the same deployments, each within a day of that time and each
/// starting from the cache of the one before. Then the cache after them
/// still answers for the deployment with that same time while it is
/// fresh, and answers nothing once a day has passed: the first cycle
/// after that validates the deployment afresh.
pub proof fn lemma_hits_do_not_extend_the_ttl(
    deployments: Seq<Deployment>,
    cache: Seq<(Seq<u8>, u64)>,
    now: u64,
    verdicts: spec_fn(Seq<u8>) -> ValidView,
    k: int,
    times: Seq<u64>,
    later: u64,
)
    requires
        forall|i: int, j: int|
            0 <= i < j < deployments.len() ==> (#[trigger] deployments[i]).id != (
            #[trigger] deployments[j]).id,
        0 <= k < deployments.len(),
        !cycle(deployments, cache, now, verdicts)[k].should_deny,
        forall|j: int|
            0 <= j < times.len() ==> is_fresh(
                cycle(deployments, cache, now, verdicts)[k].last_validated,
                #[trigger] times[j],
            ),
    ensures
        cached(
            cache_after_cycles(
                deployments,
                updated_deployment_cache(cycle(deployments, cache, now, verdicts)),
                times,
                verdicts,
            ),
            cid_v0(deployments[k].id@),
            later,
        ) == if is_fresh(cycle(deployments, cache, now, verdicts)[k].last_validated, later) {
            Some(cycle(deployments, cache, now, verdicts)[k].last_validated)
        } else {
            None
        },
    decreases times.len(),
{
    let first = updated_deployment_cache(cycle(deployments, cache, now, verdicts));
    let validated = cycle(deployments, cache, now, verdicts)[k].last_validated;
    if times.len() == 0 {
        lemma_valid_deployment_is_cached_with_its_time(deployments, cache, now, verdicts, k, later);
    } else {
        let before = cache_after_cycles(deployments, first, times.drop_last(), verdicts);
        let at = times.last();
        assert forall|j: int| 0 <= j < times.drop_last().len() implies is_fresh(
            validated,
            #[trigger] times.drop_last()[j],
        ) by {
            assert(times.drop_last()[j] == times[j]);
        }
        lemma_hits_do_not_extend_the_ttl(
            deployments,
            cache,
            now,
            verdicts,
            k,
            times.drop_last(),
            at,
        );
        assert(is_fresh(validated, times[times.len() - 1]));
        assert(cached(before, cid_v0(deployments[k].id@), at) == Some(validated));
        let status = cycle(deployments, before, at, verdicts);
        assert(status[k].last_validated == validated && !status[k].should_deny);
        lemma_valid_deployment_is_cached_with_its_time(deployments, before, at, verdicts, k, later);
    }
}

} // verus!
