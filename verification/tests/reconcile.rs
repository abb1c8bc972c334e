use availability_oracle::cid::{bytes32_to_cid_v0, Cid};
use availability_oracle::metrics::Metrics;
use availability_oracle::reconcile::{
    answers_from_cache, cached_validation, deployment_status, deployments_over_threshold, reconcile_deny_list,
    validated_from_cache, Checked, Deployment, DeploymentStatus, VALID_DEPLOYMENT_CACHE_TTL,
};
use availability_oracle::validity::{Invalid, Valid};

const NOW: u64 = 1_700_000_000;
const HOUR: u64 = 60 * 60;

fn deployment(n: u8, deny: bool) -> Deployment {
    Deployment { id: [n; 32], deny, signal: 1000, created_at: NOW - 10 * HOUR }
}

fn cid(n: u8) -> Cid {
    bytes32_to_cid_v0([n; 32])
}

fn unavailable(n: u8) -> Valid {
    Valid::No(Invalid::Unavailable(cid(n), "gateway timeout".to_string()))
}

fn checked(n: u8, deny: bool, validity: Valid, last_validated: u64) -> Checked {
    Checked { deployment: deployment(n, deny), validity, last_validated }
}

#[test]
fn ttl_is_a_day() {
    assert_eq!(VALID_DEPLOYMENT_CACHE_TTL, 86_400);
}

#[test]
fn deployment_is_named_by_the_cid_of_its_manifest() {
    let d = deployment(5, false);
    assert_eq!(d.cid(), cid(5));
    assert_eq!(d.ipfs_hash(), cid(5).to_text());
    assert!(d.ipfs_hash().starts_with("Qm"));
}

#[test]
fn threshold_keeps_signal_at_or_above_the_minimum_past_the_grace_period() {
    let d = |signal: u128, created_at: u64| Deployment { id: [1; 32], deny: false, signal, created_at };
    let all = vec![
        d(100, NOW - 60),
        d(99, NOW - 60),
        d(100, NOW - 59),
        d(u128::MAX, 0),
        d(500, NOW + 1),
        d(500, NOW),
    ];
    assert_eq!(
        deployments_over_threshold(&all, 100, 60, NOW),
        vec![d(100, NOW - 60), d(u128::MAX, 0)]
    );
    assert_eq!(
        deployments_over_threshold(&all, 0, 0, NOW),
        vec![d(100, NOW - 60), d(99, NOW - 60), d(100, NOW - 59), d(u128::MAX, 0), d(500, NOW)]
    );
    assert_eq!(deployments_over_threshold(&Vec::new(), 0, 0, NOW), Vec::new());
}

#[test]
fn cache_answers_within_the_ttl_only() {
    let entry = |age: u64| vec![(cid(1), NOW - age)];
    assert_eq!(cached_validation(&entry(HOUR), &cid(1), NOW), Some(NOW - HOUR));
    assert_eq!(cached_validation(&entry(0), &cid(1), NOW), Some(NOW));
    assert_eq!(cached_validation(&entry(86_399), &cid(1), NOW), Some(NOW - 86_399));
    assert_eq!(cached_validation(&entry(86_400), &cid(1), NOW), None);
    assert_eq!(cached_validation(&entry(86_401), &cid(1), NOW), None);
    assert_eq!(cached_validation(&entry(HOUR), &cid(2), NOW), None);
    assert_eq!(cached_validation(&Vec::new(), &cid(1), NOW), None);
}

#[test]
fn cache_answers_with_the_first_fresh_entry() {
    let cache = vec![
        (cid(2), NOW - 5),
        (cid(1), NOW - 2 * 86_400),
        (cid(1), NOW - 3 * HOUR),
        (cid(1), NOW - HOUR),
    ];
    assert_eq!(cached_validation(&cache, &cid(1), NOW), Some(NOW - 3 * HOUR));
}

#[test]
fn happy_path_with_cache_hit() {
    let cache = vec![(cid(7), NOW - HOUR)];
    let mut metrics = Metrics::new();
    let hit = validated_from_cache(&deployment(7, false), &cache, NOW, &mut metrics);
    assert_eq!(hit, Some(checked(7, false, Valid::Yes, NOW - HOUR)));
    assert_eq!(metrics.valid_deployment_cache_hits, 1);

    let outcome = reconcile_deny_list(&vec![hit.unwrap()]);
    assert!(outcome.changed_deployments.is_empty());
    assert_eq!(outcome.updated_deployment_cache, vec![(cid(7), NOW - HOUR)]);
}

#[test]
fn cache_miss_counts_nothing() {
    let cache = vec![(cid(7), NOW - 25 * HOUR), (cid(8), NOW)];
    let mut metrics = Metrics::new();
    assert_eq!(validated_from_cache(&deployment(7, false), &cache, NOW, &mut metrics), None);
    assert_eq!(validated_from_cache(&deployment(9, true), &cache, NOW, &mut metrics), None);
    assert_eq!(metrics, Metrics::new());
}

#[test]
fn every_hit_is_counted_once() {
    let cache = vec![(cid(1), NOW - 1), (cid(2), NOW - 2)];
    let mut metrics = Metrics::new();
    assert!(validated_from_cache(&deployment(1, false), &cache, NOW, &mut metrics).is_some());
    assert!(validated_from_cache(&deployment(2, true), &cache, NOW, &mut metrics).is_some());
    assert!(validated_from_cache(&deployment(3, true), &cache, NOW, &mut metrics).is_none());
    assert_eq!(metrics.valid_deployment_cache_hits, 2);
    assert_eq!(metrics.reconcile_runs_total, 0);
}

#[test]
fn status_says_changed_where_the_deny_bit_differs() {
    let status = |deny: bool, validity: Valid| deployment_status(&checked(1, deny, validity, NOW));
    let expect = |should_deny: bool, changed: bool| DeploymentStatus {
        id: [1; 32],
        should_deny,
        changed,
        last_validated: NOW,
    };
    assert_eq!(status(false, Valid::Yes), expect(false, false));
    assert_eq!(status(true, Valid::Yes), expect(false, true));
    assert_eq!(status(false, unavailable(1)), expect(true, true));
    assert_eq!(status(true, unavailable(1)), expect(true, false));
}

#[test]
fn unavailable_manifest_is_denied() {
    let outcome = reconcile_deny_list(&vec![checked(1, false, unavailable(1), NOW)]);
    assert_eq!(
        outcome.deployment_status,
        vec![DeploymentStatus { id: [1; 32], should_deny: true, changed: true, last_validated: NOW }]
    );
    assert_eq!(outcome.changed_deployments, vec![([1u8; 32], true)]);
    assert!(outcome.updated_deployment_cache.is_empty());
}

#[test]
fn forbidden_api_on_a_denied_deployment_changes_nothing() {
    let verdict = Valid::No(Invalid::ForbiddenApi("ipfs.cat".to_string()));
    let outcome = reconcile_deny_list(&vec![checked(2, true, verdict, NOW)]);
    assert_eq!(
        outcome.deployment_status,
        vec![DeploymentStatus { id: [2; 32], should_deny: true, changed: false, last_validated: NOW }]
    );
    assert!(outcome.changed_deployments.is_empty());
    assert!(outcome.updated_deployment_cache.is_empty());
}

#[test]
fn mixed_cycle_flips_what_changed_and_caches_what_is_valid() {
    let outcome = reconcile_deny_list(&vec![
        checked(1, false, Valid::Yes, NOW - HOUR),
        checked(2, true, Valid::Yes, NOW),
        checked(3, false, unavailable(3), NOW),
        checked(4, true, unavailable(4), NOW),
        checked(5, true, Valid::Yes, NOW - 2 * HOUR),
    ]);
    assert_eq!(
        outcome.changed_deployments,
        vec![([2u8; 32], false), ([3u8; 32], true), ([5u8; 32], false)]
    );
    assert_eq!(
        outcome.updated_deployment_cache,
        vec![(cid(1), NOW - HOUR), (cid(2), NOW), (cid(5), NOW - 2 * HOUR)]
    );
    assert_eq!(outcome.deployment_status.len(), 5);
    for (status, deny) in outcome.deployment_status.iter().zip([false, true, false, true, true]) {
        assert_eq!(status.changed, deny != status.should_deny);
    }
}

#[test]
fn deployment_that_was_not_streamed_is_not_mentioned() {
    let outcome = reconcile_deny_list(&vec![
        checked(1, true, Valid::Yes, NOW),
        checked(2, false, unavailable(2), NOW),
    ]);
    assert!(outcome.deployment_status.iter().all(|s| s.id != [3u8; 32]));
    assert!(outcome.changed_deployments.iter().all(|(id, _)| *id != [3u8; 32]));
    assert!(outcome.updated_deployment_cache.iter().all(|(c, _)| *c != cid(3)));
}

#[test]
fn empty_cycle_has_nothing_to_say() {
    let outcome = reconcile_deny_list(&Vec::new());
    assert!(outcome.deployment_status.is_empty());
    assert!(outcome.changed_deployments.is_empty());
    assert!(outcome.updated_deployment_cache.is_empty());
}

#[test]
fn second_cycle_with_the_cache_kept_validates_nothing() {
    let first = reconcile_deny_list(&vec![
        checked(1, false, Valid::Yes, NOW),
        checked(2, true, Valid::Yes, NOW),
    ]);
    let later = NOW + 23 * HOUR;
    let mut metrics = Metrics::new();
    let d1 = Deployment { deny: false, ..deployment(1, false) };
    let d2 = Deployment { deny: false, ..deployment(2, false) };
    let second: Vec<Checked> = [d1, d2]
        .iter()
        .map(|d| validated_from_cache(d, &first.updated_deployment_cache, later, &mut metrics).unwrap())
        .collect();
    assert_eq!(metrics.valid_deployment_cache_hits, 2);
    let outcome = reconcile_deny_list(&second);
    assert!(outcome.changed_deployments.is_empty());
    assert_eq!(outcome.updated_deployment_cache, first.updated_deployment_cache);
}

#[test]
fn invalid_deployment_is_validated_again_in_the_next_cycle() {
    let first = reconcile_deny_list(&vec![checked(1, false, unavailable(1), NOW)]);
    let mut metrics = Metrics::new();
    let again = Deployment { deny: true, ..deployment(1, true) };
    assert_eq!(
        validated_from_cache(&again, &first.updated_deployment_cache, NOW + 1, &mut metrics),
        None
    );
}

#[test]
fn cache_hit_does_not_extend_the_ttl() {
    let first = reconcile_deny_list(&vec![checked(1, false, Valid::Yes, NOW)]);
    let mut metrics = Metrics::new();
    let hit = validated_from_cache(
        &deployment(1, false),
        &first.updated_deployment_cache,
        NOW + 20 * HOUR,
        &mut metrics,
    )
    .unwrap();
    let second = reconcile_deny_list(&vec![hit]);
    assert_eq!(second.updated_deployment_cache, vec![(cid(1), NOW)]);
    assert_eq!(
        validated_from_cache(
            &deployment(1, false),
            &second.updated_deployment_cache,
            NOW + 24 * HOUR,
            &mut metrics
        ),
        None
    );
}

#[test]
fn cache_is_handed_back_only_where_the_changes_were_applied() {
    let cycle = || {
        reconcile_deny_list(&vec![
            checked(1, true, Valid::Yes, NOW),
            checked(2, false, unavailable(2), NOW),
        ])
    };
    assert_eq!(cycle().conclude(Ok(())), Ok(vec![(cid(1), NOW)]));
    assert_eq!(
        cycle().conclude(Err("deny_many rejected".to_string())),
        Err("deny_many rejected".to_string())
    );
}

#[test]
fn second_cycle_with_nothing_changed_carries_the_cache_over() {
    let first = reconcile_deny_list(&vec![
        checked(1, false, Valid::Yes, NOW - HOUR),
        checked(2, false, Valid::Yes, NOW),
        checked(3, false, Valid::Yes, NOW - 2 * HOUR),
    ]);
    let mut metrics = Metrics::new();
    let second: Vec<Checked> = [1u8, 2, 3]
        .iter()
        .map(|n| {
            validated_from_cache(
                &deployment(*n, false),
                &first.updated_deployment_cache,
                NOW + 21 * HOUR,
                &mut metrics,
            )
            .unwrap()
        })
        .collect();
    assert_eq!(metrics.valid_deployment_cache_hits, 3);
    let outcome = reconcile_deny_list(&second);
    assert!(outcome.changed_deployments.is_empty());
    assert_eq!(outcome.updated_deployment_cache, first.updated_deployment_cache);
}

#[test]
fn stream_is_answered_from_the_cache_and_every_hit_counted_once() {
    let cache = vec![(cid(1), NOW - HOUR), (cid(1), NOW - 2 * HOUR), (cid(3), NOW - 25 * HOUR)];
    let stream = vec![
        deployment(1, false),
        deployment(2, false),
        deployment(3, true),
        deployment(1, true),
    ];
    let mut metrics = Metrics { valid_deployment_cache_hits: 5, ..Metrics::new() };
    let answers = answers_from_cache(&stream, &cache, NOW, &mut metrics);
    assert_eq!(
        answers,
        vec![
            Some(checked(1, false, Valid::Yes, NOW - HOUR)),
            None,
            None,
            Some(checked(1, true, Valid::Yes, NOW - HOUR)),
        ]
    );
    assert_eq!(metrics, Metrics { valid_deployment_cache_hits: 7, ..Metrics::new() });
}

#[test]
fn empty_stream_counts_nothing() {
    let mut metrics = Metrics::new();
    assert_eq!(answers_from_cache(&Vec::new(), &vec![(cid(1), NOW)], NOW, &mut metrics), Vec::new());
    assert_eq!(metrics, Metrics::new());
}

#[test]
fn hit_count_stops_at_the_largest_value() {
    let mut metrics = Metrics { valid_deployment_cache_hits: u64::MAX - 1, ..Metrics::new() };
    let stream = vec![deployment(1, false), deployment(1, false), deployment(1, false)];
    let answers = answers_from_cache(&stream, &vec![(cid(1), NOW)], NOW, &mut metrics);
    assert_eq!(answers.len(), 3);
    assert_eq!(metrics.valid_deployment_cache_hits, u64::MAX);
}

#[test]
fn cached_time_is_carried_through_cycles_until_it_is_stale() {
    let mut cache = reconcile_deny_list(&vec![checked(1, false, Valid::Yes, NOW)]).updated_deployment_cache;
    let mut metrics = Metrics::new();
    for hours in [5, 11, 17, 23] {
        let answers =
            answers_from_cache(&vec![deployment(1, false)], &cache, NOW + hours * HOUR, &mut metrics);
        let checked: Vec<Checked> = answers.into_iter().map(|a| a.unwrap()).collect();
        cache = reconcile_deny_list(&checked).updated_deployment_cache;
        assert_eq!(cache, vec![(cid(1), NOW)]);
    }
    assert_eq!(metrics.valid_deployment_cache_hits, 4);
    let stale = answers_from_cache(&vec![deployment(1, false)], &cache, NOW + 24 * HOUR, &mut metrics);
    assert_eq!(stale, vec![None]);
    assert_eq!(metrics.valid_deployment_cache_hits, 4);
}
