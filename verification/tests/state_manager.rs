use availability_oracle::state_manager::{state_manager, DenyCall, StateManager};

const REWARDS: [u8; 20] = [0xaa; 20];
const AVAILABILITY: [u8; 20] = [0xbb; 20];

fn entries() -> Vec<([u8; 32], bool)> {
    vec![([1u8; 32], true), ([2u8; 32], false), ([3u8; 32], true)]
}

#[test]
fn availability_manager_needs_its_address_and_the_oracle_index() {
    assert_eq!(
        state_manager(Some(REWARDS), Some(AVAILABILITY), Some(3)),
        Some(StateManager::SubgraphAvailabilityManagerContract { contract: AVAILABILITY, oracle_index: 3 })
    );
    assert_eq!(
        state_manager(None, Some(AVAILABILITY), Some(0)),
        Some(StateManager::SubgraphAvailabilityManagerContract { contract: AVAILABILITY, oracle_index: 0 })
    );
}

#[test]
fn rewards_manager_is_the_fallback() {
    let rewards = Some(StateManager::RewardsManagerContract { contract: REWARDS });
    assert_eq!(state_manager(Some(REWARDS), None, None), rewards);
    assert_eq!(state_manager(Some(REWARDS), None, Some(3)), rewards);
    assert_eq!(state_manager(Some(REWARDS), Some(AVAILABILITY), None), rewards);
}

#[test]
fn no_contract_is_a_configuration_error() {
    assert_eq!(state_manager(None, None, None), None);
    assert_eq!(state_manager(None, None, Some(1)), None);
    assert_eq!(state_manager(None, Some(AVAILABILITY), None), None);
}

#[test]
fn dry_run_overrides_the_contracts() {
    assert_eq!(
        StateManager::from_config(true, Some(REWARDS), Some(AVAILABILITY), Some(1)),
        Some(StateManager::DryRun)
    );
    assert_eq!(StateManager::from_config(true, None, None, None), Some(StateManager::DryRun));
    assert_eq!(StateManager::from_config(false, None, None, None), None);
    assert_eq!(
        StateManager::from_config(false, Some(REWARDS), None, None),
        Some(StateManager::RewardsManagerContract { contract: REWARDS })
    );
}

#[test]
fn rewards_manager_is_called_with_two_parallel_arrays() {
    let manager = StateManager::RewardsManagerContract { contract: REWARDS };
    assert_eq!(
        manager.deny_many(&entries()),
        Some(DenyCall::RewardsManager {
            contract: REWARDS,
            ids: vec![[1u8; 32], [2u8; 32], [3u8; 32]],
            deny: vec![true, false, true],
        })
    );
}

#[test]
fn availability_manager_is_called_with_the_oracle_index() {
    let manager =
        StateManager::SubgraphAvailabilityManagerContract { contract: AVAILABILITY, oracle_index: 4 };
    assert_eq!(
        manager.deny_many(&entries()),
        Some(DenyCall::SubgraphAvailabilityManager {
            contract: AVAILABILITY,
            ids: vec![[1u8; 32], [2u8; 32], [3u8; 32]],
            deny: vec![true, false, true],
            oracle_index: 4,
        })
    );
}

#[test]
fn dry_run_calls_no_contract() {
    assert_eq!(StateManager::DryRun.deny_many(&entries()), None);
}

#[test]
fn no_entries_no_call() {
    let none: Vec<([u8; 32], bool)> = Vec::new();
    assert_eq!(StateManager::DryRun.deny_many(&none), None);
    assert_eq!(StateManager::RewardsManagerContract { contract: REWARDS }.deny_many(&none), None);
    assert_eq!(
        StateManager::SubgraphAvailabilityManagerContract { contract: AVAILABILITY, oracle_index: 1 }
            .deny_many(&none),
        None
    );
}
