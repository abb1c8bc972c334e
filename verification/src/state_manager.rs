//! The sink for changed deny bits: which contract is addressed, and with
//! what.

use vstd::prelude::*;

verus! {

/// Where the changed deny bits go.
#[derive(Debug, Clone, Copy, PartialEq, Eq)]
pub enum StateManager {
    /// The rewards manager's bulk deny function.
    RewardsManagerContract { contract: [u8; 20] },
    /// The availability manager's vote of the oracle with this index.
    SubgraphAvailabilityManagerContract { contract: [u8; 20], oracle_index: u64 },
    /// Nowhere: the entries are only logged.
    DryRun,
}

/// The state manager that the contract settings ask for: the availability
/// manager where its address and the oracle's index are both given, else
/// the rewards manager where its address is given, else none.
pub open spec fn configured(
    rewards_manager_contract: Option<[u8; 20]>,
    subgraph_availability_manager_contract: Option<[u8; 20]>,
    oracle_index: Option<u64>,
) -> Option<StateManager> {
    match (subgraph_availability_manager_contract, oracle_index) {
        (Some(contract), Some(oracle_index)) => Some(
            StateManager::SubgraphAvailabilityManagerContract { contract, oracle_index },
        ),
        _ => match rewards_manager_contract {
            Some(contract) => Some(StateManager::RewardsManagerContract { contract }),
            None => None,
        },
    }
}

/// The state manager that the contract settings ask for; none where they
/// name no contract to address.
pub fn state_manager(
    rewards_manager_contract: Option<[u8; 20]>,
    subgraph_availability_manager_contract: Option<[u8; 20]>,
    oracle_index: Option<u64>,
) -> (r: Option<StateManager>)
    ensures
        r == configured(
            rewards_manager_contract,
            subgraph_availability_manager_contract,
            oracle_index,
        ),
{
    if let Some(contract) = subgraph_availability_manager_contract {
        if let Some(oracle_index) = oracle_index {
            return Some(
                StateManager::SubgraphAvailabilityManagerContract { contract, oracle_index },
            );
        }
    }
    if let Some(contract) = rewards_manager_contract {
        return Some(StateManager::RewardsManagerContract { contract });
    }
    None
}

/// One call of a contract: the deployments and their new deny bits as two
/// arrays of the same length, entry by entry.
#[derive(Debug, PartialEq, Eq)]
pub enum DenyCall {
    RewardsManager { contract: [u8; 20], ids: Vec<[u8; 32]>, deny: Vec<bool> },
    SubgraphAvailabilityManager {
        contract: [u8; 20],
        ids: Vec<[u8; 32]>,
        deny: Vec<bool>,
        oracle_index: u64,
    },
}

/// The mathematical value of a [`DenyCall`].
pub enum DenyCallView {
    RewardsManager { contract: [u8; 20], ids: Seq<[u8; 32]>, deny: Seq<bool> },
    SubgraphAvailabilityManager {
        contract: [u8; 20],
        ids: Seq<[u8; 32]>,
        deny: Seq<bool>,
        oracle_index: u64,
    },
}

impl View for DenyCall {
    type V = DenyCallView;

    open spec fn view(&self) -> DenyCallView {
        match self {
            DenyCall::RewardsManager { contract, ids, deny } => DenyCallView::RewardsManager {
                contract: *contract,
                ids: ids@,
                deny: deny@,
            },
            DenyCall::SubgraphAvailabilityManager {
                contract,
                ids,
                deny,
                oracle_index,
            } => DenyCallView::SubgraphAvailabilityManager {
                contract: *contract,
                ids: ids@,
                deny: deny@,
                oracle_index: *oracle_index,
            },
        }
    }
}

/// The deployments of the entries, in order.
pub open spec fn ids_of(entries: Seq<([u8; 32], bool)>) -> Seq<[u8; 32]> {
    entries.map_values(|e: ([u8; 32], bool)| e.0)
}

/// The deny bits of the entries, in order.
pub open spec fn flags_of(entries: Seq<([u8; 32], bool)>) -> Seq<bool> {
    entries.map_values(|e: ([u8; 32], bool)| e.1)
}

/// The call that applies the entries: none in a dry run, and none for no
/// entries.
pub open spec fn call_for(manager: StateManager, entries: Seq<([u8; 32], bool)>) -> Option<
    DenyCallView,
> {
    if entries.len() == 0 {
        None
    } else {
        match manager {
            StateManager::DryRun => None,
            StateManager::RewardsManagerContract { contract } => Some(
                DenyCallView::RewardsManager {
                    contract,
                    ids: ids_of(entries),
                    deny: flags_of(entries),
                },
            ),
            StateManager::SubgraphAvailabilityManagerContract { contract, oracle_index } => Some(
                DenyCallView::SubgraphAvailabilityManager {
                    contract,
                    ids: ids_of(entries),
                    deny: flags_of(entries),
                    oracle_index,
                },
            ),
        }
    }
}

/// The view of an optional call.
pub open spec fn call_view(call: Option<DenyCall>) -> Option<DenyCallView> {
    match call {
        Some(call) => Some(call@),
        None => None,
    }
}

/// Splits the entries into the deployments and the deny bits.
fn unzip(entries: &Vec<([u8; 32], bool)>) -> (r: (Vec<[u8; 32]>, Vec<bool>))
    ensures
        r.0@ == ids_of(entries@),
        r.1@ == flags_of(entries@),
{
    let mut ids: Vec<[u8; 32]> = Vec::new();
    let mut deny: Vec<bool> = Vec::new();
    let mut i: usize = 0;
    while i < entries.len()
        invariant
            i <= entries.len(),
            ids@ == ids_of(entries@).take(i as int),
            deny@ == flags_of(entries@).take(i as int),
        decreases entries.len() - i,
    {
        ids.push(entries[i].0);
        deny.push(entries[i].1);
        i += 1;
    }
    (ids, deny)
}

impl StateManager {
    /// The state manager to run with: a dry run overrides the contract
    /// settings. None where no dry run is asked for and the settings name
    /// no contract.
    pub fn from_config(
        dry_run: bool,
        rewards_manager_contract: Option<[u8; 20]>,
        subgraph_availability_manager_contract: Option<[u8; 20]>,
        oracle_index: Option<u64>,
    ) -> (r: Option<StateManager>)
        ensures
            dry_run ==> r == Some(StateManager::DryRun),
            !dry_run ==> r == configured(
                rewards_manager_contract,
                subgraph_availability_manager_contract,
                oracle_index,
            ),
    {
        if dry_run {
            Some(StateManager::DryRun)
        } else {
            state_manager(
                rewards_manager_contract,
                subgraph_availability_manager_contract,
                oracle_index,
            )
        }
    }

    /// The contract call that applies the entries, if one is to be made.
    pub fn deny_many(&self, entries: &Vec<([u8; 32], bool)>) -> (r: Option<DenyCall>)
        ensures
            call_view(r) == call_for(*self, entries@),
    {
        if entries.len() == 0 {
            return None;
        }
        match *self {
            StateManager::DryRun => None,
            StateManager::RewardsManagerContract { contract } => {
                let (ids, deny) = unzip(entries);
                Some(DenyCall::RewardsManager { contract, ids, deny })
            },
            StateManager::SubgraphAvailabilityManagerContract { contract, oracle_index } => {
                let (ids, deny) = unzip(entries);
                Some(DenyCall::SubgraphAvailabilityManager { contract, ids, deny, oracle_index })
            },
        }
    }
}

/// A batch leads to one call at most, and an empty batch to none,
/// whichever state manager is asked: the dry run and the contracts agree
/// on it. A call, where there is one, carries every entry of the batch.
pub proof fn lemma_empty_batch_is_no_call(manager: StateManager, entries: Seq<([u8; 32], bool)>)
    ensures
        entries.len() == 0 ==> call_for(manager, entries) is None,
        manager is DryRun ==> call_for(manager, entries) is None,
        entries.len() > 0 && !(manager is DryRun) ==> call_for(manager, entries) is Some,
        call_for(manager, entries) matches Some(DenyCallView::RewardsManager { ids, deny, .. })
            ==> ids.len() == entries.len() && deny.len() == entries.len(),
        call_for(manager, entries) matches Some(
            DenyCallView::SubgraphAvailabilityManager { ids, deny, .. },
        ) ==> ids.len() == entries.len() && deny.len() == entries.len(),
{
}

} // verus!
