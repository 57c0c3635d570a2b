use vstd::prelude::*;
use crate::admin::AdminModule;
use crate::common::CommonModule;
use crate::constants::{
    DEVNET_UNBOND_PERIOD, MAINNET_UNBOND_PERIOD, NO_DATA_UPDATE_EPOCHS, NO_UNDELEGATE_EPOCHS,
};
use crate::delegation::DelegationModule;
use crate::errors::LiquidStakingError;
use crate::model::{
    Address, DelegationContractData, DelegationScoreModel, SamplingModel, State, UndelegationMode,
};
use crate::penalty::PenaltyModule;

verus! {

/// The whole state of the protocol: the pool, the counterparty records and their registry,
/// the penalties, and the configuration.
#[derive(Debug)]
pub struct LiquidStaking {
    pub admin: AdminModule,
    pub state: State,
    pub pool: CommonModule,
    /// One record per counterparty ever whitelisted, never deleted.
    pub contracts: Vec<DelegationContractData>,
    /// The last epoch rewards were claimed from the counterparty at the same index of `contracts`.
    pub last_rewards_claim_epoch: Vec<u64>,
    pub delegation_contracts_list: DelegationModule,
    pub penalties: PenaltyModule,
    pub delegation_score_model: Option<DelegationScoreModel>,
    pub delegation_sampling_model: Option<SamplingModel>,
    pub total_fee: Option<u128>,
    pub unbond_period: u64,
    pub undelegation_mode: UndelegationMode,
    pub last_undelegate_epoch: u64,
    pub last_contract_data_update_epoch: u64,
    pub data_manager: Option<Address>,
    /// Users allowed to bypass selection, each with the counterparty their deposits go to.
    pub migration_whitelist: Vec<(Address, Address)>,
}

/// Each record in `contracts` has its own identifier.
pub open spec fn unique_records(s: Seq<DelegationContractData>) -> bool {
    forall|i: int, j: int|
        0 <= i < s.len() && 0 <= j < s.len() && i != j ==> #[trigger] s[i].contract
            != #[trigger] s[j].contract
}

/// The cap, if any, is not below the locked value, and the score is a fraction.
pub open spec fn record_wf(d: DelegationContractData) -> bool {
    &&& d.wf()
    &&& d.cap matches Some(c) ==> c >= d.total_value_locked
}

impl LiquidStaking {
    /// Whether a record exists for the counterparty.
    pub open spec fn has_record(&self, contract: Address) -> bool {
        exists|i: int| 0 <= i < self.contracts@.len() && #[trigger] self.contracts@[i].contract == contract
    }

    /// The index of the counterparty's record.
    pub open spec fn record_index(&self, contract: Address) -> int {
        choose|i: int| 0 <= i < self.contracts@.len() && #[trigger] self.contracts@[i].contract == contract
    }

    /// The counterparty's record.
    pub open spec fn record(&self, contract: Address) -> DelegationContractData {
        self.contracts@[self.record_index(contract)]
    }

    /// The record of the registry entry at position `pos`.
    pub open spec fn list_record(&self, pos: int) -> DelegationContractData {
        self.record(self.delegation_contracts_list.view()[pos].contract)
    }

    /// The invariant of the protocol state.
    pub open spec fn wf(&self) -> bool {
        &&& unique_records(self.contracts@)
        &&& forall|i: int| 0 <= i < self.contracts@.len() ==> record_wf(#[trigger] self.contracts@[i])
        &&& self.last_rewards_claim_epoch@.len() == self.contracts@.len()
        &&& self.delegation_contracts_list.wf()
        &&& forall|p: int|
            0 <= p < self.delegation_contracts_list.view().len() ==> {
                let n = #[trigger] self.delegation_contracts_list.view()[p];
                &&& self.has_record(n.contract)
                &&& self.record(n.contract).delegation_score == n.score
                &&& !self.record(n.contract).blacklisted
            }
        &&& forall|i: int|
            0 <= i < self.contracts@.len() && !(#[trigger] self.contracts@[i]).blacklisted
                ==> self.delegation_contracts_list.contains(self.contracts@[i].contract)
        &&& self.total_fee matches Some(f) ==> 0 < f <= crate::constants::BPS
        &&& self.delegation_score_model matches Some(m) ==> m.wf()
        &&& self.delegation_sampling_model matches Some(m) ==> m.wf()
        &&& self.penalties.wf()
        &&& forall|i: int, j: int|
            0 <= i < self.migration_whitelist@.len() && 0 <= j < self.migration_whitelist@.len() && i != j
                ==> #[trigger] self.migration_whitelist@[i].0 != #[trigger] self.migration_whitelist@[j].0
    }

    /// The record at index `i` is the counterparty's record.
    pub proof fn lemma_record_at(&self, i: int)
        requires
            unique_records(self.contracts@),
            0 <= i < self.contracts@.len(),
        ensures
            self.has_record(self.contracts@[i].contract),
            self.record_index(self.contracts@[i].contract) == i,
            self.record(self.contracts@[i].contract) == self.contracts@[i],
    {
        let c = self.contracts@[i].contract;
        assert(self.contracts@[i].contract == c);
        let j = self.record_index(c);
        assert(self.contracts@[j].contract == c);
    }

    /// Only the records differ between `self` and `other`.
    pub open spec fn same_config(&self, other: &LiquidStaking) -> bool {
        &&& self.admin == other.admin
        &&& self.state == other.state
        &&& self.delegation_score_model == other.delegation_score_model
        &&& self.delegation_sampling_model == other.delegation_sampling_model
        &&& self.total_fee == other.total_fee
        &&& self.unbond_period == other.unbond_period
        &&& self.undelegation_mode == other.undelegation_mode
        &&& self.last_undelegate_epoch == other.last_undelegate_epoch
        &&& self.last_contract_data_update_epoch == other.last_contract_data_update_epoch
        &&& self.data_manager == other.data_manager
        &&& self.migration_whitelist@ == other.migration_whitelist@
    }

    /// The record at index `i` is the only one with its identifier.
    pub proof fn lemma_record_index(&self, c: Address, i: int)
        requires
            unique_records(self.contracts@),
            0 <= i < self.contracts@.len(),
            self.contracts@[i].contract == c,
        ensures
            self.has_record(c),
            self.record_index(c) == i,
            self.record(c) == self.contracts@[i],
    {
        self.lemma_record_at(i);
    }

    /// A counterparty is in the registry exactly when it has a record that is not excluded.
    pub proof fn lemma_listed_iff(&self, c: Address)
        requires
            self.wf(),
        ensures
            self.delegation_contracts_list.contains(c) <==> exists|i: int|
                0 <= i < self.contracts@.len() && #[trigger] self.contracts@[i].contract == c
                    && !self.contracts@[i].blacklisted,
    {
        if self.delegation_contracts_list.contains(c) {
            let p = choose|p: int| 0 <= p < self.delegation_contracts_list.view().len()
                && #[trigger] self.delegation_contracts_list.view()[p].contract == c;
            assert(self.has_record(c));
            let i = self.record_index(c);
            assert(self.contracts@[i].contract == c && !self.contracts@[i].blacklisted);
        }
    }

    /// A registry entry's record belongs to that entry's counterparty.
    pub proof fn lemma_list_record_contract(&self, p: int)
        requires
            self.wf(),
            0 <= p < self.delegation_contracts_list.view().len(),
        ensures
            self.list_record(p).contract == self.delegation_contracts_list.view()[p].contract,
            record_wf(self.list_record(p)),
            !self.list_record(p).blacklisted,
    {
        let c = self.delegation_contracts_list.view()[p].contract;
        assert(self.has_record(c));
        let i = self.record_index(c);
        assert(self.contracts@[i].contract == c);
    }

    /// The index of the counterparty's record, if it has one.
    pub fn find_contract(&self, contract: Address) -> (r: Option<usize>)
        requires
            unique_records(self.contracts@),
        ensures
            r is None <==> !self.has_record(contract),
            r matches Some(i) ==> i < self.contracts@.len() && i == self.record_index(contract)
                && self.contracts@[i as int].contract == contract,
    {
        let mut i: usize = 0;
        while i < self.contracts.len()
            invariant
                i <= self.contracts@.len(),
                unique_records(self.contracts@),
                forall|j: int| 0 <= j < i ==> #[trigger] self.contracts@[j].contract != contract,
            decreases self.contracts@.len() - i,
        {
            if self.contracts[i].contract == contract {
                proof {
                    self.lemma_record_at(i as int);
                }
                return Some(i);
            }
            i = i + 1;
        }
        None
    }

    /// The counterparty's record, if it has one.
    pub fn delegation_contract_data(&self, contract: Address) -> (r: Option<DelegationContractData>)
        requires
            unique_records(self.contracts@),
        ensures
            r is None <==> !self.has_record(contract),
            r matches Some(d) ==> d == self.record(contract),
    {
        match self.find_contract(contract) {
            Some(i) => Some(self.contracts[i]),
            None => None,
        }
    }

    /// Replaces the record at index `i` by `d`, which keeps its identifier, score and exclusion flag.
    pub fn set_record(&mut self, i: usize, d: DelegationContractData)
        requires
            old(self).wf(),
            i < old(self).contracts@.len(),
            d.contract == old(self).contracts@[i as int].contract,
            d.delegation_score == old(self).contracts@[i as int].delegation_score,
            d.blacklisted == old(self).contracts@[i as int].blacklisted,
            record_wf(d),
        ensures
            final(self).wf(),
            final(self).contracts@ == old(self).contracts@.update(i as int, d),
            final(self).same_config(&*old(self)),
            final(self).pool == old(self).pool,
            final(self).delegation_contracts_list.view() == old(self).delegation_contracts_list.view(),
            final(self).penalties.penalties@ == old(self).penalties.penalties@,
            final(self).penalties.next_penalty_id == old(self).penalties.next_penalty_id,
            final(self).last_rewards_claim_epoch@ == old(self).last_rewards_claim_epoch@,
            final(self).record(d.contract) == d,
            forall|c: Address| #[trigger] final(self).has_record(c) == old(self).has_record(c),
            forall|c: Address|
                c != d.contract && old(self).has_record(c) ==> #[trigger] final(self).record(c)
                    == old(self).record(c),
    {
        let ghost before = *self;
        self.contracts.set(i, d);
        proof {
            assert forall|a: int, b: int|
                0 <= a < self.contracts@.len() && 0 <= b < self.contracts@.len() && a != b
                implies #[trigger] self.contracts@[a].contract != #[trigger] self.contracts@[b].contract by {
                assert(before.contracts@[a].contract != before.contracts@[b].contract);
            }
            self.lemma_record_index(d.contract, i as int);
            assert forall|c: Address| #[trigger] self.has_record(c) == before.has_record(c) by {
                if before.has_record(c) {
                    let j = before.record_index(c);
                    assert(self.contracts@[j].contract == c);
                }
                if self.has_record(c) {
                    let j = self.record_index(c);
                    assert(before.contracts@[j].contract == c);
                }
            }
            assert forall|c: Address| c != d.contract && before.has_record(c)
                implies #[trigger] self.record(c) == before.record(c) by {
                let j = before.record_index(c);
                before.lemma_record_index(c, j);
                assert(j != i);
                assert(self.contracts@[j].contract == c);
                self.lemma_record_index(c, j);
            }
            assert forall|p: int| 0 <= p < self.delegation_contracts_list.view().len() implies {
                let n = #[trigger] self.delegation_contracts_list.view()[p];
                &&& self.has_record(n.contract)
                &&& self.record(n.contract).delegation_score == n.score
                &&& !self.record(n.contract).blacklisted
            } by {
                let n = self.delegation_contracts_list.view()[p];
                assert(before.has_record(n.contract));
                if n.contract == d.contract {
                    before.lemma_record_index(d.contract, i as int);
                }
            }
        }
    }

    /// Everything but the records and the pool is as in `other`.
    pub open spec fn same_but_records_and_pool(&self, other: &LiquidStaking) -> bool {
        &&& self.same_config(other)
        &&& self.delegation_contracts_list.view() == other.delegation_contracts_list.view()
        &&& self.penalties.penalties@ == other.penalties.penalties@
        &&& self.penalties.next_penalty_id == other.penalties.next_penalty_id
        &&& self.last_rewards_claim_epoch@ == other.last_rewards_claim_epoch@
    }

    /// The index of the counterparty's record; rejects an unknown counterparty.
    pub fn require_record(&self, contract: Address) -> (r: Result<usize, LiquidStakingError>)
        requires
            unique_records(self.contracts@),
        ensures
            r is Ok <==> self.has_record(contract),
            r is Err ==> r == Err::<usize, _>(LiquidStakingError::UnexpectedDelegationContract),
            r matches Ok(i) ==> i < self.contracts@.len() && i == self.record_index(contract)
                && self.contracts@[i as int] == self.record(contract)
                && self.contracts@[i as int].contract == contract,
    {
        match self.find_contract(contract) {
            Some(i) => Ok(i),
            None => Err(LiquidStakingError::UnexpectedDelegationContract),
        }
    }

    /// Whether the protocol accepts deposits.
    pub fn is_active(&self) -> (r: bool)
        ensures
            r == (self.state == State::Active),
    {
        self.state == State::Active
    }

    /// Rejects the operation while the protocol is inactive.
    pub fn require_active_state(&self) -> (r: Result<(), LiquidStakingError>)
        ensures
            r is Ok <==> self.state == State::Active,
            r is Err ==> r == Err::<(), _>(LiquidStakingError::Inactive),
    {
        if self.is_active() {
            Ok(())
        } else {
            Err(LiquidStakingError::Inactive)
        }
    }

    /// Sets up a new, inactive protocol: the unbond period (devnet's or mainnet's), the
    /// undelegation algorithm, the first epochs of both watchdogs (with a buffer), and the admin
    /// (the given one, or else the caller).
    pub fn init(
        caller: Address,
        current_epoch: u64,
        unbond_period: u64,
        opt_admin: Option<Address>,
    ) -> (r: Result<LiquidStaking, LiquidStakingError>)
        requires
            current_epoch <= u64::MAX - 2 * NO_UNDELEGATE_EPOCHS,
        ensures
            unbond_period != DEVNET_UNBOND_PERIOD && unbond_period != MAINNET_UNBOND_PERIOD
                ==> r == Err::<LiquidStaking, _>(LiquidStakingError::InvalidUnbondPeriod),
            r is Ok <==> (unbond_period == DEVNET_UNBOND_PERIOD || unbond_period
                == MAINNET_UNBOND_PERIOD) && (match opt_admin {
                Some(a) => a,
                None => caller,
            }) != 0,
            r matches Ok(ls) ==> {
                &&& ls.wf()
                &&& ls.state == State::Inactive
                &&& ls.unbond_period == unbond_period
                &&& ls.undelegation_mode == UndelegationMode::Algorithm
                &&& ls.last_undelegate_epoch == current_epoch + 2 * NO_UNDELEGATE_EPOCHS
                &&& ls.last_contract_data_update_epoch == current_epoch + 2 * NO_DATA_UPDATE_EPOCHS
                &&& ls.admin.admin == Some(
                    match opt_admin {
                        Some(a) => a,
                        None => caller,
                    },
                )
                &&& ls.contracts@.len() == 0
                &&& ls.delegation_contracts_list.view().len() == 0
                &&& ls.pool.ls_token_supply == 0 && ls.pool.cash_reserve == 0
                &&& ls.pool.rewards_reserve == 0 && ls.pool.protocol_reserve == 0
                &&& ls.pool.total_undelegated == 0 && ls.pool.total_withdrawable == 0
            },
    {
        if unbond_period != DEVNET_UNBOND_PERIOD && unbond_period != MAINNET_UNBOND_PERIOD {
            return Err(LiquidStakingError::InvalidUnbondPeriod);
        }
        let mut admin = AdminModule::new();
        admin.try_set_admin(caller, opt_admin)?;
        let ls = LiquidStaking {
            admin,
            state: State::Inactive,
            pool: CommonModule::new(),
            contracts: Vec::new(),
            last_rewards_claim_epoch: Vec::new(),
            delegation_contracts_list: DelegationModule::new(),
            penalties: PenaltyModule::new(),
            delegation_score_model: None,
            delegation_sampling_model: None,
            total_fee: None,
            unbond_period,
            undelegation_mode: UndelegationMode::Algorithm,
            last_undelegate_epoch: current_epoch + 2 * NO_UNDELEGATE_EPOCHS,
            last_contract_data_update_epoch: current_epoch + 2 * NO_DATA_UPDATE_EPOCHS,
            data_manager: None,
            migration_whitelist: Vec::new(),
        };
        Ok(ls)
    }
}

} // verus!
