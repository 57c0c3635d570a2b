use vstd::prelude::*;
use crate::common::{rate_of, redeemed, require_sufficient_egld, shares_to_egld_spec};
use crate::constants::MIN_DELEGATION_AMOUNT;
use crate::contract::LiquidStaking;
use crate::errors::LiquidStakingError;
use crate::ledger::{withdraw_completed, withdraw_dispatched, withdraw_requested};
use crate::model::{Address, DelegationContractData, UndelegateAttributes, UndelegationMode};
use crate::proxies::DelegationCall;
use crate::selection::{is_valid_undelegation_contract_relaxed, valid_for_undelegate_relaxed};

verus! {

impl LiquidStaking {
    /// Records a successful undelegation epoch; the recorded epoch never goes back.
    pub fn set_last_undelegate_epoch_internal(&mut self, last_undelegate_epoch: u64)
        ensures
            final(self).last_undelegate_epoch == if last_undelegate_epoch > old(self).last_undelegate_epoch {
                last_undelegate_epoch
            } else {
                old(self).last_undelegate_epoch
            },
            final(self).contracts == old(self).contracts,
            final(self).pool == old(self).pool,
            final(self).undelegation_mode == old(self).undelegation_mode,
            final(self).last_contract_data_update_epoch == old(self).last_contract_data_update_epoch,
            final(self).admin == old(self).admin,
            final(self).state == old(self).state,
            final(self).delegation_score_model == old(self).delegation_score_model,
            final(self).delegation_sampling_model == old(self).delegation_sampling_model,
            final(self).total_fee == old(self).total_fee,
            final(self).unbond_period == old(self).unbond_period,
            final(self).data_manager == old(self).data_manager,
            final(self).delegation_contracts_list == old(self).delegation_contracts_list,
            final(self).penalties == old(self).penalties,
            final(self).last_rewards_claim_epoch == old(self).last_rewards_claim_epoch,
            final(self).migration_whitelist == old(self).migration_whitelist,
    {
        if last_undelegate_epoch > self.last_undelegate_epoch {
            self.last_undelegate_epoch = last_undelegate_epoch;
        }
    }

    /// Redeems `shares` for the base asset at the current rate and books the withdrawal at a
    /// counterparty: the one selected from the lowest score, or, in open mode only, the given one
    /// if the withdrawal leaves it no dust. The shares are burned; the returned receipt may be
    /// redeemed from `current_epoch + unbond_period` on. `rand` is a draw in `[0, BPS)`.
    pub fn undelegate(
        &mut self,
        shares: u128,
        opt_delegation_contract: Option<Address>,
        current_epoch: u64,
        rand: u128,
    ) -> (r: Result<UndelegateAttributes, LiquidStakingError>)
        requires
            old(self).wf(),
        ensures
            final(self).wf(),
            shares == 0 ==> r == Err::<UndelegateAttributes, _>(LiquidStakingError::InsufficientShares),
            r is Err ==> *final(self) == *old(self),
            r matches Ok(attrs) ==> {
                let egld = shares_to_egld_spec(shares as int, rate_of(old(self).pool));
                let c = attrs.delegation_contract;
                &&& shares > 0
                &&& attrs.egld_amount == egld
                &&& attrs.shares == shares
                &&& egld >= MIN_DELEGATION_AMOUNT
                &&& attrs.undelegate_epoch == current_epoch
                &&& attrs.unbond_epoch == current_epoch + old(self).unbond_period
                &&& opt_delegation_contract is None ==> old(self).is_undelegate_choice(c, egld, rand as int)
                &&& opt_delegation_contract matches Some(given) ==> c == given
                    && old(self).undelegation_mode == UndelegationMode::Open
                &&& old(self).has_record(c)
                &&& valid_for_undelegate_relaxed(old(self).record(c), egld)
                &&& old(self).record(c).pending_to_undelegate + egld <= u128::MAX
                &&& egld <= old(self).pool.cash_reserve
                &&& shares <= old(self).pool.ls_token_supply
                &&& current_epoch + old(self).unbond_period <= u64::MAX
                &&& final(self).contracts@ == old(self).contracts@.update(
                    old(self).record_index(c),
                    withdraw_requested(old(self).record(c), egld),
                )
                &&& final(self).pool == redeemed(old(self).pool, egld, shares as int)
                &&& final(self).same_but_records_and_pool(&*old(self))
            },
            ({
                let rate = rate_of(old(self).pool);
                let egld = shares_to_egld_spec(shares as int, rate);
                (shares > 0 && rate <= u128::MAX && egld <= u128::MAX && egld >= MIN_DELEGATION_AMOUNT
                    && match opt_delegation_contract {
                    None => old(self).any_for_undelegate(egld) && old(self).undelegate_sampling_fits(egld),
                    Some(given) => old(self).undelegation_mode == UndelegationMode::Open && old(self).has_record(given)
                        && valid_for_undelegate_relaxed(old(self).record(given), egld),
                } && (forall|i: int|
                    0 <= i < old(self).contracts@.len() ==> #[trigger] old(self).contracts@[i].pending_to_undelegate
                        + egld <= u128::MAX) && egld <= old(self).pool.cash_reserve && shares
                    <= old(self).pool.ls_token_supply && current_epoch + old(self).unbond_period <= u64::MAX)
                    ==> r is Ok
            }),
            opt_delegation_contract matches Some(given) && shares > 0 && old(self).undelegation_mode
                != UndelegationMode::Open && shares_to_egld_spec(shares as int, rate_of(old(self).pool))
                >= MIN_DELEGATION_AMOUNT && shares_to_egld_spec(shares as int, rate_of(old(self).pool))
                <= u128::MAX && rate_of(old(self).pool) <= u128::MAX ==> r == Err::<UndelegateAttributes, _>(
                LiquidStakingError::OnlyOpenUndelegationMode,
            ),
    {
        if shares == 0 {
            return Err(LiquidStakingError::InsufficientShares);
        }
        let egld_amount = self.pool.shares_to_egld(shares)?;
        require_sufficient_egld(egld_amount)?;
        let contract = match opt_delegation_contract {
            None => self.get_delegation_contract_for_undelegate(egld_amount, rand)?,
            Some(c) => {
                if self.undelegation_mode != UndelegationMode::Open {
                    return Err(LiquidStakingError::OnlyOpenUndelegationMode);
                }
                let i = self.require_record(c)?;
                if !is_valid_undelegation_contract_relaxed(&self.contracts[i], egld_amount) {
                    return Err(LiquidStakingError::InvalidDelegationContract);
                }
                c
            },
        };
        let i = self.require_record(contract)?;
        let d = self.contracts[i];
        proof {
            if opt_delegation_contract is None {
                let p = choose|p: int|
                    0 <= p < self.delegation_contracts_list.view().len()
                        && #[trigger] self.delegation_contracts_list.view()[p].contract == contract
                        && self.list_record(p).contract == contract
                        && crate::selection::valid_for_undelegate(self.list_record(p), egld_amount as int);
                self.lemma_list_record_contract(p);
            }
        }
        if d.pending_to_undelegate > u128::MAX - egld_amount || egld_amount > self.pool.cash_reserve
            || shares > self.pool.ls_token_supply || current_epoch > u64::MAX - self.unbond_period {
            return Err(LiquidStakingError::ArithmeticOverflow);
        }
        let nd = DelegationContractData {
            total_delegated: d.total_delegated - egld_amount,
            pending_to_undelegate: d.pending_to_undelegate + egld_amount,
            ..d
        };
        self.set_record(i, nd);
        self.pool.redeem_shares(egld_amount, shares);
        Ok(UndelegateAttributes {
            delegation_contract: contract,
            egld_amount,
            shares,
            undelegate_epoch: current_epoch,
            unbond_epoch: current_epoch + self.unbond_period,
        })
    }

    /// Starts undelegating all of the counterparty's `pending_to_undelegate`: carves it out and
    /// returns the call to dispatch.
    pub fn undelegate_pending_amount(&mut self, delegation_contract: Address) -> (r: Result<
        DelegationCall,
        LiquidStakingError,
    >)
        requires
            old(self).wf(),
        ensures
            final(self).wf(),
            !old(self).has_record(delegation_contract) ==> r == Err::<DelegationCall, _>(
                LiquidStakingError::UnexpectedDelegationContract,
            ),
            old(self).has_record(delegation_contract) && old(self).record(delegation_contract).pending_to_undelegate
                == 0 ==> r == Err::<DelegationCall, _>(LiquidStakingError::NoPendingToUndelegate),
            r is Ok <==> old(self).has_record(delegation_contract) && old(self).record(
                delegation_contract,
            ).pending_to_undelegate > 0,
            r is Err ==> *final(self) == *old(self),
            r matches Ok(call) ==> {
                let d = old(self).record(delegation_contract);
                &&& call == DelegationCall::Undelegate {
                    contract: delegation_contract,
                    egld_amount: d.pending_to_undelegate,
                }
                &&& final(self).contracts@ == old(self).contracts@.update(
                    old(self).record_index(delegation_contract),
                    withdraw_dispatched(d),
                )
                &&& final(self).pool == old(self).pool
                &&& final(self).same_but_records_and_pool(&*old(self))
            },
    {
        let i = self.require_record(delegation_contract)?;
        let d = self.contracts[i];
        let egld_amount = d.pending_to_undelegate;
        if egld_amount == 0 {
            return Err(LiquidStakingError::NoPendingToUndelegate);
        }
        let nd = DelegationContractData { pending_to_undelegate: 0, ..d };
        self.set_record(i, nd);
        Ok(DelegationCall::Undelegate { contract: delegation_contract, egld_amount })
    }

    /// Completes an undelegation of `egld_amount` from the counterparty: on success the amount
    /// is unbonding (and, under the algorithm mode, `current_epoch` is recorded); on failure it
    /// returns to `pending_to_undelegate` and the counterparty is marked outdated. Fails,
    /// changing nothing, only when a counter would overflow.
    pub fn undelegate_pending_amount_cb(
        &mut self,
        delegation_contract: Address,
        egld_amount: u128,
        success: bool,
        current_epoch: u64,
    ) -> (r: Result<(), LiquidStakingError>)
        requires
            old(self).wf(),
            old(self).has_record(delegation_contract),
        ensures
            final(self).wf(),
            ({
                let d = old(self).record(delegation_contract);
                &&& r is Ok <==> (if success {
                    d.total_undelegated + egld_amount <= u128::MAX && old(self).pool.total_undelegated
                        + egld_amount <= u128::MAX
                } else {
                    d.pending_to_undelegate + egld_amount <= u128::MAX
                })
                &&& r is Err ==> *final(self) == *old(self)
                &&& r is Ok ==> final(self).contracts@ == old(self).contracts@.update(
                    old(self).record_index(delegation_contract),
                    withdraw_completed(d, egld_amount as int, success),
                )
                &&& r is Ok ==> final(self).contracts@[old(self).record_index(delegation_contract)].held()
                    == d.held() + egld_amount
                &&& r is Ok && success ==> final(self).pool.total_undelegated == old(self).pool.total_undelegated
                    + egld_amount
                &&& r is Ok && success && old(self).undelegation_mode == UndelegationMode::Algorithm
                    && current_epoch > old(self).last_undelegate_epoch ==> final(self).last_undelegate_epoch
                    == current_epoch
                &&& r is Ok && !(success && old(self).undelegation_mode == UndelegationMode::Algorithm
                    && current_epoch > old(self).last_undelegate_epoch) ==> final(self).last_undelegate_epoch
                    == old(self).last_undelegate_epoch
                &&& r is Ok && !success ==> final(self).pool == old(self).pool
            }),
    {
        let i = self.require_record(delegation_contract)?;
        let d = self.contracts[i];
        if success {
            if d.total_undelegated > u128::MAX - egld_amount || self.pool.total_undelegated > u128::MAX
                - egld_amount {
                return Err(LiquidStakingError::ArithmeticOverflow);
            }
            let nd = DelegationContractData { total_undelegated: d.total_undelegated + egld_amount, ..d };
            self.set_record(i, nd);
            self.pool.total_undelegated = self.pool.total_undelegated + egld_amount;
            if self.undelegation_mode == UndelegationMode::Algorithm {
                self.set_last_undelegate_epoch_internal(current_epoch);
            }
        } else {
            if d.pending_to_undelegate > u128::MAX - egld_amount {
                return Err(LiquidStakingError::ArithmeticOverflow);
            }
            let nd = DelegationContractData {
                pending_to_undelegate: d.pending_to_undelegate + egld_amount,
                outdated: true,
                ..d
            };
            self.set_record(i, nd);
        }
        Ok(())
    }
}

} // verus!
