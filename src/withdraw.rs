use vstd::prelude::*;
use crate::contract::LiquidStaking;
use crate::errors::LiquidStakingError;
use crate::ledger::{matured_claimed, paid_out};
use crate::model::{Address, DelegationContractData, UndelegateAttributes};
use crate::proxies::DelegationCall;

verus! {

impl LiquidStaking {
    /// Pays out a matured receipt: from `unbond_epoch` on, and only once the counterparty's
    /// withdrawable funds cover it, the amount leaves the counterparty's and the pool's
    /// withdrawable funds.
    pub fn withdraw_internal(&mut self, attributes: &UndelegateAttributes, current_epoch: u64) -> (r: Result<
        (),
        LiquidStakingError,
    >)
        requires
            old(self).wf(),
        ensures
            final(self).wf(),
            current_epoch < attributes.unbond_epoch ==> r == Err::<(), _>(LiquidStakingError::UnbondPeriodNotEnded),
            current_epoch >= attributes.unbond_epoch && !old(self).has_record(attributes.delegation_contract)
                ==> r == Err::<(), _>(LiquidStakingError::UnexpectedDelegationContract),
            current_epoch >= attributes.unbond_epoch && old(self).has_record(attributes.delegation_contract)
                && old(self).record(attributes.delegation_contract).total_withdrawable < attributes.egld_amount
                ==> r == Err::<(), _>(LiquidStakingError::TooMuchEgldAmount),
            r is Ok <==> current_epoch >= attributes.unbond_epoch && old(self).has_record(
                attributes.delegation_contract,
            ) && old(self).record(attributes.delegation_contract).total_withdrawable >= attributes.egld_amount
                && old(self).pool.total_withdrawable >= attributes.egld_amount,
            r is Err ==> *final(self) == *old(self),
            r is Ok ==> {
                let c = attributes.delegation_contract;
                &&& final(self).contracts@ == old(self).contracts@.update(
                    old(self).record_index(c),
                    paid_out(old(self).record(c), attributes.egld_amount as int),
                )
                &&& final(self).pool.total_withdrawable == old(self).pool.total_withdrawable
                    - attributes.egld_amount
                &&& final(self).pool.cash_reserve == old(self).pool.cash_reserve
                &&& final(self).pool.ls_token_supply == old(self).pool.ls_token_supply
                &&& final(self).pool.total_undelegated == old(self).pool.total_undelegated
                &&& final(self).pool.rewards_reserve == old(self).pool.rewards_reserve
                &&& final(self).pool.protocol_reserve == old(self).pool.protocol_reserve
                &&& final(self).same_but_records_and_pool(&*old(self))
            },
    {
        if current_epoch < attributes.unbond_epoch {
            return Err(LiquidStakingError::UnbondPeriodNotEnded);
        }
        let i = self.require_record(attributes.delegation_contract)?;
        let d = self.contracts[i];
        if d.total_withdrawable < attributes.egld_amount {
            return Err(LiquidStakingError::TooMuchEgldAmount);
        }
        if self.pool.total_withdrawable < attributes.egld_amount {
            return Err(LiquidStakingError::ArithmeticOverflow);
        }
        let nd = DelegationContractData { total_withdrawable: d.total_withdrawable - attributes.egld_amount, ..d };
        self.set_record(i, nd);
        self.pool.total_withdrawable = self.pool.total_withdrawable - attributes.egld_amount;
        Ok(())
    }

    /// Redeems a receipt for the base asset once its unbond period has passed; returns the
    /// amount to pay to the holder.
    pub fn withdraw(&mut self, attributes: &UndelegateAttributes, current_epoch: u64) -> (r: Result<
        u128,
        LiquidStakingError,
    >)
        requires
            old(self).wf(),
        ensures
            final(self).wf(),
            current_epoch < attributes.unbond_epoch ==> r == Err::<u128, _>(LiquidStakingError::UnbondPeriodNotEnded),
            r is Ok <==> current_epoch >= attributes.unbond_epoch && old(self).has_record(
                attributes.delegation_contract,
            ) && old(self).record(attributes.delegation_contract).total_withdrawable >= attributes.egld_amount
                && old(self).pool.total_withdrawable >= attributes.egld_amount,
            r is Err ==> *final(self) == *old(self),
            r matches Ok(a) ==> a == attributes.egld_amount && final(self).contracts@ == old(self).contracts@.update(
                old(self).record_index(attributes.delegation_contract),
                paid_out(old(self).record(attributes.delegation_contract), a as int),
            ),
    {
        self.withdraw_internal(attributes, current_epoch)?;
        Ok(attributes.egld_amount)
    }

    /// Returns the call that claims the counterparty's matured funds.
    pub fn withdraw_from(&self, delegation_contract: Address) -> (r: Result<DelegationCall, LiquidStakingError>)
        requires
            self.wf(),
        ensures
            r is Ok <==> self.has_record(delegation_contract),
            r is Err ==> r == Err::<DelegationCall, _>(LiquidStakingError::UnexpectedDelegationContract),
            r is Ok ==> r == Ok::<DelegationCall, LiquidStakingError>(
                DelegationCall::Withdraw { contract: delegation_contract },
            ),
    {
        self.require_record(delegation_contract)?;
        Ok(DelegationCall::Withdraw { contract: delegation_contract })
    }

    /// Completes a claim of matured funds: on success the `withdrawn_amount` received moves from
    /// unbonding to withdrawable, at the counterparty and in the pool; on failure the counterparty
    /// is marked outdated.
    /// Fails, changing nothing, when the amount exceeds what is unbonding or a counter would overflow.
    pub fn withdraw_from_cb(&mut self, delegation_contract: Address, withdrawn_amount: u128, success: bool) -> (r:
        Result<(), LiquidStakingError>)
        requires
            old(self).wf(),
            old(self).has_record(delegation_contract),
        ensures
            final(self).wf(),
            ({
                let d = old(self).record(delegation_contract);
                let p = old(self).pool;
                &&& r is Ok <==> (success ==> withdrawn_amount <= d.total_undelegated
                    && withdrawn_amount <= p.total_undelegated && d.total_withdrawable + withdrawn_amount
                    <= u128::MAX && p.total_withdrawable + withdrawn_amount <= u128::MAX)
                &&& r is Err ==> *final(self) == *old(self)
                &&& !success ==> final(self).pool == p
                &&& r is Ok ==> final(self).contracts@ == old(self).contracts@.update(
                    old(self).record_index(delegation_contract),
                    matured_claimed(d, withdrawn_amount as int, success),
                )
                &&& r is Ok && success ==> final(self).pool.total_withdrawable == p.total_withdrawable
                    + withdrawn_amount && final(self).pool.total_undelegated == p.total_undelegated
                    - withdrawn_amount
                &&& final(self).same_but_records_and_pool(&*old(self))
            }),
    {
        let i = self.require_record(delegation_contract)?;
        let d = self.contracts[i];
        if !success {
            let nd = DelegationContractData { outdated: true, ..d };
            self.set_record(i, nd);
            return Ok(());
        }
        if withdrawn_amount > d.total_undelegated || withdrawn_amount > self.pool.total_undelegated
            || d.total_withdrawable > u128::MAX - withdrawn_amount || self.pool.total_withdrawable > u128::MAX
            - withdrawn_amount {
            return Err(LiquidStakingError::ArithmeticOverflow);
        }
        let nd = DelegationContractData {
            total_undelegated: d.total_undelegated - withdrawn_amount,
            total_withdrawable: d.total_withdrawable + withdrawn_amount,
            ..d
        };
        self.set_record(i, nd);
        self.pool.total_withdrawable = self.pool.total_withdrawable + withdrawn_amount;
        self.pool.total_undelegated = self.pool.total_undelegated - withdrawn_amount;
        Ok(())
    }
}

} // verus!
