use vstd::prelude::*;
use crate::contract::LiquidStaking;
use crate::errors::LiquidStakingError;
use crate::ledger::{
    deposit_completed, deposit_dispatched, marked_outdated, matured_claimed, withdraw_completed, withdraw_dispatched,
};
use crate::model::Address;
use crate::model::State;
use crate::penalty::{partial_amount, partial_amount_ok};
use crate::proxies::{DelegationCall, EventsModule, ProxyModule};

verus! {

impl LiquidStaking {
    /// Flushes pending funds to the counterparty through the host: carves the amount out,
    /// makes the call, and applies its outcome; a failure is reported to the host. Returns
    /// whether the call succeeded. Refused up front, changing nothing, when a counter could overflow.
    pub fn run_delegate_pending_amount<H: ProxyModule + EventsModule>(
        &mut self,
        host: &mut H,
        delegation_contract: Address,
        opt_egld_amount: Option<u128>,
    ) -> (r: Result<bool, LiquidStakingError>)
        requires
            old(self).wf(),
        ensures
            final(self).wf(),
            r is Ok <==> ({
                let d = old(self).record(delegation_contract);
                &&& old(self).state == State::Active
                &&& old(self).has_record(delegation_contract)
                &&& d.pending_to_delegate > 0
                &&& partial_amount_ok(d.pending_to_delegate, opt_egld_amount)
                &&& d.total_delegated + d.pending_to_delegate <= u128::MAX
            }),
            r is Err ==> *final(self) == *old(self),
            r matches Ok(ok) ==> {
                let d = old(self).record(delegation_contract);
                let a = partial_amount(d.pending_to_delegate, opt_egld_amount);
                &&& old(self).has_record(delegation_contract)
                &&& final(self).contracts@ == old(self).contracts@.update(
                    old(self).record_index(delegation_contract),
                    deposit_completed(deposit_dispatched(d, a as int), a as int, ok),
                )
                &&& final(self).pool == old(self).pool
            },
    {
        let i = self.require_record(delegation_contract)?;
        let d = self.contracts[i];
        if d.total_delegated > u128::MAX - d.pending_to_delegate {
            return Err(LiquidStakingError::ArithmeticOverflow);
        }
        let call = self.delegate_pending_amount(delegation_contract, opt_egld_amount)?;
        let egld_amount = match call {
            DelegationCall::Delegate { egld_amount, .. } => egld_amount,
            // a deposit flush only ever produces a delegation
            _ => 0,
        };
        proof {
            self.lemma_record_index(delegation_contract, i as int);
        }
        let ok = host.delegate_to_delegation_contract(delegation_contract, egld_amount);
        if !ok {
            host.outdated_event(delegation_contract);
            host.async_call_error_event(delegation_contract);
        }
        let done = self.delegate_pending_amount_cb(delegation_contract, egld_amount, ok);
        proof {
            assert(done is Ok);
        }
        Ok(ok)
    }

    /// Flushes the counterparty's pending withdrawal through the host: carves it out, makes the
    /// call, and applies its outcome; a failure is reported to the host. Returns whether the
    /// call succeeded. Refused up front, changing nothing, when a counter could overflow.
    pub fn run_undelegate_pending_amount<H: ProxyModule + EventsModule>(
        &mut self,
        host: &mut H,
        delegation_contract: Address,
        current_epoch: u64,
    ) -> (r: Result<bool, LiquidStakingError>)
        requires
            old(self).wf(),
        ensures
            final(self).wf(),
            r is Ok <==> ({
                let d = old(self).record(delegation_contract);
                &&& old(self).has_record(delegation_contract)
                &&& d.pending_to_undelegate > 0
                &&& d.total_undelegated + d.pending_to_undelegate <= u128::MAX
                &&& old(self).pool.total_undelegated + d.pending_to_undelegate <= u128::MAX
            }),
            r is Err ==> *final(self) == *old(self),
            r matches Ok(ok) ==> {
                let d = old(self).record(delegation_contract);
                &&& old(self).has_record(delegation_contract)
                &&& final(self).contracts@ == old(self).contracts@.update(
                    old(self).record_index(delegation_contract),
                    withdraw_completed(withdraw_dispatched(d), d.pending_to_undelegate as int, ok),
                )
            },
    {
        let i = self.require_record(delegation_contract)?;
        let d = self.contracts[i];
        if d.total_undelegated > u128::MAX - d.pending_to_undelegate || self.pool.total_undelegated > u128::MAX
            - d.pending_to_undelegate {
            return Err(LiquidStakingError::ArithmeticOverflow);
        }
        let call = self.undelegate_pending_amount(delegation_contract)?;
        let egld_amount = match call {
            DelegationCall::Undelegate { egld_amount, .. } => egld_amount,
            // a withdrawal flush only ever produces an undelegation
            _ => 0,
        };
        proof {
            self.lemma_record_index(delegation_contract, i as int);
        }
        let ok = host.undelegate_from_delegation_contract(delegation_contract, egld_amount);
        if !ok {
            host.outdated_event(delegation_contract);
            host.async_call_error_event(delegation_contract);
        }
        let done = self.undelegate_pending_amount_cb(delegation_contract, egld_amount, ok, current_epoch);
        proof {
            assert(done is Ok);
        }
        Ok(ok)
    }

    /// Claims the counterparty's matured funds through the host and applies the outcome; a
    /// failed call marks the counterparty outdated and is reported to the host. Returns the
    /// amount released, if the call succeeded. A reported amount larger than what is unbonding
    /// is refused, changing nothing.
    pub fn run_withdraw_from<H: ProxyModule + EventsModule>(&mut self, host: &mut H, delegation_contract: Address) -> (r:
        Result<Option<u128>, LiquidStakingError>)
        requires
            old(self).wf(),
        ensures
            final(self).wf(),
            !old(self).has_record(delegation_contract) ==> r == Err::<Option<u128>, _>(
                LiquidStakingError::UnexpectedDelegationContract,
            ),
            r is Err ==> *final(self) == *old(self),
            r matches Ok(released) ==> {
                &&& old(self).has_record(delegation_contract)
                &&& final(self).contracts@ == old(self).contracts@.update(
                    old(self).record_index(delegation_contract),
                    matured_claimed(
                        old(self).record(delegation_contract),
                        match released {
                            Some(w) => w as int,
                            None => 0,
                        },
                        released is Some,
                    ),
                )
            },
    {
        self.withdraw_from(delegation_contract)?;
        match host.withdraw_from_delegation_contract(delegation_contract) {
            Some(w) => {
                self.withdraw_from_cb(delegation_contract, w, true)?;
                Ok(Some(w))
            },
            None => {
                let done = self.withdraw_from_cb(delegation_contract, 0, false);
                proof {
                    assert(done is Ok);
                }
                host.outdated_event(delegation_contract);
                host.async_call_error_event(delegation_contract);
                Ok(None)
            },
        }
    }

    /// Claims the counterparty's rewards through the host and splits what comes back between
    /// the reserves; a failed call marks the counterparty outdated and is reported to the host.
    /// Returns the amount claimed, if the call succeeded.
    pub fn run_claim_rewards_from<H: ProxyModule + EventsModule>(
        &mut self,
        host: &mut H,
        delegation_contract: Address,
        current_epoch: u64,
    ) -> (r: Result<Option<u128>, LiquidStakingError>)
        requires
            old(self).wf(),
        ensures
            final(self).wf(),
            old(self).state != State::Active ==> r == Err::<Option<u128>, _>(LiquidStakingError::Inactive),
            old(self).state == State::Active && !old(self).has_record(delegation_contract) ==> r == Err::<
                Option<u128>,
                _,
            >(LiquidStakingError::UnexpectedDelegationContract),
            old(self).state == State::Active && old(self).has_record(delegation_contract) && current_epoch
                <= old(self).last_rewards_claim_epoch@[old(self).record_index(delegation_contract)] ==> r == Err::<
                Option<u128>,
                _,
            >(LiquidStakingError::RewardsAlreadyClaimed),
            r is Err ==> *final(self) == *old(self),
            r matches Ok(claimed) ==> {
                &&& old(self).has_record(delegation_contract)
                &&& claimed is None ==> final(self).contracts@ == old(self).contracts@.update(
                    old(self).record_index(delegation_contract),
                    marked_outdated(old(self).record(delegation_contract)),
                ) && final(self).pool == old(self).pool
                &&& claimed matches Some(c) ==> final(self).contracts == old(self).contracts
                    && final(self).pool.rewards_reserve + final(self).pool.protocol_reserve
                    == old(self).pool.rewards_reserve + old(self).pool.protocol_reserve + c
            },
    {
        self.claim_rewards_from(delegation_contract, current_epoch)?;
        match host.claim_rewards_from_delegation_contract(delegation_contract) {
            Some(c) => {
                self.claim_rewards_from_cb(delegation_contract, c, true, current_epoch)?;
                Ok(Some(c))
            },
            None => {
                self.claim_rewards_from_cb(delegation_contract, 0, false, current_epoch)?;
                host.outdated_event(delegation_contract);
                host.async_call_error_event(delegation_contract);
                Ok(None)
            },
        }
    }
}

} // verus!
