use vstd::prelude::*;
use crate::common::{checked_partial_amount, minted, mint_ok, no_dust_spec, require_sufficient_egld, shares_for};
use crate::constants::MIN_DELEGATION_AMOUNT;
use crate::contract::LiquidStaking;
use crate::errors::LiquidStakingError;
use crate::ledger::{deposit_completed, deposit_dispatched, deposited};
use crate::model::{Address, DelegationContractData, State};
use crate::proxies::DelegationCall;
use crate::selection::has_valid_cap_spec;

verus! {

impl LiquidStaking {
    /// Stakes `egld_amount` of the base asset for `caller`: selects a counterparty (the caller's
    /// own one if whitelisted for migration), assigns the amount to its `pending_to_delegate`, and
    /// mints shares at the current rate. Returns the counterparty and the shares minted. `rand` is
    /// a draw in `[0, BPS)` for candidate sampling.
    pub fn delegate(&mut self, caller: Address, egld_amount: u128, rand: u128) -> (r: Result<
        (Address, u128),
        LiquidStakingError,
    >)
        requires
            old(self).wf(),
        ensures
            final(self).wf(),
            old(self).state != State::Active ==> r == Err::<(Address, u128), _>(LiquidStakingError::Inactive),
            old(self).state == State::Active && egld_amount < MIN_DELEGATION_AMOUNT ==> r == Err::<
                (Address, u128),
                _,
            >(LiquidStakingError::InsufficientEgldAmount),
            old(self).state == State::Active && egld_amount >= MIN_DELEGATION_AMOUNT
                && !old(self).is_migration_whitelisted(caller)
                && old(self).delegation_contracts_list.view().len() == 0 ==> r == Err::<(Address, u128), _>(
                LiquidStakingError::NoDelegationContracts,
            ),
            old(self).state == State::Active && egld_amount >= MIN_DELEGATION_AMOUNT
                && !old(self).is_migration_whitelisted(caller)
                && old(self).delegation_contracts_list.view().len() > 0 && !old(self).any_for_delegate(
                egld_amount as int,
                None,
            ) ==> r == Err::<(Address, u128), _>(LiquidStakingError::DelegationContractNotAvailable),
            old(self).state == State::Active && egld_amount >= MIN_DELEGATION_AMOUNT
                && !old(self).is_migration_whitelisted(caller)
                && old(self).any_for_delegate(egld_amount as int, None) && mint_ok(
                old(self).pool,
                egld_amount as int,
            ) && (forall|i: int|
                0 <= i < old(self).contracts@.len() ==> #[trigger] old(self).contracts@[i].pending_to_delegate
                    + egld_amount <= u128::MAX) ==> r is Ok,
            r is Err ==> *final(self) == *old(self),
            r matches Ok((c, shares)) ==> {
                &&& !old(self).is_migration_whitelisted(caller) ==> old(self).is_delegate_choice(
                    c,
                    egld_amount as int,
                    None,
                    rand as int,
                )
                &&& old(self).is_migration_whitelisted(caller) ==> c == old(self).migration_contract(caller)
                    && !old(self).record(c).outdated && has_valid_cap_spec(old(self).record(c), egld_amount as int)
                &&& old(self).has_record(c)
                &&& old(self).record(c).pending_to_delegate + egld_amount <= u128::MAX
                &&& mint_ok(old(self).pool, egld_amount as int)
                &&& final(self).contracts@ == old(self).contracts@.update(
                    old(self).record_index(c),
                    deposited(old(self).record(c), egld_amount as int),
                )
                &&& shares == shares_for(old(self).pool, egld_amount as int)
                &&& final(self).pool == minted(old(self).pool, egld_amount as int)
                &&& final(self).same_but_records_and_pool(&*old(self))
            },
    {
        self.require_active_state()?;
        require_sufficient_egld(egld_amount)?;
        let contract = if self.find_whitelisted_user(caller).is_none() {
            self.get_delegation_contract_for_delegate(egld_amount, None, rand)?
        } else {
            self.get_whitelisted_delegation_contract_for_delegate(caller, egld_amount)?
        };
        let i = self.require_record(contract)?;
        let d = self.contracts[i];
        if d.pending_to_delegate > u128::MAX - egld_amount {
            return Err(LiquidStakingError::ArithmeticOverflow);
        }
        let mut pool = self.pool;
        let shares = pool.mint_shares(egld_amount)?;
        self.pool = pool;
        let nd = DelegationContractData { pending_to_delegate: d.pending_to_delegate + egld_amount, ..d };
        self.set_record(i, nd);
        Ok((contract, shares))
    }

    /// Starts delegating pending funds to the counterparty: carves `opt_egld_amount` (all of
    /// `pending_to_delegate` when absent) out of `pending_to_delegate` and returns the call to
    /// dispatch. A partial amount must be at least the minimum and leave no dust.
    pub fn delegate_pending_amount(
        &mut self,
        delegation_contract: Address,
        opt_egld_amount: Option<u128>,
    ) -> (r: Result<DelegationCall, LiquidStakingError>)
        requires
            old(self).wf(),
        ensures
            final(self).wf(),
            old(self).state != State::Active ==> r == Err::<DelegationCall, _>(LiquidStakingError::Inactive),
            old(self).state == State::Active && !old(self).has_record(delegation_contract) ==> r == Err::<
                DelegationCall,
                _,
            >(LiquidStakingError::UnexpectedDelegationContract),
            old(self).state == State::Active && old(self).has_record(delegation_contract) && old(
                self,
            ).record(delegation_contract).pending_to_delegate == 0 ==> r == Err::<DelegationCall, _>(
                LiquidStakingError::NoPendingToDelegate,
            ),
            old(self).state == State::Active && old(self).has_record(delegation_contract) && old(
                self,
            ).record(delegation_contract).pending_to_delegate > 0 ==> ({
                let pending = old(self).record(delegation_contract).pending_to_delegate;
                &&& opt_egld_amount is None ==> r is Ok
                &&& opt_egld_amount matches Some(a) ==> (r is Ok <==> (a >= MIN_DELEGATION_AMOUNT && a
                    <= pending && no_dust_spec(pending - a)))
            }),
            r is Err ==> *final(self) == *old(self),
            r matches Ok(call) ==> {
                let d = old(self).record(delegation_contract);
                let a = match opt_egld_amount {
                    Some(a) => a,
                    None => d.pending_to_delegate,
                };
                &&& call == DelegationCall::Delegate { contract: delegation_contract, egld_amount: a }
                &&& a <= d.pending_to_delegate
                &&& final(self).contracts@[old(self).record_index(delegation_contract)].held() == d.held() - a
                &&& final(self).contracts@ == old(self).contracts@.update(
                    old(self).record_index(delegation_contract),
                    deposit_dispatched(d, a as int),
                )
                &&& final(self).pool == old(self).pool
                &&& final(self).same_but_records_and_pool(&*old(self))
            },
    {
        self.require_active_state()?;
        let i = self.require_record(delegation_contract)?;
        let d = self.contracts[i];
        if d.pending_to_delegate == 0 {
            return Err(LiquidStakingError::NoPendingToDelegate);
        }
        let egld_amount = checked_partial_amount(d.pending_to_delegate, opt_egld_amount)?;
        let nd = DelegationContractData { pending_to_delegate: d.pending_to_delegate - egld_amount, ..d };
        self.set_record(i, nd);
        Ok(DelegationCall::Delegate { contract: delegation_contract, egld_amount })
    }

    /// Completes a deposit flush of `egld_amount` to the counterparty: on success the amount is
    /// delegated; on failure it returns to `pending_to_delegate` and the counterparty is marked
    /// outdated. Fails, changing nothing, only when a counter would overflow.
    pub fn delegate_pending_amount_cb(
        &mut self,
        delegation_contract: Address,
        egld_amount: u128,
        success: bool,
    ) -> (r: Result<(), LiquidStakingError>)
        requires
            old(self).wf(),
            old(self).has_record(delegation_contract),
        ensures
            final(self).wf(),
            ({
                let d = old(self).record(delegation_contract);
                &&& r is Ok <==> (if success {
                    d.total_delegated + egld_amount <= u128::MAX
                } else {
                    d.pending_to_delegate + egld_amount <= u128::MAX
                })
                &&& r is Err ==> *final(self) == *old(self)
                &&& r is Ok ==> final(self).contracts@ == old(self).contracts@.update(
                    old(self).record_index(delegation_contract),
                    deposit_completed(d, egld_amount as int, success),
                )
                &&& r is Ok ==> final(self).contracts@[old(self).record_index(delegation_contract)].held()
                    == d.held() + egld_amount
                &&& final(self).pool == old(self).pool
                &&& final(self).same_but_records_and_pool(&*old(self))
            }),
    {
        let i = self.require_record(delegation_contract)?;
        let d = self.contracts[i];
        if success {
            if d.total_delegated > u128::MAX - egld_amount {
                return Err(LiquidStakingError::ArithmeticOverflow);
            }
            let nd = DelegationContractData { total_delegated: d.total_delegated + egld_amount, ..d };
            self.set_record(i, nd);
        } else {
            if d.pending_to_delegate > u128::MAX - egld_amount {
                return Err(LiquidStakingError::ArithmeticOverflow);
            }
            let nd = DelegationContractData {
                pending_to_delegate: d.pending_to_delegate + egld_amount,
                outdated: true,
                ..d
            };
            self.set_record(i, nd);
        }
        Ok(())
    }
}

} // verus!
