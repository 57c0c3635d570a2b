use vstd::prelude::*;
use crate::common::{checked_partial_amount, no_dust_spec};
use crate::constants::{BPS, MIN_DELEGATION_AMOUNT};
use crate::contract::LiquidStaking;
use crate::errors::LiquidStakingError;
use crate::ledger::{marked_outdated, rewards_completed};
use crate::math::mul_div;
use crate::model::{Address, DelegationContractData, State};
use crate::proxies::DelegationCall;

verus! {

/// The protocol's part of `claimed` rewards: the total fee less the counterparty's service fee,
/// taken from what the service fee leaves; nothing when the service fee reaches the total fee.
pub open spec fn protocol_part_spec(claimed: int, service_fee: int, total_fee: int) -> int {
    if service_fee >= total_fee {
        0
    } else {
        ((total_fee - service_fee) * (BPS as int) / (BPS - service_fee)) * claimed / (BPS as int)
    }
}

/// Splits claimed rewards into the protocol's reserves and the users' rewards.
pub fn split_rewards(claimed_rewards: u128, service_fee: u128, total_fee: u128) -> (r: (u128, u128))
    requires
        total_fee <= BPS,
    ensures
        r.0 == protocol_part_spec(claimed_rewards as int, service_fee as int, total_fee as int),
        r.0 + r.1 == claimed_rewards,
{
    if service_fee >= total_fee {
        return (0, claimed_rewards);
    }
    proof {
        assert((total_fee - service_fee) * BPS <= (BPS - service_fee) * BPS) by (nonlinear_arith)
            requires
                total_fee <= BPS,
        ;
        assert((total_fee - service_fee) * BPS / ((BPS - service_fee) as int) <= BPS) by (nonlinear_arith)
            requires
                (total_fee - service_fee) * BPS <= (BPS - service_fee) * BPS,
                BPS - service_fee > 0,
        ;
        assert(0 <= (total_fee - service_fee) * BPS / ((BPS - service_fee) as int)) by (nonlinear_arith)
            requires
                total_fee > service_fee,
                BPS - service_fee > 0,
        ;
    }
    let protocol_fee: u128 = (total_fee - service_fee) * BPS / (BPS - service_fee);
    let reserves = match mul_div(protocol_fee, claimed_rewards, BPS) {
        Some(v) => v,
        None => 0,
    };
    proof {
        assert(protocol_fee * claimed_rewards / (BPS as int) <= claimed_rewards) by (nonlinear_arith)
            requires
                protocol_fee <= BPS,
                0 <= protocol_fee,
        ;
    }
    (reserves, claimed_rewards - reserves)
}

impl LiquidStaking {
    /// Whether rewards were already claimed from the counterparty at index `i` in `current_epoch`.
    pub fn has_claimed_rewards(&self, i: usize, current_epoch: u64) -> (r: bool)
        requires
            self.wf(),
            i < self.contracts@.len(),
        ensures
            r == (current_epoch <= self.last_rewards_claim_epoch@[i as int]),
    {
        current_epoch <= self.last_rewards_claim_epoch[i]
    }

    /// Returns the call that claims the counterparty's rewards, at most once per epoch.
    pub fn claim_rewards_from(&self, delegation_contract: Address, current_epoch: u64) -> (r: Result<
        DelegationCall,
        LiquidStakingError,
    >)
        requires
            self.wf(),
        ensures
            self.state != State::Active ==> r == Err::<DelegationCall, _>(LiquidStakingError::Inactive),
            self.state == State::Active && !self.has_record(delegation_contract) ==> r == Err::<
                DelegationCall,
                _,
            >(LiquidStakingError::UnexpectedDelegationContract),
            self.state == State::Active && self.has_record(delegation_contract) && current_epoch
                <= self.last_rewards_claim_epoch@[self.record_index(delegation_contract)] ==> r == Err::<
                DelegationCall,
                _,
            >(LiquidStakingError::RewardsAlreadyClaimed),
            r is Ok <==> self.state == State::Active && self.has_record(delegation_contract) && current_epoch
                > self.last_rewards_claim_epoch@[self.record_index(delegation_contract)],
            r is Ok ==> r == Ok::<DelegationCall, LiquidStakingError>(
                DelegationCall::ClaimRewards { contract: delegation_contract },
            ),
    {
        self.require_active_state()?;
        let i = self.require_record(delegation_contract)?;
        if self.has_claimed_rewards(i, current_epoch) {
            return Err(LiquidStakingError::RewardsAlreadyClaimed);
        }
        Ok(DelegationCall::ClaimRewards { contract: delegation_contract })
    }

    /// Completes a rewards claim: on success the `claimed_rewards` received are split between the
    /// protocol reserve and the rewards reserve, and the epoch of the claim is recorded; on
    /// failure the counterparty is marked outdated. Returns the two parts. Fails, changing
    /// nothing, only when a reserve would overflow.
    pub fn claim_rewards_from_cb(
        &mut self,
        delegation_contract: Address,
        claimed_rewards: u128,
        success: bool,
        current_epoch: u64,
    ) -> (r: Result<(u128, u128), LiquidStakingError>)
        requires
            old(self).wf(),
            old(self).has_record(delegation_contract),
        ensures
            final(self).wf(),
            r is Err ==> *final(self) == *old(self),
            !success ==> r == Ok::<(u128, u128), LiquidStakingError>((0, 0)) && final(self).contracts@
                == old(self).contracts@.update(
                old(self).record_index(delegation_contract),
                marked_outdated(old(self).record(delegation_contract)),
            ) && final(self).pool == old(self).pool && final(self).same_but_records_and_pool(&*old(self)),
            success ==> ({
                let fee = old(self).record(delegation_contract).service_fee;
                let total_fee = match old(self).total_fee {
                    Some(f) => f,
                    None => 0,
                };
                let reserves = protocol_part_spec(claimed_rewards as int, fee as int, total_fee as int);
                r is Ok <==> old(self).pool.rewards_reserve + (claimed_rewards - reserves) <= u128::MAX
                    && old(self).pool.protocol_reserve + reserves <= u128::MAX
            }),
            success ==> (r matches Ok((reserves, rewards)) ==> {
                let i = old(self).record_index(delegation_contract);
                let fee = old(self).record(delegation_contract).service_fee;
                let total_fee = match old(self).total_fee {
                    Some(f) => f,
                    None => 0,
                };
                &&& reserves == protocol_part_spec(claimed_rewards as int, fee as int, total_fee as int)
                &&& reserves + rewards == claimed_rewards
                &&& final(self).pool.protocol_reserve == old(self).pool.protocol_reserve + reserves
                &&& final(self).pool.rewards_reserve == old(self).pool.rewards_reserve + rewards
                &&& final(self).pool.cash_reserve == old(self).pool.cash_reserve
                &&& final(self).pool.ls_token_supply == old(self).pool.ls_token_supply
                &&& final(self).contracts == old(self).contracts
                &&& final(self).last_rewards_claim_epoch@ == old(self).last_rewards_claim_epoch@.update(
                    i,
                    if current_epoch > old(self).last_rewards_claim_epoch@[i] {
                        current_epoch
                    } else {
                        old(self).last_rewards_claim_epoch@[i]
                    },
                )
            }),
    {
        let i = self.require_record(delegation_contract)?;
        let d = self.contracts[i];
        if !success {
            let nd = DelegationContractData { outdated: true, ..d };
            self.set_record(i, nd);
            return Ok((0, 0));
        }
        let total_fee = match self.total_fee {
            Some(f) => f,
            None => 0,
        };
        let (reserves, rewards) = split_rewards(claimed_rewards, d.service_fee, total_fee);
        if self.pool.rewards_reserve > u128::MAX - rewards || self.pool.protocol_reserve > u128::MAX - reserves {
            return Err(LiquidStakingError::ArithmeticOverflow);
        }
        self.pool.rewards_reserve = self.pool.rewards_reserve + rewards;
        self.pool.protocol_reserve = self.pool.protocol_reserve + reserves;
        if current_epoch > self.last_rewards_claim_epoch[i] {
            self.last_rewards_claim_epoch.set(i, current_epoch);
        } else {
            proof {
                assert(self.last_rewards_claim_epoch@.update(i as int, self.last_rewards_claim_epoch@[i as int])
                    =~= self.last_rewards_claim_epoch@);
            }
        }
        Ok((reserves, rewards))
    }

    /// Starts delegating the rewards reserve (or `opt_egld_amount` of it) to a selected
    /// counterparty: carves the amount out of the reserve and returns the call to dispatch.
    /// `rand` is a draw in `[0, BPS)` for candidate sampling.
    pub fn delegate_rewards(&mut self, opt_egld_amount: Option<u128>, rand: u128) -> (r: Result<
        DelegationCall,
        LiquidStakingError,
    >)
        requires
            old(self).wf(),
        ensures
            final(self).wf(),
            old(self).state != State::Active ==> r == Err::<DelegationCall, _>(LiquidStakingError::Inactive),
            old(self).state == State::Active && old(self).pool.rewards_reserve < MIN_DELEGATION_AMOUNT ==> r
                == Err::<DelegationCall, _>(LiquidStakingError::InsufficientEgldAmount),
            ({
                let reserve = old(self).pool.rewards_reserve;
                let a = match opt_egld_amount {
                    Some(a) => a,
                    None => reserve,
                };
                (old(self).state == State::Active && reserve >= MIN_DELEGATION_AMOUNT && (opt_egld_amount matches Some(
                    x,
                ) ==> x >= MIN_DELEGATION_AMOUNT && x <= reserve && no_dust_spec(reserve - x))
                    && old(self).any_for_delegate(a as int, None)) ==> r is Ok
            }),
            r is Err ==> *final(self) == *old(self),
            r matches Ok(call) ==> {
                let reserve = old(self).pool.rewards_reserve;
                let a = match opt_egld_amount {
                    Some(a) => a,
                    None => reserve,
                };
                &&& reserve >= MIN_DELEGATION_AMOUNT
                &&& opt_egld_amount matches Some(x) ==> x >= MIN_DELEGATION_AMOUNT && x <= reserve
                    && no_dust_spec(reserve - x)
                &&& call == DelegationCall::Delegate { contract: call.target(), egld_amount: a }
                &&& old(self).is_delegate_choice(call.target(), a as int, None, rand as int)
                &&& final(self).pool.rewards_reserve == reserve - a
                &&& final(self).pool.cash_reserve == old(self).pool.cash_reserve
                &&& final(self).pool.ls_token_supply == old(self).pool.ls_token_supply
                &&& final(self).contracts == old(self).contracts
                &&& final(self).same_but_records_and_pool(&*old(self))
            },
    {
        self.require_active_state()?;
        let rewards_reserve = self.pool.rewards_reserve;
        if rewards_reserve < MIN_DELEGATION_AMOUNT {
            return Err(LiquidStakingError::InsufficientEgldAmount);
        }
        let egld_amount = checked_partial_amount(rewards_reserve, opt_egld_amount)?;
        let contract = self.get_delegation_contract_for_delegate(egld_amount, None, rand)?;
        let ghost before = *self;
        self.pool.rewards_reserve = rewards_reserve - egld_amount;
        let call = DelegationCall::Delegate { contract, egld_amount };
        proof {
            assert(before.is_delegate_choice(contract, egld_amount as int, None, rand as int));
            assert(call == DelegationCall::Delegate { contract, egld_amount });
        }
        Ok(call)
    }

    /// Completes a rewards delegation: on success the amount is delegated and backs the shares
    /// (`cash` grows); on failure it returns to the rewards reserve and the counterparty is
    /// marked outdated. Fails, changing nothing, only when a counter would overflow.
    pub fn delegate_rewards_cb(&mut self, delegation_contract: Address, egld_amount: u128, success: bool) -> (r:
        Result<(), LiquidStakingError>)
        requires
            old(self).wf(),
            old(self).has_record(delegation_contract),
        ensures
            final(self).wf(),
            ({
                let d = old(self).record(delegation_contract);
                let p = old(self).pool;
                &&& r is Ok <==> (if success {
                    d.total_delegated + egld_amount <= u128::MAX && p.cash_reserve + egld_amount <= u128::MAX
                } else {
                    p.rewards_reserve + egld_amount <= u128::MAX
                })
                &&& r is Err ==> *final(self) == *old(self)
                &&& r is Ok ==> final(self).contracts@ == old(self).contracts@.update(
                    old(self).record_index(delegation_contract),
                    rewards_completed(d, egld_amount as int, success),
                )
                &&& r is Ok && success ==> final(self).pool.cash_reserve == p.cash_reserve + egld_amount
                    && final(self).pool.rewards_reserve == p.rewards_reserve
                &&& r is Ok && !success ==> final(self).pool.rewards_reserve == p.rewards_reserve + egld_amount
                    && final(self).pool.cash_reserve == p.cash_reserve
                &&& final(self).pool.ls_token_supply == p.ls_token_supply
                &&& final(self).same_but_records_and_pool(&*old(self))
            }),
    {
        let i = self.require_record(delegation_contract)?;
        let d = self.contracts[i];
        if success {
            if d.total_delegated > u128::MAX - egld_amount || self.pool.cash_reserve > u128::MAX - egld_amount {
                return Err(LiquidStakingError::ArithmeticOverflow);
            }
            let nd = DelegationContractData { total_delegated: d.total_delegated + egld_amount, ..d };
            self.set_record(i, nd);
            self.pool.cash_reserve = self.pool.cash_reserve + egld_amount;
        } else {
            if self.pool.rewards_reserve > u128::MAX - egld_amount {
                return Err(LiquidStakingError::ArithmeticOverflow);
            }
            self.pool.rewards_reserve = self.pool.rewards_reserve + egld_amount;
            let nd = DelegationContractData { outdated: true, ..d };
            self.set_record(i, nd);
        }
        Ok(())
    }
}

} // verus!
