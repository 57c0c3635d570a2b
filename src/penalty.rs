use vstd::prelude::*;
use crate::common::{checked_partial_amount, no_dust_spec, rate_of, redeemed, shares_to_egld_spec};
use crate::constants::MIN_DELEGATION_AMOUNT;
use crate::contract::LiquidStaking;
use crate::errors::LiquidStakingError;
use crate::ledger::{deposited, pending_released, withdraw_requested};
use crate::model::{Address, DelegationContractData, Penalty, PenaltySource, State, UndelegateAttributes, UndelegationMode};

verus! {

/// The table of penalties, keyed by sequential identifiers.
#[derive(Debug)]
pub struct PenaltyModule {
    pub penalties: Vec<Penalty>,
    pub next_penalty_id: u64,
}

impl PenaltyModule {
    /// Identifiers are unique and below the next identifier.
    pub open spec fn wf(&self) -> bool {
        &&& forall|i: int, j: int|
            0 <= i < self.penalties@.len() && 0 <= j < self.penalties@.len() && i != j
                ==> #[trigger] self.penalties@[i].id != #[trigger] self.penalties@[j].id
        &&& forall|i: int|
            0 <= i < self.penalties@.len() ==> (#[trigger] self.penalties@[i]).id
                < self.next_penalty_id
    }

    /// Whether a penalty with this identifier exists.
    pub open spec fn has_penalty(&self, id: u64) -> bool {
        exists|i: int| 0 <= i < self.penalties@.len() && #[trigger] self.penalties@[i].id == id
    }

    /// The penalty with this identifier.
    pub open spec fn penalty(&self, id: u64) -> Penalty {
        self.penalties@[choose|i: int|
            0 <= i < self.penalties@.len() && #[trigger] self.penalties@[i].id == id]
    }

    /// An empty table.
    pub fn new() -> (r: PenaltyModule)
        ensures
            r.wf(),
            r.penalties@.len() == 0,
            r.next_penalty_id == 0,
    {
        PenaltyModule { penalties: Vec::new(), next_penalty_id: 0 }
    }

    /// The position of the penalty with this identifier, if any.
    pub fn find_penalty(&self, id: u64) -> (r: Option<usize>)
        requires
            self.wf(),
        ensures
            r is None <==> !self.has_penalty(id),
            r matches Some(i) ==> i < self.penalties@.len() && self.penalties@[i as int].id == id
                && self.penalty(id) == self.penalties@[i as int],
    {
        let mut i: usize = 0;
        while i < self.penalties.len()
            invariant
                i <= self.penalties@.len(),
                self.wf(),
                forall|j: int| 0 <= j < i ==> #[trigger] self.penalties@[j].id != id,
            decreases self.penalties@.len() - i,
        {
            if self.penalties[i].id == id {
                proof {
                    let k = choose|k: int| 0 <= k < self.penalties@.len() && #[trigger] self.penalties@[k].id == id;
                    assert(self.penalties@[i as int].id == id);
                    assert(k == i);
                }
                return Some(i);
            }
            i = i + 1;
        }
        None
    }

    /// The penalty with this identifier, if any.
    pub fn get_penalty(&self, id: u64) -> (r: Option<Penalty>)
        requires
            self.wf(),
        ensures
            r is None <==> !self.has_penalty(id),
            r matches Some(p) ==> p == self.penalty(id),
    {
        match self.find_penalty(id) {
            Some(i) => Some(self.penalties[i]),
            None => None,
        }
    }

    /// Rejects an identifier with no penalty.
    pub fn require_valid_penalty_id(&self, id: u64) -> (r: Result<Penalty, LiquidStakingError>)
        requires
            self.wf(),
        ensures
            r is Ok <==> self.has_penalty(id),
            r matches Ok(p) ==> p == self.penalty(id),
            r is Err ==> r == Err::<Penalty, _>(LiquidStakingError::UnexpectedPenaltyId),
    {
        match self.get_penalty(id) {
            Some(p) => Ok(p),
            None => Err(LiquidStakingError::UnexpectedPenaltyId),
        }
    }

    /// Hands out the next identifier, counting from zero.
    pub fn get_next_penalty_id(&mut self) -> (r: u64)
        requires
            old(self).wf(),
            old(self).next_penalty_id < u64::MAX,
        ensures
            final(self).wf(),
            r == old(self).next_penalty_id,
            final(self).next_penalty_id == old(self).next_penalty_id + 1,
            final(self).penalties@ == old(self).penalties@,
    {
        let id = self.next_penalty_id;
        self.next_penalty_id = id + 1;
        id
    }

    /// Records a new penalty under the next identifier.
    pub fn add_penalty(&mut self, withdrawn: bool, attributes: UndelegateAttributes) -> (r: u64)
        requires
            old(self).wf(),
            old(self).next_penalty_id < u64::MAX,
        ensures
            final(self).wf(),
            r == old(self).next_penalty_id,
            final(self).next_penalty_id == old(self).next_penalty_id + 1,
            final(self).penalties@ == old(self).penalties@.push(
                Penalty { id: r, withdrawn, attributes },
            ),
            final(self).has_penalty(r),
            final(self).penalty(r) == (Penalty { id: r, withdrawn, attributes }),
    {
        let id = self.get_next_penalty_id();
        let p = Penalty { id, withdrawn, attributes };
        self.penalties.push(p);
        proof {
            let n = self.penalties@.len() - 1;
            assert(self.penalties@[n].id == id);
            let k = choose|k: int| 0 <= k < self.penalties@.len() && #[trigger] self.penalties@[k].id == id;
            assert(k == n);
        }
        id
    }

    /// Reduces the penalty at position `i` by `egld_amount`, dropping it once nothing is left.
    pub fn reduce_penalty(&mut self, i: usize, egld_amount: u128)
        requires
            old(self).wf(),
            i < old(self).penalties@.len(),
            egld_amount <= old(self).penalties@[i as int].attributes.egld_amount,
        ensures
            final(self).wf(),
            final(self).next_penalty_id == old(self).next_penalty_id,
            ({
                let p = old(self).penalties@[i as int];
                let rest = (p.attributes.egld_amount - egld_amount) as u128;
                &&& rest == 0 ==> final(self).penalties@ == old(self).penalties@.remove(i as int)
                &&& rest > 0 ==> final(self).penalties@ == old(self).penalties@.update(
                    i as int,
                    Penalty { attributes: UndelegateAttributes { egld_amount: rest, ..p.attributes }, ..p },
                )
            }),
    {
        let mut p = self.penalties[i];
        let rest = p.attributes.egld_amount - egld_amount;
        if rest == 0 {
            self.penalties.remove(i);
            proof {
                let old_p = old(self).penalties@;
                assert forall|a: int, b: int|
                    0 <= a < self.penalties@.len() && 0 <= b < self.penalties@.len() && a != b
                    implies #[trigger] self.penalties@[a].id != #[trigger] self.penalties@[b].id by {
                    let a0 = if a < i { a } else { a + 1 };
                    let b0 = if b < i { b } else { b + 1 };
                    assert(old_p[a0].id != old_p[b0].id);
                }
                assert forall|a: int| 0 <= a < self.penalties@.len()
                    implies (#[trigger] self.penalties@[a]).id < self.next_penalty_id by {
                    let a0 = if a < i { a } else { a + 1 };
                    assert(old_p[a0] == self.penalties@[a]);
                }
            }
        } else {
            p.attributes.egld_amount = rest;
            self.penalties.set(i, p);
            proof {
                let old_p = old(self).penalties@;
                assert forall|a: int, b: int|
                    0 <= a < self.penalties@.len() && 0 <= b < self.penalties@.len() && a != b
                    implies #[trigger] self.penalties@[a].id != #[trigger] self.penalties@[b].id by {
                    assert(old_p[a].id != old_p[b].id);
                }
            }
        }
    }
}

/// The amount a penalty takes: all of `available` without a given amount, else a given amount of
/// at least the minimum, at most `available`, that leaves no dust.
pub open spec fn partial_amount_ok(available: u128, opt_amount: Option<u128>) -> bool {
    opt_amount matches Some(a) ==> a >= MIN_DELEGATION_AMOUNT && a <= available && no_dust_spec(available - a)
}

/// The amount taken: the given one, or all of `available`.
pub open spec fn partial_amount(available: u128, opt_amount: Option<u128>) -> u128 {
    match opt_amount {
        Some(a) => a,
        None => available,
    }
}

impl LiquidStaking {
    /// Rejects the operation unless withdrawals may choose their counterparty.
    pub fn require_open_mode(&self) -> (r: Result<(), LiquidStakingError>)
        ensures
            r is Ok <==> self.undelegation_mode == UndelegationMode::Open,
            r is Err ==> r == Err::<(), _>(LiquidStakingError::OnlyOpenUndelegationMode),
    {
        if self.undelegation_mode == UndelegationMode::Open {
            Ok(())
        } else {
            Err(LiquidStakingError::OnlyOpenUndelegationMode)
        }
    }

    /// Rejects the operation unless in open mode or called by the admin.
    pub fn require_open_mode_or_admin(&self, caller: Address) -> (r: Result<(), LiquidStakingError>)
        ensures
            r is Ok <==> self.undelegation_mode == UndelegationMode::Open || self.admin.is_admin(caller),
            r is Err ==> r == Err::<(), _>(LiquidStakingError::OnlyAdmin),
    {
        if self.undelegation_mode == UndelegationMode::Open {
            return Ok(());
        }
        self.admin.require_admin(caller)
    }

    /// Penalizes the counterparty from its delegated funds: the amount (all delegated funds when
    /// absent) moves to `pending_to_undelegate` and a penalty, not yet withdrawn, unbonds from
    /// `current_epoch + unbond_period`. Returns the penalty's identifier.
    pub fn penalty_from_undelegation(
        &mut self,
        delegation_contract: Address,
        opt_egld_amount: Option<u128>,
        current_epoch: u64,
    ) -> (r: Result<u64, LiquidStakingError>)
        requires
            old(self).wf(),
        ensures
            final(self).wf(),
            !old(self).has_record(delegation_contract) ==> r == Err::<u64, _>(
                LiquidStakingError::UnexpectedDelegationContract,
            ),
            old(self).has_record(delegation_contract) && !partial_amount_ok(
                old(self).record(delegation_contract).total_delegated,
                opt_egld_amount,
            ) ==> r is Err,
            r is Ok <==> ({
                let d = old(self).record(delegation_contract);
                &&& old(self).has_record(delegation_contract)
                &&& partial_amount_ok(d.total_delegated, opt_egld_amount)
                &&& d.pending_to_undelegate + partial_amount(d.total_delegated, opt_egld_amount) <= u128::MAX
                &&& current_epoch + old(self).unbond_period <= u64::MAX
                &&& old(self).penalties.next_penalty_id < u64::MAX
            }),
            r is Err ==> *final(self) == *old(self),
            r matches Ok(id) ==> {
                let d = old(self).record(delegation_contract);
                let a = partial_amount(d.total_delegated, opt_egld_amount);
                &&& partial_amount_ok(d.total_delegated, opt_egld_amount)
                &&& d.pending_to_undelegate + a <= u128::MAX
                &&& id == old(self).penalties.next_penalty_id
                &&& final(self).penalties.next_penalty_id == old(self).penalties.next_penalty_id + 1
                &&& final(self).contracts@ == old(self).contracts@.update(
                    old(self).record_index(delegation_contract),
                    withdraw_requested(d, a as int),
                )
                &&& final(self).penalties.penalties@ == old(self).penalties.penalties@.push(
                    Penalty {
                        id,
                        withdrawn: false,
                        attributes: UndelegateAttributes {
                            delegation_contract,
                            egld_amount: a,
                            shares: 0,
                            undelegate_epoch: current_epoch,
                            unbond_epoch: (current_epoch + old(self).unbond_period) as u64,
                        },
                    },
                )
                &&& final(self).pool == old(self).pool
            },
    {
        let i = self.require_record(delegation_contract)?;
        let d = self.contracts[i];
        let egld_amount = checked_partial_amount(d.total_delegated, opt_egld_amount)?;
        if d.pending_to_undelegate > u128::MAX - egld_amount || current_epoch > u64::MAX - self.unbond_period
            || self.penalties.next_penalty_id == u64::MAX {
            return Err(LiquidStakingError::ArithmeticOverflow);
        }
        let nd = DelegationContractData {
            total_delegated: d.total_delegated - egld_amount,
            pending_to_undelegate: d.pending_to_undelegate + egld_amount,
            ..d
        };
        self.set_record(i, nd);
        let attributes = UndelegateAttributes {
            delegation_contract,
            egld_amount,
            shares: 0,
            undelegate_epoch: current_epoch,
            unbond_epoch: current_epoch + self.unbond_period,
        };
        let id = self.penalties.add_penalty(false, attributes);
        Ok(id)
    }

    /// Penalizes the counterparty from its pending funds: the amount (all pending funds when
    /// absent) leaves `pending_to_delegate` and a penalty, already withdrawn, holds it.
    /// Returns the penalty's identifier.
    pub fn penalty_from_pending_to_delegate(
        &mut self,
        delegation_contract: Address,
        opt_egld_amount: Option<u128>,
        current_epoch: u64,
    ) -> (r: Result<u64, LiquidStakingError>)
        requires
            old(self).wf(),
        ensures
            final(self).wf(),
            !old(self).has_record(delegation_contract) ==> r == Err::<u64, _>(
                LiquidStakingError::UnexpectedDelegationContract,
            ),
            old(self).has_record(delegation_contract) && !partial_amount_ok(
                old(self).record(delegation_contract).pending_to_delegate,
                opt_egld_amount,
            ) ==> r is Err,
            r is Ok <==> (old(self).has_record(delegation_contract) && partial_amount_ok(
                old(self).record(delegation_contract).pending_to_delegate,
                opt_egld_amount,
            ) && old(self).penalties.next_penalty_id < u64::MAX),
            r is Err ==> *final(self) == *old(self),
            r matches Ok(id) ==> {
                let d = old(self).record(delegation_contract);
                let a = partial_amount(d.pending_to_delegate, opt_egld_amount);
                &&& partial_amount_ok(d.pending_to_delegate, opt_egld_amount)
                &&& id == old(self).penalties.next_penalty_id
                &&& final(self).penalties.next_penalty_id == old(self).penalties.next_penalty_id + 1
                &&& final(self).contracts@ == old(self).contracts@.update(
                    old(self).record_index(delegation_contract),
                    pending_released(d, a as int),
                )
                &&& final(self).penalties.penalties@ == old(self).penalties.penalties@.push(
                    Penalty {
                        id,
                        withdrawn: true,
                        attributes: UndelegateAttributes {
                            delegation_contract,
                            egld_amount: a,
                            shares: 0,
                            undelegate_epoch: current_epoch,
                            unbond_epoch: current_epoch,
                        },
                    },
                )
                &&& final(self).pool == old(self).pool
            },
    {
        let i = self.require_record(delegation_contract)?;
        let d = self.contracts[i];
        let egld_amount = checked_partial_amount(d.pending_to_delegate, opt_egld_amount)?;
        if self.penalties.next_penalty_id == u64::MAX {
            return Err(LiquidStakingError::ArithmeticOverflow);
        }
        let nd = DelegationContractData { pending_to_delegate: d.pending_to_delegate - egld_amount, ..d };
        self.set_record(i, nd);
        let attributes = UndelegateAttributes {
            delegation_contract,
            egld_amount,
            shares: 0,
            undelegate_epoch: current_epoch,
            unbond_epoch: current_epoch,
        };
        let id = self.penalties.add_penalty(true, attributes);
        Ok(id)
    }

    /// Penalizes a registered counterparty. From delegated funds only the admin may; from pending
    /// funds the admin may, or anyone in open mode. Returns the penalty's identifier.
    pub fn penalize(
        &mut self,
        caller: Address,
        delegation_contract: Address,
        source: PenaltySource,
        opt_egld_amount: Option<u128>,
        current_epoch: u64,
    ) -> (r: Result<u64, LiquidStakingError>)
        requires
            old(self).wf(),
        ensures
            final(self).wf(),
            !old(self).has_record(delegation_contract) ==> r == Err::<u64, _>(
                LiquidStakingError::UnexpectedDelegationContract,
            ),
            old(self).has_record(delegation_contract) && source == PenaltySource::FromUndelegate && !old(
                self,
            ).admin.is_admin(caller) ==> r == Err::<u64, _>(LiquidStakingError::OnlyAdmin),
            old(self).has_record(delegation_contract) && source == PenaltySource::FromPendingToDelegate
                && old(self).undelegation_mode != UndelegationMode::Open && !old(self).admin.is_admin(caller)
                ==> r == Err::<u64, _>(LiquidStakingError::OnlyAdmin),
            r is Ok <==> ({
                let d = old(self).record(delegation_contract);
                &&& old(self).has_record(delegation_contract)
                &&& old(self).penalties.next_penalty_id < u64::MAX
                &&& match source {
                    PenaltySource::FromUndelegate => {
                        &&& old(self).admin.is_admin(caller)
                        &&& partial_amount_ok(d.total_delegated, opt_egld_amount)
                        &&& d.pending_to_undelegate + partial_amount(d.total_delegated, opt_egld_amount) <= u128::MAX
                        &&& current_epoch + old(self).unbond_period <= u64::MAX
                    },
                    PenaltySource::FromPendingToDelegate => {
                        &&& (old(self).undelegation_mode == UndelegationMode::Open || old(self).admin.is_admin(caller))
                        &&& partial_amount_ok(d.pending_to_delegate, opt_egld_amount)
                    },
                }
            }),
            r is Err ==> *final(self) == *old(self),
            r matches Ok(id) ==> id == old(self).penalties.next_penalty_id && final(self).penalties.penalties@.len()
                == old(self).penalties.penalties@.len() + 1 && final(self).penalties.next_penalty_id == id + 1,
            r is Ok && source == PenaltySource::FromUndelegate ==> final(self).contracts@ == old(self).contracts@.update(
                old(self).record_index(delegation_contract),
                withdraw_requested(
                    old(self).record(delegation_contract),
                    partial_amount(old(self).record(delegation_contract).total_delegated, opt_egld_amount) as int,
                ),
            ),
            r is Ok && source == PenaltySource::FromPendingToDelegate ==> final(self).contracts@ == old(
                self,
            ).contracts@.update(
                old(self).record_index(delegation_contract),
                pending_released(
                    old(self).record(delegation_contract),
                    partial_amount(old(self).record(delegation_contract).pending_to_delegate, opt_egld_amount) as int,
                ),
            ),
    {
        self.require_record(delegation_contract)?;
        match source {
            PenaltySource::FromUndelegate => {
                self.admin.require_admin(caller)?;
                self.penalty_from_undelegation(delegation_contract, opt_egld_amount, current_epoch)
            },
            PenaltySource::FromPendingToDelegate => {
                self.require_open_mode_or_admin(caller)?;
                self.penalty_from_pending_to_delegate(delegation_contract, opt_egld_amount, current_epoch)
            },
        }
    }

    /// Marks a penalty withdrawn once its unbond period has passed and its funds are withdrawable
    /// at the counterparty, which gives them up.
    pub fn withdraw_penalty(&mut self, penalty_id: u64, current_epoch: u64) -> (r: Result<(), LiquidStakingError>)
        requires
            old(self).wf(),
        ensures
            final(self).wf(),
            !old(self).penalties.has_penalty(penalty_id) ==> r == Err::<(), _>(LiquidStakingError::UnexpectedPenaltyId),
            old(self).penalties.has_penalty(penalty_id) && old(self).penalties.penalty(penalty_id).withdrawn ==> r
                == Err::<(), _>(LiquidStakingError::WithdrawnPenalty),
            r is Ok <==> ({
                let p = old(self).penalties.penalty(penalty_id);
                let c = p.attributes.delegation_contract;
                &&& old(self).penalties.has_penalty(penalty_id)
                &&& !p.withdrawn
                &&& current_epoch >= p.attributes.unbond_epoch
                &&& old(self).has_record(c)
                &&& old(self).record(c).total_withdrawable >= p.attributes.egld_amount
                &&& old(self).pool.total_withdrawable >= p.attributes.egld_amount
            }),
            r is Err ==> *final(self) == *old(self),
            r is Ok ==> {
                let p = old(self).penalties.penalty(penalty_id);
                &&& !p.withdrawn
                &&& current_epoch >= p.attributes.unbond_epoch
                &&& old(self).has_record(p.attributes.delegation_contract)
                &&& final(self).contracts@ == old(self).contracts@.update(
                    old(self).record_index(p.attributes.delegation_contract),
                    crate::ledger::paid_out(
                        old(self).record(p.attributes.delegation_contract),
                        p.attributes.egld_amount as int,
                    ),
                )
                &&& final(self).penalties.has_penalty(penalty_id)
                &&& final(self).penalties.penalty(penalty_id) == (Penalty { withdrawn: true, ..p })
            },
    {
        let pos = match self.penalties.find_penalty(penalty_id) {
            Some(pos) => pos,
            None => return Err(LiquidStakingError::UnexpectedPenaltyId),
        };
        let mut penalty = self.penalties.penalties[pos];
        if penalty.withdrawn {
            return Err(LiquidStakingError::WithdrawnPenalty);
        }
        self.withdraw_internal(&penalty.attributes, current_epoch)?;
        penalty.withdrawn = true;
        let ghost before = self.penalties.penalties@;
        self.penalties.penalties.set(pos, penalty);
        proof {
            assert forall|a: int, b: int|
                0 <= a < self.penalties.penalties@.len() && 0 <= b < self.penalties.penalties@.len() && a != b
                implies #[trigger] self.penalties.penalties@[a].id != #[trigger] self.penalties.penalties@[b].id by {
                assert(before[a].id != before[b].id);
            }
            assert forall|a: int| 0 <= a < self.penalties.penalties@.len()
                implies (#[trigger] self.penalties.penalties@[a]).id < self.penalties.next_penalty_id by {
                assert(before[a].id < self.penalties.next_penalty_id);
            }
            assert(self.penalties.penalties@[pos as int].id == penalty_id);
            let k = choose|k: int| 0 <= k < self.penalties.penalties@.len() && #[trigger] self.penalties.penalties@[k].id == penalty_id;
            assert(k == pos);
        }
        Ok(())
    }

    /// Redeploys a withdrawn penalty (or `opt_egld_amount` of it) to a counterparty other than
    /// the penalized one, selected as for a deposit; the penalty shrinks accordingly and goes
    /// away once empty. Returns the counterparty. `rand` is a draw in `[0, BPS)`.
    pub fn delegate_penalty(&mut self, penalty_id: u64, opt_egld_amount: Option<u128>, rand: u128) -> (r: Result<
        Address,
        LiquidStakingError,
    >)
        requires
            old(self).wf(),
        ensures
            final(self).wf(),
            old(self).state != State::Active ==> r == Err::<Address, _>(LiquidStakingError::Inactive),
            old(self).state == State::Active && !old(self).penalties.has_penalty(penalty_id) ==> r == Err::<
                Address,
                _,
            >(LiquidStakingError::UnexpectedPenaltyId),
            old(self).state == State::Active && old(self).penalties.has_penalty(penalty_id) && !old(
                self,
            ).penalties.penalty(penalty_id).withdrawn ==> r == Err::<Address, _>(LiquidStakingError::WithdrawFirst),
            ({
                let p = old(self).penalties.penalty(penalty_id);
                let a = partial_amount(p.attributes.egld_amount, opt_egld_amount);
                (old(self).state == State::Active && old(self).penalties.has_penalty(penalty_id) && p.withdrawn
                    && partial_amount_ok(p.attributes.egld_amount, opt_egld_amount) && old(self).any_for_delegate(
                    a as int,
                    Some(p.attributes.delegation_contract),
                ) && (forall|i: int|
                    0 <= i < old(self).contracts@.len() ==> #[trigger] old(self).contracts@[i].pending_to_delegate + a
                        <= u128::MAX)) ==> r is Ok
            }),
            r is Err ==> *final(self) == *old(self),
            r matches Ok(c) ==> {
                let p = old(self).penalties.penalty(penalty_id);
                let a = partial_amount(p.attributes.egld_amount, opt_egld_amount);
                &&& p.withdrawn
                &&& partial_amount_ok(p.attributes.egld_amount, opt_egld_amount)
                &&& old(self).is_delegate_choice(c, a as int, Some(p.attributes.delegation_contract), rand as int)
                &&& c != p.attributes.delegation_contract
                &&& old(self).has_record(c)
                &&& old(self).record(c).pending_to_delegate + a <= u128::MAX
                &&& final(self).contracts@ == old(self).contracts@.update(
                    old(self).record_index(c),
                    deposited(old(self).record(c), a as int),
                )
                &&& (a == p.attributes.egld_amount) == !final(self).penalties.has_penalty(penalty_id)
                &&& final(self).penalties.has_penalty(penalty_id) ==> final(self).penalties.penalty(penalty_id)
                    == (Penalty {
                    attributes: UndelegateAttributes {
                        egld_amount: (p.attributes.egld_amount - a) as u128,
                        ..p.attributes
                    },
                    ..p
                })
                &&& final(self).pool == old(self).pool
            },
    {
        self.require_active_state()?;
        let pos = match self.penalties.find_penalty(penalty_id) {
            Some(pos) => pos,
            None => return Err(LiquidStakingError::UnexpectedPenaltyId),
        };
        let penalty = self.penalties.penalties[pos];
        if !penalty.withdrawn {
            return Err(LiquidStakingError::WithdrawFirst);
        }
        let egld_amount = checked_partial_amount(penalty.attributes.egld_amount, opt_egld_amount)?;
        let skip = penalty.attributes.delegation_contract;
        let contract = self.get_delegation_contract_for_delegate(egld_amount, Some(skip), rand)?;
        let i = self.require_record(contract)?;
        proof {
            let q = choose|q: int|
                0 <= q < self.delegation_contracts_list.view().len()
                    && #[trigger] self.delegation_contracts_list.view()[q].contract == contract
                    && self.list_record(q).contract == contract && !self.list_record(q).blacklisted
                    && crate::selection::valid_for_delegate(self.list_record(q), egld_amount as int, Some(skip), self.delegation_sampling_model);
        }
        let d = self.contracts[i];
        if d.pending_to_delegate > u128::MAX - egld_amount {
            return Err(LiquidStakingError::ArithmeticOverflow);
        }
        let nd = DelegationContractData { pending_to_delegate: d.pending_to_delegate + egld_amount, ..d };
        self.set_record(i, nd);
        let ghost table = self.penalties;
        self.penalties.reduce_penalty(pos, egld_amount);
        proof {
            let rest = (penalty.attributes.egld_amount - egld_amount) as u128;
            let np = Penalty { attributes: UndelegateAttributes { egld_amount: rest, ..penalty.attributes }, ..penalty };
            if rest == 0 {
                assert forall|k: int| 0 <= k < self.penalties.penalties@.len()
                    implies #[trigger] self.penalties.penalties@[k].id != penalty_id by {
                    let k0 = if k < pos { k } else { k + 1 };
                    assert(table.penalties@[k0].id != table.penalties@[pos as int].id);
                }
            } else {
                assert(self.penalties.penalties@[pos as int] == np);
                let k = choose|k: int| 0 <= k < self.penalties.penalties@.len() && #[trigger] self.penalties.penalties@[k].id == penalty_id;
                assert(self.penalties.penalties@[k].id == table.penalties@[k].id || k == pos);
                if k != pos {
                    assert(table.penalties@[k].id != table.penalties@[pos as int].id);
                }
            }
        }
        Ok(contract)
    }

    /// In open mode, redeems `shares` directly against a withdrawn penalty at the current rate:
    /// the penalty shrinks by the amount (and goes away once empty), the shares are burned, and
    /// the amount is returned to be paid to the holder. It may not exceed the penalty or leave dust.
    pub fn withdraw_from_penalty(&mut self, penalty_id: u64, shares: u128) -> (r: Result<u128, LiquidStakingError>)
        requires
            old(self).wf(),
        ensures
            final(self).wf(),
            old(self).undelegation_mode != UndelegationMode::Open ==> r == Err::<u128, _>(
                LiquidStakingError::OnlyOpenUndelegationMode,
            ),
            old(self).undelegation_mode == UndelegationMode::Open && !old(self).penalties.has_penalty(penalty_id)
                ==> r == Err::<u128, _>(LiquidStakingError::UnexpectedPenaltyId),
            ({
                let p = old(self).penalties.penalty(penalty_id);
                let rate = rate_of(old(self).pool);
                let a = shares_to_egld_spec(shares as int, rate);
                (old(self).undelegation_mode == UndelegationMode::Open && old(self).penalties.has_penalty(penalty_id)
                    && shares > 0 && p.withdrawn && rate <= u128::MAX && a <= p.attributes.egld_amount && no_dust_spec(
                    p.attributes.egld_amount - a,
                ) && a <= old(self).pool.cash_reserve && shares <= old(self).pool.ls_token_supply) ==> r is Ok
            }),
            r is Err ==> *final(self) == *old(self),
            r matches Ok(a) ==> {
                let p = old(self).penalties.penalty(penalty_id);
                &&& shares > 0
                &&& p.withdrawn
                &&& a == shares_to_egld_spec(shares as int, rate_of(old(self).pool))
                &&& a <= p.attributes.egld_amount
                &&& no_dust_spec(p.attributes.egld_amount - a)
                &&& final(self).pool == redeemed(old(self).pool, a as int, shares as int)
                &&& final(self).contracts == old(self).contracts
                &&& (a == p.attributes.egld_amount) == !final(self).penalties.has_penalty(penalty_id)
            },
    {
        self.require_open_mode()?;
        let pos = match self.penalties.find_penalty(penalty_id) {
            Some(pos) => pos,
            None => return Err(LiquidStakingError::UnexpectedPenaltyId),
        };
        if shares == 0 {
            return Err(LiquidStakingError::InsufficientShares);
        }
        let penalty = self.penalties.penalties[pos];
        if !penalty.withdrawn {
            return Err(LiquidStakingError::WithdrawFirst);
        }
        let egld_amount = self.pool.shares_to_egld(shares)?;
        if egld_amount > penalty.attributes.egld_amount {
            return Err(LiquidStakingError::TooMuchEgldAmount);
        }
        crate::common::require_no_dust_left(penalty.attributes.egld_amount - egld_amount)?;
        if egld_amount > self.pool.cash_reserve || shares > self.pool.ls_token_supply {
            return Err(LiquidStakingError::ArithmeticOverflow);
        }
        let ghost table = self.penalties;
        self.penalties.reduce_penalty(pos, egld_amount);
        self.pool.redeem_shares(egld_amount, shares);
        proof {
            let rest = (penalty.attributes.egld_amount - egld_amount) as u128;
            if rest == 0 {
                assert forall|k: int| 0 <= k < self.penalties.penalties@.len()
                    implies #[trigger] self.penalties.penalties@[k].id != penalty_id by {
                    let k0 = if k < pos { k } else { k + 1 };
                    assert(table.penalties@[k0].id != table.penalties@[pos as int].id);
                }
            } else {
                assert(self.penalties.penalties@[pos as int].id == penalty_id);
            }
        }
        Ok(egld_amount)
    }
}

} // verus!
