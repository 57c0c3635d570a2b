use vstd::prelude::*;
use crate::model::DelegationContractData;

verus! {

/// Funds assigned to the counterparty: `pending_to_delegate` grows.
pub open spec fn deposited(d: DelegationContractData, a: int) -> DelegationContractData {
    DelegationContractData { pending_to_delegate: (d.pending_to_delegate + a) as u128, ..d }
}

/// A deposit flush is dispatched: its amount is carved out of `pending_to_delegate`.
pub open spec fn deposit_dispatched(d: DelegationContractData, a: int) -> DelegationContractData {
    DelegationContractData { pending_to_delegate: (d.pending_to_delegate - a) as u128, ..d }
}

/// A deposit flush completes: on success the amount is delegated; on failure it goes back to
/// `pending_to_delegate` and the counterparty is marked outdated.
pub open spec fn deposit_completed(d: DelegationContractData, a: int, ok: bool) -> DelegationContractData {
    if ok {
        DelegationContractData { total_delegated: (d.total_delegated + a) as u128, ..d }
    } else {
        DelegationContractData {
            pending_to_delegate: (d.pending_to_delegate + a) as u128,
            outdated: true,
            ..d
        }
    }
}

/// A withdrawal is requested: the amount moves from `total_delegated` to `pending_to_undelegate`.
pub open spec fn withdraw_requested(d: DelegationContractData, a: int) -> DelegationContractData {
    DelegationContractData {
        total_delegated: (d.total_delegated - a) as u128,
        pending_to_undelegate: (d.pending_to_undelegate + a) as u128,
        ..d
    }
}

/// A withdrawal flush is dispatched: all of `pending_to_undelegate` is carved out.
pub open spec fn withdraw_dispatched(d: DelegationContractData) -> DelegationContractData {
    DelegationContractData { pending_to_undelegate: 0, ..d }
}

/// A withdrawal flush completes: on success the amount is unbonding; on failure it goes back
/// to `pending_to_undelegate` and the counterparty is marked outdated.
pub open spec fn withdraw_completed(d: DelegationContractData, a: int, ok: bool) -> DelegationContractData {
    if ok {
        DelegationContractData { total_undelegated: (d.total_undelegated + a) as u128, ..d }
    } else {
        DelegationContractData {
            pending_to_undelegate: (d.pending_to_undelegate + a) as u128,
            outdated: true,
            ..d
        }
    }
}

/// A claim of matured funds completes: on success the `w` received move from
/// `total_undelegated` to `total_withdrawable`; on failure the counterparty is marked outdated.
pub open spec fn matured_claimed(d: DelegationContractData, w: int, ok: bool) -> DelegationContractData {
    if ok {
        DelegationContractData {
            total_undelegated: (d.total_undelegated - w) as u128,
            total_withdrawable: (d.total_withdrawable + w) as u128,
            ..d
        }
    } else {
        marked_outdated(d)
    }
}

/// An asynchronous call to the counterparty failed: it is marked outdated.
pub open spec fn marked_outdated(d: DelegationContractData) -> DelegationContractData {
    DelegationContractData { outdated: true, ..d }
}

/// Withdrawable funds are paid out.
pub open spec fn paid_out(d: DelegationContractData, a: int) -> DelegationContractData {
    DelegationContractData { total_withdrawable: (d.total_withdrawable - a) as u128, ..d }
}

/// Pending funds are taken away by a penalty.
pub open spec fn pending_released(d: DelegationContractData, a: int) -> DelegationContractData {
    DelegationContractData { pending_to_delegate: (d.pending_to_delegate - a) as u128, ..d }
}

/// Rewards delegated directly complete: on success they are delegated; on failure the
/// counterparty is marked outdated.
pub open spec fn rewards_completed(d: DelegationContractData, a: int, ok: bool) -> DelegationContractData {
    if ok {
        DelegationContractData { total_delegated: (d.total_delegated + a) as u128, ..d }
    } else {
        DelegationContractData { outdated: true, ..d }
    }
}

/// One operation on a counterparty's ledger; an asynchronous one together with its completion.
#[derive(Clone, Copy, Debug, PartialEq, Eq, Structural)]
pub enum LedgerStep {
    Deposit(u128),
    FlushDeposit(u128, bool),
    RequestWithdraw(u128),
    FlushWithdraw(bool),
    ClaimMatured(u128, bool),
    PayOut(u128),
    ReleasePending(u128),
    DelegateRewards(u128, bool),
}

/// The step fits the record: nothing underflows or overflows.
pub open spec fn step_ok(d: DelegationContractData, s: LedgerStep) -> bool {
    match s {
        LedgerStep::Deposit(a) => d.pending_to_delegate + a <= u128::MAX,
        LedgerStep::FlushDeposit(a, ok) => a <= d.pending_to_delegate && (ok ==> d.total_delegated + a
            <= u128::MAX),
        LedgerStep::RequestWithdraw(a) => a <= d.total_delegated && d.pending_to_undelegate + a
            <= u128::MAX,
        LedgerStep::FlushWithdraw(ok) => ok ==> d.total_undelegated + d.pending_to_undelegate
            <= u128::MAX,
        LedgerStep::ClaimMatured(w, ok) => ok ==> w <= d.total_undelegated && d.total_withdrawable + w
            <= u128::MAX,
        LedgerStep::PayOut(a) => a <= d.total_withdrawable,
        LedgerStep::ReleasePending(a) => a <= d.pending_to_delegate,
        LedgerStep::DelegateRewards(a, ok) => ok ==> d.total_delegated + a <= u128::MAX,
    }
}

/// The record after the step.
pub open spec fn apply_step(d: DelegationContractData, s: LedgerStep) -> DelegationContractData {
    match s {
        LedgerStep::Deposit(a) => deposited(d, a as int),
        LedgerStep::FlushDeposit(a, ok) => deposit_completed(deposit_dispatched(d, a as int), a as int, ok),
        LedgerStep::RequestWithdraw(a) => withdraw_requested(d, a as int),
        LedgerStep::FlushWithdraw(ok) => withdraw_completed(
            withdraw_dispatched(d),
            d.pending_to_undelegate as int,
            ok,
        ),
        LedgerStep::ClaimMatured(w, ok) => matured_claimed(d, w as int, ok),
        LedgerStep::PayOut(a) => paid_out(d, a as int),
        LedgerStep::ReleasePending(a) => pending_released(d, a as int),
        LedgerStep::DelegateRewards(a, ok) => rewards_completed(d, a as int, ok),
    }
}

/// Funds the step brings to the counterparty.
pub open spec fn step_inflow(s: LedgerStep) -> int {
    match s {
        LedgerStep::Deposit(a) => a as int,
        LedgerStep::DelegateRewards(a, ok) => if ok {
            a as int
        } else {
            0
        },
        _ => 0,
    }
}

/// Funds the step takes away from the counterparty: paid out to users or taken by a penalty.
pub open spec fn step_outflow(s: LedgerStep) -> int {
    match s {
        LedgerStep::PayOut(a) => a as int,
        LedgerStep::ReleasePending(a) => a as int,
        _ => 0,
    }
}

/// Every step of the run fits the record it applies to.
pub open spec fn run_ok(d: DelegationContractData, steps: Seq<LedgerStep>) -> bool
    decreases steps.len(),
{
    steps.len() == 0 || (step_ok(d, steps[0]) && run_ok(apply_step(d, steps[0]), steps.drop_first()))
}

/// The record after the whole run.
pub open spec fn run(d: DelegationContractData, steps: Seq<LedgerStep>) -> DelegationContractData
    decreases steps.len(),
{
    if steps.len() == 0 {
        d
    } else {
        run(apply_step(d, steps[0]), steps.drop_first())
    }
}

/// All funds the run brought to the counterparty.
pub open spec fn total_inflow(steps: Seq<LedgerStep>) -> int
    decreases steps.len(),
{
    if steps.len() == 0 {
        0
    } else {
        step_inflow(steps[0]) + total_inflow(steps.drop_first())
    }
}

/// All funds the run took away from the counterparty.
pub open spec fn total_outflow(steps: Seq<LedgerStep>) -> int
    decreases steps.len(),
{
    if steps.len() == 0 {
        0
    } else {
        step_outflow(steps[0]) + total_outflow(steps.drop_first())
    }
}

/// Conservation: after any run of operations, each asynchronous one completed successfully or
/// not, the five phase counters plus what was paid out equal what was there plus what came in.
pub proof fn lemma_conservation(d: DelegationContractData, steps: Seq<LedgerStep>)
    requires
        run_ok(d, steps),
    ensures
        run(d, steps).held() + total_outflow(steps) == d.held() + total_inflow(steps),
    decreases steps.len(),
{
    if steps.len() > 0 {
        lemma_conservation(apply_step(d, steps[0]), steps.drop_first());
    }
}

} // verus!
