use vstd::prelude::*;
use crate::constants::{INITIAL_EXCHANGE_RATE, MIN_DELEGATION_AMOUNT, WAD};
use crate::errors::LiquidStakingError;
use crate::math::mul_div;

verus! {

/// The pool-wide accounting: shares outstanding, the base asset backing them, and the reserves.
#[derive(Clone, Copy, Debug, PartialEq, Eq)]
pub struct CommonModule {
    /// The shares outstanding.
    pub ls_token_supply: u128,
    /// The base asset backing the shares.
    pub cash_reserve: u128,
    /// Rewards claimed and not yet delegated.
    pub rewards_reserve: u128,
    /// The protocol's own share of the rewards.
    pub protocol_reserve: u128,
    /// Funds undelegated from all counterparties and still unbonding.
    pub total_undelegated: u128,
    /// Funds brought back from all counterparties and ready to be paid out.
    pub total_withdrawable: u128,
}

/// The exchange rate, in WAD, of a pool with `cash` backing `shares`.
pub open spec fn exchange_rate_spec(cash: int, shares: int) -> int {
    if shares == 0 {
        INITIAL_EXCHANGE_RATE as int
    } else {
        cash * (WAD as int) / shares
    }
}

/// The shares that `amount` of the base asset buys at `rate`.
pub open spec fn egld_to_shares_spec(amount: int, rate: int) -> int {
    amount * (WAD as int) / rate
}

/// The base asset that `shares` are worth at `rate`.
pub open spec fn shares_to_egld_spec(shares: int, rate: int) -> int {
    rate * shares / (WAD as int)
}

/// An amount that may be left behind: nothing, or at least the minimum operable amount.
pub open spec fn no_dust_spec(amount: int) -> bool {
    amount == 0 || amount >= MIN_DELEGATION_AMOUNT
}

/// Rejects an amount below the minimum operable amount.
pub fn require_sufficient_egld(egld_amount: u128) -> (r: Result<(), LiquidStakingError>)
    ensures
        r is Ok <==> egld_amount >= MIN_DELEGATION_AMOUNT,
        r is Err ==> r == Err::<(), _>(LiquidStakingError::InsufficientEgldAmount),
{
    if egld_amount >= MIN_DELEGATION_AMOUNT {
        Ok(())
    } else {
        Err(LiquidStakingError::InsufficientEgldAmount)
    }
}

/// Rejects a remainder that would be dust: neither zero nor the minimum operable amount.
pub fn require_no_dust_left(egld_amount: u128) -> (r: Result<(), LiquidStakingError>)
    ensures
        r is Ok <==> no_dust_spec(egld_amount as int),
        r is Err ==> r == Err::<(), _>(LiquidStakingError::WouldLeaveDust),
{
    if egld_amount == 0 || egld_amount >= MIN_DELEGATION_AMOUNT {
        Ok(())
    } else {
        Err(LiquidStakingError::WouldLeaveDust)
    }
}

/// Checks an optional partial amount taken out of `available`: it must be at least the minimum,
/// at most `available`, and leave no dust. Without an amount, all of `available` is taken.
pub fn checked_partial_amount(available: u128, opt_amount: Option<u128>) -> (r: Result<
    u128,
    LiquidStakingError,
>)
    ensures
        opt_amount is None ==> r == Ok::<u128, LiquidStakingError>(available),
        opt_amount matches Some(a) ==> {
            &&& a < MIN_DELEGATION_AMOUNT ==> r == Err::<u128, _>(
                LiquidStakingError::InsufficientEgldAmount,
            )
            &&& a >= MIN_DELEGATION_AMOUNT && a > available ==> r == Err::<u128, _>(
                LiquidStakingError::TooMuchEgldAmount,
            )
            &&& a >= MIN_DELEGATION_AMOUNT && a <= available && !no_dust_spec(available - a)
                ==> r == Err::<u128, _>(LiquidStakingError::WouldLeaveDust)
            &&& a >= MIN_DELEGATION_AMOUNT && a <= available && no_dust_spec(available - a)
                ==> r == Ok::<u128, LiquidStakingError>(a)
        },
{
    match opt_amount {
        None => Ok(available),
        Some(amount) => {
            require_sufficient_egld(amount)?;
            if amount > available {
                return Err(LiquidStakingError::TooMuchEgldAmount);
            }
            require_no_dust_left(available - amount)?;
            Ok(amount)
        },
    }
}

impl CommonModule {
    /// A pool with nothing in it.
    pub fn new() -> (r: CommonModule)
        ensures
            r.ls_token_supply == 0,
            r.cash_reserve == 0,
            r.rewards_reserve == 0,
            r.protocol_reserve == 0,
            r.total_undelegated == 0,
            r.total_withdrawable == 0,
    {
        CommonModule {
            ls_token_supply: 0,
            cash_reserve: 0,
            rewards_reserve: 0,
            protocol_reserve: 0,
            total_undelegated: 0,
            total_withdrawable: 0,
        }
    }

    /// The current exchange rate in WAD: the initial rate while no shares are outstanding, else
    /// `cash * WAD / shares`. Fails only when that quotient does not fit.
    pub fn get_exchange_rate(&self) -> (r: Result<u128, LiquidStakingError>)
        ensures
            r matches Ok(v) ==> v == exchange_rate_spec(
                self.cash_reserve as int,
                self.ls_token_supply as int,
            ),
            r is Err <==> exchange_rate_spec(self.cash_reserve as int, self.ls_token_supply as int)
                > u128::MAX,
            r is Err ==> r == Err::<u128, _>(LiquidStakingError::ArithmeticOverflow),
    {
        if self.ls_token_supply == 0 {
            return Ok(INITIAL_EXCHANGE_RATE);
        }
        match mul_div(self.cash_reserve, WAD, self.ls_token_supply) {
            Some(v) => Ok(v),
            None => Err(LiquidStakingError::ArithmeticOverflow),
        }
    }

    /// Translates an amount of the base asset into shares at the current rate. Fails when the
    /// rate is zero or a quotient does not fit.
    pub fn egld_to_shares(&self, egld_amount: u128) -> (r: Result<u128, LiquidStakingError>)
        ensures
            ({
                let rate = exchange_rate_spec(self.cash_reserve as int, self.ls_token_supply as int);
                &&& r is Ok <==> (rate <= u128::MAX && rate > 0 && egld_to_shares_spec(
                    egld_amount as int,
                    rate,
                ) <= u128::MAX)
                &&& r matches Ok(v) ==> v == egld_to_shares_spec(egld_amount as int, rate)
            }),
    {
        let fx = self.get_exchange_rate()?;
        if fx == 0 {
            return Err(LiquidStakingError::ArithmeticOverflow);
        }
        match mul_div(egld_amount, WAD, fx) {
            Some(v) => Ok(v),
            None => Err(LiquidStakingError::ArithmeticOverflow),
        }
    }

    /// Translates an amount of shares into the base asset at the current rate.
    pub fn shares_to_egld(&self, shares: u128) -> (r: Result<u128, LiquidStakingError>)
        ensures
            ({
                let rate = exchange_rate_spec(self.cash_reserve as int, self.ls_token_supply as int);
                &&& r is Ok <==> (rate <= u128::MAX && shares_to_egld_spec(shares as int, rate)
                    <= u128::MAX)
                &&& r matches Ok(v) ==> v == shares_to_egld_spec(shares as int, rate)
            }),
    {
        let fx = self.get_exchange_rate()?;
        match mul_div(fx, shares, WAD) {
            Some(v) => Ok(v),
            None => Err(LiquidStakingError::ArithmeticOverflow),
        }
    }

    /// Mints shares for `egld_amount` at the current rate: `cash` grows by the amount and the
    /// supply by the shares, together. Zero-share mints are rejected; nothing changes on error.
    pub fn mint_shares(&mut self, egld_amount: u128) -> (r: Result<u128, LiquidStakingError>)
        ensures
            r is Ok <==> mint_ok(*old(self), egld_amount as int),
            r matches Ok(s) ==> s == shares_for(*old(self), egld_amount as int) && *final(self)
                == minted(*old(self), egld_amount as int),
            r is Err ==> *final(self) == *old(self),
            rate_of(*old(self)) <= u128::MAX && rate_of(*old(self)) > 0 && shares_for(
                *old(self),
                egld_amount as int,
            ) == 0 ==> r == Err::<u128, _>(LiquidStakingError::InsufficientShares),
    {
        let shares = self.egld_to_shares(egld_amount)?;
        if shares == 0 {
            return Err(LiquidStakingError::InsufficientShares);
        }
        if egld_amount > u128::MAX - self.cash_reserve || shares > u128::MAX - self.ls_token_supply {
            return Err(LiquidStakingError::ArithmeticOverflow);
        }
        self.cash_reserve = self.cash_reserve + egld_amount;
        self.ls_token_supply = self.ls_token_supply + shares;
        Ok(shares)
    }

    /// Burns `shares` redeemed for `egld_amount`: both counters shrink together.
    pub fn redeem_shares(&mut self, egld_amount: u128, shares: u128)
        requires
            egld_amount <= old(self).cash_reserve,
            shares <= old(self).ls_token_supply,
        ensures
            *final(self) == redeemed(*old(self), egld_amount as int, shares as int),
    {
        self.cash_reserve = self.cash_reserve - egld_amount;
        self.ls_token_supply = self.ls_token_supply - shares;
    }
}

/// The exchange rate of the pool.
pub open spec fn rate_of(p: CommonModule) -> int {
    exchange_rate_spec(p.cash_reserve as int, p.ls_token_supply as int)
}

/// The shares that `a` of the base asset buys from the pool.
pub open spec fn shares_for(p: CommonModule, a: int) -> int {
    egld_to_shares_spec(a, rate_of(p))
}

/// Minting for `a` succeeds: the rate is defined, the shares are not zero, and nothing overflows.
pub open spec fn mint_ok(p: CommonModule, a: int) -> bool {
    &&& 0 < rate_of(p) <= u128::MAX
    &&& 0 < shares_for(p, a)
    &&& shares_for(p, a) + p.ls_token_supply <= u128::MAX
    &&& a + p.cash_reserve <= u128::MAX
}

/// The pool after minting for `a`.
pub open spec fn minted(p: CommonModule, a: int) -> CommonModule {
    CommonModule {
        cash_reserve: (p.cash_reserve + a) as u128,
        ls_token_supply: (p.ls_token_supply + shares_for(p, a)) as u128,
        ..p
    }
}

/// The pool after redeeming `shares` for `a`.
pub open spec fn redeemed(p: CommonModule, a: int, shares: int) -> CommonModule {
    CommonModule {
        cash_reserve: (p.cash_reserve - a) as u128,
        ls_token_supply: (p.ls_token_supply - shares) as u128,
        ..p
    }
}

/// Minting shares for an amount and then redeeming those shares for the same amount returns
/// the pool, and so its exchange rate, to where it was.
pub proof fn lemma_mint_redeem_round_trip(p: CommonModule, egld_amount: u128)
    requires
        mint_ok(p, egld_amount as int),
    ensures
        redeemed(minted(p, egld_amount as int), egld_amount as int, shares_for(p, egld_amount as int))
            == p,
        rate_of(
            redeemed(minted(p, egld_amount as int), egld_amount as int, shares_for(p, egld_amount as int)),
        ) == rate_of(p),
{
    let q = redeemed(minted(p, egld_amount as int), egld_amount as int, shares_for(p, egld_amount as int));
    assert(q.cash_reserve == p.cash_reserve);
    assert(q.ls_token_supply == p.ls_token_supply);
}

} // verus!
