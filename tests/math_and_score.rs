use liquid_staking::common::{require_no_dust_left, require_sufficient_egld, CommonModule};
use liquid_staking::constants::{BPS, INITIAL_EXCHANGE_RATE, MIN_DELEGATION_AMOUNT, WAD};
use liquid_staking::errors::LiquidStakingError;
use liquid_staking::math::{mul_div, norm_linear_clamp};
use liquid_staking::model::{DelegationScoreMethod, DelegationScoreModel};
use liquid_staking::score::{compute_apr_score, compute_tvl_score};

#[test]
fn mul_div_small_values() {
    assert_eq!(mul_div(7, 3, 2), Some(10));
    assert_eq!(mul_div(0, 3, 2), Some(0));
    assert_eq!(mul_div(10, 10, 1), Some(100));
}

#[test]
fn mul_div_wide_intermediate() {
    assert_eq!(mul_div(u128::MAX, 2, 4), Some(u128::MAX / 2));
    assert_eq!(mul_div(u128::MAX, u128::MAX, u128::MAX), Some(u128::MAX));
    let cash: u128 = 5_000_000 * WAD;
    assert_eq!(mul_div(cash, WAD, cash), Some(WAD));
}

#[test]
fn mul_div_overflowing_quotient() {
    assert_eq!(mul_div(u128::MAX, 2, 1), None);
    assert_eq!(mul_div(u128::MAX, u128::MAX, 2), None);
}

#[test]
fn clamp_linear_both_directions() {
    assert_eq!(norm_linear_clamp(5, 0, 10, false), 5000);
    assert_eq!(norm_linear_clamp(2, 0, 10, false), 2000);
    assert_eq!(norm_linear_clamp(2, 0, 10, true), 8000);
    assert_eq!(norm_linear_clamp(0, 0, 10, false), 0);
    assert_eq!(norm_linear_clamp(0, 0, 10, true), BPS);
    assert_eq!(norm_linear_clamp(20, 0, 10, false), BPS);
    assert_eq!(norm_linear_clamp(20, 0, 10, true), 0);
}

#[test]
fn sub_scores_have_their_directions() {
    assert_eq!(compute_tvl_score(100, 100, 200), BPS);
    assert_eq!(compute_tvl_score(150, 100, 200), 5000);
    assert_eq!(compute_tvl_score(300, 100, 200), 0);
    assert_eq!(compute_apr_score(100, 100, 200), 0);
    assert_eq!(compute_apr_score(175, 100, 200), 7500);
    assert_eq!(compute_apr_score(300, 100, 200), BPS);
}

#[test]
fn blended_score_truncates() {
    let model = DelegationScoreModel {
        method: DelegationScoreMethod::Mixed,
        min_tvl: 0,
        max_tvl: 1000,
        min_apr: 0,
        max_apr: 1000,
        omega: 3333,
    };
    // tvl score 7500, apr score 5000: (3333 * 7500 + 6667 * 5000) / 10000 = 5833.25
    assert_eq!(model.compute_delegation_score_internal(250, 500), 5833);
}

#[test]
fn score_is_monotonic_and_bounded() {
    let model = DelegationScoreModel {
        method: DelegationScoreMethod::Mixed,
        min_tvl: 1_000,
        max_tvl: 9_000,
        min_apr: 100,
        max_apr: 1_500,
        omega: 6_000,
    };
    let mut previous = u128::MAX;
    for tvl in [0u128, 1_000, 2_500, 5_000, 8_999, 9_000, 50_000] {
        let s = model.compute_delegation_score_internal(tvl, 700);
        assert!(s <= BPS);
        assert!(s <= previous);
        previous = s;
    }
    let mut previous = 0u128;
    for apr in [0u128, 100, 300, 900, 1_499, 1_500, 9_000] {
        let s = model.compute_delegation_score_internal(4_000, apr);
        assert!(s <= BPS);
        assert!(s >= previous);
        previous = s;
    }
}

#[test]
fn value_only_and_yield_only_scores() {
    let tvl = DelegationScoreModel {
        method: DelegationScoreMethod::Tvl,
        min_tvl: 0,
        max_tvl: 100,
        min_apr: 0,
        max_apr: 0,
        omega: BPS,
    };
    assert_eq!(tvl.compute_delegation_score_internal(25, 999), 7500);
    let apr = DelegationScoreModel {
        method: DelegationScoreMethod::Apr,
        min_tvl: 0,
        max_tvl: 0,
        min_apr: 0,
        max_apr: 10_000,
        omega: 0,
    };
    assert_eq!(apr.compute_delegation_score_internal(999, 8_950), 8_950);
}

#[test]
fn amount_checks() {
    assert_eq!(require_sufficient_egld(MIN_DELEGATION_AMOUNT), Ok(()));
    assert_eq!(
        require_sufficient_egld(MIN_DELEGATION_AMOUNT - 1),
        Err(LiquidStakingError::InsufficientEgldAmount)
    );
    assert_eq!(require_no_dust_left(0), Ok(()));
    assert_eq!(require_no_dust_left(MIN_DELEGATION_AMOUNT), Ok(()));
    assert_eq!(
        require_no_dust_left(MIN_DELEGATION_AMOUNT - 1),
        Err(LiquidStakingError::WouldLeaveDust)
    );
}

#[test]
fn empty_pool_mints_at_initial_rate() {
    let mut pool = CommonModule::new();
    assert_eq!(pool.get_exchange_rate(), Ok(INITIAL_EXCHANGE_RATE));
    assert_eq!(pool.mint_shares(WAD), Ok(WAD));
    assert_eq!(pool.get_exchange_rate(), Ok(INITIAL_EXCHANGE_RATE));
    assert_eq!(pool.cash_reserve, WAD);
    assert_eq!(pool.ls_token_supply, WAD);
}

#[test]
fn exchange_rate_follows_cash() {
    let mut pool = CommonModule::new();
    pool.cash_reserve = 3 * WAD;
    pool.ls_token_supply = 2 * WAD;
    assert_eq!(pool.get_exchange_rate(), Ok(1_500_000_000_000_000_000));
    assert_eq!(pool.egld_to_shares(3 * WAD), Ok(2 * WAD));
    assert_eq!(pool.shares_to_egld(2 * WAD), Ok(3 * WAD));
}

#[test]
fn mint_then_redeem_restores_pool() {
    let mut pool = CommonModule::new();
    pool.cash_reserve = 7 * WAD + 3;
    pool.ls_token_supply = 5 * WAD + 1;
    let before = pool;
    let rate = pool.get_exchange_rate().unwrap();
    let shares = pool.mint_shares(2 * WAD).unwrap();
    pool.redeem_shares(2 * WAD, shares);
    assert_eq!(pool, before);
    assert_eq!(pool.get_exchange_rate(), Ok(rate));
}

#[test]
fn zero_share_mint_is_rejected() {
    let mut pool = CommonModule::new();
    pool.cash_reserve = 10 * WAD;
    pool.ls_token_supply = 1;
    let before = pool;
    assert_eq!(pool.mint_shares(1), Err(LiquidStakingError::InsufficientShares));
    assert_eq!(pool, before);
}

#[test]
fn exchange_rate_out_of_range_is_an_error() {
    let mut pool = CommonModule::new();
    pool.cash_reserve = u128::MAX;
    pool.ls_token_supply = 1;
    assert_eq!(pool.get_exchange_rate(), Err(LiquidStakingError::ArithmeticOverflow));
    assert_eq!(pool.mint_shares(WAD), Err(LiquidStakingError::ArithmeticOverflow));
    pool.cash_reserve = 0;
    pool.ls_token_supply = WAD;
    assert_eq!(pool.get_exchange_rate(), Ok(0));
    assert_eq!(pool.egld_to_shares(WAD), Err(LiquidStakingError::ArithmeticOverflow));
    assert_eq!(pool.shares_to_egld(WAD), Ok(0));
}
