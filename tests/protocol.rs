use liquid_staking::admin::AdminModule;
use liquid_staking::constants::{BPS, INITIAL_EXCHANGE_RATE, MIN_DELEGATION_AMOUNT, WAD};
use liquid_staking::contract::LiquidStaking;
use liquid_staking::errors::LiquidStakingError;
use liquid_staking::model::{
    DelegationCandidate, DelegationContractData, DelegationScoreMethod, PenaltySource, SamplingModel, State,
    UndelegationMode,
};
use liquid_staking::proxies::DelegationCall;
use liquid_staking::rewards::split_rewards;
use liquid_staking::selection::{
    compute_delegate_weight, compute_undelegate_weight, get_max_cutoff_score, get_min_cutoff_score,
    is_valid_delegation_contract, is_valid_undelegation_contract, weighted_sample,
};

const ADMIN: u64 = 1;
const USER: u64 = 77;
const MANAGER: u64 = 2;

fn setup() -> LiquidStaking {
    let mut ls = LiquidStaking::init(ADMIN, 0, 10, None).unwrap();
    ls.set_delegation_score_model_params(ADMIN, DelegationScoreMethod::Apr, 0, 0, 0, 10_000, false, None)
        .unwrap();
    ls.set_total_fee(ADMIN, 1_500).unwrap();
    ls.set_data_manager(ADMIN, MANAGER).unwrap();
    ls.set_state_active(ADMIN).unwrap();
    ls
}

// With the yield-only model over [0, 10000] a counterparty's score equals its yield.
fn add(ls: &mut LiquidStaking, contract: u64, score: u128, fee: u128, cap: Option<u128>) {
    ls.whitelist_delegation_contract(ADMIN, contract, 0, 1, score, fee, cap).unwrap();
}

fn record(ls: &LiquidStaking, contract: u64) -> DelegationContractData {
    ls.delegation_contract_data(contract).unwrap()
}

fn order(ls: &LiquidStaking) -> Vec<u64> {
    (0..ls.delegation_contracts_list.len()).map(|i| ls.delegation_contracts_list.node(i).contract).collect()
}

fn data(contract: u64, service_fee: u128, total_delegated: u128) -> DelegationContractData {
    DelegationContractData {
        contract,
        total_value_locked: 0,
        cap: None,
        nr_nodes: 1,
        apr: 0,
        service_fee,
        delegation_score: 0,
        pending_to_delegate: 0,
        total_delegated,
        pending_to_undelegate: 0,
        total_undelegated: 0,
        total_withdrawable: 0,
        outdated: false,
        blacklisted: false,
    }
}

#[test]
fn registry_keeps_descending_order_and_ties_favor_newcomers() {
    let mut ls = setup();
    add(&mut ls, 10, 5_000, 0, None);
    add(&mut ls, 11, 9_000, 0, None);
    add(&mut ls, 12, 7_000, 0, None);
    add(&mut ls, 13, 9_000, 0, None);
    assert_eq!(order(&ls), vec![13, 11, 12, 10]);
    ls.change_delegation_contract_params(MANAGER, 10, 0, 1, 9_500, 0, None, 3).unwrap();
    assert_eq!(order(&ls), vec![10, 13, 11, 12]);
    assert_eq!(record(&ls, 10).delegation_score, 9_500);
    assert_eq!(ls.last_contract_data_update_epoch, 20);
    ls.blacklist_delegation_contract(ADMIN, 13).unwrap();
    assert_eq!(order(&ls), vec![10, 11, 12]);
    ls.whitelist_delegation_contract(ADMIN, 13, 0, 1, 6_000, 0, None).unwrap();
    assert_eq!(order(&ls), vec![10, 11, 12, 13]);
    let scores: Vec<u128> = (0..ls.delegation_contracts_list.len())
        .map(|i| ls.delegation_contracts_list.node(i).score)
        .collect();
    assert!(scores.windows(2).all(|w| w[0] >= w[1]));
}

#[test]
fn registry_is_bounded() {
    let mut ls = setup();
    for c in 0..100u64 {
        add(&mut ls, 100 + c, (c as u128) * 10, 0, None);
    }
    assert_eq!(ls.delegation_contracts_list.len(), 100);
    assert_eq!(
        ls.whitelist_delegation_contract(ADMIN, 999, 0, 1, 1, 0, None),
        Err(LiquidStakingError::DelegationContractsListFull)
    );
    assert!(ls.delegation_contract_data(999).is_none());
}

#[test]
fn rescoring_with_a_new_model_reorders() {
    let mut ls = setup();
    ls.whitelist_delegation_contract(ADMIN, 20, 100, 1, 9_000, 0, None).unwrap();
    ls.whitelist_delegation_contract(ADMIN, 21, 900, 1, 1_000, 0, None).unwrap();
    assert_eq!(order(&ls), vec![20, 21]);
    ls.set_delegation_score_model_params(ADMIN, DelegationScoreMethod::Tvl, 0, 1_000, 0, 0, true, None)
        .unwrap();
    assert_eq!(record(&ls, 20).delegation_score, 9_000);
    assert_eq!(record(&ls, 21).delegation_score, 1_000);
    ls.set_delegation_score_model_params(ADMIN, DelegationScoreMethod::Apr, 0, 0, 0, 20_000, true, None)
        .unwrap();
    assert_eq!(record(&ls, 20).delegation_score, 4_500);
    assert_eq!(record(&ls, 21).delegation_score, 500);
}

#[test]
fn deposit_selection_without_sampling_takes_best_eligible() {
    let mut ls = setup();
    add(&mut ls, 1, 9_000, 0, Some(MIN_DELEGATION_AMOUNT));
    add(&mut ls, 2, 8_000, 9_000, None);
    add(&mut ls, 3, 7_000, 0, None);
    assert_eq!(ls.get_delegation_contract_for_delegate(MIN_DELEGATION_AMOUNT, None, 0), Ok(1));
    // over the cap of the best
    assert_eq!(ls.get_delegation_contract_for_delegate(2 * MIN_DELEGATION_AMOUNT, None, 0), Ok(2));
    // skipping one
    assert_eq!(ls.get_delegation_contract_for_delegate(2 * MIN_DELEGATION_AMOUNT, Some(2), 0), Ok(3));
}

#[test]
fn deposit_selection_never_returns_ineligible() {
    let mut ls = setup();
    add(&mut ls, 1, 9_900, 0, Some(WAD));
    add(&mut ls, 2, 9_800, 6_000, None);
    add(&mut ls, 3, 9_700, 0, None);
    add(&mut ls, 4, 9_600, 100, None);
    ls.delegate_rewards_cb(3, 0, false).unwrap();
    assert!(record(&ls, 3).outdated);
    ls.set_delegation_sampling_model_params(ADMIN, 1_000, 5_000, 2_000).unwrap();
    for rand in [0u128, 1, 2_500, 5_000, 7_500, 9_999] {
        let c = ls.get_delegation_contract_for_delegate(2 * WAD, None, rand).unwrap();
        assert_eq!(c, 4);
    }
    ls.blacklist_delegation_contract(ADMIN, 4).unwrap();
    assert_eq!(
        ls.get_delegation_contract_for_delegate(2 * WAD, None, 0),
        Err(LiquidStakingError::DelegationContractNotAvailable)
    );
}

#[test]
fn failed_deposit_flush_restores_and_marks_outdated() {
    let mut ls = setup();
    add(&mut ls, 1, 9_000, 0, None);
    add(&mut ls, 2, 8_000, 0, None);
    let (c, shares) = ls.delegate(USER, WAD, 0).unwrap();
    assert_eq!(c, 1);
    assert_eq!(shares, WAD);
    assert_eq!(ls.pool.get_exchange_rate(), Ok(INITIAL_EXCHANGE_RATE));
    assert_eq!(record(&ls, 1).pending_to_delegate, WAD);
    let call = ls.delegate_pending_amount(1, None).unwrap();
    assert_eq!(call, DelegationCall::Delegate { contract: 1, egld_amount: WAD });
    assert_eq!(record(&ls, 1).pending_to_delegate, 0);
    ls.delegate_pending_amount_cb(1, WAD, false).unwrap();
    assert_eq!(record(&ls, 1).pending_to_delegate, WAD);
    assert!(record(&ls, 1).outdated);
    let (next, _) = ls.delegate(USER, WAD, 0).unwrap();
    assert_eq!(next, 2);
}

#[test]
fn candidate_band_follows_tolerance() {
    let mut ls = setup();
    add(&mut ls, 1, 9_000, 0, None);
    add(&mut ls, 2, 8_950, 0, None);
    add(&mut ls, 3, 8_800, 0, None);
    ls.set_delegation_sampling_model_params(ADMIN, 100, BPS, 0).unwrap();
    let model = ls.delegation_sampling_model.unwrap();
    assert_eq!(get_max_cutoff_score(9_000, &model), 8_910);
    let best = ls.get_max_delegation_contract_node(WAD, None).unwrap();
    let (candidates, sum) = ls.get_delegation_candidates(best, WAD, None, &model);
    let ids: Vec<u64> = candidates.iter().map(|c| c.data.contract).collect();
    assert_eq!(ids, vec![1, 2]);
    assert_eq!(sum, 2 * BPS);
    assert_eq!(ls.get_delegation_contract_for_delegate(WAD, None, 0), Ok(1));
    assert_eq!(ls.get_delegation_contract_for_delegate(WAD, None, 9_999), Ok(2));
}

#[test]
fn withdrawal_may_leave_exactly_the_minimum() {
    let d = data(1, 0, 3 * WAD);
    assert!(is_valid_undelegation_contract(&d, 2 * WAD));
    assert!(!is_valid_undelegation_contract(&d, 2 * WAD + 1));
    assert!(is_valid_undelegation_contract(&d, 3 * WAD));
    assert!(!is_valid_undelegation_contract(&d, 3 * WAD + 1));
}

#[test]
fn withdrawal_selection_never_leaves_dust() {
    let mut ls = setup();
    add(&mut ls, 1, 9_000, 0, None);
    add(&mut ls, 2, 8_000, 0, None);
    ls.delegate(USER, 3 * WAD, 0).unwrap();
    ls.delegate_pending_amount(1, None).unwrap();
    ls.delegate_pending_amount_cb(1, 3 * WAD, true).unwrap();
    ls.undelegation_mode = UndelegationMode::Algorithm;
    let attrs = ls.undelegate(2 * WAD, None, 5, 0).unwrap();
    assert_eq!(attrs.delegation_contract, 1);
    assert_eq!(attrs.egld_amount, 2 * WAD);
    assert_eq!(attrs.unbond_epoch, 15);
    assert_eq!(record(&ls, 1).total_delegated, WAD);
    assert_eq!(
        ls.get_delegation_contract_for_undelegate(WAD / 2, 0),
        Err(LiquidStakingError::DelegationContractNotAvailable)
    );
}

#[test]
fn withdrawal_selection_prefers_lowest_score() {
    let mut ls = setup();
    add(&mut ls, 1, 9_000, 0, None);
    add(&mut ls, 2, 8_000, 0, None);
    ls.delegate(USER, 3 * WAD, 0).unwrap();
    ls.delegate_pending_amount(1, None).unwrap();
    ls.delegate_pending_amount_cb(1, 3 * WAD, true).unwrap();
    ls.delegate_rewards_cb(2, 3 * WAD, true).unwrap();
    assert_eq!(ls.get_delegation_contract_for_undelegate(WAD, 0), Ok(2));
}

#[test]
fn sampling_is_inverse_cdf() {
    let candidates: Vec<DelegationCandidate> = [10u128, 20, 30]
        .iter()
        .enumerate()
        .map(|(i, w)| DelegationCandidate { weight: *w, data: data(i as u64, 0, 0) })
        .collect();
    assert_eq!(weighted_sample(&candidates, 60, 0), 0);
    assert_eq!(weighted_sample(&candidates, 60, 10), 0);
    assert_eq!(weighted_sample(&candidates, 60, 11), 1);
    assert_eq!(weighted_sample(&candidates, 60, 30), 1);
    assert_eq!(weighted_sample(&candidates, 60, 31), 2);
    assert_eq!(weighted_sample(&candidates, 60, 1_000), 2);
}

#[test]
fn weights_and_cutoffs() {
    let model = SamplingModel { tolerance: 100, max_service_fee: 2_000, premium: 5_000 };
    assert_eq!(compute_delegate_weight(&data(1, 0, 0), &model), BPS + 5_000);
    assert_eq!(compute_delegate_weight(&data(1, 1_000, 0), &model), BPS + 2_500);
    assert_eq!(compute_delegate_weight(&data(1, 2_000, 0), &model), BPS);
    assert_eq!(compute_delegate_weight(&data(1, 2_001, 0), &model), 0);
    assert_eq!(compute_undelegate_weight(&data(1, 0, 0), &model), Some(BPS));
    assert_eq!(compute_undelegate_weight(&data(1, 1_000, 0), &model), Some(BPS + 2_500));
    assert_eq!(compute_undelegate_weight(&data(1, 2_000, 0), &model), Some(BPS + 5_000));
    assert_eq!(compute_undelegate_weight(&data(1, 4_000, 0), &model), Some(BPS + 10_000));
    assert_eq!(compute_undelegate_weight(&data(1, u128::MAX, 0), &model), None);
    assert_eq!(get_max_cutoff_score(9_000, &model), 8_910);
    assert_eq!(get_min_cutoff_score(9_000, &model), 9_010);
    assert!(!is_valid_delegation_contract(&data(1, 2_001, 0), WAD, None, &Some(model)));
    assert!(is_valid_delegation_contract(&data(1, 2_001, 0), WAD, None, &None));
}

#[test]
fn funds_are_conserved_through_the_lifecycle() {
    let mut ls = setup();
    add(&mut ls, 1, 9_000, 0, None);
    ls.delegate(USER, 5 * WAD, 0).unwrap();
    ls.delegate_pending_amount(1, Some(4 * WAD)).unwrap();
    ls.delegate_pending_amount_cb(1, 4 * WAD, true).unwrap();
    let attrs = ls.undelegate(2 * WAD, None, 3, 0).unwrap();
    let call = ls.undelegate_pending_amount(1).unwrap();
    assert_eq!(call, DelegationCall::Undelegate { contract: 1, egld_amount: 2 * WAD });
    ls.undelegate_pending_amount_cb(1, 2 * WAD, false, 4).unwrap();
    assert!(record(&ls, 1).outdated);
    assert_eq!(record(&ls, 1).pending_to_undelegate, 2 * WAD);
    ls.undelegate_pending_amount(1).unwrap();
    ls.undelegate_pending_amount_cb(1, 2 * WAD, true, 4).unwrap();
    assert_eq!(ls.withdraw_from(1), Ok(DelegationCall::Withdraw { contract: 1 }));
    ls.withdraw_from_cb(1, 2 * WAD, true).unwrap();
    assert_eq!(ls.withdraw(&attrs, 12), Err(LiquidStakingError::UnbondPeriodNotEnded));
    let paid = ls.withdraw(&attrs, 13).unwrap();
    assert_eq!(paid, 2 * WAD);
    let d = record(&ls, 1);
    let held = d.pending_to_delegate + d.total_delegated + d.pending_to_undelegate + d.total_undelegated
        + d.total_withdrawable;
    assert_eq!(held + paid, 5 * WAD);
    assert_eq!(d.pending_to_delegate, WAD);
    assert_eq!(d.total_delegated, 2 * WAD);
    assert_eq!(ls.pool.total_withdrawable, 0);
    assert_eq!(ls.pool.cash_reserve, 3 * WAD);
    assert_eq!(ls.pool.ls_token_supply, 3 * WAD);
}

#[test]
fn rewards_are_split_by_fees() {
    assert_eq!(split_rewards(10_000, 500, 1_500), (1_052, 8_948));
    assert_eq!(split_rewards(10_000, 1_500, 1_500), (0, 10_000));
    let mut ls = setup();
    add(&mut ls, 1, 9_000, 500, None);
    assert_eq!(ls.claim_rewards_from(1, 5), Ok(DelegationCall::ClaimRewards { contract: 1 }));
    assert_eq!(ls.claim_rewards_from_cb(1, 10_000, true, 5), Ok((1_052, 8_948)));
    assert_eq!(ls.pool.protocol_reserve, 1_052);
    assert_eq!(ls.pool.rewards_reserve, 8_948);
    assert_eq!(ls.claim_rewards_from(1, 5), Err(LiquidStakingError::RewardsAlreadyClaimed));
    assert_eq!(ls.claim_rewards_from_cb(1, 10_000, false, 6), Ok((0, 0)));
    assert!(record(&ls, 1).outdated);
    assert_eq!(ls.withdraw_reserve(ADMIN, 2_000), Err(LiquidStakingError::NotEnoughProtocolReserves));
    assert_eq!(ls.withdraw_reserve(ADMIN, 1_000), Ok(1_000));
}

#[test]
fn rewards_delegation_backs_shares() {
    let mut ls = setup();
    add(&mut ls, 1, 9_000, 0, None);
    ls.delegate(USER, WAD, 0).unwrap();
    assert_eq!(ls.delegate_rewards(None, 0), Err(LiquidStakingError::InsufficientEgldAmount));
    ls.pool.rewards_reserve = WAD;
    let call = ls.delegate_rewards(None, 0).unwrap();
    assert_eq!(call, DelegationCall::Delegate { contract: 1, egld_amount: WAD });
    assert_eq!(ls.pool.rewards_reserve, 0);
    ls.delegate_rewards_cb(1, WAD, true).unwrap();
    assert_eq!(ls.pool.cash_reserve, 2 * WAD);
    assert_eq!(ls.pool.get_exchange_rate(), Ok(2 * INITIAL_EXCHANGE_RATE));
}

#[test]
fn penalties_move_funds_elsewhere() {
    let mut ls = setup();
    add(&mut ls, 1, 9_000, 0, None);
    add(&mut ls, 2, 8_000, 0, None);
    ls.delegate(USER, 5 * WAD, 0).unwrap();
    let id = ls.penalize(ADMIN, 1, PenaltySource::FromPendingToDelegate, Some(2 * WAD), 7).unwrap();
    assert_eq!(id, 0);
    assert_eq!(record(&ls, 1).pending_to_delegate, 3 * WAD);
    let p = ls.penalties.get_penalty(0).unwrap();
    assert!(p.withdrawn);
    assert_eq!(p.attributes.egld_amount, 2 * WAD);
    assert_eq!(ls.delegate_penalty(0, Some(WAD), 0), Ok(2));
    assert_eq!(record(&ls, 2).pending_to_delegate, WAD);
    assert_eq!(ls.penalties.get_penalty(0).unwrap().attributes.egld_amount, WAD);
    assert_eq!(ls.delegate_penalty(0, None, 0), Ok(2));
    assert!(ls.penalties.get_penalty(0).is_none());
    assert_eq!(ls.delegate_penalty(0, None, 0), Err(LiquidStakingError::UnexpectedPenaltyId));
}

#[test]
fn penalty_from_delegated_funds_must_unbond() {
    let mut ls = setup();
    add(&mut ls, 1, 9_000, 0, None);
    ls.delegate(USER, 3 * WAD, 0).unwrap();
    ls.delegate_pending_amount(1, None).unwrap();
    ls.delegate_pending_amount_cb(1, 3 * WAD, true).unwrap();
    assert_eq!(
        ls.penalize(7, 1, PenaltySource::FromUndelegate, None, 2),
        Err(LiquidStakingError::OnlyAdmin)
    );
    let id = ls.penalize(ADMIN, 1, PenaltySource::FromUndelegate, None, 2).unwrap();
    assert_eq!(record(&ls, 1).total_delegated, 0);
    assert_eq!(record(&ls, 1).pending_to_undelegate, 3 * WAD);
    assert_eq!(ls.delegate_penalty(id, None, 0), Err(LiquidStakingError::WithdrawFirst));
    ls.undelegate_pending_amount(1).unwrap();
    ls.undelegate_pending_amount_cb(1, 3 * WAD, true, 2).unwrap();
    ls.withdraw_from_cb(1, 3 * WAD, true).unwrap();
    assert_eq!(ls.withdraw_penalty(id, 11), Err(LiquidStakingError::UnbondPeriodNotEnded));
    ls.withdraw_penalty(id, 12).unwrap();
    assert_eq!(ls.withdraw_penalty(id, 12), Err(LiquidStakingError::WithdrawnPenalty));
    assert_eq!(record(&ls, 1).total_withdrawable, 0);
}

#[test]
fn users_redeem_from_penalties_in_open_mode() {
    let mut ls = setup();
    add(&mut ls, 1, 9_000, 0, None);
    ls.delegate(USER, 4 * WAD, 0).unwrap();
    let id = ls.penalize(ADMIN, 1, PenaltySource::FromPendingToDelegate, None, 1).unwrap();
    assert_eq!(ls.withdraw_from_penalty(id, WAD), Err(LiquidStakingError::OnlyOpenUndelegationMode));
    assert_eq!(ls.deactivate_undelegation_algorithm(25), Err(LiquidStakingError::NotEnoughElapsedEpochs));
    ls.deactivate_undelegation_algorithm(30).unwrap();
    assert_eq!(ls.undelegation_mode, UndelegationMode::Open);
    assert_eq!(ls.withdraw_from_penalty(id, 5 * WAD), Err(LiquidStakingError::TooMuchEgldAmount));
    assert_eq!(ls.withdraw_from_penalty(id, WAD), Ok(WAD));
    assert_eq!(ls.pool.ls_token_supply, 3 * WAD);
    assert_eq!(ls.penalties.get_penalty(id).unwrap().attributes.egld_amount, 3 * WAD);
    assert_eq!(
        ls.reactivate_undelegation_algorithm(ADMIN, 30),
        Err(LiquidStakingError::NotEnoughElapsedEpochs)
    );
    ls.reactivate_undelegation_algorithm(ADMIN, 31).unwrap();
    assert_eq!(ls.undelegation_mode, UndelegationMode::Algorithm);
    assert_eq!(ls.last_undelegate_epoch, 31);
}

#[test]
fn configuration_errors() {
    let mut ls = LiquidStaking::init(ADMIN, 0, 1, Some(5)).unwrap();
    assert_eq!(ls.admin.get_admin(), Some(5));
    assert_eq!(ls.state, State::Inactive);
    assert_eq!(
        LiquidStaking::init(ADMIN, 0, 3, None).err(),
        Some(LiquidStakingError::InvalidUnbondPeriod)
    );
    assert_eq!(ls.set_total_fee(ADMIN, 100), Err(LiquidStakingError::OnlyAdmin));
    assert_eq!(ls.set_total_fee(5, 0), Err(LiquidStakingError::ValueCannotBeZero));
    assert_eq!(ls.set_total_fee(5, BPS + 1), Err(LiquidStakingError::ValueExceedsBps));
    assert_eq!(ls.set_state_active(5), Err(LiquidStakingError::TotalFeeUnset));
    ls.set_total_fee(5, 1_000).unwrap();
    assert_eq!(ls.set_state_active(5), Err(LiquidStakingError::DelegationScoreModelUnset));
    assert_eq!(
        ls.set_delegation_score_model_params(5, DelegationScoreMethod::Tvl, 10, 10, 0, 0, false, None),
        Err(LiquidStakingError::InvalidDomain)
    );
    assert_eq!(
        ls.set_delegation_score_model_params(5, DelegationScoreMethod::Tvl, 0, 10, 0, 0, false, Some(1)),
        Err(LiquidStakingError::UnexpectedValue)
    );
    assert_eq!(
        ls.set_delegation_score_model_params(5, DelegationScoreMethod::Mixed, 0, 10, 0, 10, false, None),
        Err(LiquidStakingError::ExpectedValue)
    );
    assert_eq!(
        ls.set_delegation_score_model_params(5, DelegationScoreMethod::Mixed, 0, 10, 0, 10, false, Some(BPS + 1)),
        Err(LiquidStakingError::ValueExceedsBps)
    );
    ls.set_delegation_score_model_params(5, DelegationScoreMethod::Mixed, 0, 10, 0, 10, false, Some(5_000))
        .unwrap();
    assert_eq!(ls.set_state_active(5), Err(LiquidStakingError::DataManagerUnset));
    ls.set_data_manager(5, MANAGER).unwrap();
    assert_eq!(ls.delegate(USER, WAD, 0), Err(LiquidStakingError::Inactive));
    ls.set_state_active(5).unwrap();
    assert_eq!(ls.delegate(USER, WAD, 0), Err(LiquidStakingError::NoDelegationContracts));
    assert_eq!(ls.delegate(USER, WAD - 1, 0), Err(LiquidStakingError::InsufficientEgldAmount));
    assert_eq!(
        ls.set_delegation_sampling_model_params(5, 0, 100, 0),
        Err(LiquidStakingError::ValueCannotBeZero)
    );
    assert_eq!(
        ls.set_delegation_sampling_model_params(5, 100, BPS + 1, 0),
        Err(LiquidStakingError::ValueExceedsBps)
    );
    assert_eq!(
        ls.set_delegation_sampling_model_params(5, 100, 100, u128::MAX),
        Err(LiquidStakingError::PremiumTooLarge)
    );
    ls.set_delegation_sampling_model_params(5, 100, 100, 0).unwrap();
    ls.clear_delegation_sampling_model(5).unwrap();
    assert!(ls.delegation_sampling_model.is_none());
    ls.set_state_inactive(5).unwrap();
    assert_eq!(ls.state, State::Inactive);
}

#[test]
fn registration_errors() {
    let mut ls = setup();
    assert_eq!(
        ls.whitelist_delegation_contract(ADMIN, 1, 10, 1, 0, 0, Some(9)),
        Err(LiquidStakingError::DelegationCap)
    );
    ls.whitelist_delegation_contract(ADMIN, 5, 10, 1, 0, 3 * BPS, None).unwrap();
    assert_eq!(record(&ls, 5).service_fee, 3 * BPS);
    ls.change_delegation_contract_params(MANAGER, 5, 10, 1, 0, u128::MAX, None, 1).unwrap();
    assert_eq!(record(&ls, 5).service_fee, u128::MAX);
    add(&mut ls, 1, 9_000, 0, None);
    assert_eq!(
        ls.whitelist_delegation_contract(ADMIN, 1, 0, 1, 0, 0, None),
        Err(LiquidStakingError::NotBlacklistedDelegationContract)
    );
    assert_eq!(
        ls.blacklist_delegation_contract(ADMIN, 9),
        Err(LiquidStakingError::UnexpectedDelegationContract)
    );
    ls.blacklist_delegation_contract(ADMIN, 1).unwrap();
    assert!(record(&ls, 1).blacklisted);
    assert_eq!(
        ls.blacklist_delegation_contract(ADMIN, 1),
        Err(LiquidStakingError::BlacklistedDelegationContract)
    );
    assert_eq!(
        ls.change_delegation_contract_params(MANAGER, 1, 0, 1, 0, 0, None, 1),
        Err(LiquidStakingError::BlacklistedDelegationContract)
    );
    assert_eq!(
        ls.change_delegation_contract_params(ADMIN, 1, 0, 1, 0, 0, None, 1),
        Err(LiquidStakingError::OnlyDataManager)
    );
    assert_eq!(ls.delegate_pending_amount(1, None), Err(LiquidStakingError::NoPendingToDelegate));
    assert_eq!(ls.undelegate_pending_amount(1), Err(LiquidStakingError::NoPendingToUndelegate));
    assert_eq!(ls.delegate_pending_amount(9, None), Err(LiquidStakingError::UnexpectedDelegationContract));
}

#[test]
fn partial_flush_must_not_leave_dust() {
    let mut ls = setup();
    add(&mut ls, 1, 9_000, 0, None);
    ls.delegate(USER, 3 * WAD, 0).unwrap();
    assert_eq!(ls.delegate_pending_amount(1, Some(WAD - 1)), Err(LiquidStakingError::InsufficientEgldAmount));
    assert_eq!(ls.delegate_pending_amount(1, Some(4 * WAD)), Err(LiquidStakingError::TooMuchEgldAmount));
    assert_eq!(ls.delegate_pending_amount(1, Some(3 * WAD - 1)), Err(LiquidStakingError::WouldLeaveDust));
    assert_eq!(
        ls.delegate_pending_amount(1, Some(2 * WAD)),
        Ok(DelegationCall::Delegate { contract: 1, egld_amount: 2 * WAD })
    );
}

#[test]
fn open_mode_lets_users_choose_the_counterparty() {
    let mut ls = setup();
    add(&mut ls, 1, 9_000, 0, None);
    add(&mut ls, 2, 8_000, 0, None);
    ls.delegate(USER, 2 * WAD, 0).unwrap();
    ls.delegate_pending_amount(1, None).unwrap();
    ls.delegate_pending_amount_cb(1, 2 * WAD, true).unwrap();
    assert_eq!(ls.undelegate(WAD, Some(1), 0, 0), Err(LiquidStakingError::OnlyOpenUndelegationMode));
    ls.undelegation_mode = UndelegationMode::Open;
    assert_eq!(ls.undelegate(WAD, Some(2), 0, 0), Err(LiquidStakingError::InvalidDelegationContract));
    assert_eq!(ls.undelegate(0, Some(1), 0, 0), Err(LiquidStakingError::InsufficientShares));
    let attrs = ls.undelegate(WAD, Some(1), 0, 0).unwrap();
    assert_eq!(attrs.delegation_contract, 1);
}

#[test]
fn admin_role_changes_hands() {
    let mut admin = AdminModule::new();
    assert_eq!(admin.try_set_admin(3, None), Ok(()));
    assert_eq!(admin.get_admin(), Some(3));
    assert_eq!(admin.try_set_admin(4, Some(4)), Ok(()));
    assert_eq!(admin.get_admin(), Some(3));
    assert_eq!(admin.set_pending_admin(4, 4), Err(LiquidStakingError::OnlyAdmin));
    assert_eq!(admin.set_pending_admin(3, 0), Err(LiquidStakingError::AddressZero));
    assert_eq!(admin.accept_admin(4), Err(LiquidStakingError::MissingPendingAdmin));
    admin.set_pending_admin(3, 4).unwrap();
    assert_eq!(admin.get_pending_admin(), Some(4));
    assert_eq!(admin.accept_admin(5), Err(LiquidStakingError::OnlyPendingAdmin));
    admin.accept_admin(4).unwrap();
    assert_eq!(admin.get_admin(), Some(4));
    assert_eq!(admin.get_pending_admin(), None);
}

#[test]
fn migration_whitelist_bypasses_selection() {
    let mut ls = setup();
    add(&mut ls, 1, 9_000, 0, None);
    add(&mut ls, 2, 8_000, 0, Some(2 * WAD));
    assert_eq!(ls.add_to_migration_whitelist(USER, 50, 2), Err(LiquidStakingError::OnlyAdmin));
    assert_eq!(
        ls.add_to_migration_whitelist(ADMIN, 50, 9),
        Err(LiquidStakingError::UnexpectedDelegationContract)
    );
    ls.add_to_migration_whitelist(ADMIN, 50, 2).unwrap();
    assert_eq!(
        ls.add_to_migration_whitelist(ADMIN, 50, 1),
        Err(LiquidStakingError::UserAlreadyWhitelisted)
    );
    assert_eq!(ls.num_whitelisted_users(2), 1);
    assert_eq!(ls.delegate(50, WAD, 0).map(|(c, _)| c), Ok(2));
    assert_eq!(ls.delegate(USER, WAD, 0).map(|(c, _)| c), Ok(1));
    assert_eq!(ls.delegate(50, 3 * WAD, 0), Err(LiquidStakingError::InvalidDelegationContract));
    assert_eq!(
        ls.blacklist_delegation_contract(ADMIN, 2),
        Err(LiquidStakingError::InMigrationWhitelist)
    );
    ls.remove_me_from_migration_whitelist(50).unwrap();
    assert_eq!(
        ls.remove_from_migration_whitelist(ADMIN, 50),
        Err(LiquidStakingError::UserNotWhitelisted)
    );
    assert_eq!(ls.num_whitelisted_users(2), 0);
    ls.blacklist_delegation_contract(ADMIN, 2).unwrap();
    assert_eq!(
        ls.add_to_migration_whitelist(ADMIN, 51, 2),
        Err(LiquidStakingError::BlacklistedDelegationContract)
    );
}

#[test]
fn withdrawal_weights_that_overflow_are_rejected() {
    let mut ls = setup();
    add(&mut ls, 1, 9_000, u128::MAX, None);
    add(&mut ls, 2, 8_000, 0, None);
    ls.delegate_rewards_cb(1, 3 * WAD, true).unwrap();
    ls.delegate_rewards_cb(2, 3 * WAD, true).unwrap();
    ls.set_delegation_sampling_model_params(ADMIN, 5_000, 1, 2).unwrap();
    assert_eq!(
        ls.get_delegation_contract_for_undelegate(WAD, 0),
        Err(LiquidStakingError::ArithmeticOverflow)
    );
    ls.set_delegation_sampling_model_params(ADMIN, 5_000, BPS, 0).unwrap();
    assert_eq!(ls.get_delegation_contract_for_undelegate(WAD, 0), Ok(2));
}

#[test]
fn failed_matured_claim_marks_outdated() {
    let mut ls = setup();
    add(&mut ls, 1, 9_000, 0, None);
    ls.withdraw_from_cb(1, 0, false).unwrap();
    assert!(record(&ls, 1).outdated);
}
