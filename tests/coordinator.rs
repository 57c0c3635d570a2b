use liquid_staking::constants::WAD;
use liquid_staking::contract::LiquidStaking;
use liquid_staking::model::{DelegationCandidate, DelegationContractData, DelegationScoreMethod};
use liquid_staking::proxies::{DelegationProxy, EventsModule, ProxyModule, ProxyRouter, RandomProxy};
use liquid_staking::selection::weighted_sample_from;

const ADMIN: u64 = 1;
const USER: u64 = 77;

struct Counterparty {
    accept: bool,
    delegated: u128,
    unbonding: u128,
}

impl DelegationProxy for Counterparty {
    fn delegate(&mut self, egld_amount: u128) -> bool {
        if self.accept {
            self.delegated += egld_amount;
        }
        self.accept
    }

    fn undelegate(&mut self, egld_amount: u128) -> bool {
        if self.accept {
            self.delegated -= egld_amount;
            self.unbonding += egld_amount;
        }
        self.accept
    }

    fn withdraw(&mut self) -> Option<u128> {
        if self.accept {
            let w = self.unbonding;
            self.unbonding = 0;
            Some(w)
        } else {
            None
        }
    }

    fn claim_rewards(&mut self) -> Option<u128> {
        if self.accept {
            Some(1_000)
        } else {
            None
        }
    }
}

struct Host {
    router: ProxyRouter<Counterparty>,
    outdated: Vec<u64>,
    errors: Vec<u64>,
}

impl ProxyModule for Host {
    fn delegate_to_delegation_contract(&mut self, delegation_contract: u64, egld_amount: u128) -> bool {
        self.router.delegate_to_delegation_contract(delegation_contract, egld_amount)
    }

    fn undelegate_from_delegation_contract(&mut self, delegation_contract: u64, egld_amount: u128) -> bool {
        self.router.undelegate_from_delegation_contract(delegation_contract, egld_amount)
    }

    fn withdraw_from_delegation_contract(&mut self, delegation_contract: u64) -> Option<u128> {
        self.router.withdraw_from_delegation_contract(delegation_contract)
    }

    fn claim_rewards_from_delegation_contract(&mut self, delegation_contract: u64) -> Option<u128> {
        self.router.claim_rewards_from_delegation_contract(delegation_contract)
    }
}

impl EventsModule for Host {
    fn outdated_event(&mut self, delegation_contract: u64) {
        self.outdated.push(delegation_contract);
    }

    fn async_call_error_event(&mut self, delegation_contract: u64) {
        self.errors.push(delegation_contract);
    }
}

struct Fixed(u128);

impl RandomProxy for Fixed {
    fn get_random(&mut self, _min: u128, _max: u128) -> u128 {
        self.0
    }
}

fn setup() -> (LiquidStaking, Host) {
    let mut ls = LiquidStaking::init(ADMIN, 0, 1, None).unwrap();
    ls.set_delegation_score_model_params(ADMIN, DelegationScoreMethod::Apr, 0, 0, 0, 10_000, false, None)
        .unwrap();
    ls.set_total_fee(ADMIN, 1_000).unwrap();
    ls.set_data_manager(ADMIN, 2).unwrap();
    ls.set_state_active(ADMIN).unwrap();
    ls.whitelist_delegation_contract(ADMIN, 10, 0, 1, 9_000, 0, None).unwrap();
    ls.whitelist_delegation_contract(ADMIN, 11, 0, 1, 8_000, 0, None).unwrap();
    let host = Host {
        router: ProxyRouter {
            proxies: vec![
                (10, Counterparty { accept: true, delegated: 0, unbonding: 0 }),
                (11, Counterparty { accept: false, delegated: 0, unbonding: 0 }),
            ],
        },
        outdated: vec![],
        errors: vec![],
    };
    (ls, host)
}

fn record(ls: &LiquidStaking, contract: u64) -> DelegationContractData {
    ls.delegation_contract_data(contract).unwrap()
}

#[test]
fn successful_round_trip_through_the_host() {
    let (mut ls, mut host) = setup();
    ls.delegate(USER, 4 * WAD, 0).unwrap();
    assert_eq!(ls.run_delegate_pending_amount(&mut host, 10, None), Ok(true));
    assert_eq!(host.router.proxies[0].1.delegated, 4 * WAD);
    assert_eq!(record(&ls, 10).total_delegated, 4 * WAD);
    ls.undelegate(WAD, None, 0, 0).unwrap();
    assert_eq!(ls.run_undelegate_pending_amount(&mut host, 10, 0), Ok(true));
    assert_eq!(record(&ls, 10).total_undelegated, WAD);
    assert_eq!(ls.run_withdraw_from(&mut host, 10), Ok(Some(WAD)));
    assert_eq!(record(&ls, 10).total_withdrawable, WAD);
    assert_eq!(ls.run_claim_rewards_from(&mut host, 10, 1), Ok(Some(1_000)));
    assert_eq!(ls.pool.rewards_reserve + ls.pool.protocol_reserve, 1_000);
    assert_eq!(ls.pool.protocol_reserve, 100);
    assert!(host.outdated.is_empty());
}

#[test]
fn failed_call_through_the_host_is_compensated() {
    let (mut ls, mut host) = setup();
    ls.delegate_rewards_cb(10, 0, false).unwrap();
    ls.delegate(USER, 2 * WAD, 0).unwrap();
    assert_eq!(record(&ls, 11).pending_to_delegate, 2 * WAD);
    assert_eq!(ls.run_delegate_pending_amount(&mut host, 11, None), Ok(false));
    assert_eq!(record(&ls, 11).pending_to_delegate, 2 * WAD);
    assert!(record(&ls, 11).outdated);
    assert_eq!(host.outdated, vec![11]);
    assert_eq!(host.errors, vec![11]);
    ls.change_delegation_contract_params(2, 11, 0, 1, 8_000, 0, None, 1).unwrap();
    assert!(!record(&ls, 11).outdated);
    assert_eq!(ls.run_withdraw_from(&mut host, 11), Ok(None));
    assert!(record(&ls, 11).outdated);
    ls.change_delegation_contract_params(2, 11, 0, 1, 8_000, 0, None, 1).unwrap();
    assert_eq!(ls.run_claim_rewards_from(&mut host, 11, 1), Ok(None));
    assert!(record(&ls, 11).outdated);
    assert_eq!(ls.run_withdraw_from(&mut host, 12).is_err(), true);
}

#[test]
fn oracle_threshold_drives_sampling() {
    let candidates: Vec<DelegationCandidate> = (0..3u64)
        .map(|i| DelegationCandidate {
            weight: 10,
            data: DelegationContractData {
                contract: 40 + i,
                total_value_locked: 0,
                cap: None,
                nr_nodes: 0,
                apr: 0,
                service_fee: 0,
                delegation_score: 0,
                pending_to_delegate: 0,
                total_delegated: 0,
                pending_to_undelegate: 0,
                total_undelegated: 0,
                total_withdrawable: 0,
                outdated: false,
                blacklisted: false,
            },
        })
        .collect();
    assert_eq!(weighted_sample_from(&candidates, 30, &mut Fixed(0)), (40, 0));
    assert_eq!(weighted_sample_from(&candidates, 30, &mut Fixed(15)), (41, 15));
    assert_eq!(weighted_sample_from(&candidates, 30, &mut Fixed(30)), (42, 30));
}
