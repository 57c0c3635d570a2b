use vstd::prelude::*;
use crate::constants::{BPS, MAX_DELEGATION_CONTRACTS_LIST_SIZE};
use crate::contract::{record_wf, unique_records, LiquidStaking};
use crate::delegation::{apply_registry_op, is_insert_position, RegistryNode, RegistryOp};
use crate::errors::LiquidStakingError;
use crate::model::{
    Address, DelegationContractData, DelegationScoreMethod, DelegationScoreModel, SamplingModel, State,
    UndelegationMode,
};
use crate::constants::{
    COOLDOWN_REACTIVATE_UNDELEGATION_ALGORITHM, MAX_SAMPLING_PREMIUM, NO_DATA_UPDATE_EPOCHS,
    NO_UNDELEGATE_EPOCHS,
};
use crate::score::score_spec;

verus! {

/// `after` is `before` with the counterparty taken out (if it was there) and inserted again
/// with `score` at its ordered position.
pub open spec fn relisted(before: Seq<RegistryNode>, after: Seq<RegistryNode>, contract: Address, score: u128) -> bool {
    after == apply_registry_op(
        apply_registry_op(before, RegistryOp::Remove(contract)),
        RegistryOp::Insert(contract, score),
    )
}

impl LiquidStaking {
    /// Records other than the one at index `i` keep their identifiers' records after it is replaced.
    proof fn lemma_other_records(before: LiquidStaking, after: LiquidStaking, i: int, nd: DelegationContractData)
        requires
            unique_records(before.contracts@),
            0 <= i < before.contracts@.len(),
            nd.contract == before.contracts@[i].contract,
            after.contracts@ == before.contracts@.update(i, nd),
        ensures
            unique_records(after.contracts@),
            after.has_record(nd.contract),
            after.record(nd.contract) == nd,
            forall|x: Address| x != nd.contract && before.has_record(x) ==> after.has_record(x)
                && #[trigger] after.record(x) == before.record(x),
    {
        assert forall|a: int, b: int|
            0 <= a < after.contracts@.len() && 0 <= b < after.contracts@.len() && a != b
            implies #[trigger] after.contracts@[a].contract != #[trigger] after.contracts@[b].contract by {
            assert(before.contracts@[a].contract != before.contracts@[b].contract);
        }
        after.lemma_record_index(nd.contract, i);
        assert forall|x: Address| x != nd.contract && before.has_record(x)
            implies after.has_record(x) && #[trigger] after.record(x) == before.record(x) by {
            let j = before.record_index(x);
            before.lemma_record_index(x, j);
            assert(after.contracts@[j].contract == x);
            after.lemma_record_index(x, j);
        }
    }

    /// The state stays well formed when the record at `i` is replaced by `nd`, not excluded,
    /// and its counterparty is moved to position `k` of the registry with the new score.
    #[verifier::rlimit(40)]
    proof fn lemma_relist_wf(
        before: LiquidStaking,
        after: LiquidStaking,
        i: int,
        nd: DelegationContractData,
        removed: bool,
        j: int,
        k: int,
    )
        requires
            before.wf(),
            0 <= i < before.contracts@.len(),
            nd.contract == before.contracts@[i].contract,
            record_wf(nd),
            !nd.blacklisted,
            after.contracts@ == before.contracts@.update(i, nd),
            removed ==> 0 <= j < before.delegation_contracts_list.view().len()
                && before.delegation_contracts_list.view()[j].contract == nd.contract,
            !removed ==> !before.delegation_contracts_list.contains(nd.contract),
            0 <= k <= (if removed {
                before.delegation_contracts_list.view().len() - 1
            } else {
                before.delegation_contracts_list.view().len() as int
            }),
            after.delegation_contracts_list.view() == (if removed {
                before.delegation_contracts_list.view().remove(j)
            } else {
                before.delegation_contracts_list.view()
            }).insert(k, RegistryNode { contract: nd.contract, score: nd.delegation_score }),
            after.delegation_contracts_list.wf(),
            after.last_rewards_claim_epoch@ == before.last_rewards_claim_epoch@,
            after.delegation_score_model == before.delegation_score_model,
            after.delegation_sampling_model == before.delegation_sampling_model,
            after.total_fee == before.total_fee,
            after.penalties == before.penalties,
            after.migration_whitelist@ == before.migration_whitelist@,
        ensures
            after.wf(),
    {
        let c = nd.contract;
        let l0 = before.delegation_contracts_list.view();
        let l2 = after.delegation_contracts_list.view();
        LiquidStaking::lemma_other_records(before, after, i, nd);
        assert forall|p: int| 0 <= p < l2.len() implies {
            let n = #[trigger] l2[p];
            &&& after.has_record(n.contract)
            &&& after.record(n.contract).delegation_score == n.score
            &&& !after.record(n.contract).blacklisted
        } by {
            if p != k {
                let q = if p < k { p } else { p - 1 };
                let q0 = if removed && q >= j { q + 1 } else { q };
                assert(l2[p] == l0[q0]);
                if removed {
                    assert(q0 != j);
                    assert(l0[q0].contract != l0[j].contract);
                } else {
                    assert(l0[q0].contract != c);
                }
                assert(before.has_record(l0[q0].contract));
            }
        }
        assert forall|jj: int| 0 <= jj < after.contracts@.len() && !(#[trigger] after.contracts@[jj]).blacklisted
            implies after.delegation_contracts_list.contains(after.contracts@[jj].contract) by {
            let x = after.contracts@[jj].contract;
            if jj == i {
                assert(l2[k].contract == c);
            } else {
                assert(before.contracts@[jj] == after.contracts@[jj]);
                assert(before.delegation_contracts_list.contains(x));
                let q0 = choose|q0: int| 0 <= q0 < l0.len() && #[trigger] l0[q0].contract == x;
                assert(x != c) by {
                    assert(before.contracts@[i].contract == c);
                }
                let q = if removed && q0 > j { q0 - 1 } else { q0 };
                if removed {
                    assert(q0 != j);
                }
                let p = if q < k { q } else { q + 1 };
                assert(l2[p].contract == x);
            }
        }
        assert forall|jj: int| 0 <= jj < after.contracts@.len() implies record_wf(#[trigger] after.contracts@[jj]) by {
            if jj != i {
                assert(after.contracts@[jj] == before.contracts@[jj]);
            }
        }
    }

    /// Replaces the record at index `i` by `nd`, which is not excluded, and puts its counterparty
    /// back into the registry at the position of its new score.
    fn replace_and_relist(&mut self, i: usize, nd: DelegationContractData)
        requires
            old(self).wf(),
            i < old(self).contracts@.len(),
            nd.contract == old(self).contracts@[i as int].contract,
            record_wf(nd),
            !nd.blacklisted,
            old(self).contracts@[i as int].blacklisted ==> old(self).delegation_contracts_list.view().len()
                < MAX_DELEGATION_CONTRACTS_LIST_SIZE,
        ensures
            final(self).wf(),
            final(self).contracts@ == old(self).contracts@.update(i as int, nd),
            relisted(
                old(self).delegation_contracts_list.view(),
                final(self).delegation_contracts_list.view(),
                nd.contract,
                nd.delegation_score,
            ),
            final(self).same_config(&*old(self)),
            final(self).pool == old(self).pool,
            final(self).penalties == old(self).penalties,
            final(self).last_rewards_claim_epoch@ == old(self).last_rewards_claim_epoch@,
    {
        let ghost before = *self;
        let c = nd.contract;
        proof {
            before.lemma_record_index(c, i as int);
        }
        let ghost l0 = self.delegation_contracts_list.view();
        let ghost removed = self.delegation_contracts_list.contains(c);
        let ghost j: int = if removed {
            choose|j: int| 0 <= j < l0.len() && #[trigger] l0[j].contract == c
        } else {
            0
        };
        self.delegation_contracts_list.remove_delegation_contract_from_list(c);
        let ghost mid = self.delegation_contracts_list.view();
        proof {
            if !before.contracts@[i as int].blacklisted {
                assert(removed);
            }
            if removed {
                assert(mid == l0.remove(j));
            }
        }
        self.contracts.set(i, nd);
        let res = self.delegation_contracts_list.add_and_order_delegation_contract_in_list(c, nd.delegation_score);
        proof {
            assert(res is Ok);
            let l2 = self.delegation_contracts_list.view();
            let k = choose|k: int| is_insert_position(mid, k, nd.delegation_score)
                && l2 == mid.insert(k, RegistryNode { contract: c, score: nd.delegation_score });
            assert(relisted(l0, l2, c, nd.delegation_score));
            LiquidStaking::lemma_relist_wf(before, *self, i as int, nd, removed, j, k);
        }
    }
}

impl LiquidStaking {
    /// Appends a new, excluded record.
    fn push_record(&mut self, d: DelegationContractData)
        requires
            old(self).wf(),
            !old(self).has_record(d.contract),
            d.blacklisted,
            record_wf(d),
        ensures
            final(self).wf(),
            final(self).contracts@ == old(self).contracts@.push(d),
            final(self).last_rewards_claim_epoch@ == old(self).last_rewards_claim_epoch@.push(0),
            final(self).delegation_contracts_list.view() == old(self).delegation_contracts_list.view(),
            final(self).same_config(&*old(self)),
            final(self).pool == old(self).pool,
            final(self).penalties == old(self).penalties,
    {
        let ghost before = *self;
        self.contracts.push(d);
        self.last_rewards_claim_epoch.push(0);
        proof {
            let n = before.contracts@.len() as int;
            assert forall|a: int, b: int|
                0 <= a < self.contracts@.len() && 0 <= b < self.contracts@.len() && a != b
                implies #[trigger] self.contracts@[a].contract != #[trigger] self.contracts@[b].contract by {
                if a < n && b < n {
                    assert(before.contracts@[a].contract != before.contracts@[b].contract);
                } else if a == n {
                    assert(before.contracts@[b].contract == self.contracts@[b].contract);
                } else {
                    assert(before.contracts@[a].contract == self.contracts@[a].contract);
                }
            }
            assert forall|x: Address| before.has_record(x) implies self.has_record(x) && #[trigger] self.record(x)
                == before.record(x) by {
                let j = before.record_index(x);
                before.lemma_record_index(x, j);
                assert(self.contracts@[j].contract == x);
                self.lemma_record_index(x, j);
            }
            assert forall|p: int| 0 <= p < self.delegation_contracts_list.view().len() implies {
                let nn = #[trigger] self.delegation_contracts_list.view()[p];
                &&& self.has_record(nn.contract)
                &&& self.record(nn.contract).delegation_score == nn.score
                &&& !self.record(nn.contract).blacklisted
            } by {
                assert(before.has_record(self.delegation_contracts_list.view()[p].contract));
            }
            assert forall|jj: int| 0 <= jj < self.contracts@.len() && !(#[trigger] self.contracts@[jj]).blacklisted
                implies self.delegation_contracts_list.contains(self.contracts@[jj].contract) by {
                assert(jj < n);
                assert(before.contracts@[jj] == self.contracts@[jj]);
            }
            assert forall|jj: int| 0 <= jj < self.contracts@.len() implies record_wf(#[trigger] self.contracts@[jj]) by {
                if jj < n {
                    assert(before.contracts@[jj] == self.contracts@[jj]);
                }
            }
        }
    }

    /// Excludes the counterparty at index `i`: it leaves the registry and is marked outdated
    /// and blacklisted.
    fn delist(&mut self, i: usize)
        requires
            old(self).wf(),
            i < old(self).contracts@.len(),
            !old(self).contracts@[i as int].blacklisted,
        ensures
            final(self).wf(),
            final(self).contracts@ == old(self).contracts@.update(
                i as int,
                DelegationContractData { outdated: true, blacklisted: true, ..old(self).contracts@[i as int] },
            ),
            !final(self).delegation_contracts_list.contains(old(self).contracts@[i as int].contract),
            forall|j: int|
                0 <= j < old(self).delegation_contracts_list.view().len()
                    && #[trigger] old(self).delegation_contracts_list.view()[j].contract
                    == old(self).contracts@[i as int].contract ==> final(self).delegation_contracts_list.view()
                    == old(self).delegation_contracts_list.view().remove(j),
            final(self).same_config(&*old(self)),
            final(self).pool == old(self).pool,
            final(self).penalties == old(self).penalties,
            final(self).last_rewards_claim_epoch@ == old(self).last_rewards_claim_epoch@,
    {
        let ghost before = *self;
        let d = self.contracts[i];
        let c = d.contract;
        let ghost l0 = self.delegation_contracts_list.view();
        proof {
            before.lemma_record_index(c, i as int);
            assert(before.delegation_contracts_list.contains(c));
        }
        let ghost j = choose|j: int| 0 <= j < l0.len() && #[trigger] l0[j].contract == c;
        self.delegation_contracts_list.remove_delegation_contract_from_list(c);
        let nd = DelegationContractData { outdated: true, blacklisted: true, ..d };
        self.contracts.set(i, nd);
        proof {
            let l1 = self.delegation_contracts_list.view();
            assert(l1 == l0.remove(j));
            LiquidStaking::lemma_other_records(before, *self, i as int, nd);
            assert forall|p: int| 0 <= p < l1.len() implies {
                let n = #[trigger] l1[p];
                &&& self.has_record(n.contract)
                &&& self.record(n.contract).delegation_score == n.score
                &&& !self.record(n.contract).blacklisted
            } by {
                let q0 = if p < j { p } else { p + 1 };
                assert(l1[p] == l0[q0]);
                assert(l0[q0].contract != l0[j].contract);
                assert(before.has_record(l0[q0].contract));
            }
            assert forall|jj: int| 0 <= jj < self.contracts@.len() && !(#[trigger] self.contracts@[jj]).blacklisted
                implies self.delegation_contracts_list.contains(self.contracts@[jj].contract) by {
                let x = self.contracts@[jj].contract;
                assert(jj != i);
                assert(before.contracts@[jj] == self.contracts@[jj]);
                assert(before.delegation_contracts_list.contains(x));
                let q0 = choose|q0: int| 0 <= q0 < l0.len() && #[trigger] l0[q0].contract == x;
                assert(x != c) by {
                    assert(before.contracts@[i as int].contract == c);
                }
                assert(q0 != j);
                let q = if q0 < j { q0 } else { q0 - 1 };
                assert(l1[q].contract == x);
            }
            assert forall|jj: int| 0 <= jj < self.contracts@.len() implies record_wf(#[trigger] self.contracts@[jj]) by {
                if jj != i {
                    assert(self.contracts@[jj] == before.contracts@[jj]);
                }
            }
        }
    }

    /// Checks that the caller is the data manager.
    pub fn require_data_manager(&self, caller: Address) -> (r: Result<(), LiquidStakingError>)
        ensures
            r is Ok <==> self.data_manager == Some(caller),
            r is Err ==> r == Err::<(), _>(LiquidStakingError::OnlyDataManager),
    {
        match self.data_manager {
            Some(m) if m == caller => Ok(()),
            _ => Err(LiquidStakingError::OnlyDataManager),
        }
    }

    /// Records a counterparty data update epoch; the recorded epoch never goes back.
    pub fn set_last_contract_data_update_epoch_internal(&mut self, epoch: u64)
        ensures
            final(self).last_contract_data_update_epoch == if epoch > old(self).last_contract_data_update_epoch {
                epoch
            } else {
                old(self).last_contract_data_update_epoch
            },
            final(self).contracts == old(self).contracts,
            final(self).pool == old(self).pool,
            final(self).undelegation_mode == old(self).undelegation_mode,
            final(self).last_undelegate_epoch == old(self).last_undelegate_epoch,
            final(self).admin == old(self).admin,
            final(self).state == old(self).state,
            final(self).delegation_score_model == old(self).delegation_score_model,
            final(self).delegation_sampling_model == old(self).delegation_sampling_model,
            final(self).total_fee == old(self).total_fee,
            final(self).unbond_period == old(self).unbond_period,
            final(self).data_manager == old(self).data_manager,
            final(self).delegation_contracts_list == old(self).delegation_contracts_list,
            final(self).penalties == old(self).penalties,
            final(self).last_rewards_claim_epoch == old(self).last_rewards_claim_epoch,
            final(self).migration_whitelist == old(self).migration_whitelist,
    {
        if epoch > self.last_contract_data_update_epoch {
            self.last_contract_data_update_epoch = epoch;
        }
    }

    /// Registers a counterparty, or readmits an excluded one, with its metrics: its score is
    /// computed with the current model and it enters the registry at the matching position.
    /// Only the admin may do so; the cap, if any, may not be below the locked value.
    pub fn whitelist_delegation_contract(
        &mut self,
        caller: Address,
        delegation_contract: Address,
        total_value_locked: u128,
        nr_nodes: u64,
        apr: u128,
        service_fee: u128,
        opt_cap: Option<u128>,
    ) -> (r: Result<(), LiquidStakingError>)
        requires
            old(self).wf(),
        ensures
            final(self).wf(),
            !old(self).admin.is_admin(caller) ==> r == Err::<(), _>(LiquidStakingError::OnlyAdmin),
            old(self).admin.is_admin(caller) && old(self).delegation_score_model is None ==> r == Err::<(), _>(
                LiquidStakingError::DelegationScoreModelUnset,
            ),
            r is Ok <==> {
                &&& old(self).admin.is_admin(caller)
                &&& old(self).delegation_score_model is Some
                &&& opt_cap matches Some(cap) ==> cap >= total_value_locked
                &&& old(self).has_record(delegation_contract) ==> old(self).record(delegation_contract).blacklisted
                &&& old(self).delegation_contracts_list.view().len() < MAX_DELEGATION_CONTRACTS_LIST_SIZE
            },
            r is Err ==> *final(self) == *old(self),
            r is Ok ==> {
                let score = score_spec(
                    old(self).delegation_score_model->Some_0,
                    total_value_locked as int,
                    apr as int,
                ) as u128;
                let base = if old(self).has_record(delegation_contract) {
                    old(self).record(delegation_contract)
                } else {
                    DelegationContractData {
                        contract: delegation_contract,
                        total_value_locked: 0,
                        cap: None,
                        nr_nodes: 0,
                        apr: 0,
                        service_fee: 0,
                        delegation_score: 0,
                        pending_to_delegate: 0,
                        total_delegated: 0,
                        pending_to_undelegate: 0,
                        total_undelegated: 0,
                        total_withdrawable: 0,
                        outdated: false,
                        blacklisted: false,
                    }
                };
                &&& final(self).has_record(delegation_contract)
                &&& final(self).record(delegation_contract) == (DelegationContractData {
                    total_value_locked,
                    cap: opt_cap,
                    nr_nodes,
                    apr,
                    delegation_score: score,
                    service_fee,
                    outdated: false,
                    blacklisted: false,
                    ..base
                })
                &&& relisted(
                    old(self).delegation_contracts_list.view(),
                    final(self).delegation_contracts_list.view(),
                    delegation_contract,
                    score,
                )
                &&& final(self).pool == old(self).pool
                &&& final(self).same_config(&*old(self))
            },
    {
        self.admin.require_admin(caller)?;
        let model = match self.delegation_score_model {
            Some(m) => m,
            None => return Err(LiquidStakingError::DelegationScoreModelUnset),
        };
        match opt_cap {
            Some(cap) => {
                if cap < total_value_locked {
                    return Err(LiquidStakingError::DelegationCap);
                }
            },
            None => {},
        }
        let existing = self.find_contract(delegation_contract);
        match existing {
            Some(i) => {
                if !self.contracts[i].blacklisted {
                    return Err(LiquidStakingError::NotBlacklistedDelegationContract);
                }
            },
            None => {},
        }
        if self.delegation_contracts_list.len() >= MAX_DELEGATION_CONTRACTS_LIST_SIZE {
            return Err(LiquidStakingError::DelegationContractsListFull);
        }
        let delegation_score = model.compute_delegation_score_internal(total_value_locked, apr);
        let i = match existing {
            Some(i) => i,
            None => {
                let fresh = DelegationContractData {
                    contract: delegation_contract,
                    total_value_locked: 0,
                    cap: None,
                    nr_nodes: 0,
                    apr: 0,
                    service_fee: 0,
                    delegation_score: 0,
                    pending_to_delegate: 0,
                    total_delegated: 0,
                    pending_to_undelegate: 0,
                    total_undelegated: 0,
                    total_withdrawable: 0,
                    outdated: false,
                    blacklisted: true,
                };
                self.push_record(fresh);
                proof {
                    self.lemma_record_index(delegation_contract, self.contracts@.len() - 1);
                }
                self.contracts.len() - 1
            },
        };
        let d = self.contracts[i];
        let nd = DelegationContractData {
            total_value_locked,
            cap: opt_cap,
            nr_nodes,
            apr,
            delegation_score,
            service_fee,
            outdated: false,
            blacklisted: false,
            ..d
        };
        let ghost mid = *self;
        self.replace_and_relist(i, nd);
        proof {
            LiquidStaking::lemma_other_records(mid, *self, i as int, nd);
        }
        Ok(())
    }

    /// Excludes a counterparty: it leaves the registry and is marked outdated and blacklisted.
    /// Only the admin may do so, and only to a registered counterparty not yet excluded.
    pub fn blacklist_delegation_contract(&mut self, caller: Address, delegation_contract: Address) -> (r: Result<
        (),
        LiquidStakingError,
    >)
        requires
            old(self).wf(),
        ensures
            final(self).wf(),
            !old(self).admin.is_admin(caller) ==> r == Err::<(), _>(LiquidStakingError::OnlyAdmin),
            old(self).admin.is_admin(caller) && !old(self).has_record(delegation_contract) ==> r == Err::<(), _>(
                LiquidStakingError::UnexpectedDelegationContract,
            ),
            old(self).admin.is_admin(caller) && old(self).has_record(delegation_contract) && old(self).record(
                delegation_contract,
            ).blacklisted ==> r == Err::<(), _>(LiquidStakingError::BlacklistedDelegationContract),
            r is Ok <==> old(self).admin.is_admin(caller) && old(self).has_record(delegation_contract) && !old(
                self,
            ).record(delegation_contract).blacklisted && !old(self).has_whitelisted_users(delegation_contract),
            r is Err ==> *final(self) == *old(self),
            r is Ok ==> {
                &&& final(self).contracts@ == old(self).contracts@.update(
                    old(self).record_index(delegation_contract),
                    DelegationContractData {
                        outdated: true,
                        blacklisted: true,
                        ..old(self).record(delegation_contract)
                    },
                )
                &&& !final(self).delegation_contracts_list.contains(delegation_contract)
                &&& forall|j: int|
                    0 <= j < old(self).delegation_contracts_list.view().len()
                        && #[trigger] old(self).delegation_contracts_list.view()[j].contract == delegation_contract
                        ==> final(self).delegation_contracts_list.view()
                        == old(self).delegation_contracts_list.view().remove(j)
                &&& final(self).pool == old(self).pool
                &&& final(self).same_config(&*old(self))
            },
    {
        self.admin.require_admin(caller)?;
        let i = self.require_record(delegation_contract)?;
        if self.contracts[i].blacklisted {
            return Err(LiquidStakingError::BlacklistedDelegationContract);
        }
        if self.num_whitelisted_users(delegation_contract) != 0 {
            return Err(LiquidStakingError::InMigrationWhitelist);
        }
        self.delist(i);
        Ok(())
    }
}

impl LiquidStaking {
    /// Updates a registered, not excluded counterparty's metrics (only the data manager may):
    /// its data is up to date again, and when its score under the current model changes it moves
    /// to the matching position of the registry. `current_epoch` is recorded as the last update.
    pub fn change_delegation_contract_params(
        &mut self,
        caller: Address,
        delegation_contract: Address,
        total_value_locked: u128,
        nr_nodes: u64,
        apr: u128,
        service_fee: u128,
        opt_cap: Option<u128>,
        current_epoch: u64,
    ) -> (r: Result<(), LiquidStakingError>)
        requires
            old(self).wf(),
        ensures
            final(self).wf(),
            old(self).data_manager != Some(caller) ==> r == Err::<(), _>(LiquidStakingError::OnlyDataManager),
            r is Ok <==> {
                &&& old(self).data_manager == Some(caller)
                &&& old(self).has_record(delegation_contract)
                &&& !old(self).record(delegation_contract).blacklisted
                &&& old(self).delegation_score_model is Some
                &&& opt_cap matches Some(cap) ==> cap >= total_value_locked
            },
            r is Err ==> *final(self) == *old(self),
            r is Ok ==> {
                let d = old(self).record(delegation_contract);
                let score = score_spec(
                    old(self).delegation_score_model->Some_0,
                    total_value_locked as int,
                    apr as int,
                ) as u128;
                &&& final(self).contracts@ == old(self).contracts@.update(
                    old(self).record_index(delegation_contract),
                    DelegationContractData {
                        total_value_locked,
                        nr_nodes,
                        apr,
                        service_fee,
                        cap: opt_cap,
                        outdated: false,
                        delegation_score: score,
                        ..d
                    },
                )
                &&& score == d.delegation_score ==> final(self).delegation_contracts_list.view()
                    == old(self).delegation_contracts_list.view()
                &&& score != d.delegation_score ==> relisted(
                    old(self).delegation_contracts_list.view(),
                    final(self).delegation_contracts_list.view(),
                    delegation_contract,
                    score,
                )
                &&& final(self).last_contract_data_update_epoch == if current_epoch
                    > old(self).last_contract_data_update_epoch {
                    current_epoch
                } else {
                    old(self).last_contract_data_update_epoch
                }
                &&& final(self).pool == old(self).pool
            },
    {
        self.require_data_manager(caller)?;
        let i = self.require_record(delegation_contract)?;
        let d = self.contracts[i];
        if d.blacklisted {
            return Err(LiquidStakingError::BlacklistedDelegationContract);
        }
        let model = match self.delegation_score_model {
            Some(m) => m,
            None => return Err(LiquidStakingError::DelegationScoreModelUnset),
        };
        match opt_cap {
            Some(cap) => {
                if cap < total_value_locked {
                    return Err(LiquidStakingError::DelegationCap);
                }
            },
            None => {},
        }
        let new_score = model.compute_delegation_score_internal(total_value_locked, apr);
        let nd = DelegationContractData {
            total_value_locked,
            nr_nodes,
            apr,
            service_fee,
            cap: opt_cap,
            outdated: false,
            delegation_score: new_score,
            ..d
        };
        if new_score != d.delegation_score {
            self.replace_and_relist(i, nd);
        } else {
            self.set_record(i, nd);
        }
        self.set_last_contract_data_update_epoch_internal(current_epoch);
        Ok(())
    }

    /// Recomputes every registered counterparty's score with the current model and moves those
    /// whose score changed to their new position. Metrics and funds are untouched.
    pub fn sort_delegation_contracts_list(&mut self)
        requires
            old(self).wf(),
            old(self).delegation_score_model is Some,
        ensures
            final(self).wf(),
            final(self).contracts@.len() == old(self).contracts@.len(),
            forall|i: int|
                0 <= i < old(self).contracts@.len() ==> #[trigger] final(self).contracts@[i] == (
                DelegationContractData {
                    delegation_score: final(self).contracts@[i].delegation_score,
                    ..old(self).contracts@[i]
                }),
            forall|i: int|
                0 <= i < old(self).contracts@.len() && !(#[trigger] final(self).contracts@[i]).blacklisted
                    ==> final(self).contracts@[i].delegation_score == score_spec(
                    old(self).delegation_score_model->Some_0,
                    old(self).contracts@[i].total_value_locked as int,
                    old(self).contracts@[i].apr as int,
                ),
            forall|c: Address|
                #[trigger] final(self).delegation_contracts_list.contains(c) <==> old(
                    self,
                ).delegation_contracts_list.contains(c),
            final(self).same_config(&*old(self)),
            final(self).pool == old(self).pool,
    {
        let model = match self.delegation_score_model {
            Some(m) => m,
            None => return,
        };
        let ghost before = *self;
        let mut ids: Vec<Address> = Vec::new();
        let mut p: usize = 0;
        while p < self.delegation_contracts_list.len()
            invariant
                *self == before,
                self.wf(),
                p <= self.delegation_contracts_list.view().len(),
                ids@.len() == p,
                forall|k: int| 0 <= k < p ==> #[trigger] ids@[k] == before.delegation_contracts_list.view()[k].contract,
            decreases self.delegation_contracts_list.view().len() - p,
        {
            ids.push(self.delegation_contracts_list.node(p).contract);
            p = p + 1;
        }
        let mut q: usize = 0;
        while q < ids.len()
            invariant
                self.wf(),
                self.delegation_score_model == Some(model),
                self.contracts@.len() == before.contracts@.len(),
                ids@.len() == before.delegation_contracts_list.view().len(),
                forall|k: int|
                    0 <= k < ids@.len() ==> #[trigger] ids@[k] == before.delegation_contracts_list.view()[k].contract,
                forall|i: int|
                    0 <= i < before.contracts@.len() ==> #[trigger] self.contracts@[i] == (DelegationContractData {
                        delegation_score: self.contracts@[i].delegation_score,
                        ..before.contracts@[i]
                    }),
                forall|i: int, k: int|
                    0 <= i < before.contracts@.len() && 0 <= k < q && #[trigger] ids@[k]
                        == (#[trigger] self.contracts@[i]).contract && !self.contracts@[i].blacklisted
                        ==> self.contracts@[i].delegation_score == score_spec(
                        model,
                        before.contracts@[i].total_value_locked as int,
                        before.contracts@[i].apr as int,
                    ),
                self.same_config(&before),
                self.pool == before.pool,
            decreases ids@.len() - q,
        {
            let contract = ids[q];
            let ghost prev = *self;
            match self.find_contract(contract) {
                Some(i) => {
                    let d = self.contracts[i];
                    let delegation_score = model.compute_delegation_score(&d);
                    if !d.blacklisted && delegation_score != d.delegation_score {
                        let nd = DelegationContractData { delegation_score, ..d };
                        self.replace_and_relist(i, nd);
                    }
                    proof {
                        assert forall|j: int, k: int|
                            0 <= j < before.contracts@.len() && 0 <= k < q + 1 && #[trigger] ids@[k]
                                == (#[trigger] self.contracts@[j]).contract && !self.contracts@[j].blacklisted
                                implies self.contracts@[j].delegation_score == score_spec(
                                model,
                                before.contracts@[j].total_value_locked as int,
                                before.contracts@[j].apr as int,
                            ) by {
                            assert(prev.contracts@[j].contract == self.contracts@[j].contract);
                            if j == i {
                            } else {
                                assert(self.contracts@[j] == prev.contracts@[j]);
                                if k == q {
                                    assert(prev.contracts@[j].contract != prev.contracts@[i as int].contract);
                                }
                            }
                        }
                    }
                },
                None => {
                    proof {
                        assert forall|j: int, k: int|
                            0 <= j < before.contracts@.len() && 0 <= k < q + 1 && #[trigger] ids@[k]
                                == (#[trigger] self.contracts@[j]).contract && !self.contracts@[j].blacklisted
                                implies self.contracts@[j].delegation_score == score_spec(
                                model,
                                before.contracts@[j].total_value_locked as int,
                                before.contracts@[j].apr as int,
                            ) by {
                            if k == q {
                                assert(self.contracts@[j].contract == contract);
                            }
                        }
                    }
                },
            }
            q = q + 1;
        }
        proof {
            assert forall|i: int| 0 <= i < before.contracts@.len() && !(#[trigger] self.contracts@[i]).blacklisted
                implies self.contracts@[i].delegation_score == score_spec(
                model,
                before.contracts@[i].total_value_locked as int,
                before.contracts@[i].apr as int,
            ) by {
                assert(!before.contracts@[i].blacklisted);
                assert(before.delegation_contracts_list.contains(before.contracts@[i].contract));
                let k = choose|k: int| 0 <= k < before.delegation_contracts_list.view().len()
                    && #[trigger] before.delegation_contracts_list.view()[k].contract == before.contracts@[i].contract;
                assert(ids@[k] == self.contracts@[i].contract);
            }
            assert forall|c: Address|
                #[trigger] self.delegation_contracts_list.contains(c) <==> before.delegation_contracts_list.contains(c) by {
                self.lemma_listed_iff(c);
                before.lemma_listed_iff(c);
                if self.delegation_contracts_list.contains(c) {
                    let i = choose|i: int| 0 <= i < self.contracts@.len() && #[trigger] self.contracts@[i].contract == c
                        && !self.contracts@[i].blacklisted;
                    assert(before.contracts@[i].contract == c && !before.contracts@[i].blacklisted);
                }
                if before.delegation_contracts_list.contains(c) {
                    let i = choose|i: int| 0 <= i < before.contracts@.len() && #[trigger] before.contracts@[i].contract == c
                        && !before.contracts@[i].blacklisted;
                    assert(self.contracts@[i] == (DelegationContractData {
                        delegation_score: self.contracts@[i].delegation_score,
                        ..before.contracts@[i]
                    }));
                    assert(self.contracts@[i].contract == c && !self.contracts@[i].blacklisted);
                }
            }
        }
    }

    /// Sets the score model (only the admin may): a value-only or yield-only model needs a non-empty
    /// domain and no blend weight; a blend needs both domains and a weight of at most `BPS`. With
    /// `sort`, the registry is then rescored.
    pub fn set_delegation_score_model_params(
        &mut self,
        caller: Address,
        method: DelegationScoreMethod,
        min_tvl: u128,
        max_tvl: u128,
        min_apr: u128,
        max_apr: u128,
        sort: bool,
        opt_omega: Option<u128>,
    ) -> (r: Result<(), LiquidStakingError>)
        requires
            old(self).wf(),
        ensures
            final(self).wf(),
            !old(self).admin.is_admin(caller) ==> r == Err::<(), _>(LiquidStakingError::OnlyAdmin),
            old(self).admin.is_admin(caller) ==> match method {
                DelegationScoreMethod::Tvl => {
                    &&& max_tvl <= min_tvl ==> r == Err::<(), _>(LiquidStakingError::InvalidDomain)
                    &&& max_tvl > min_tvl && opt_omega is Some ==> r == Err::<(), _>(LiquidStakingError::UnexpectedValue)
                    &&& max_tvl > min_tvl && opt_omega is None ==> r is Ok
                },
                DelegationScoreMethod::Apr => {
                    &&& max_apr <= min_apr ==> r == Err::<(), _>(LiquidStakingError::InvalidDomain)
                    &&& max_apr > min_apr && opt_omega is Some ==> r == Err::<(), _>(LiquidStakingError::UnexpectedValue)
                    &&& max_apr > min_apr && opt_omega is None ==> r is Ok
                },
                DelegationScoreMethod::Mixed => {
                    &&& !(max_tvl > min_tvl && max_apr > min_apr) ==> r == Err::<(), _>(LiquidStakingError::InvalidDomain)
                    &&& max_tvl > min_tvl && max_apr > min_apr && opt_omega is None ==> r == Err::<(), _>(
                        LiquidStakingError::ExpectedValue,
                    )
                    &&& max_tvl > min_tvl && max_apr > min_apr ==> (opt_omega matches Some(w) ==> (r is Ok
                        <==> w <= BPS))
                },
            },
            r is Err ==> *final(self) == *old(self),
            r is Ok ==> {
                let omega = match method {
                    DelegationScoreMethod::Tvl => BPS,
                    DelegationScoreMethod::Apr => 0,
                    DelegationScoreMethod::Mixed => opt_omega->Some_0,
                };
                &&& final(self).delegation_score_model == Some(
                    DelegationScoreModel { method, min_tvl, max_tvl, min_apr, max_apr, omega },
                )
                &&& !sort ==> final(self).contracts == old(self).contracts
                    && final(self).delegation_contracts_list == old(self).delegation_contracts_list
                &&& sort ==> final(self).contracts@.len() == old(self).contracts@.len()
                &&& sort ==> forall|i: int|
                    0 <= i < old(self).contracts@.len() ==> #[trigger] final(self).contracts@[i] == (
                    DelegationContractData {
                        delegation_score: final(self).contracts@[i].delegation_score,
                        ..old(self).contracts@[i]
                    })
                &&& sort ==> forall|c: Address|
                    #[trigger] final(self).delegation_contracts_list.contains(c) <==> old(
                        self,
                    ).delegation_contracts_list.contains(c)
                &&& sort ==> forall|i: int|
                    0 <= i < final(self).contracts@.len() && !(#[trigger] final(self).contracts@[i]).blacklisted
                        ==> final(self).contracts@[i].delegation_score == score_spec(
                        DelegationScoreModel { method, min_tvl, max_tvl, min_apr, max_apr, omega },
                        final(self).contracts@[i].total_value_locked as int,
                        final(self).contracts@[i].apr as int,
                    )
                &&& final(self).pool == old(self).pool
            },
    {
        self.admin.require_admin(caller)?;
        let omega = match method {
            DelegationScoreMethod::Tvl => {
                if max_tvl <= min_tvl {
                    return Err(LiquidStakingError::InvalidDomain);
                }
                if opt_omega.is_some() {
                    return Err(LiquidStakingError::UnexpectedValue);
                }
                BPS
            },
            DelegationScoreMethod::Apr => {
                if max_apr <= min_apr {
                    return Err(LiquidStakingError::InvalidDomain);
                }
                if opt_omega.is_some() {
                    return Err(LiquidStakingError::UnexpectedValue);
                }
                0
            },
            DelegationScoreMethod::Mixed => {
                if !(max_tvl > min_tvl && max_apr > min_apr) {
                    return Err(LiquidStakingError::InvalidDomain);
                }
                match opt_omega {
                    None => return Err(LiquidStakingError::ExpectedValue),
                    Some(w) => {
                        if w > BPS {
                            return Err(LiquidStakingError::ValueExceedsBps);
                        }
                        w
                    },
                }
            },
        };
        self.delegation_score_model = Some(
            DelegationScoreModel { method, min_tvl, max_tvl, min_apr, max_apr, omega },
        );
        if sort {
            self.sort_delegation_contracts_list();
        }
        Ok(())
    }

    /// Sets the sampling model (only the admin may): tolerance and fee ceiling are non-zero
    /// basis-point fractions, and the premium is bounded.
    pub fn set_delegation_sampling_model_params(
        &mut self,
        caller: Address,
        tolerance: u128,
        max_service_fee: u128,
        premium: u128,
    ) -> (r: Result<(), LiquidStakingError>)
        requires
            old(self).wf(),
        ensures
            final(self).wf(),
            !old(self).admin.is_admin(caller) ==> r == Err::<(), _>(LiquidStakingError::OnlyAdmin),
            old(self).admin.is_admin(caller) && tolerance == 0 ==> r == Err::<(), _>(LiquidStakingError::ValueCannotBeZero),
            old(self).admin.is_admin(caller) && tolerance > BPS ==> r == Err::<(), _>(LiquidStakingError::ValueExceedsBps),
            r is Ok <==> old(self).admin.is_admin(caller) && (SamplingModel { tolerance, max_service_fee, premium }).wf(),
            r is Err ==> *final(self) == *old(self),
            r is Ok ==> final(self).delegation_sampling_model == Some(SamplingModel { tolerance, max_service_fee, premium })
                && final(self).contracts == old(self).contracts
                && final(self).delegation_contracts_list == old(self).delegation_contracts_list,
    {
        self.admin.require_admin(caller)?;
        if tolerance == 0 {
            return Err(LiquidStakingError::ValueCannotBeZero);
        }
        if tolerance > BPS {
            return Err(LiquidStakingError::ValueExceedsBps);
        }
        if max_service_fee == 0 {
            return Err(LiquidStakingError::ValueCannotBeZero);
        }
        if max_service_fee > BPS {
            return Err(LiquidStakingError::ValueExceedsBps);
        }
        if premium > MAX_SAMPLING_PREMIUM {
            return Err(LiquidStakingError::PremiumTooLarge);
        }
        self.delegation_sampling_model = Some(SamplingModel { tolerance, max_service_fee, premium });
        Ok(())
    }

    /// Removes sampling: selection returns the best counterparty (only the admin may).
    pub fn clear_delegation_sampling_model(&mut self, caller: Address) -> (r: Result<(), LiquidStakingError>)
        requires
            old(self).wf(),
        ensures
            final(self).wf(),
            r is Ok <==> old(self).admin.is_admin(caller),
            r is Err ==> r == Err::<(), _>(LiquidStakingError::OnlyAdmin) && *final(self) == *old(self),
            r is Ok ==> final(self).delegation_sampling_model is None && final(self).contracts == old(self).contracts,
    {
        self.admin.require_admin(caller)?;
        self.delegation_sampling_model = None;
        Ok(())
    }

    /// Sets the total fee charged on rewards, in `(0, BPS]` (only the admin may).
    pub fn set_total_fee(&mut self, caller: Address, fee: u128) -> (r: Result<(), LiquidStakingError>)
        requires
            old(self).wf(),
        ensures
            final(self).wf(),
            !old(self).admin.is_admin(caller) ==> r == Err::<(), _>(LiquidStakingError::OnlyAdmin),
            old(self).admin.is_admin(caller) && fee == 0 ==> r == Err::<(), _>(LiquidStakingError::ValueCannotBeZero),
            old(self).admin.is_admin(caller) && fee > BPS ==> r == Err::<(), _>(LiquidStakingError::ValueExceedsBps),
            r is Ok <==> old(self).admin.is_admin(caller) && 0 < fee <= BPS,
            r is Err ==> *final(self) == *old(self),
            r is Ok ==> final(self).total_fee == Some(fee) && final(self).contracts == old(self).contracts,
    {
        self.admin.require_admin(caller)?;
        if fee == 0 {
            return Err(LiquidStakingError::ValueCannotBeZero);
        }
        if fee > BPS {
            return Err(LiquidStakingError::ValueExceedsBps);
        }
        self.total_fee = Some(fee);
        Ok(())
    }

    /// Sets the data manager, who may update counterparty metrics (only the admin may).
    pub fn set_data_manager(&mut self, caller: Address, new_data_manager: Address) -> (r: Result<(), LiquidStakingError>)
        requires
            old(self).wf(),
        ensures
            final(self).wf(),
            r is Ok <==> old(self).admin.is_admin(caller),
            r is Err ==> r == Err::<(), _>(LiquidStakingError::OnlyAdmin) && *final(self) == *old(self),
            r is Ok ==> final(self).data_manager == Some(new_data_manager) && final(self).contracts
                == old(self).contracts,
    {
        self.admin.require_admin(caller)?;
        self.data_manager = Some(new_data_manager);
        Ok(())
    }

    /// Activates the protocol once the total fee, the score model and the data manager are set
    /// (only the admin may).
    pub fn set_state_active(&mut self, caller: Address) -> (r: Result<(), LiquidStakingError>)
        requires
            old(self).wf(),
        ensures
            final(self).wf(),
            !old(self).admin.is_admin(caller) ==> r == Err::<(), _>(LiquidStakingError::OnlyAdmin),
            old(self).admin.is_admin(caller) && old(self).total_fee is None ==> r == Err::<(), _>(
                LiquidStakingError::TotalFeeUnset,
            ),
            r is Ok <==> old(self).admin.is_admin(caller) && old(self).total_fee is Some
                && old(self).delegation_score_model is Some && old(self).data_manager is Some,
            r is Err ==> *final(self) == *old(self),
            r is Ok ==> final(self).state == State::Active && final(self).contracts == old(self).contracts,
    {
        self.admin.require_admin(caller)?;
        if self.total_fee.is_none() {
            return Err(LiquidStakingError::TotalFeeUnset);
        }
        if self.delegation_score_model.is_none() {
            return Err(LiquidStakingError::DelegationScoreModelUnset);
        }
        if self.data_manager.is_none() {
            return Err(LiquidStakingError::DataManagerUnset);
        }
        self.state = State::Active;
        Ok(())
    }

    /// After an upgrade the protocol starts inactive.
    pub fn upgrade(&mut self)
        requires
            old(self).wf(),
        ensures
            final(self).wf(),
            final(self).state == State::Inactive,
            final(self).contracts == old(self).contracts,
            final(self).pool == old(self).pool,
    {
        self.state = State::Inactive;
    }

    /// Deactivates the protocol (only the admin may).
    pub fn set_state_inactive(&mut self, caller: Address) -> (r: Result<(), LiquidStakingError>)
        requires
            old(self).wf(),
        ensures
            final(self).wf(),
            r is Ok <==> old(self).admin.is_admin(caller),
            r is Err ==> r == Err::<(), _>(LiquidStakingError::OnlyAdmin) && *final(self) == *old(self),
            r is Ok ==> final(self).state == State::Inactive && final(self).contracts == old(self).contracts,
    {
        self.admin.require_admin(caller)?;
        self.state = State::Inactive;
        Ok(())
    }

    /// Takes `egld_amount` out of the protocol reserve (only the admin may); returns it.
    pub fn withdraw_reserve(&mut self, caller: Address, egld_amount: u128) -> (r: Result<u128, LiquidStakingError>)
        requires
            old(self).wf(),
        ensures
            final(self).wf(),
            !old(self).admin.is_admin(caller) ==> r == Err::<u128, _>(LiquidStakingError::OnlyAdmin),
            old(self).admin.is_admin(caller) && egld_amount > old(self).pool.protocol_reserve ==> r == Err::<u128, _>(
                LiquidStakingError::NotEnoughProtocolReserves,
            ),
            r is Ok <==> old(self).admin.is_admin(caller) && egld_amount <= old(self).pool.protocol_reserve,
            r is Err ==> *final(self) == *old(self),
            r is Ok ==> r == Ok::<u128, LiquidStakingError>(egld_amount) && final(self).pool.protocol_reserve
                == old(self).pool.protocol_reserve - egld_amount && final(self).contracts == old(self).contracts,
    {
        self.admin.require_admin(caller)?;
        if egld_amount > self.pool.protocol_reserve {
            return Err(LiquidStakingError::NotEnoughProtocolReserves);
        }
        self.pool.protocol_reserve = self.pool.protocol_reserve - egld_amount;
        Ok(egld_amount)
    }

    /// Opens the undelegation mode, letting anyone choose the counterparty of a withdrawal, once
    /// no undelegation succeeded or no counterparty data was updated for long enough.
    pub fn deactivate_undelegation_algorithm(&mut self, current_epoch: u64) -> (r: Result<(), LiquidStakingError>)
        requires
            old(self).wf(),
        ensures
            final(self).wf(),
            r is Ok <==> (current_epoch >= old(self).last_undelegate_epoch + NO_UNDELEGATE_EPOCHS
                || current_epoch >= old(self).last_contract_data_update_epoch + NO_DATA_UPDATE_EPOCHS),
            r is Err ==> r == Err::<(), _>(LiquidStakingError::NotEnoughElapsedEpochs) && *final(self) == *old(self),
            r is Ok ==> final(self).undelegation_mode == UndelegationMode::Open && final(self).contracts
                == old(self).contracts,
    {
        let undelegate_elapsed = current_epoch >= self.last_undelegate_epoch
            && current_epoch - self.last_undelegate_epoch >= NO_UNDELEGATE_EPOCHS;
        let update_elapsed = current_epoch >= self.last_contract_data_update_epoch
            && current_epoch - self.last_contract_data_update_epoch >= NO_DATA_UPDATE_EPOCHS;
        if !(undelegate_elapsed || update_elapsed) {
            return Err(LiquidStakingError::NotEnoughElapsedEpochs);
        }
        self.undelegation_mode = UndelegationMode::Open;
        Ok(())
    }

    /// Returns to the undelegation algorithm (only the admin may), after the cooldown has passed
    /// since the last undelegation; `current_epoch` is recorded as the last undelegation.
    pub fn reactivate_undelegation_algorithm(&mut self, caller: Address, current_epoch: u64) -> (r: Result<
        (),
        LiquidStakingError,
    >)
        requires
            old(self).wf(),
        ensures
            final(self).wf(),
            !old(self).admin.is_admin(caller) ==> r == Err::<(), _>(LiquidStakingError::OnlyAdmin),
            r is Ok <==> old(self).admin.is_admin(caller) && current_epoch >= old(self).last_undelegate_epoch
                + NO_UNDELEGATE_EPOCHS + COOLDOWN_REACTIVATE_UNDELEGATION_ALGORITHM,
            r is Err ==> *final(self) == *old(self),
            r is Ok ==> final(self).undelegation_mode == UndelegationMode::Algorithm
                && final(self).last_undelegate_epoch == current_epoch && final(self).contracts == old(self).contracts,
    {
        self.admin.require_admin(caller)?;
        if !(current_epoch >= self.last_undelegate_epoch && current_epoch - self.last_undelegate_epoch
            >= NO_UNDELEGATE_EPOCHS + COOLDOWN_REACTIVATE_UNDELEGATION_ALGORITHM) {
            return Err(LiquidStakingError::NotEnoughElapsedEpochs);
        }
        self.set_last_undelegate_epoch_internal(current_epoch);
        self.undelegation_mode = UndelegationMode::Algorithm;
        Ok(())
    }
}

} // verus!
