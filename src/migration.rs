use vstd::prelude::*;
use crate::contract::LiquidStaking;
use crate::errors::LiquidStakingError;
use crate::model::Address;
use crate::selection::{has_valid_cap, has_valid_cap_spec};

verus! {

impl LiquidStaking {
    /// Whether the user may bypass selection.
    pub open spec fn is_migration_whitelisted(&self, user: Address) -> bool {
        exists|i: int| 0 <= i < self.migration_whitelist@.len() && #[trigger] self.migration_whitelist@[i].0 == user
    }

    /// The position of the user's entry.
    pub open spec fn migration_index(&self, user: Address) -> int {
        choose|i: int| 0 <= i < self.migration_whitelist@.len() && #[trigger] self.migration_whitelist@[i].0 == user
    }

    /// The counterparty a whitelisted user's deposits go to.
    pub open spec fn migration_contract(&self, user: Address) -> Address {
        self.migration_whitelist@[self.migration_index(user)].1
    }

    /// Whether some user's deposits go to the counterparty.
    pub open spec fn has_whitelisted_users(&self, delegation_contract: Address) -> bool {
        exists|i: int|
            0 <= i < self.migration_whitelist@.len() && #[trigger] self.migration_whitelist@[i].1 == delegation_contract
    }

    /// The position of the user's entry, if any.
    pub fn find_whitelisted_user(&self, user: Address) -> (r: Option<usize>)
        requires
            self.wf(),
        ensures
            r is None <==> !self.is_migration_whitelisted(user),
            r matches Some(i) ==> i < self.migration_whitelist@.len() && i == self.migration_index(user)
                && self.migration_whitelist@[i as int].0 == user,
    {
        let mut i: usize = 0;
        while i < self.migration_whitelist.len()
            invariant
                self.wf(),
                i <= self.migration_whitelist@.len(),
                forall|j: int| 0 <= j < i ==> #[trigger] self.migration_whitelist@[j].0 != user,
            decreases self.migration_whitelist@.len() - i,
        {
            if self.migration_whitelist[i].0 == user {
                proof {
                    let k = self.migration_index(user);
                    assert(self.migration_whitelist@[i as int].0 == user);
                    assert(k == i);
                }
                return Some(i);
            }
            i = i + 1;
        }
        None
    }

    /// Counts the users whose deposits go to the counterparty.
    pub fn num_whitelisted_users(&self, delegation_contract: Address) -> (r: usize)
        ensures
            (r == 0) <==> !self.has_whitelisted_users(delegation_contract),
            r <= self.migration_whitelist@.len(),
    {
        let mut n: usize = 0;
        let mut i: usize = 0;
        while i < self.migration_whitelist.len()
            invariant
                i <= self.migration_whitelist@.len(),
                n <= i,
                (n == 0) <==> forall|j: int| 0 <= j < i ==> #[trigger] self.migration_whitelist@[j].1 != delegation_contract,
            decreases self.migration_whitelist@.len() - i,
        {
            if self.migration_whitelist[i].1 == delegation_contract {
                n = n + 1;
            }
            i = i + 1;
        }
        n
    }

    /// Lets `user` deposit straight to a registered, not excluded counterparty of the registry,
    /// bypassing selection (only the admin may; a user has at most one entry).
    pub fn add_to_migration_whitelist(&mut self, caller: Address, user: Address, delegation_contract: Address) -> (r:
        Result<(), LiquidStakingError>)
        requires
            old(self).wf(),
        ensures
            final(self).wf(),
            !old(self).admin.is_admin(caller) ==> r == Err::<(), _>(LiquidStakingError::OnlyAdmin),
            old(self).admin.is_admin(caller) && old(self).is_migration_whitelisted(user) ==> r == Err::<(), _>(
                LiquidStakingError::UserAlreadyWhitelisted,
            ),
            r is Ok <==> old(self).admin.is_admin(caller) && !old(self).is_migration_whitelisted(user)
                && old(self).has_record(delegation_contract) && !old(self).record(delegation_contract).blacklisted
                && old(self).delegation_contracts_list.contains(delegation_contract),
            r is Err ==> *final(self) == *old(self),
            r is Ok ==> final(self).migration_whitelist@ == old(self).migration_whitelist@.push(
                (user, delegation_contract),
            ) && final(self).contracts == old(self).contracts && final(self).pool == old(self).pool,
    {
        self.admin.require_admin(caller)?;
        if self.find_whitelisted_user(user).is_some() {
            return Err(LiquidStakingError::UserAlreadyWhitelisted);
        }
        let i = self.require_record(delegation_contract)?;
        if self.contracts[i].blacklisted {
            return Err(LiquidStakingError::BlacklistedDelegationContract);
        }
        if !self.delegation_contracts_list.is_delegation_contract_in_list(delegation_contract) {
            return Err(LiquidStakingError::DelegationContractNotInList);
        }
        let ghost before = self.migration_whitelist@;
        self.migration_whitelist.push((user, delegation_contract));
        proof {
            assert forall|a: int, b: int|
                0 <= a < self.migration_whitelist@.len() && 0 <= b < self.migration_whitelist@.len() && a != b
                implies #[trigger] self.migration_whitelist@[a].0 != #[trigger] self.migration_whitelist@[b].0 by {
                let n = before.len() as int;
                if a < n && b < n {
                    assert(before[a].0 != before[b].0);
                } else if a == n {
                    assert(before[b].0 != user);
                } else {
                    assert(before[a].0 != user);
                }
            }
        }
        Ok(())
    }

    /// Removes the user's entry.
    pub fn remove_from_migration_whitelist_internal(&mut self, user: Address) -> (r: Result<(), LiquidStakingError>)
        requires
            old(self).wf(),
        ensures
            final(self).wf(),
            r is Ok <==> old(self).is_migration_whitelisted(user),
            r is Err ==> r == Err::<(), _>(LiquidStakingError::UserNotWhitelisted) && *final(self) == *old(self),
            r is Ok ==> final(self).migration_whitelist@ == old(self).migration_whitelist@.remove(
                old(self).migration_index(user),
            ) && !final(self).is_migration_whitelisted(user) && final(self).contracts == old(self).contracts
                && final(self).pool == old(self).pool,
    {
        let i = match self.find_whitelisted_user(user) {
            Some(i) => i,
            None => return Err(LiquidStakingError::UserNotWhitelisted),
        };
        let ghost before = self.migration_whitelist@;
        self.migration_whitelist.remove(i);
        proof {
            assert forall|a: int, b: int|
                0 <= a < self.migration_whitelist@.len() && 0 <= b < self.migration_whitelist@.len() && a != b
                implies #[trigger] self.migration_whitelist@[a].0 != #[trigger] self.migration_whitelist@[b].0 by {
                let a0 = if a < i { a } else { a + 1 };
                let b0 = if b < i { b } else { b + 1 };
                assert(before[a0].0 != before[b0].0);
            }
            assert forall|a: int| 0 <= a < self.migration_whitelist@.len()
                implies #[trigger] self.migration_whitelist@[a].0 != user by {
                let a0 = if a < i { a } else { a + 1 };
                assert(before[a0].0 != before[i as int].0);
            }
        }
        Ok(())
    }

    /// Removes a user's entry (only the admin may).
    pub fn remove_from_migration_whitelist(&mut self, caller: Address, user: Address) -> (r: Result<(), LiquidStakingError>)
        requires
            old(self).wf(),
        ensures
            final(self).wf(),
            !old(self).admin.is_admin(caller) ==> r == Err::<(), _>(LiquidStakingError::OnlyAdmin),
            r is Ok <==> old(self).admin.is_admin(caller) && old(self).is_migration_whitelisted(user),
            r is Err ==> *final(self) == *old(self),
            r is Ok ==> !final(self).is_migration_whitelisted(user),
    {
        self.admin.require_admin(caller)?;
        self.remove_from_migration_whitelist_internal(user)
    }

    /// Removes the caller's own entry.
    pub fn remove_me_from_migration_whitelist(&mut self, caller: Address) -> (r: Result<(), LiquidStakingError>)
        requires
            old(self).wf(),
        ensures
            final(self).wf(),
            r is Ok <==> old(self).is_migration_whitelisted(caller),
            r is Err ==> *final(self) == *old(self),
            r is Ok ==> !final(self).is_migration_whitelisted(caller),
    {
        self.remove_from_migration_whitelist_internal(caller)
    }

    /// The counterparty a whitelisted user's deposit of `egld_amount` goes to: it must still be
    /// registered, not excluded, in the registry, up to date and under its cap. Its fee is not checked.
    pub fn get_whitelisted_delegation_contract_for_delegate(&self, user: Address, egld_amount: u128) -> (r: Result<
        Address,
        LiquidStakingError,
    >)
        requires
            self.wf(),
        ensures
            !self.is_migration_whitelisted(user) ==> r == Err::<Address, _>(LiquidStakingError::UserNotWhitelisted),
            r is Ok <==> {
                let c = self.migration_contract(user);
                &&& self.is_migration_whitelisted(user)
                &&& self.has_record(c)
                &&& !self.record(c).blacklisted
                &&& self.delegation_contracts_list.contains(c)
                &&& has_valid_cap_spec(self.record(c), egld_amount as int)
                &&& !self.record(c).outdated
            },
            r matches Ok(c) ==> c == self.migration_contract(user),
    {
        let w = match self.find_whitelisted_user(user) {
            Some(w) => w,
            None => return Err(LiquidStakingError::UserNotWhitelisted),
        };
        let delegation_contract = self.migration_whitelist[w].1;
        let i = self.require_record(delegation_contract)?;
        let d = self.contracts[i];
        if d.blacklisted {
            return Err(LiquidStakingError::BlacklistedDelegationContract);
        }
        if !self.delegation_contracts_list.is_delegation_contract_in_list(delegation_contract) {
            return Err(LiquidStakingError::DelegationContractNotInList);
        }
        if !(has_valid_cap(&d, egld_amount) && !d.outdated) {
            return Err(LiquidStakingError::InvalidDelegationContract);
        }
        Ok(delegation_contract)
    }
}

} // verus!
