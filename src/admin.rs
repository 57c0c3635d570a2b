use vstd::prelude::*;
use crate::errors::LiquidStakingError;
use crate::model::Address;

verus! {

/// Who administers the protocol, and who has been offered the role.
#[derive(Clone, Copy, Debug, PartialEq, Eq)]
pub struct AdminModule {
    pub admin: Option<Address>,
    pub pending_admin: Option<Address>,
}

/// The zero address, which can never be the admin.
pub const ZERO_ADDRESS: Address = 0;

impl AdminModule {
    /// No admin yet.
    pub fn new() -> (r: AdminModule)
        ensures
            r.admin is None,
            r.pending_admin is None,
    {
        AdminModule { admin: None, pending_admin: None }
    }

    /// Whether `caller` is the admin.
    pub open spec fn is_admin(&self, caller: Address) -> bool {
        self.admin == Some(caller)
    }

    /// Sets the admin to a non-zero address.
    pub fn set_admin_internal(&mut self, admin: Address) -> (r: Result<(), LiquidStakingError>)
        ensures
            r is Ok <==> admin != ZERO_ADDRESS,
            r is Ok ==> *final(self) == (AdminModule { admin: Some(admin), ..*old(self) }),
            r is Err ==> r == Err::<(), _>(LiquidStakingError::AddressZero) && *final(self)
                == *old(self),
    {
        if admin == ZERO_ADDRESS {
            return Err(LiquidStakingError::AddressZero);
        }
        self.admin = Some(admin);
        Ok(())
    }

    /// Checks that the caller is the current admin.
    pub fn require_admin(&self, caller: Address) -> (r: Result<(), LiquidStakingError>)
        ensures
            r is Ok <==> self.is_admin(caller),
            r is Err ==> r == Err::<(), _>(LiquidStakingError::OnlyAdmin),
    {
        match self.admin {
            Some(a) if a == caller => Ok(()),
            _ => Err(LiquidStakingError::OnlyAdmin),
        }
    }

    /// Sets the admin only if none is set yet: the given one, or else the caller.
    pub fn try_set_admin(&mut self, caller: Address, opt_admin: Option<Address>) -> (r: Result<
        (),
        LiquidStakingError,
    >)
        ensures
            ({
                let chosen = match opt_admin {
                    Some(a) => a,
                    None => caller,
                };
                &&& old(self).admin is Some ==> r is Ok && *final(self) == *old(self)
                &&& old(self).admin is None ==> (r is Ok <==> chosen != ZERO_ADDRESS)
                &&& old(self).admin is None && r is Ok ==> *final(self) == (AdminModule {
                    admin: Some(chosen),
                    ..*old(self)
                })
                &&& r is Err ==> *final(self) == *old(self)
            }),
    {
        if self.admin.is_none() {
            let admin = match opt_admin {
                Some(a) => a,
                None => caller,
            };
            self.set_admin_internal(admin)
        } else {
            Ok(())
        }
    }

    /// The current admin.
    pub fn get_admin(&self) -> (r: Option<Address>)
        ensures
            r == self.admin,
    {
        self.admin
    }

    /// The pending admin, if one has been offered the role.
    pub fn get_pending_admin(&self) -> (r: Option<Address>)
        ensures
            r == self.pending_admin,
    {
        self.pending_admin
    }

    /// Offers the admin role to a non-zero address; only the admin may do so.
    pub fn set_pending_admin(&mut self, caller: Address, pending_admin: Address) -> (r: Result<
        (),
        LiquidStakingError,
    >)
        ensures
            !old(self).is_admin(caller) ==> r == Err::<(), _>(LiquidStakingError::OnlyAdmin),
            old(self).is_admin(caller) && pending_admin == ZERO_ADDRESS ==> r == Err::<(), _>(
                LiquidStakingError::AddressZero,
            ),
            r is Ok <==> old(self).is_admin(caller) && pending_admin != ZERO_ADDRESS,
            r is Ok ==> *final(self) == (AdminModule {
                pending_admin: Some(pending_admin),
                ..*old(self)
            }),
            r is Err ==> *final(self) == *old(self),
    {
        self.require_admin(caller)?;
        if pending_admin == ZERO_ADDRESS {
            return Err(LiquidStakingError::AddressZero);
        }
        self.pending_admin = Some(pending_admin);
        Ok(())
    }

    /// The pending admin accepts the role and becomes the admin.
    pub fn accept_admin(&mut self, caller: Address) -> (r: Result<(), LiquidStakingError>)
        requires
            old(self).pending_admin != Some(ZERO_ADDRESS),
        ensures
            old(self).pending_admin is None ==> r == Err::<(), _>(
                LiquidStakingError::MissingPendingAdmin,
            ),
            old(self).pending_admin is Some && old(self).pending_admin != Some(caller) ==> r
                == Err::<(), _>(LiquidStakingError::OnlyPendingAdmin),
            r is Ok <==> old(self).pending_admin == Some(caller),
            r is Ok ==> *final(self) == (AdminModule { admin: Some(caller), pending_admin: None }),
            r is Err ==> *final(self) == *old(self),
    {
        match self.pending_admin {
            None => Err(LiquidStakingError::MissingPendingAdmin),
            Some(new_admin) => {
                if new_admin != caller {
                    return Err(LiquidStakingError::OnlyPendingAdmin);
                }
                self.pending_admin = None;
                self.set_admin_internal(new_admin)
            },
        }
    }
}

} // verus!
