//! Who holds which role.

use crate::failure::Failure;
use crate::ledger::Ledger;
use crate::table::{Table, TableKey};
use crate::types::Address;
use vstd::prelude::*;

verus! {

/// Why the store of roles rejects a call.
#[derive(Clone, Copy, Debug, PartialEq, Eq, Structural)]
pub enum Error {
    AlreadyInitialized,
    NotInitialized,
    /// The caller is not the administrator.
    Unauthorized,
}

/// The roles that the contracts ask for.
#[derive(Clone, Copy, Debug, PartialEq, Eq, Structural)]
pub enum Role {
    Controller,
    MarketKeeper,
    OrderKeeper,
    LiquidationKeeper,
    AdlKeeper,
    FeeKeeper,
}

/// A role that an account holds.
#[derive(Clone, Copy, Debug, PartialEq, Eq, Structural)]
pub struct Grant {
    pub account: Address,
    pub role: Role,
}

impl TableKey for Grant {
    type Id = Grant;

    open spec fn id(&self) -> Grant {
        *self
    }

    fn same(&self, other: &Self) -> (r: bool) {
        *self == *other
    }
}

/// The roles that have been granted and not revoked.
pub struct RoleStore {
    admin: Option<Address>,
    grants: Table<Grant, bool>,
}

impl View for RoleStore {
    type V = Set<Grant>;

    closed spec fn view(&self) -> Set<Grant> {
        self.grants@.dom()
    }
}

/// Whether an account holds a role.
pub open spec fn holds(roles: Set<Grant>, account: Address, role: Role) -> bool {
    roles.contains(Grant { account, role })
}

/// Whether a caller may grant and revoke: they authorised the call and are the
/// administrator.
pub open spec fn admin_check(admin: Option<Address>, ledger: Ledger, caller: Address) -> Result<
    (),
    Failure,
> {
    if !ledger.authorised(caller) {
        Err(Failure::MissingAuthorisation)
    } else {
        match admin {
            None => Err(Failure::Roles(Error::NotInitialized)),
            Some(a) => if a != caller {
                Err(Failure::Roles(Error::Unauthorized))
            } else {
                Ok(())
            },
        }
    }
}

impl RoleStore {
    /// Who grants and revokes roles, once that is settled.
    pub closed spec fn admin(&self) -> Option<Address> {
        self.admin
    }

    /// No role granted, and nobody to grant any.
    pub fn new() -> (r: Self)
        ensures
            r@ == Set::<Grant>::empty(),
            r.admin() is None,
    {
        let r = RoleStore { admin: None, grants: Table::new() };
        assert(r@ =~= Set::<Grant>::empty());
        r
    }

    /// Names the administrator, once.
    pub fn initialize(&mut self, ledger: &Ledger, admin: Address) -> (r: Result<(), Failure>)
        ensures
            r == if !ledger.authorised(admin) {
                Err::<(), Failure>(Failure::MissingAuthorisation)
            } else if old(self).admin() is Some {
                Err(Failure::Roles(Error::AlreadyInitialized))
            } else {
                Ok(())
            },
            final(self)@ == old(self)@,
            final(self).admin() == if r is Ok {
                Some(admin)
            } else {
                old(self).admin()
            },
    {
        ledger.require_auth(&admin)?;
        if self.admin.is_some() {
            return Err(Failure::Roles(Error::AlreadyInitialized));
        }
        self.admin = Some(admin);
        Ok(())
    }

    /// Whether an account holds a role.
    pub fn has_role(&self, account: &Address, role: Role) -> (r: bool)
        ensures
            r == holds(self@, *account, role),
    {
        self.grants.has(&Grant { account: *account, role })
    }

    /// Passes when the caller is the administrator and authorised the call.
    fn require_admin(&self, ledger: &Ledger, caller: &Address) -> (r: Result<(), Failure>)
        ensures
            r == admin_check(self.admin(), *ledger, *caller),
    {
        ledger.require_auth(caller)?;
        match &self.admin {
            None => Err(Failure::Roles(Error::NotInitialized)),
            Some(admin) => if *admin != *caller {
                Err(Failure::Roles(Error::Unauthorized))
            } else {
                Ok(())
            },
        }
    }

    /// Grants a role.  Only the administrator may.
    pub fn grant_role(
        &mut self,
        ledger: &Ledger,
        caller: Address,
        account: Address,
        role: Role,
    ) -> (r: Result<(), Failure>)
        ensures
            r == admin_check(old(self).admin(), *ledger, caller),
            final(self).admin() == old(self).admin(),
            final(self)@ == if r is Ok {
                old(self)@.insert(Grant { account, role })
            } else {
                old(self)@
            },
    {
        self.require_admin(ledger, &caller)?;
        self.grants.set(Grant { account, role }, true);
        assert(self@ =~= old(self)@.insert(Grant { account, role }));
        Ok(())
    }

    /// Revokes a role.  Only the administrator may.
    pub fn revoke_role(
        &mut self,
        ledger: &Ledger,
        caller: Address,
        account: Address,
        role: Role,
    ) -> (r: Result<(), Failure>)
        ensures
            r == admin_check(old(self).admin(), *ledger, caller),
            final(self).admin() == old(self).admin(),
            final(self)@ == if r is Ok {
                old(self)@.remove(Grant { account, role })
            } else {
                old(self)@
            },
    {
        self.require_admin(ledger, &caller)?;
        self.grants.remove(&Grant { account, role });
        assert(self@ =~= old(self)@.remove(Grant { account, role }));
        Ok(())
    }
}

} // verus!
