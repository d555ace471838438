//! The authorization policy: a state-free decision function from the
//! caller's claims and the requested action to an allow-with-scope or a
//! typed denial. Ownership data that needs a store read (the target
//! tenant's owner) is passed in by the caller, which looks it up first and
//! passes `None` when the lookup found nothing (fail-closed).

use vstd::prelude::*;

use crate::domain::Claims;
use crate::errors::AuthzError;
use crate::str_eq;

verus! {

/// An action of the administrative or data namespace.
#[derive(Debug, Clone)]
pub enum Action {
    /// Create or list plans.
    PlanManage,
    /// Create a tenant.
    TenantCreate,
    /// List tenants.
    TenantList,
    /// Update or delete one tenant; `owner` is the target row's
    /// `reseller_id`, or `None` when the row was not found.
    TenantMutate { owner: Option<String> },
    /// Create or list resellers.
    ResellerManage,
    /// Create, list or update users.
    UserManage,
    /// Delete the user with this id.
    UserDelete { target_user_id: String },
    /// Product, customer or sale operations on the caller's own tenant.
    DataAccess,
}

/// The row filter an allowance carries.
#[derive(Debug, Clone)]
pub enum Scope {
    /// Every row.
    AllRows,
    /// Rows whose `tenant_id` equals the given tenant.
    TenantRows(String),
    /// Tenants whose `reseller_id` equals the given reseller.
    OwnedTenants(String),
}

/// The policy's verdict.
#[derive(Debug, Clone)]
pub enum Decision {
    Allow(Scope),
    Deny(AuthzError),
}

/// The policy table. Self-deletion is refused before any role rule; data
/// access is scoped to the caller's tenant for every role; administrators
/// may do any administrative action on all rows; resellers may create and
/// list tenants and mutate only tenants they own; everything else in the
/// administrative namespace is refused.
pub open spec fn decide(c: Claims, a: Action) -> Decision {
    match a {
        Action::PlanManage | Action::ResellerManage | Action::UserManage => if c.is_admin() {
            Decision::Allow(Scope::AllRows)
        } else {
            Decision::Deny(AuthzError::Forbidden)
        },
        Action::TenantCreate | Action::TenantList => if c.is_admin() {
            Decision::Allow(Scope::AllRows)
        } else if c.is_reseller() {
            Decision::Allow(Scope::OwnedTenants(c.sub))
        } else {
            Decision::Deny(AuthzError::Forbidden)
        },
        Action::TenantMutate { owner } => if c.is_admin() {
            Decision::Allow(Scope::AllRows)
        } else if c.is_reseller() {
            match owner {
                Some(o) => if o@ == c.sub@ {
                    Decision::Allow(Scope::OwnedTenants(c.sub))
                } else {
                    Decision::Deny(AuthzError::NotOwner)
                },
                None => Decision::Deny(AuthzError::NotOwner),
            }
        } else {
            Decision::Deny(AuthzError::Forbidden)
        },
        Action::UserDelete { target_user_id } => if target_user_id@ == c.sub@ {
            Decision::Deny(AuthzError::CannotDeleteSelf)
        } else if c.is_admin() {
            Decision::Allow(Scope::AllRows)
        } else {
            Decision::Deny(AuthzError::Forbidden)
        },
        Action::DataAccess => match c.tenant_id {
            Some(t) => Decision::Allow(Scope::TenantRows(t)),
            None => Decision::Deny(AuthzError::NoTenant),
        },
    }
}

impl Claims {
    /// Whether the caller's role string is the administrator role.
    pub fn role_is_admin(&self) -> (b: bool)
        ensures
            b == self.is_admin(),
    {
        str_eq(self.role.as_str(), "admin")
    }

    /// Whether the caller's role string is the reseller role.
    pub fn role_is_reseller(&self) -> (b: bool)
        ensures
            b == self.is_reseller(),
    {
        str_eq(self.role.as_str(), "reseller")
    }
}

/// Decides whether `claims` may perform `action`, per the policy table.
pub fn authorize(claims: &Claims, action: &Action) -> (d: Decision)
    ensures
        d == decide(*claims, *action),
{
    match action {
        Action::PlanManage | Action::ResellerManage | Action::UserManage => {
            if claims.role_is_admin() {
                Decision::Allow(Scope::AllRows)
            } else {
                Decision::Deny(AuthzError::Forbidden)
            }
        },
        Action::TenantCreate | Action::TenantList => {
            if claims.role_is_admin() {
                Decision::Allow(Scope::AllRows)
            } else if claims.role_is_reseller() {
                Decision::Allow(Scope::OwnedTenants(claims.sub.clone()))
            } else {
                Decision::Deny(AuthzError::Forbidden)
            }
        },
        Action::TenantMutate { owner } => {
            if claims.role_is_admin() {
                Decision::Allow(Scope::AllRows)
            } else if claims.role_is_reseller() {
                match owner {
                    Some(o) => {
                        if str_eq(o.as_str(), claims.sub.as_str()) {
                            Decision::Allow(Scope::OwnedTenants(claims.sub.clone()))
                        } else {
                            Decision::Deny(AuthzError::NotOwner)
                        }
                    },
                    None => Decision::Deny(AuthzError::NotOwner),
                }
            } else {
                Decision::Deny(AuthzError::Forbidden)
            }
        },
        Action::UserDelete { target_user_id } => {
            if str_eq(target_user_id.as_str(), claims.sub.as_str()) {
                Decision::Deny(AuthzError::CannotDeleteSelf)
            } else if claims.role_is_admin() {
                Decision::Allow(Scope::AllRows)
            } else {
                Decision::Deny(AuthzError::Forbidden)
            }
        },
        Action::DataAccess => {
            match &claims.tenant_id {
                Some(t) => Decision::Allow(Scope::TenantRows(t.clone())),
                None => Decision::Deny(AuthzError::NoTenant),
            }
        },
    }
}

/// Reseller ownership: a reseller may mutate exactly the tenants whose
/// `reseller_id` is the reseller's own subject id; any other target is
/// denied as not owned.
pub proof fn lemma_reseller_ownership(c: Claims, owner: Option<String>)
    requires
        c.is_reseller(),
    ensures
        (owner is Some && owner.unwrap()@ == c.sub@) ==> decide(
            c,
            Action::TenantMutate { owner },
        ) == Decision::Allow(Scope::OwnedTenants(c.sub)),
        !(owner is Some && owner.unwrap()@ == c.sub@) ==> decide(
            c,
            Action::TenantMutate { owner },
        ) == Decision::Deny(AuthzError::NotOwner),
{
    broadcast use vstd::string::group_string_axioms;

    reveal_strlit("admin");
    reveal_strlit("reseller");
    assert(crate::domain::admin_role().len() == 5);
    assert(crate::domain::reseller_role().len() == 8);
    assert(!c.is_admin());
}

/// Self-delete guard: deleting the caller's own account is refused
/// whatever the caller's role.
pub proof fn lemma_self_delete_guard(c: Claims, target_user_id: String)
    requires
        target_user_id@ == c.sub@,
    ensures
        decide(c, Action::UserDelete { target_user_id }) == Decision::Deny(
            AuthzError::CannotDeleteSelf,
        ),
{
}

/// Tenant scoping: data access is allowed exactly to callers carrying a
/// tenant, and the scope it carries is that tenant's rows.
pub proof fn lemma_data_scope(c: Claims)
    ensures
        c.tenant_id is Some ==> decide(c, Action::DataAccess) == Decision::Allow(
            Scope::TenantRows(c.tenant_id.unwrap()),
        ),
        c.tenant_id is None ==> decide(c, Action::DataAccess) == Decision::Deny(
            AuthzError::NoTenant,
        ),
{
}

} // verus!
