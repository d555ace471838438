//! Tenant and identity lifecycle: creating tenants (with an optional owner
//! account, both rows or neither), creating resellers and users, partial
//! updates, and deletions guarded by ownership, self-deletion and dependent
//! rows.

use vstd::prelude::*;

use crate::authz::{authorize, decide, Action, Decision, Scope};
use crate::credentials::{hash_password, password_matches};
use crate::domain::{
    clone_opt_string, Claims, CreateTenantRequest, CreateUserRequest, Tenant, UpdateTenantRequest,
    UpdateUserRequest, User,
};
use crate::errors::{ApiError, ConflictError};
use crate::accounts::insert_user;
use crate::store::{
    find_tenant_by_id, find_user_by_id, has_tenant, has_user_email, has_user_id,
    lemma_tenant_idx_unique, lemma_user_idx_unique, tenant_idx, user_idx, Store,
};

verus! {

/// The `reseller_id` of the tenant with this id, or `None` when no such
/// tenant exists (the fail-closed answer of a failed lookup).
pub open spec fn tenant_owner(ts: Seq<Tenant>, id: Seq<char>) -> Option<String> {
    if has_tenant(ts, id) {
        ts[tenant_idx(ts, id)].reseller_id
    } else {
        None
    }
}

/// The tenants owned by the given reseller.
pub open spec fn tenants_owned_by(ts: Seq<Tenant>, sub: Seq<char>) -> Seq<Tenant> {
    ts.filter(|t: Tenant| t.reseller_id is Some && t.reseller_id.unwrap()@ == sub)
}

/// The users carrying the reseller role.
pub open spec fn reseller_users(us: Seq<User>) -> Seq<User> {
    us.filter(|u: User| u.role@ == crate::domain::reseller_role())
}

/// Whether the given subject still owns at least one tenant.
pub open spec fn owns_some_tenant(ts: Seq<Tenant>, sub: Seq<char>) -> bool {
    exists|i: int|
        0 <= i < ts.len() && (#[trigger] ts[i]).reseller_id is Some && ts[i].reseller_id.unwrap()@
            == sub
}

/// Whether any committed sale was made by the given user.
pub open spec fn has_sales_by_user(ss: Seq<crate::domain::Sale>, uid: Seq<char>) -> bool {
    exists|i: int| 0 <= i < ss.len() && (#[trigger] ss[i]).user_id@ == uid
}

/// A tenant row with the supplied fields of the patch applied, the others
/// kept, and the update timestamp refreshed.
pub open spec fn patched_tenant(t: Tenant, p: UpdateTenantRequest, updated: String) -> Tenant {
    Tenant {
        name: if p.name is Some {
            p.name.unwrap()
        } else {
            t.name
        },
        plan_id: if p.plan_id is Some {
            p.plan_id
        } else {
            t.plan_id
        },
        status: if p.status is Some {
            p.status.unwrap()
        } else {
            t.status
        },
        business_type: if p.business_type is Some {
            p.business_type
        } else {
            t.business_type
        },
        custom_fields: if p.custom_fields is Some {
            p.custom_fields
        } else {
            t.custom_fields
        },
        updated_at: Some(updated),
        ..t
    }
}

/// Creates a tenant for an administrator or a reseller; a reseller's new
/// tenant is owned by the reseller whatever the payload says. When the
/// payload carries owner credentials, the owner account is created with the
/// shopkeeper role inside the same operation: both rows persist or neither.
pub fn create_tenant(
    store: &mut Store,
    claims: &Claims,
    payload: &CreateTenantRequest,
    tenant_id: &String,
    owner_user_id: &String,
    created: &String,
    now: u64,
) -> (r: Result<String, ApiError>)
    requires
        old(store).wf(),
        forall|i: int|
            0 <= i < old(store).tenants@.len() ==> (#[trigger] old(store).tenants@[i]).id@
                != tenant_id@,
        forall|i: int|
            0 <= i < old(store).users@.len() ==> (#[trigger] old(store).users@[i]).id@
                != owner_user_id@,
    ensures
        final(store).wf(),
        final(store).plans@ == old(store).plans@,
        final(store).products@ == old(store).products@,
        final(store).customers@ == old(store).customers@,
        final(store).sales@ == old(store).sales@,
        final(store).sale_items@ == old(store).sale_items@,
        r is Err ==> *final(store) == *old(store),
        match decide(*claims, Action::TenantCreate) {
            Decision::Deny(e) => r == Err::<String, ApiError>(ApiError::Authz(e)),
            Decision::Allow(_) => {
                let with_owner = payload.owner_email is Some && payload.owner_password is Some;
                &&& (r == Err::<String, ApiError>(
                    ApiError::Conflict(ConflictError::DuplicateEmail),
                ) <==> (with_owner && has_user_email(
                    old(store).users@,
                    payload.owner_email.unwrap()@,
                )))
                &&& (!with_owner ==> r is Ok)
                &&& (with_owner && !has_user_email(
                    old(store).users@,
                    payload.owner_email.unwrap()@,
                ) ==> (r is Ok || r == Err::<String, ApiError>(ApiError::Hashing)))
                &&& (r is Ok ==> {
                    &&& r->Ok_0 == *tenant_id
                    &&& final(store).tenants@.len() == old(store).tenants@.len() + 1
                    &&& final(store).tenants@.drop_last() == old(store).tenants@
                    &&& ({
                        let t = final(store).tenants@.last();
                        &&& t.id == *tenant_id
                        &&& t.name == payload.name
                        &&& t.plan_id == payload.plan_id
                        &&& t.status@ == "active"@
                        &&& (match payload.business_type {
                            Some(b) => t.business_type == Some(b),
                            None => t.business_type is Some && t.business_type.unwrap()@
                                == "retail"@,
                        })
                        &&& t.reseller_id == (if claims.is_reseller() {
                            Some(claims.sub)
                        } else {
                            None::<String>
                        })
                        &&& t.created_at == *created
                        &&& t.custom_fields is None
                        &&& t.updated_at is None
                    })
                    &&& (if with_owner {
                        &&& final(store).users@.len() == old(store).users@.len() + 1
                        &&& final(store).users@.drop_last() == old(store).users@
                        &&& ({
                            let u = final(store).users@.last();
                            &&& u.id == *owner_user_id
                            &&& u.email == payload.owner_email.unwrap()
                            &&& password_matches(
                                u.password_hash@,
                                payload.owner_password.unwrap()@,
                            )
                            &&& u.role@ == crate::domain::user_role()
                            &&& u.tenant_id == Some(*tenant_id)
                            &&& u.created_at == now
                        })
                    } else {
                        final(store).users@ == old(store).users@
                    })
                })
            },
        },
{
    match authorize(claims, &Action::TenantCreate) {
        Decision::Deny(e) => {
            return Err(ApiError::Authz(e));
        },
        Decision::Allow(_) => {},
    }
    let reseller_id: Option<String> = if claims.role_is_reseller() {
        Some(claims.sub.clone())
    } else {
        None
    };

    // A taken owner email is refused, and the owner's hash computed, before
    // any row is written: a failure of either leaves the store untouched.
    let owner: Option<(&String, String)> = match (&payload.owner_email, &payload.owner_password) {
        (Some(email), Some(pw)) => {
            if let Some(_) = crate::store::find_user_by_email(&store.users, email) {
                return Err(ApiError::Conflict(ConflictError::DuplicateEmail));
            }
            match hash_password(pw.as_str()) {
                Ok(h) => Some((email, h)),
                Err(e) => {
                    return Err(e);
                },
            }
        },
        _ => None,
    };

    let row = Tenant {
        id: tenant_id.clone(),
        name: payload.name.clone(),
        plan_id: clone_opt_string(&payload.plan_id),
        status: "active".to_owned(),
        business_type: match &payload.business_type {
            Some(b) => Some(b.clone()),
            None => Some("retail".to_owned()),
        },
        reseller_id,
        created_at: created.clone(),
        custom_fields: None,
        updated_at: None,
    };

    match owner {
        Some((email, hash)) => {
            let ghost tenants0 = store.tenants@;
            let ghost users0 = store.users@;
            store.tenants.push(row);
            let r = insert_user(
                store,
                email,
                hash,
                "user".to_owned(),
                Some(tenant_id.clone()),
                owner_user_id,
                now,
            );
            match r {
                Ok(()) => {
                    proof {
                        assert(store.tenants@.drop_last() =~= tenants0);
                        assert(store.users@.drop_last() =~= users0);
                    }
                    Ok(tenant_id.clone())
                },
                Err(e) => {
                    proof {
                        assert(false);
                    }
                    Err(e)
                },
            }
        },
        None => {
            let ghost tenants0 = store.tenants@;
            store.tenants.push(row);
            proof {
                assert(store.tenants@.drop_last() =~= tenants0);
            }
            Ok(tenant_id.clone())
        },
    }
}

/// Lists the tenants the caller may see: all of them for an administrator,
/// only the owned ones for a reseller.
pub fn list_tenants(store: &Store, claims: &Claims) -> (r: Result<Vec<Tenant>, ApiError>)
    ensures
        match decide(*claims, Action::TenantList) {
            Decision::Deny(e) => r == Err::<Vec<Tenant>, ApiError>(ApiError::Authz(e)),
            Decision::Allow(s) => r is Ok && (match s {
                Scope::AllRows => r->Ok_0@ == store.tenants@,
                Scope::OwnedTenants(_) => r->Ok_0@ == tenants_owned_by(store.tenants@, claims.sub@),
                Scope::TenantRows(_) => false,
            }),
        },
{
    match authorize(claims, &Action::TenantList) {
        Decision::Deny(e) => Err(ApiError::Authz(e)),
        Decision::Allow(Scope::AllRows) => {
            let n = store.tenants.len();
            let mut out: Vec<Tenant> = Vec::new();
            let mut i: usize = 0;
            while i < n
                invariant
                    n == store.tenants@.len(),
                    i <= n,
                    out@ == store.tenants@.take(i as int),
                decreases n - i,
            {
                out.push(store.tenants[i].duplicate());
                proof {
                    assert(store.tenants@.take(i as int).push(store.tenants@[i as int])
                        =~= store.tenants@.take(i as int + 1));
                }
                i += 1;
            }
            proof {
                assert(store.tenants@.take(n as int) =~= store.tenants@);
            }
            Ok(out)
        },
        Decision::Allow(Scope::OwnedTenants(_)) => {
            let n = store.tenants.len();
            let mut out: Vec<Tenant> = Vec::new();
            let mut i: usize = 0;
            while i < n
                invariant
                    n == store.tenants@.len(),
                    i <= n,
                    out@ == tenants_owned_by(store.tenants@.take(i as int), claims.sub@),
                decreases n - i,
            {
                let t = &store.tenants[i];
                let owned = match &t.reseller_id {
                    Some(o) => crate::str_eq(o.as_str(), claims.sub.as_str()),
                    None => false,
                };
                proof {
                    reveal(Seq::filter);
                    assert(store.tenants@.take(i as int + 1).drop_last() =~= store.tenants@.take(
                        i as int,
                    ));
                    assert(store.tenants@.take(i as int + 1).last() == store.tenants@[i as int]);
                }
                if owned {
                    out.push(t.duplicate());
                }
                i += 1;
            }
            proof {
                assert(store.tenants@.take(n as int) =~= store.tenants@);
            }
            Ok(out)
        },
        Decision::Allow(Scope::TenantRows(_)) => {
            proof {
                assert(false);
            }
            Err(ApiError::Validation)
        },
    }
}

/// Applies a partial update to one tenant: only the supplied fields change
/// and the update timestamp is refreshed. An administrator may update any
/// tenant; a reseller only an owned one; a missing row is a NotOwner denial
/// for a reseller and a no-op for an administrator.
pub fn update_tenant(
    store: &mut Store,
    claims: &Claims,
    id: &String,
    patch: &UpdateTenantRequest,
    updated: &String,
) -> (r: Result<(), ApiError>)
    requires
        old(store).wf(),
    ensures
        final(store).wf(),
        final(store).users@ == old(store).users@,
        final(store).plans@ == old(store).plans@,
        final(store).products@ == old(store).products@,
        final(store).customers@ == old(store).customers@,
        final(store).sales@ == old(store).sales@,
        final(store).sale_items@ == old(store).sale_items@,
        r is Err ==> *final(store) == *old(store),
        match decide(
            *claims,
            Action::TenantMutate { owner: tenant_owner(old(store).tenants@, id@) },
        ) {
            Decision::Deny(e) => r == Err::<(), ApiError>(ApiError::Authz(e)),
            Decision::Allow(_) => r is Ok && (if has_tenant(old(store).tenants@, id@) {
                final(store).tenants@ == old(store).tenants@.update(
                    tenant_idx(old(store).tenants@, id@),
                    patched_tenant(
                        old(store).tenants@[tenant_idx(old(store).tenants@, id@)],
                        *patch,
                        *updated,
                    ),
                )
            } else {
                final(store).tenants@ == old(store).tenants@
            }),
        },
{
    let found = find_tenant_by_id(&store.tenants, id);
    proof {
        if let Some(j) = found {
            lemma_tenant_idx_unique(store.tenants@, id@, j as int);
        }
    }
    let owner: Option<String> = match found {
        Some(j) => clone_opt_string(&store.tenants[j].reseller_id),
        None => None,
    };
    match authorize(claims, &Action::TenantMutate { owner }) {
        Decision::Deny(e) => {
            return Err(ApiError::Authz(e));
        },
        Decision::Allow(_) => {},
    }
    if let Some(j) = found {
        let t = &store.tenants[j];
        let new_row = Tenant {
            id: t.id.clone(),
            name: match &patch.name {
                Some(v) => v.clone(),
                None => t.name.clone(),
            },
            plan_id: match &patch.plan_id {
                Some(v) => Some(v.clone()),
                None => clone_opt_string(&t.plan_id),
            },
            status: match &patch.status {
                Some(v) => v.clone(),
                None => t.status.clone(),
            },
            business_type: match &patch.business_type {
                Some(v) => Some(v.clone()),
                None => clone_opt_string(&t.business_type),
            },
            reseller_id: clone_opt_string(&t.reseller_id),
            created_at: t.created_at.clone(),
            custom_fields: match &patch.custom_fields {
                Some(v) => Some(v.clone()),
                None => clone_opt_string(&t.custom_fields),
            },
            updated_at: Some(updated.clone()),
        };
        let ghost tenants0 = store.tenants@;
        store.tenants[j] = new_row;
        proof {
            assert forall|a: int, b: int|
                0 <= a < b < store.tenants@.len() implies (#[trigger] store.tenants@[a].id@) != (
            #[trigger] store.tenants@[b].id@) by {
                assert(tenants0[a].id@ != tenants0[b].id@);
            }
        }
    }
    Ok(())
}

/// Deletes one tenant. An administrator may delete any tenant; a reseller
/// only an owned one; a missing row is a NotOwner denial for a reseller and
/// a no-op for an administrator. Dependent rows are not cascaded.
pub fn delete_tenant(store: &mut Store, claims: &Claims, id: &String) -> (r: Result<(), ApiError>)
    requires
        old(store).wf(),
    ensures
        final(store).wf(),
        final(store).users@ == old(store).users@,
        final(store).plans@ == old(store).plans@,
        final(store).products@ == old(store).products@,
        final(store).customers@ == old(store).customers@,
        final(store).sales@ == old(store).sales@,
        final(store).sale_items@ == old(store).sale_items@,
        r is Err ==> *final(store) == *old(store),
        match decide(
            *claims,
            Action::TenantMutate { owner: tenant_owner(old(store).tenants@, id@) },
        ) {
            Decision::Deny(e) => r == Err::<(), ApiError>(ApiError::Authz(e)),
            Decision::Allow(_) => r is Ok && (if has_tenant(old(store).tenants@, id@) {
                final(store).tenants@ == old(store).tenants@.remove(
                    tenant_idx(old(store).tenants@, id@),
                )
            } else {
                final(store).tenants@ == old(store).tenants@
            }),
        },
{
    let found = find_tenant_by_id(&store.tenants, id);
    proof {
        if let Some(j) = found {
            lemma_tenant_idx_unique(store.tenants@, id@, j as int);
        }
    }
    let owner: Option<String> = match found {
        Some(j) => clone_opt_string(&store.tenants[j].reseller_id),
        None => None,
    };
    match authorize(claims, &Action::TenantMutate { owner }) {
        Decision::Deny(e) => {
            return Err(ApiError::Authz(e));
        },
        Decision::Allow(_) => {},
    }
    if let Some(j) = found {
        let ghost tenants0 = store.tenants@;
        store.tenants.remove(j);
        proof {
            assert forall|a: int, b: int|
                0 <= a < b < store.tenants@.len() implies (#[trigger] store.tenants@[a].id@) != (
            #[trigger] store.tenants@[b].id@) by {
                let a0: int = if a < j { a } else { a + 1 };
                let b0: int = if b < j { b } else { b + 1 };
                assert(store.tenants@[a] == tenants0[a0]);
                assert(store.tenants@[b] == tenants0[b0]);
                assert(tenants0[a0].id@ != tenants0[b0].id@);
            }
        }
    }
    Ok(())
}

/// Creates a reseller account (administrators only): the role is forced to
/// the reseller role whatever the payload says, and the account is given a
/// freshly minted private workspace tenant id.
pub fn create_reseller(
    store: &mut Store,
    claims: &Claims,
    payload: &CreateUserRequest,
    user_id: &String,
    tenant_id: &String,
    now: u64,
) -> (r: Result<(), ApiError>)
    requires
        old(store).wf(),
        forall|i: int|
            0 <= i < old(store).users@.len() ==> (#[trigger] old(store).users@[i]).id@ != user_id@,
    ensures
        final(store).wf(),
        final(store).tenants@ == old(store).tenants@,
        final(store).plans@ == old(store).plans@,
        final(store).products@ == old(store).products@,
        final(store).customers@ == old(store).customers@,
        final(store).sales@ == old(store).sales@,
        final(store).sale_items@ == old(store).sale_items@,
        r is Err ==> *final(store) == *old(store),
        match decide(*claims, Action::ResellerManage) {
            Decision::Deny(e) => r == Err::<(), ApiError>(ApiError::Authz(e)),
            Decision::Allow(_) => {
                &&& (r == Err::<(), ApiError>(ApiError::Conflict(ConflictError::DuplicateEmail))
                    <==> has_user_email(old(store).users@, payload.email@))
                &&& (!has_user_email(old(store).users@, payload.email@) ==> r is Ok || r == Err::<
                    (),
                    ApiError,
                >(ApiError::Hashing))
                &&& (r is Ok ==> {
                    &&& final(store).users@.len() == old(store).users@.len() + 1
                    &&& final(store).users@.drop_last() == old(store).users@
                    &&& ({
                        let u = final(store).users@.last();
                        &&& u.id == *user_id
                        &&& u.email == payload.email
                        &&& password_matches(u.password_hash@, payload.password@)
                        &&& u.role@ == crate::domain::reseller_role()
                        &&& u.tenant_id == Some(*tenant_id)
                        &&& u.created_at == now
                    })
                })
            },
        },
{
    match authorize(claims, &Action::ResellerManage) {
        Decision::Deny(e) => {
            return Err(ApiError::Authz(e));
        },
        Decision::Allow(_) => {},
    }
    // A taken email is refused before any hashing work is done.
    if let Some(_) = crate::store::find_user_by_email(&store.users, &payload.email) {
        return Err(ApiError::Conflict(ConflictError::DuplicateEmail));
    }
    let hash = match hash_password(payload.password.as_str()) {
        Ok(h) => h,
        Err(e) => {
            return Err(e);
        },
    };
    let ghost users0 = store.users@;
    let r = insert_user(
        store,
        &payload.email,
        hash,
        "reseller".to_owned(),
        Some(tenant_id.clone()),
        user_id,
        now,
    );
    proof {
        if r is Ok {
            assert(store.users@.drop_last() =~= users0);
        }
    }
    match r {
        Ok(()) => Ok(()),
        Err(e) => {
            proof {
                assert(false);
            }
            Err(e)
        },
    }
}

/// Creates a user account (administrators only) with the requested role,
/// the shopkeeper role when none is given, and a freshly minted tenant id.
pub fn create_user_admin(
    store: &mut Store,
    claims: &Claims,
    payload: &CreateUserRequest,
    user_id: &String,
    tenant_id: &String,
    now: u64,
) -> (r: Result<(), ApiError>)
    requires
        old(store).wf(),
        forall|i: int|
            0 <= i < old(store).users@.len() ==> (#[trigger] old(store).users@[i]).id@ != user_id@,
    ensures
        final(store).wf(),
        final(store).tenants@ == old(store).tenants@,
        final(store).plans@ == old(store).plans@,
        final(store).products@ == old(store).products@,
        final(store).customers@ == old(store).customers@,
        final(store).sales@ == old(store).sales@,
        final(store).sale_items@ == old(store).sale_items@,
        r is Err ==> *final(store) == *old(store),
        match decide(*claims, Action::UserManage) {
            Decision::Deny(e) => r == Err::<(), ApiError>(ApiError::Authz(e)),
            Decision::Allow(_) => {
                &&& (r == Err::<(), ApiError>(ApiError::Conflict(ConflictError::DuplicateEmail))
                    <==> has_user_email(old(store).users@, payload.email@))
                &&& (!has_user_email(old(store).users@, payload.email@) ==> r is Ok || r == Err::<
                    (),
                    ApiError,
                >(ApiError::Hashing))
                &&& (r is Ok ==> {
                    &&& final(store).users@.len() == old(store).users@.len() + 1
                    &&& final(store).users@.drop_last() == old(store).users@
                    &&& ({
                        let u = final(store).users@.last();
                        &&& u.id == *user_id
                        &&& u.email == payload.email
                        &&& password_matches(u.password_hash@, payload.password@)
                        &&& (match payload.role {
                            Some(ro) => u.role == ro,
                            None => u.role@ == crate::domain::user_role(),
                        })
                        &&& u.tenant_id == Some(*tenant_id)
                        &&& u.created_at == now
                    })
                })
            },
        },
{
    match authorize(claims, &Action::UserManage) {
        Decision::Deny(e) => {
            return Err(ApiError::Authz(e));
        },
        Decision::Allow(_) => {},
    }
    // A taken email is refused before any hashing work is done.
    if let Some(_) = crate::store::find_user_by_email(&store.users, &payload.email) {
        return Err(ApiError::Conflict(ConflictError::DuplicateEmail));
    }
    let hash = match hash_password(payload.password.as_str()) {
        Ok(h) => h,
        Err(e) => {
            return Err(e);
        },
    };
    let role: String = match &payload.role {
        Some(ro) => ro.clone(),
        None => "user".to_owned(),
    };
    let ghost users0 = store.users@;
    let r = insert_user(store, &payload.email, hash, role, Some(tenant_id.clone()), user_id, now);
    proof {
        if r is Ok {
            assert(store.users@.drop_last() =~= users0);
        }
    }
    match r {
        Ok(()) => Ok(()),
        Err(e) => {
            proof {
                assert(false);
            }
            Err(e)
        },
    }
}

/// Lists every user (administrators only).
pub fn list_users(store: &Store, claims: &Claims) -> (r: Result<Vec<User>, ApiError>)
    ensures
        match decide(*claims, Action::UserManage) {
            Decision::Deny(e) => r == Err::<Vec<User>, ApiError>(ApiError::Authz(e)),
            Decision::Allow(_) => r is Ok && r->Ok_0@ == store.users@,
        },
{
    match authorize(claims, &Action::UserManage) {
        Decision::Deny(e) => {
            return Err(ApiError::Authz(e));
        },
        Decision::Allow(_) => {},
    }
    let n = store.users.len();
    let mut out: Vec<User> = Vec::new();
    let mut i: usize = 0;
    while i < n
        invariant
            n == store.users@.len(),
            i <= n,
            out@ == store.users@.take(i as int),
        decreases n - i,
    {
        out.push(store.users[i].duplicate());
        proof {
            assert(store.users@.take(i as int).push(store.users@[i as int]) =~= store.users@.take(
                i as int + 1,
            ));
        }
        i += 1;
    }
    proof {
        assert(store.users@.take(n as int) =~= store.users@);
    }
    Ok(out)
}

/// Lists the accounts carrying the reseller role (administrators only).
pub fn list_resellers(store: &Store, claims: &Claims) -> (r: Result<Vec<User>, ApiError>)
    ensures
        match decide(*claims, Action::ResellerManage) {
            Decision::Deny(e) => r == Err::<Vec<User>, ApiError>(ApiError::Authz(e)),
            Decision::Allow(_) => r is Ok && r->Ok_0@ == reseller_users(store.users@),
        },
{
    match authorize(claims, &Action::ResellerManage) {
        Decision::Deny(e) => {
            return Err(ApiError::Authz(e));
        },
        Decision::Allow(_) => {},
    }
    let n = store.users.len();
    let mut out: Vec<User> = Vec::new();
    let mut i: usize = 0;
    while i < n
        invariant
            n == store.users@.len(),
            i <= n,
            out@ == reseller_users(store.users@.take(i as int)),
        decreases n - i,
    {
        let u = &store.users[i];
        let is_reseller = crate::str_eq(u.role.as_str(), "reseller");
        proof {
            reveal(Seq::filter);
            assert(store.users@.take(i as int + 1).drop_last() =~= store.users@.take(i as int));
            assert(store.users@.take(i as int + 1).last() == store.users@[i as int]);
        }
        if is_reseller {
            out.push(u.duplicate());
        }
        i += 1;
    }
    proof {
        assert(store.users@.take(n as int) =~= store.users@);
    }
    Ok(out)
}

/// Applies a partial update to one user (administrators only): only the
/// supplied fields change; a supplied password is re-hashed, and a hashing
/// failure aborts the whole update; an email already used by another
/// account is refused; a missing row is a no-op.
pub fn update_user(
    store: &mut Store,
    claims: &Claims,
    id: &String,
    patch: &UpdateUserRequest,
) -> (r: Result<(), ApiError>)
    requires
        old(store).wf(),
    ensures
        final(store).wf(),
        final(store).tenants@ == old(store).tenants@,
        final(store).plans@ == old(store).plans@,
        final(store).products@ == old(store).products@,
        final(store).customers@ == old(store).customers@,
        final(store).sales@ == old(store).sales@,
        final(store).sale_items@ == old(store).sale_items@,
        r is Err ==> *final(store) == *old(store),
        match decide(*claims, Action::UserManage) {
            Decision::Deny(e) => r == Err::<(), ApiError>(ApiError::Authz(e)),
            Decision::Allow(_) => {
                if !has_user_id(old(store).users@, id@) {
                    r is Ok && final(store).users@ == old(store).users@
                } else {
                    let idx = user_idx(old(store).users@, id@);
                    let u0 = old(store).users@[idx];
                    &&& ((patch.email is Some && (exists|k: int|
                        0 <= k < old(store).users@.len() && k != idx && (#[trigger] old(
                            store,
                        ).users@[k]).email@ == patch.email.unwrap()@)) ==> r == Err::<
                        (),
                        ApiError,
                    >(ApiError::Conflict(ConflictError::DuplicateEmail)))
                    &&& (r is Err ==> (r == Err::<(), ApiError>(
                        ApiError::Conflict(ConflictError::DuplicateEmail),
                    ) || r == Err::<(), ApiError>(ApiError::Hashing)))
                    &&& (patch.password is None && !(patch.email is Some && (exists|k: int|
                        0 <= k < old(store).users@.len() && k != idx && (#[trigger] old(
                            store,
                        ).users@[k]).email@ == patch.email.unwrap()@)) ==> r is Ok)
                    &&& (r is Ok ==> {
                        &&& final(store).users@.len() == old(store).users@.len()
                        &&& (forall|k: int|
                            0 <= k < old(store).users@.len() && k != idx
                                ==> (#[trigger] final(store).users@[k]) == old(store).users@[k])
                        &&& ({
                            let u = final(store).users@[idx];
                            &&& u.id == u0.id
                            &&& u.tenant_id == u0.tenant_id
                            &&& u.created_at == u0.created_at
                            &&& u.email == (if patch.email is Some {
                                patch.email.unwrap()
                            } else {
                                u0.email
                            })
                            &&& u.role == (if patch.role is Some {
                                patch.role.unwrap()
                            } else {
                                u0.role
                            })
                            &&& (match patch.password {
                                Some(pw) => password_matches(u.password_hash@, pw@),
                                None => u.password_hash == u0.password_hash,
                            })
                        })
                    })
                }
            },
        },
{
    match authorize(claims, &Action::UserManage) {
        Decision::Deny(e) => {
            return Err(ApiError::Authz(e));
        },
        Decision::Allow(_) => {},
    }
    let j = match find_user_by_id(&store.users, id) {
        Some(j) => j,
        None => {
            return Ok(());
        },
    };
    proof {
        lemma_user_idx_unique(store.users@, id@, j as int);
    }

    // Refuse an email that another account already uses.
    if let Some(email) = &patch.email {
        let n = store.users.len();
        let mut k: usize = 0;
        while k < n
            invariant
                *store == *old(store),
                old(store).wf(),
                decide(*claims, Action::UserManage) is Allow,
                n == store.users@.len(),
                k <= n,
                j < n,
                has_user_id(old(store).users@, id@),
                user_idx(old(store).users@, id@) == j,
                patch.email is Some,
                email@ == patch.email.unwrap()@,
                forall|m: int|
                    0 <= m < k && m != j ==> (#[trigger] store.users@[m]).email@ != email@,
            decreases n - k,
        {
            if k != j && crate::str_eq(store.users[k].email.as_str(), email.as_str()) {
                return Err(ApiError::Conflict(ConflictError::DuplicateEmail));
            }
            k += 1;
        }
    }

    let new_hash: Option<String> = match &patch.password {
        Some(pw) => {
            match hash_password(pw.as_str()) {
                Ok(h) => Some(h),
                Err(e) => {
                    return Err(e);
                },
            }
        },
        None => None,
    };

    let u = &store.users[j];
    let new_row = User {
        id: u.id.clone(),
        email: match &patch.email {
            Some(v) => v.clone(),
            None => u.email.clone(),
        },
        password_hash: match new_hash {
            Some(h) => h,
            None => u.password_hash.clone(),
        },
        role: match &patch.role {
            Some(v) => v.clone(),
            None => u.role.clone(),
        },
        tenant_id: clone_opt_string(&u.tenant_id),
        created_at: u.created_at,
    };
    let ghost users0 = store.users@;
    store.users[j] = new_row;
    proof {
        assert forall|a: int, b: int|
            0 <= a < b < store.users@.len() implies (#[trigger] store.users@[a].id@) != (
        #[trigger] store.users@[b].id@) by {
            assert(users0[a].id@ != users0[b].id@);
        }
        assert forall|a: int, b: int|
            0 <= a < b < store.users@.len() implies (#[trigger] store.users@[a].email@) != (
        #[trigger] store.users@[b].email@) by {
            assert(users0[a].email@ != users0[b].email@);
        }
    }
    Ok(())
}

/// Creates a plan in the catalog (administrators only).
pub fn create_plan(
    store: &mut Store,
    claims: &Claims,
    payload: &crate::domain::CreatePlanRequest,
    plan_id: &String,
    now: u64,
) -> (r: Result<String, ApiError>)
    requires
        old(store).wf(),
    ensures
        final(store).wf(),
        final(store).users@ == old(store).users@,
        final(store).tenants@ == old(store).tenants@,
        final(store).products@ == old(store).products@,
        final(store).customers@ == old(store).customers@,
        final(store).sales@ == old(store).sales@,
        final(store).sale_items@ == old(store).sale_items@,
        r is Err ==> *final(store) == *old(store),
        match decide(*claims, Action::PlanManage) {
            Decision::Deny(e) => r == Err::<String, ApiError>(ApiError::Authz(e)),
            Decision::Allow(_) => r is Ok && r->Ok_0 == *plan_id && final(store).plans@ == old(
                store,
            ).plans@.push(
                crate::domain::Plan {
                    id: *plan_id,
                    name: payload.name,
                    price: payload.price,
                    max_users: payload.max_users,
                    features: payload.features,
                    created_at: now,
                },
            ),
        },
{
    match authorize(claims, &Action::PlanManage) {
        Decision::Deny(e) => {
            return Err(ApiError::Authz(e));
        },
        Decision::Allow(_) => {},
    }
    let row = crate::domain::Plan {
        id: plan_id.clone(),
        name: payload.name.clone(),
        price: payload.price,
        max_users: payload.max_users,
        features: clone_opt_string(&payload.features),
        created_at: now,
    };
    store.plans.push(row);
    Ok(plan_id.clone())
}

/// Lists every plan of the catalog (administrators only).
pub fn list_plans(store: &Store, claims: &Claims) -> (r: Result<
    Vec<crate::domain::Plan>,
    ApiError,
>)
    ensures
        match decide(*claims, Action::PlanManage) {
            Decision::Deny(e) => r == Err::<Vec<crate::domain::Plan>, ApiError>(ApiError::Authz(e)),
            Decision::Allow(_) => r is Ok && r->Ok_0@ == store.plans@,
        },
{
    match authorize(claims, &Action::PlanManage) {
        Decision::Deny(e) => {
            return Err(ApiError::Authz(e));
        },
        Decision::Allow(_) => {},
    }
    let n = store.plans.len();
    let mut out: Vec<crate::domain::Plan> = Vec::new();
    let mut i: usize = 0;
    while i < n
        invariant
            n == store.plans@.len(),
            i <= n,
            out@ == store.plans@.take(i as int),
        decreases n - i,
    {
        out.push(store.plans[i].duplicate());
        proof {
            assert(store.plans@.take(i as int).push(store.plans@[i as int]) =~= store.plans@.take(
                i as int + 1,
            ));
        }
        i += 1;
    }
    proof {
        assert(store.plans@.take(n as int) =~= store.plans@);
    }
    Ok(out)
}

/// Deletes one user (administrators only). Deleting the caller's own
/// account is always refused; an account that still owns tenants or has
/// committed sales is refused as having dependents; a missing row is a
/// no-op.
pub fn delete_user(store: &mut Store, claims: &Claims, id: &String) -> (r: Result<(), ApiError>)
    requires
        old(store).wf(),
    ensures
        final(store).wf(),
        final(store).tenants@ == old(store).tenants@,
        final(store).plans@ == old(store).plans@,
        final(store).products@ == old(store).products@,
        final(store).customers@ == old(store).customers@,
        final(store).sales@ == old(store).sales@,
        final(store).sale_items@ == old(store).sale_items@,
        r is Err ==> *final(store) == *old(store),
        match decide(*claims, Action::UserDelete { target_user_id: *id }) {
            Decision::Deny(e) => r == Err::<(), ApiError>(ApiError::Authz(e)),
            Decision::Allow(_) => {
                if owns_some_tenant(old(store).tenants@, id@) || has_sales_by_user(
                    old(store).sales@,
                    id@,
                ) {
                    r == Err::<(), ApiError>(ApiError::Conflict(ConflictError::HasDependents))
                } else if has_user_id(old(store).users@, id@) {
                    r is Ok && final(store).users@ == old(store).users@.remove(
                        user_idx(old(store).users@, id@),
                    )
                } else {
                    r is Ok && final(store).users@ == old(store).users@
                }
            },
        },
{
    match authorize(claims, &Action::UserDelete { target_user_id: id.clone() }) {
        Decision::Deny(e) => {
            return Err(ApiError::Authz(e));
        },
        Decision::Allow(_) => {},
    }

    // An account that still owns tenants or made sales is a blocked parent
    // row.
    let nt = store.tenants.len();
    let mut k: usize = 0;
    while k < nt
        invariant
            *store == *old(store),
            old(store).wf(),
            decide(*claims, Action::UserDelete { target_user_id: *id }) is Allow,
            nt == store.tenants@.len(),
            k <= nt,
            forall|m: int|
                0 <= m < k ==> !((#[trigger] store.tenants@[m]).reseller_id is Some
                    && store.tenants@[m].reseller_id.unwrap()@ == id@),
        decreases nt - k,
    {
        let owned = match &store.tenants[k].reseller_id {
            Some(o) => crate::str_eq(o.as_str(), id.as_str()),
            None => false,
        };
        if owned {
            return Err(ApiError::Conflict(ConflictError::HasDependents));
        }
        k += 1;
    }
    let ns = store.sales.len();
    let mut k2: usize = 0;
    while k2 < ns
        invariant
            *store == *old(store),
            old(store).wf(),
            decide(*claims, Action::UserDelete { target_user_id: *id }) is Allow,
            !owns_some_tenant(old(store).tenants@, id@),
            ns == store.sales@.len(),
            k2 <= ns,
            forall|m: int| 0 <= m < k2 ==> (#[trigger] store.sales@[m]).user_id@ != id@,
        decreases ns - k2,
    {
        if crate::str_eq(store.sales[k2].user_id.as_str(), id.as_str()) {
            return Err(ApiError::Conflict(ConflictError::HasDependents));
        }
        k2 += 1;
    }

    if let Some(j) = find_user_by_id(&store.users, id) {
        proof {
            lemma_user_idx_unique(store.users@, id@, j as int);
        }
        let ghost users0 = store.users@;
        store.users.remove(j);
        proof {
            assert forall|a: int, b: int|
                0 <= a < b < store.users@.len() implies (#[trigger] store.users@[a].id@) != (
            #[trigger] store.users@[b].id@) && store.users@[a].email@ != store.users@[b].email@ by {
                let a0: int = if a < j { a } else { a + 1 };
                let b0: int = if b < j { b } else { b + 1 };
                assert(store.users@[a] == users0[a0]);
                assert(store.users@[b] == users0[b0]);
                assert(users0[a0].id@ != users0[b0].id@);
                assert(users0[a0].email@ != users0[b0].email@);
            }
        }
    }
    Ok(())
}

} // verus!
