//! Account registration and login: email uniqueness, password hashing and
//! verification, and the claim fields a successful login asserts.

use vstd::prelude::*;

use crate::credentials::{hash_password, password_matches, verify_password};
use crate::domain::{clone_opt_string, CreateUserRequest, LoginOutcome, LoginRequest, User};
use crate::errors::{ApiError, ConflictError};
use crate::store::{
    find_tenant_by_id, find_user_by_email, has_tenant, has_user_email, lemma_tenant_idx_unique,
    lemma_user_email_idx_unique, tenant_idx, user_email_idx, Store,
};

verus! {

/// Inserts an account row, refusing an email already taken.
pub fn insert_user(
    store: &mut Store,
    email: &String,
    password_hash: String,
    role: String,
    tenant_id: Option<String>,
    user_id: &String,
    now: u64,
) -> (r: Result<(), ApiError>)
    requires
        old(store).wf(),
        forall|i: int|
            0 <= i < old(store).users@.len() ==> (#[trigger] old(store).users@[i]).id@ != user_id@,
    ensures
        final(store).wf(),
        final(store).tenants@ == old(store).tenants@,
        final(store).plans@ == old(store).plans@,
        final(store).products@ == old(store).products@,
        final(store).customers@ == old(store).customers@,
        final(store).sales@ == old(store).sales@,
        final(store).sale_items@ == old(store).sale_items@,
        r is Ok <==> !has_user_email(old(store).users@, email@),
        r is Err ==> *final(store) == *old(store) && r == Err::<(), ApiError>(
            ApiError::Conflict(ConflictError::DuplicateEmail),
        ),
        r is Ok ==> final(store).users@ == old(store).users@.push(
            User {
                id: *user_id,
                email: *email,
                password_hash: password_hash,
                role: role,
                tenant_id: tenant_id,
                created_at: now,
            },
        ),
{
    match find_user_by_email(&store.users, email) {
        Some(j) => {
            proof {
                lemma_user_email_idx_unique(store.users@, email@, j as int);
            }
            Err(ApiError::Conflict(ConflictError::DuplicateEmail))
        },
        None => {
            let row = User {
                id: user_id.clone(),
                email: email.clone(),
                password_hash,
                role,
                tenant_id,
                created_at: now,
            };
            store.users.push(row);
            Ok(())
        },
    }
}

/// Registers an account: hashes the password, then inserts the row with the
/// requested role (the shopkeeper role when none is given) and the freshly
/// minted private tenant id. An email already registered is refused and the
/// first account is unaffected.
pub fn register(
    store: &mut Store,
    payload: &CreateUserRequest,
    user_id: &String,
    tenant_id: &String,
    now: u64,
) -> (r: Result<(), ApiError>)
    requires
        old(store).wf(),
        forall|i: int|
            0 <= i < old(store).users@.len() ==> (#[trigger] old(store).users@[i]).id@ != user_id@,
    ensures
        final(store).wf(),
        final(store).tenants@ == old(store).tenants@,
        final(store).plans@ == old(store).plans@,
        final(store).products@ == old(store).products@,
        final(store).customers@ == old(store).customers@,
        final(store).sales@ == old(store).sales@,
        final(store).sale_items@ == old(store).sale_items@,
        r is Err ==> *final(store) == *old(store),
        r == Err::<(), ApiError>(ApiError::Conflict(ConflictError::DuplicateEmail))
            <==> has_user_email(old(store).users@, payload.email@),
        !has_user_email(old(store).users@, payload.email@) ==> r is Ok || r == Err::<(), ApiError>(
            ApiError::Hashing,
        ),
        r is Ok ==> {
            &&& !has_user_email(old(store).users@, payload.email@)
            &&& final(store).users@.len() == old(store).users@.len() + 1
            &&& final(store).users@.drop_last() == old(store).users@
            &&& ({
                let u = final(store).users@.last();
                &&& u.id == *user_id
                &&& u.email == payload.email
                &&& password_matches(u.password_hash@, payload.password@)
                &&& (match payload.role {
                    Some(ro) => u.role == ro,
                    None => u.role@ == crate::domain::user_role(),
                })
                &&& u.tenant_id == Some(*tenant_id)
                &&& u.created_at == now
            })
        },
{
    // A taken email is refused before any hashing work is done.
    if let Some(j) = find_user_by_email(&store.users, &payload.email) {
        proof {
            lemma_user_email_idx_unique(store.users@, payload.email@, j as int);
        }
        return Err(ApiError::Conflict(ConflictError::DuplicateEmail));
    }
    let hash = match hash_password(payload.password.as_str()) {
        Ok(h) => h,
        Err(e) => {
            return Err(e);
        },
    };
    let role: String = match &payload.role {
        Some(ro) => ro.clone(),
        None => "user".to_owned(),
    };
    let ghost users0 = store.users@;
    let r = insert_user(store, &payload.email, hash, role, Some(tenant_id.clone()), user_id, now);
    proof {
        if r is Ok {
            assert(store.users@.drop_last() =~= users0);
        }
    }
    match r {
        Ok(()) => Ok(()),
        Err(e) => {
            proof {
                assert(false);
            }
            Err(e)
        },
    }
}

/// Checks a login: the account with the email must exist and the password
/// must verify against its stored hash; on success the asserted fields are
/// exactly that account's, with the business type read from its tenant.
pub fn login(store: &Store, payload: &LoginRequest) -> (r: Result<LoginOutcome, ApiError>)
    requires
        store.wf(),
    ensures
        r is Ok <==> has_user_email(store.users@, payload.email@) && password_matches(
            store.users@[user_email_idx(store.users@, payload.email@)].password_hash@,
            payload.password@,
        ),
        r is Err ==> r == Err::<LoginOutcome, ApiError>(ApiError::InvalidCredentials),
        r is Ok ==> ({
            let u = store.users@[user_email_idx(store.users@, payload.email@)];
            let out = r->Ok_0;
            &&& out.user_id == u.id
            &&& out.role == u.role
            &&& out.tenant_id == u.tenant_id
            &&& out.email == u.email
            &&& out.business_type == (match u.tenant_id {
                Some(t) => if has_tenant(store.tenants@, t@) {
                    store.tenants@[tenant_idx(store.tenants@, t@)].business_type
                } else {
                    None::<String>
                },
                None => None::<String>,
            })
        }),
{
    let j = match find_user_by_email(&store.users, &payload.email) {
        Some(j) => j,
        None => {
            return Err(ApiError::InvalidCredentials);
        },
    };
    proof {
        lemma_user_email_idx_unique(store.users@, payload.email@, j as int);
    }
    let u = &store.users[j];
    if !verify_password(u.password_hash.as_str(), payload.password.as_str()) {
        return Err(ApiError::InvalidCredentials);
    }
    let business_type: Option<String> = match &u.tenant_id {
        Some(t) => {
            match find_tenant_by_id(&store.tenants, t) {
                Some(k) => {
                    proof {
                        lemma_tenant_idx_unique(store.tenants@, t@, k as int);
                    }
                    clone_opt_string(&store.tenants[k].business_type)
                },
                None => None,
            }
        },
        None => None,
    };
    Ok(
        LoginOutcome {
            user_id: u.id.clone(),
            role: u.role.clone(),
            tenant_id: clone_opt_string(&u.tenant_id),
            business_type,
            email: u.email.clone(),
        },
    )
}

} // verus!
