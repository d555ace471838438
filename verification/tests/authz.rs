use pdv_core::authz::{authorize, Action, Decision, Scope};
use pdv_core::domain::Claims;
use pdv_core::errors::AuthzError;

fn claims_for(sub: &str, tenant: Option<&str>, role: &str) -> Claims {
    Claims {
        sub: sub.to_string(),
        tenant_id: tenant.map(|t| t.to_string()),
        role: role.to_string(),
        exp: 2_000_000_000,
    }
}

#[test]
fn admin_is_allowed_everything_administrative() {
    let admin = claims_for("a1", None, "admin");
    let actions = vec![
        Action::PlanManage,
        Action::TenantCreate,
        Action::TenantList,
        Action::TenantMutate { owner: Some("someone".to_string()) },
        Action::TenantMutate { owner: None },
        Action::ResellerManage,
        Action::UserManage,
        Action::UserDelete { target_user_id: "u7".to_string() },
    ];
    for action in actions {
        match authorize(&admin, &action) {
            Decision::Allow(Scope::AllRows) => {},
            other => panic!("expected Allow(AllRows), got {:?}", other),
        }
    }
}

#[test]
fn reseller_mutates_only_owned_tenants() {
    let reseller = claims_for("r1", Some("w1"), "reseller");
    match authorize(&reseller, &Action::TenantMutate { owner: Some("r1".to_string()) }) {
        Decision::Allow(Scope::OwnedTenants(sub)) => assert_eq!(sub, "r1"),
        other => panic!("expected Allow(OwnedTenants), got {:?}", other),
    }
    match authorize(&reseller, &Action::TenantMutate { owner: Some("r2".to_string()) }) {
        Decision::Deny(AuthzError::NotOwner) => {},
        other => panic!("expected Deny(NotOwner), got {:?}", other),
    }
    match authorize(&reseller, &Action::TenantMutate { owner: None }) {
        Decision::Deny(AuthzError::NotOwner) => {},
        other => panic!("expected Deny(NotOwner), got {:?}", other),
    }
}

#[test]
fn reseller_may_create_and_list_tenants() {
    let reseller = claims_for("r1", Some("w1"), "reseller");
    match authorize(&reseller, &Action::TenantCreate) {
        Decision::Allow(Scope::OwnedTenants(sub)) => assert_eq!(sub, "r1"),
        other => panic!("expected Allow(OwnedTenants), got {:?}", other),
    }
    match authorize(&reseller, &Action::TenantList) {
        Decision::Allow(Scope::OwnedTenants(sub)) => assert_eq!(sub, "r1"),
        other => panic!("expected Allow(OwnedTenants), got {:?}", other),
    }
}

#[test]
fn reseller_is_forbidden_user_and_reseller_management() {
    let reseller = claims_for("r1", Some("w1"), "reseller");
    for action in [Action::ResellerManage, Action::UserManage, Action::PlanManage] {
        match authorize(&reseller, &action) {
            Decision::Deny(AuthzError::Forbidden) => {},
            other => panic!("expected Deny(Forbidden), got {:?}", other),
        }
    }
    match authorize(&reseller, &Action::UserDelete { target_user_id: "u7".to_string() }) {
        Decision::Deny(AuthzError::Forbidden) => {},
        other => panic!("expected Deny(Forbidden), got {:?}", other),
    }
}

#[test]
fn plain_user_is_forbidden_the_admin_namespace() {
    let user = claims_for("u1", Some("t1"), "user");
    let actions = vec![
        Action::PlanManage,
        Action::TenantCreate,
        Action::TenantList,
        Action::TenantMutate { owner: Some("u1".to_string()) },
        Action::ResellerManage,
        Action::UserManage,
        Action::UserDelete { target_user_id: "u7".to_string() },
    ];
    for action in actions {
        match authorize(&user, &action) {
            Decision::Deny(AuthzError::Forbidden) => {},
            other => panic!("expected Deny(Forbidden), got {:?}", other),
        }
    }
}

#[test]
fn self_deletion_is_denied_whatever_the_role() {
    for role in ["admin", "reseller", "user", "super_admin"] {
        let caller = claims_for("me", Some("t1"), role);
        match authorize(&caller, &Action::UserDelete { target_user_id: "me".to_string() }) {
            Decision::Deny(AuthzError::CannotDeleteSelf) => {},
            other => panic!("role {}: expected Deny(CannotDeleteSelf), got {:?}", role, other),
        }
    }
}

#[test]
fn data_access_is_scoped_to_the_callers_tenant() {
    let user = claims_for("u1", Some("t1"), "user");
    match authorize(&user, &Action::DataAccess) {
        Decision::Allow(Scope::TenantRows(t)) => assert_eq!(t, "t1"),
        other => panic!("expected Allow(TenantRows), got {:?}", other),
    }
    let admin = claims_for("a1", Some("t9"), "admin");
    match authorize(&admin, &Action::DataAccess) {
        Decision::Allow(Scope::TenantRows(t)) => assert_eq!(t, "t9"),
        other => panic!("expected Allow(TenantRows), got {:?}", other),
    }
    let unscoped = claims_for("a1", None, "admin");
    match authorize(&unscoped, &Action::DataAccess) {
        Decision::Deny(AuthzError::NoTenant) => {},
        other => panic!("expected Deny(NoTenant), got {:?}", other),
    }
}
