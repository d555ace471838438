use pdv_core::accounts::{login, register};
use pdv_core::domain::{
    Claims, CreateCustomerRequest, CreatePlanRequest, CreateProductRequest, CreateTenantRequest,
    CreateUserRequest, LoginRequest, UpdateTenantRequest, UpdateUserRequest,
};
use pdv_core::catalog::{create_customer, create_product, list_customers, list_products};
use pdv_core::errors::{ApiError, AuthzError, ConflictError};
use pdv_core::lifecycle::{
    create_plan, create_reseller, create_tenant, create_user_admin, delete_tenant, delete_user,
    list_plans, list_resellers, list_tenants, list_users, update_tenant, update_user,
};
use pdv_core::store::Store;

fn claims_for(sub: &str, tenant: Option<&str>, role: &str) -> Claims {
    Claims {
        sub: sub.to_string(),
        tenant_id: tenant.map(|t| t.to_string()),
        role: role.to_string(),
        exp: 2_000_000_000,
    }
}

fn user_req(email: &str, password: &str, role: Option<&str>) -> CreateUserRequest {
    CreateUserRequest {
        email: email.to_string(),
        password: password.to_string(),
        role: role.map(|r| r.to_string()),
    }
}

fn tenant_req(name: &str, owner: Option<(&str, &str)>) -> CreateTenantRequest {
    CreateTenantRequest {
        name: name.to_string(),
        plan_id: None,
        business_type: None,
        owner_email: owner.map(|(e, _)| e.to_string()),
        owner_password: owner.map(|(_, p)| p.to_string()),
    }
}

#[test]
fn duplicate_registration_is_refused_and_first_account_kept() {
    let mut store = Store::new();
    register(&mut store, &user_req("a@x.com", "first-pw", None), &"u1".to_string(), &"t1".to_string(), 10)
        .unwrap();
    let second = register(
        &mut store,
        &user_req("a@x.com", "other-pw", None),
        &"u2".to_string(),
        &"t2".to_string(),
        20,
    );
    assert!(matches!(second, Err(ApiError::Conflict(ConflictError::DuplicateEmail))));
    assert_eq!(store.users.len(), 1);
    assert_eq!(store.users[0].id, "u1");
    assert_eq!(store.users[0].email, "a@x.com");
    assert_eq!(store.users[0].role, "user");
    assert_eq!(store.users[0].tenant_id.as_deref(), Some("t1"));
    // the first account still logs in with its own password
    let lr = LoginRequest { email: "a@x.com".to_string(), password: "first-pw".to_string() };
    assert!(login(&store, &lr).is_ok());
}

#[test]
fn login_verifies_the_stored_hash() {
    let mut store = Store::new();
    register(&mut store, &user_req("b@x.com", "secret-pw", Some("admin")), &"u1".to_string(), &"t1".to_string(), 10)
        .unwrap();
    // the stored hash is a real hash, not the password itself
    assert_ne!(store.users[0].password_hash, "secret-pw");

    let ok = login(&store, &LoginRequest { email: "b@x.com".to_string(), password: "secret-pw".to_string() })
        .unwrap();
    assert_eq!(ok.user_id, "u1");
    assert_eq!(ok.role, "admin");
    assert_eq!(ok.email, "b@x.com");
    assert_eq!(ok.tenant_id.as_deref(), Some("t1"));

    let bad = login(&store, &LoginRequest { email: "b@x.com".to_string(), password: "wrong".to_string() });
    assert!(matches!(bad, Err(ApiError::InvalidCredentials)));
    let missing = login(&store, &LoginRequest { email: "c@x.com".to_string(), password: "secret-pw".to_string() });
    assert!(matches!(missing, Err(ApiError::InvalidCredentials)));
}

#[test]
fn login_reports_the_tenants_business_type() {
    let mut store = Store::new();
    let admin = claims_for("a1", None, "admin");
    create_tenant(&mut store, &admin, &tenant_req("shop", Some(("o@x.com", "pw"))), &"t1".to_string(), &"u1".to_string(), &"2024".to_string(), 10)
        .unwrap();
    let ok = login(&store, &LoginRequest { email: "o@x.com".to_string(), password: "pw".to_string() })
        .unwrap();
    assert_eq!(ok.business_type.as_deref(), Some("retail"));
}

#[test]
fn reseller_created_tenant_is_owned_by_the_reseller() {
    let mut store = Store::new();
    let reseller = claims_for("r1", Some("w1"), "reseller");
    create_tenant(&mut store, &reseller, &tenant_req("shop", None), &"t1".to_string(), &"u-none".to_string(), &"2024".to_string(), 10)
        .unwrap();
    assert_eq!(store.tenants.len(), 1);
    assert_eq!(store.tenants[0].reseller_id.as_deref(), Some("r1"));
    assert_eq!(store.tenants[0].status, "active");
    assert_eq!(store.tenants[0].business_type.as_deref(), Some("retail"));
    assert!(store.users.is_empty());
}

#[test]
fn admin_created_tenant_is_platform_owned() {
    let mut store = Store::new();
    let admin = claims_for("a1", None, "admin");
    create_tenant(&mut store, &admin, &tenant_req("shop", None), &"t1".to_string(), &"u-none".to_string(), &"2024".to_string(), 10)
        .unwrap();
    assert_eq!(store.tenants[0].reseller_id, None);
}

#[test]
fn plain_user_may_not_create_tenants() {
    let mut store = Store::new();
    let user = claims_for("u1", Some("t1"), "user");
    let r = create_tenant(&mut store, &user, &tenant_req("shop", None), &"t9".to_string(), &"u9".to_string(), &"2024".to_string(), 10);
    assert!(matches!(r, Err(ApiError::Authz(AuthzError::Forbidden))));
    assert!(store.tenants.is_empty());
}

#[test]
fn tenant_with_owner_is_atomic_on_duplicate_email() {
    let mut store = Store::new();
    let admin = claims_for("a1", None, "admin");
    register(&mut store, &user_req("o@x.com", "pw", None), &"u1".to_string(), &"t0".to_string(), 1).unwrap();
    let r = create_tenant(&mut store, &admin, &tenant_req("shop", Some(("o@x.com", "pw"))), &"t1".to_string(), &"u2".to_string(), &"2024".to_string(), 10);
    assert!(matches!(r, Err(ApiError::Conflict(ConflictError::DuplicateEmail))));
    // neither the tenant row nor a second user row was written
    assert!(store.tenants.is_empty());
    assert_eq!(store.users.len(), 1);
}

#[test]
fn foreign_reseller_cannot_delete_an_owned_tenant() {
    let mut store = Store::new();
    let r1 = claims_for("r1", Some("w1"), "reseller");
    create_tenant(&mut store, &r1, &tenant_req("shop", None), &"t1".to_string(), &"u-none".to_string(), &"2024".to_string(), 10)
        .unwrap();
    let r2 = claims_for("r2", Some("w2"), "reseller");
    let denied = delete_tenant(&mut store, &r2, &"t1".to_string());
    assert!(matches!(denied, Err(ApiError::Authz(AuthzError::NotOwner))));
    assert_eq!(store.tenants.len(), 1);
    assert_eq!(store.tenants[0].id, "t1");
    // the owner may delete it
    delete_tenant(&mut store, &r1, &"t1".to_string()).unwrap();
    assert!(store.tenants.is_empty());
}

#[test]
fn reseller_lists_only_owned_tenants() {
    let mut store = Store::new();
    let admin = claims_for("a1", None, "admin");
    let r1 = claims_for("r1", Some("w1"), "reseller");
    create_tenant(&mut store, &r1, &tenant_req("mine", None), &"t1".to_string(), &"x1".to_string(), &"2024".to_string(), 10).unwrap();
    create_tenant(&mut store, &admin, &tenant_req("platform", None), &"t2".to_string(), &"x2".to_string(), &"2024".to_string(), 10).unwrap();
    let mine = list_tenants(&store, &r1).unwrap();
    assert_eq!(mine.len(), 1);
    assert_eq!(mine[0].id, "t1");
    let all = list_tenants(&store, &admin).unwrap();
    assert_eq!(all.len(), 2);
}

#[test]
fn tenant_update_is_partial_and_refreshes_the_timestamp() {
    let mut store = Store::new();
    let admin = claims_for("a1", None, "admin");
    create_tenant(&mut store, &admin, &tenant_req("old name", None), &"t1".to_string(), &"x".to_string(), &"2024".to_string(), 10).unwrap();
    let patch = UpdateTenantRequest {
        name: Some("new name".to_string()),
        plan_id: None,
        status: None,
        business_type: None,
        custom_fields: None,
    };
    update_tenant(&mut store, &admin, &"t1".to_string(), &patch, &"2025".to_string()).unwrap();
    let t = &store.tenants[0];
    assert_eq!(t.name, "new name");
    assert_eq!(t.status, "active");
    assert_eq!(t.business_type.as_deref(), Some("retail"));
    assert_eq!(t.created_at, "2024");
    assert_eq!(t.updated_at.as_deref(), Some("2025"));
}

#[test]
fn deleting_your_own_account_always_fails() {
    let mut store = Store::new();
    let admin = claims_for("a1", None, "admin");
    create_user_admin(&mut store, &admin, &user_req("a1@x.com", "pw", Some("admin")), &"a1".to_string(), &"ta".to_string(), 1)
        .unwrap();
    let r = delete_user(&mut store, &admin, &"a1".to_string());
    assert!(matches!(r, Err(ApiError::Authz(AuthzError::CannotDeleteSelf))));
    assert_eq!(store.users.len(), 1);
}

#[test]
fn deleting_a_reseller_who_owns_tenants_is_blocked() {
    let mut store = Store::new();
    let admin = claims_for("a1", None, "admin");
    create_reseller(&mut store, &admin, &user_req("r@x.com", "pw", None), &"r1".to_string(), &"w1".to_string(), 1)
        .unwrap();
    let r1 = claims_for("r1", Some("w1"), "reseller");
    create_tenant(&mut store, &r1, &tenant_req("shop", None), &"t1".to_string(), &"x".to_string(), &"2024".to_string(), 10).unwrap();
    let blocked = delete_user(&mut store, &admin, &"r1".to_string());
    assert!(matches!(blocked, Err(ApiError::Conflict(ConflictError::HasDependents))));
    assert_eq!(store.users.len(), 1);
    // once the tenant is gone the account can be deleted
    delete_tenant(&mut store, &r1, &"t1".to_string()).unwrap();
    delete_user(&mut store, &admin, &"r1".to_string()).unwrap();
    assert!(store.users.is_empty());
}

#[test]
fn created_reseller_carries_the_reseller_role_whatever_the_payload() {
    let mut store = Store::new();
    let admin = claims_for("a1", None, "admin");
    create_reseller(&mut store, &admin, &user_req("r@x.com", "pw", Some("admin")), &"r1".to_string(), &"w1".to_string(), 1)
        .unwrap();
    assert_eq!(store.users[0].role, "reseller");
    assert_eq!(store.users[0].tenant_id.as_deref(), Some("w1"));
    let listed = list_resellers(&store, &admin).unwrap();
    assert_eq!(listed.len(), 1);
    assert_eq!(listed[0].id, "r1");
}

#[test]
fn user_management_is_admin_only() {
    let mut store = Store::new();
    let reseller = claims_for("r1", Some("w1"), "reseller");
    let r = create_user_admin(&mut store, &reseller, &user_req("u@x.com", "pw", None), &"u1".to_string(), &"t1".to_string(), 1);
    assert!(matches!(r, Err(ApiError::Authz(AuthzError::Forbidden))));
    assert!(matches!(list_users(&store, &reseller), Err(ApiError::Authz(AuthzError::Forbidden))));
    assert!(matches!(list_resellers(&store, &reseller), Err(ApiError::Authz(AuthzError::Forbidden))));
}

#[test]
fn user_update_rehashes_a_new_password() {
    let mut store = Store::new();
    let admin = claims_for("a1", None, "admin");
    create_user_admin(&mut store, &admin, &user_req("u@x.com", "old-pw", None), &"u1".to_string(), &"t1".to_string(), 1)
        .unwrap();
    let patch = UpdateUserRequest { email: None, password: Some("new-pw".to_string()), role: None };
    update_user(&mut store, &admin, &"u1".to_string(), &patch).unwrap();
    let ok = login(&store, &LoginRequest { email: "u@x.com".to_string(), password: "new-pw".to_string() });
    assert!(ok.is_ok());
    let old = login(&store, &LoginRequest { email: "u@x.com".to_string(), password: "old-pw".to_string() });
    assert!(matches!(old, Err(ApiError::InvalidCredentials)));
}

#[test]
fn user_update_refuses_an_email_already_taken() {
    let mut store = Store::new();
    let admin = claims_for("a1", None, "admin");
    create_user_admin(&mut store, &admin, &user_req("one@x.com", "pw", None), &"u1".to_string(), &"t1".to_string(), 1).unwrap();
    create_user_admin(&mut store, &admin, &user_req("two@x.com", "pw", None), &"u2".to_string(), &"t2".to_string(), 1).unwrap();
    let patch = UpdateUserRequest { email: Some("one@x.com".to_string()), password: None, role: None };
    let r = update_user(&mut store, &admin, &"u2".to_string(), &patch);
    assert!(matches!(r, Err(ApiError::Conflict(ConflictError::DuplicateEmail))));
    assert_eq!(store.users[1].email, "two@x.com");
}

#[test]
fn product_listing_is_tenant_isolated() {
    let mut store = Store::new();
    let a = claims_for("u1", Some("ta"), "user");
    let b = claims_for("u2", Some("tb"), "user");
    let req = CreateProductRequest {
        name: "widget".to_string(),
        description: None,
        price: 100,
        stock_quantity: 3,
        sku: None,
    };
    create_product(&mut store, &a, &req, &"pa".to_string(), 1).unwrap();
    create_product(&mut store, &b, &req, &"pb".to_string(), 1).unwrap();
    let for_a = list_products(&store, &a).unwrap();
    assert_eq!(for_a.len(), 1);
    assert_eq!(for_a[0].id, "pa");
    assert_eq!(for_a[0].tenant_id, "ta");
    let for_b = list_products(&store, &b).unwrap();
    assert_eq!(for_b.len(), 1);
    assert_eq!(for_b[0].id, "pb");
}

#[test]
fn negative_product_values_are_rejected() {
    let mut store = Store::new();
    let a = claims_for("u1", Some("ta"), "user");
    let req = CreateProductRequest {
        name: "widget".to_string(),
        description: None,
        price: -1,
        stock_quantity: 3,
        sku: None,
    };
    let r = create_product(&mut store, &a, &req, &"pa".to_string(), 1);
    assert!(matches!(r, Err(ApiError::Validation)));
    assert!(store.products.is_empty());
}

#[test]
fn customers_are_scoped_to_the_creating_tenant() {
    let mut store = Store::new();
    let a = claims_for("u1", Some("ta"), "user");
    let b = claims_for("u2", Some("tb"), "user");
    let req = CreateCustomerRequest {
        name: "Ada".to_string(),
        email: Some("ada@x.com".to_string()),
        phone: None,
        notes: None,
    };
    create_customer(&mut store, &a, &req, &"c1".to_string(), 1).unwrap();
    let for_a = list_customers(&store, &a).unwrap();
    assert_eq!(for_a.len(), 1);
    assert_eq!(for_a[0].tenant_id, "ta");
    let for_b = list_customers(&store, &b).unwrap();
    assert!(for_b.is_empty());
    let unscoped = claims_for("u3", None, "user");
    assert!(matches!(list_customers(&store, &unscoped), Err(ApiError::Authz(AuthzError::NoTenant))));
}

#[test]
fn plans_are_managed_by_admins_only() {
    let mut store = Store::new();
    let admin = claims_for("a1", None, "admin");
    let req = CreatePlanRequest {
        name: "basic".to_string(),
        price: 990,
        max_users: 5,
        features: None,
    };
    create_plan(&mut store, &admin, &req, &"pl1".to_string(), 1).unwrap();
    let plans = list_plans(&store, &admin).unwrap();
    assert_eq!(plans.len(), 1);
    assert_eq!(plans[0].name, "basic");
    assert_eq!(plans[0].price, 990);
    let user = claims_for("u1", Some("t1"), "user");
    assert!(matches!(list_plans(&store, &user), Err(ApiError::Authz(AuthzError::Forbidden))));
}

#[test]
fn deleting_a_missing_user_is_a_no_op() {
    let mut store = Store::new();
    let admin = claims_for("a1", None, "admin");
    delete_user(&mut store, &admin, &"ghost".to_string()).unwrap();
    assert!(store.users.is_empty());
}
