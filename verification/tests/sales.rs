use pdv_core::domain::{Claims, CreateSaleItemRequest, CreateSaleRequest, Product, UpdateProductRequest};
use pdv_core::errors::{ApiError, AuthzError, SaleError};
use pdv_core::sale::{create_sale, get_dashboard_stats, list_sales};
use pdv_core::catalog::update_product;
use pdv_core::store::Store;

fn claims_for(sub: &str, tenant: Option<&str>, role: &str) -> Claims {
    Claims {
        sub: sub.to_string(),
        tenant_id: tenant.map(|t| t.to_string()),
        role: role.to_string(),
        exp: 2_000_000_000,
    }
}

fn product(id: &str, tenant: &str, price: i32, stock: i32) -> Product {
    Product {
        id: id.to_string(),
        tenant_id: tenant.to_string(),
        name: format!("product {}", id),
        description: None,
        price,
        stock_quantity: stock,
        sku: None,
        created_at: 1,
        updated_at: 1,
    }
}

fn sale_req(items: Vec<(&str, i32)>) -> CreateSaleRequest {
    CreateSaleRequest {
        items: items
            .into_iter()
            .map(|(pid, q)| CreateSaleItemRequest { product_id: pid.to_string(), quantity: q })
            .collect(),
        payment_method: "cash".to_string(),
        customer_id: None,
    }
}

fn ids(n: usize) -> Vec<String> {
    (0..n).map(|i| format!("item-{}", i)).collect()
}

#[test]
fn sale_happy_path_total_stock_and_snapshot() {
    let mut store = Store::new();
    store.products.push(product("p1", "t1", 300, 5));
    let claims = claims_for("u1", Some("t1"), "user");
    let r = create_sale(&mut store, &claims, &sale_req(vec![("p1", 2)]), &"s1".to_string(), &ids(1), 100);
    assert_eq!(r.unwrap(), "s1");
    assert_eq!(store.products[0].stock_quantity, 3);
    assert_eq!(store.sales.len(), 1);
    let sale = &store.sales[0];
    assert_eq!(sale.id, "s1");
    assert_eq!(sale.tenant_id, "t1");
    assert_eq!(sale.user_id, "u1");
    assert_eq!(sale.total_amount, 600);
    assert_eq!(sale.status, "completed");
    assert_eq!(sale.payment_method, "cash");
    assert_eq!(sale.created_at, 100);
    assert_eq!(store.sale_items.len(), 1);
    let li = &store.sale_items[0];
    assert_eq!(li.sale_id, "s1");
    assert_eq!(li.product_id, "p1");
    assert_eq!(li.quantity, 2);
    assert_eq!(li.unit_price, 300);
    assert_eq!(li.subtotal, 600);
}

#[test]
fn sale_insufficient_stock_rejected_unchanged() {
    let mut store = Store::new();
    store.products.push(product("p1", "t1", 300, 5));
    let claims = claims_for("u1", Some("t1"), "user");
    let r = create_sale(&mut store, &claims, &sale_req(vec![("p1", 6)]), &"s1".to_string(), &ids(1), 100);
    match r {
        Err(ApiError::Sale(SaleError::InsufficientStock(pid))) => assert_eq!(pid, "p1"),
        other => panic!("expected InsufficientStock, got {:?}", other),
    }
    assert_eq!(store.products[0].stock_quantity, 5);
    assert!(store.sales.is_empty());
    assert!(store.sale_items.is_empty());
}

#[test]
fn contending_sales_only_one_succeeds() {
    // Product with stock 5; two requests of quantity 3 arrive: the store's
    // serialized protocol lets exactly one commit.
    let mut store = Store::new();
    store.products.push(product("p1", "t1", 100, 5));
    let claims = claims_for("u1", Some("t1"), "user");
    let first = create_sale(&mut store, &claims, &sale_req(vec![("p1", 3)]), &"s1".to_string(), &ids(1), 100);
    assert!(first.is_ok());
    assert_eq!(store.products[0].stock_quantity, 2);
    let second = create_sale(&mut store, &claims, &sale_req(vec![("p1", 3)]), &"s2".to_string(), &ids(1), 101);
    match second {
        Err(ApiError::Sale(SaleError::InsufficientStock(pid))) => assert_eq!(pid, "p1"),
        other => panic!("expected InsufficientStock, got {:?}", other),
    }
    assert_eq!(store.products[0].stock_quantity, 2);
    assert_eq!(store.sales.len(), 1);
}

#[test]
fn multi_item_sale_is_all_or_nothing() {
    // First line would succeed, second has far too little stock: nothing of
    // the call is committed.
    let mut store = Store::new();
    store.products.push(product("p1", "t1", 100, 10));
    store.products.push(product("p2", "t1", 50, 1));
    let claims = claims_for("u1", Some("t1"), "user");
    let req = sale_req(vec![("p1", 2), ("p2", 999999)]);
    let r = create_sale(&mut store, &claims, &req, &"s1".to_string(), &ids(2), 100);
    match r {
        Err(ApiError::Sale(SaleError::InsufficientStock(pid))) => assert_eq!(pid, "p2"),
        other => panic!("expected InsufficientStock, got {:?}", other),
    }
    assert_eq!(store.products[0].stock_quantity, 10);
    assert_eq!(store.products[1].stock_quantity, 1);
    assert!(store.sales.is_empty());
    assert!(store.sale_items.is_empty());
}

#[test]
fn unknown_product_rejected() {
    let mut store = Store::new();
    store.products.push(product("p1", "t1", 100, 10));
    let claims = claims_for("u1", Some("t1"), "user");
    let r = create_sale(&mut store, &claims, &sale_req(vec![("nope", 1)]), &"s1".to_string(), &ids(1), 100);
    match r {
        Err(ApiError::Sale(SaleError::ProductNotFound(pid))) => assert_eq!(pid, "nope"),
        other => panic!("expected ProductNotFound, got {:?}", other),
    }
    assert!(store.sales.is_empty());
}

#[test]
fn foreign_tenant_product_is_invisible() {
    // The product exists but belongs to another tenant: the scoped read
    // does not see it.
    let mut store = Store::new();
    store.products.push(product("p1", "other", 100, 10));
    let claims = claims_for("u1", Some("t1"), "user");
    let r = create_sale(&mut store, &claims, &sale_req(vec![("p1", 1)]), &"s1".to_string(), &ids(1), 100);
    match r {
        Err(ApiError::Sale(SaleError::ProductNotFound(pid))) => assert_eq!(pid, "p1"),
        other => panic!("expected ProductNotFound, got {:?}", other),
    }
    assert_eq!(store.products[0].stock_quantity, 10);
}

#[test]
fn sale_without_tenant_scope_denied() {
    let mut store = Store::new();
    store.products.push(product("p1", "t1", 100, 10));
    let claims = claims_for("u1", None, "user");
    let r = create_sale(&mut store, &claims, &sale_req(vec![("p1", 1)]), &"s1".to_string(), &ids(1), 100);
    assert!(matches!(r, Err(ApiError::Authz(AuthzError::NoTenant))));
}

#[test]
fn repeated_line_is_checked_against_decremented_stock() {
    // Two lines of the same product, each within stock alone but not
    // together: the second check sees the first decrement.
    let mut store = Store::new();
    store.products.push(product("p1", "t1", 100, 5));
    let claims = claims_for("u1", Some("t1"), "user");
    let req = sale_req(vec![("p1", 3), ("p1", 3)]);
    let r = create_sale(&mut store, &claims, &req, &"s1".to_string(), &ids(2), 100);
    match r {
        Err(ApiError::Sale(SaleError::InsufficientStock(pid))) => assert_eq!(pid, "p1"),
        other => panic!("expected InsufficientStock, got {:?}", other),
    }
    assert_eq!(store.products[0].stock_quantity, 5);
}

#[test]
fn later_price_change_leaves_committed_sales_alone() {
    let mut store = Store::new();
    store.products.push(product("p1", "t1", 300, 5));
    let claims = claims_for("u1", Some("t1"), "user");
    create_sale(&mut store, &claims, &sale_req(vec![("p1", 2)]), &"s1".to_string(), &ids(1), 100).unwrap();

    let patch = UpdateProductRequest {
        name: None,
        description: None,
        price: Some(999),
        stock_quantity: None,
        sku: None,
    };
    update_product(&mut store, &claims, &"p1".to_string(), &patch, 200).unwrap();
    assert_eq!(store.products[0].price, 999);
    assert_eq!(store.sale_items[0].unit_price, 300);
    assert_eq!(store.sale_items[0].subtotal, 600);
    assert_eq!(store.sales[0].total_amount, 600);
}

#[test]
fn sales_listing_is_scoped_and_newest_first() {
    let mut store = Store::new();
    store.products.push(product("p1", "t1", 100, 100));
    let claims = claims_for("u1", Some("t1"), "user");
    create_sale(&mut store, &claims, &sale_req(vec![("p1", 1)]), &"s1".to_string(), &ids(1), 100).unwrap();
    create_sale(&mut store, &claims, &sale_req(vec![("p1", 1)]), &"s2".to_string(), &ids(1), 300).unwrap();
    create_sale(&mut store, &claims, &sale_req(vec![("p1", 1)]), &"s3".to_string(), &ids(1), 200).unwrap();
    // a foreign tenant's sale must not appear
    let other = claims_for("u2", Some("t2"), "user");
    store.products.push(product("p9", "t2", 100, 100));
    create_sale(&mut store, &other, &sale_req(vec![("p9", 1)]), &"s9".to_string(), &ids(1), 999).unwrap();

    let listed = list_sales(&store, &claims).unwrap();
    let listed_ids: Vec<&str> = listed.iter().map(|s| s.id.as_str()).collect();
    assert_eq!(listed_ids, vec!["s2", "s3", "s1"]);
}

#[test]
fn dashboard_reports_exact_totals_and_recent_sales() {
    let mut store = Store::new();
    store.products.push(product("p1", "t1", 100, 100));
    let claims = claims_for("u1", Some("t1"), "user");
    for k in 0..7 {
        let sid = format!("s{}", k);
        create_sale(&mut store, &claims, &sale_req(vec![("p1", 2)]), &sid, &ids(1), 100 + k).unwrap();
    }
    let stats = get_dashboard_stats(&store, &claims).unwrap();
    assert_eq!(stats.total_revenue, 7 * 200);
    assert_eq!(stats.sales_count, 7);
    assert_eq!(stats.recent_sales.len(), 5);
    assert_eq!(stats.recent_sales[0].created_at, 106);
    assert_eq!(stats.recent_sales[4].created_at, 102);
}

#[test]
fn dashboard_without_tenant_denied() {
    let store = Store::new();
    let claims = claims_for("u1", None, "user");
    let r = get_dashboard_stats(&store, &claims);
    assert!(matches!(r, Err(ApiError::Authz(AuthzError::NoTenant))));
}
