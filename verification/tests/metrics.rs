use pdv_core::domain::{Claims, CreateSaleItemRequest, CreateSaleRequest, Customer, Product};
use pdv_core::errors::{ApiError, AuthzError};
use pdv_core::metrics::{get_inventory_alerts, get_overview, get_sales_trend, get_top_products};
use pdv_core::sale::create_sale;
use pdv_core::store::Store;

fn claims_for(sub: &str, tenant: Option<&str>, role: &str) -> Claims {
    Claims {
        sub: sub.to_string(),
        tenant_id: tenant.map(|t| t.to_string()),
        role: role.to_string(),
        exp: 2_000_000_000,
    }
}

fn product(id: &str, tenant: &str, price: i32, stock: i32) -> Product {
    Product {
        id: id.to_string(),
        tenant_id: tenant.to_string(),
        name: format!("product {}", id),
        description: None,
        price,
        stock_quantity: stock,
        sku: None,
        created_at: 1,
        updated_at: 1,
    }
}

fn customer(id: &str, tenant: &str) -> Customer {
    Customer {
        id: id.to_string(),
        tenant_id: tenant.to_string(),
        name: "Ada".to_string(),
        email: None,
        phone: None,
        notes: None,
        created_at: 1,
    }
}

fn one_line(pid: &str, qty: i32) -> CreateSaleRequest {
    CreateSaleRequest {
        items: vec![CreateSaleItemRequest { product_id: pid.to_string(), quantity: qty }],
        payment_method: "cash".to_string(),
        customer_id: None,
    }
}

fn sell(store: &mut Store, claims: &Claims, pid: &str, qty: i32, sid: &str, at: u64) {
    let item_ids = vec![format!("{}-line", sid)];
    create_sale(store, claims, &one_line(pid, qty), &sid.to_string(), &item_ids, at).unwrap();
}

#[test]
fn overview_counts_are_exact_and_scoped() {
    let mut store = Store::new();
    store.products.push(product("p1", "t1", 250, 10));
    store.products.push(product("px", "other", 250, 10));
    store.customers.push(customer("c1", "t1"));
    store.customers.push(customer("c2", "t1"));
    store.customers.push(customer("cx", "other"));
    let claims = claims_for("u1", Some("t1"), "user");
    sell(&mut store, &claims, "p1", 2, "s1", 100);
    sell(&mut store, &claims, "p1", 1, "s2", 200);

    let m = get_overview(&store, &claims).unwrap();
    assert_eq!(m.total_revenue, 750);
    assert_eq!(m.sales_count, 2);
    assert_eq!(m.products_count, 1);
    assert_eq!(m.customers_count, 2);

    let unscoped = claims_for("u1", None, "user");
    assert!(matches!(get_overview(&store, &unscoped), Err(ApiError::Authz(AuthzError::NoTenant))));
}

#[test]
fn trend_groups_the_last_week_by_day() {
    let mut store = Store::new();
    store.products.push(product("p1", "t1", 100, 100));
    let claims = claims_for("u1", Some("t1"), "user");
    // two sales on the first day of the window, one on the last, one outside
    sell(&mut store, &claims, "p1", 1, "s1", 10);
    sell(&mut store, &claims, "p1", 2, "s2", 20);
    sell(&mut store, &claims, "p1", 3, "s3", 6 * 86400 + 5);
    // nothing on the days between; day seven of history would be outside a
    // larger window but here the window starts at day zero
    let now = 6 * 86400 + 100;
    let points = get_sales_trend(&store, &claims, now).unwrap();
    assert_eq!(points.len(), 2);
    let first = points.iter().find(|p| p.date == "1970-01-01").expect("a point for the first day");
    assert_eq!(first.revenue, 300);
    assert_eq!(first.sales_count, 2);
    let last = points.iter().find(|p| p.date == "1970-01-07").expect("a point for the last day");
    assert_eq!(last.revenue, 300);
    assert_eq!(last.sales_count, 1);
}

#[test]
fn trend_window_excludes_older_sales() {
    let mut store = Store::new();
    store.products.push(product("p1", "t1", 100, 100));
    let claims = claims_for("u1", Some("t1"), "user");
    sell(&mut store, &claims, "p1", 1, "s1", 10);  // day 0
    let now = 20 * 86400;  // day 20: the window is days 14 to 20
    let points = get_sales_trend(&store, &claims, now).unwrap();
    assert!(points.is_empty());
}

#[test]
fn top_products_are_ranked_by_quantity_and_capped() {
    let mut store = Store::new();
    for k in 0..7 {
        store.products.push(product(&format!("p{}", k), "t1", 100, 1000));
    }
    let claims = claims_for("u1", Some("t1"), "user");
    // product k sells k+1 units
    for k in 0..7 {
        let pid = format!("p{}", k);
        let sid = format!("s{}", k);
        sell(&mut store, &claims, &pid, (k + 1) as i32, &sid, 100 + k);
    }
    let top = get_top_products(&store, &claims).unwrap();
    assert_eq!(top.len(), 5);
    assert_eq!(top[0].product_id, "p6");
    assert_eq!(top[0].quantity_sold, 7);
    assert_eq!(top[0].revenue, 700);
    assert_eq!(top[0].product_name, "product p6");
    for w in top.windows(2) {
        assert!(w[0].quantity_sold >= w[1].quantity_sold);
    }
    assert_eq!(top[4].product_id, "p2");
}

#[test]
fn top_products_ignore_other_tenants_sales() {
    let mut store = Store::new();
    store.products.push(product("p1", "t1", 100, 100));
    store.products.push(product("p2", "t2", 100, 100));
    let a = claims_for("u1", Some("t1"), "user");
    let b = claims_for("u2", Some("t2"), "user");
    sell(&mut store, &a, "p1", 2, "s1", 100);
    sell(&mut store, &b, "p2", 9, "s2", 100);
    let top = get_top_products(&store, &a).unwrap();
    assert_eq!(top.len(), 1);
    assert_eq!(top[0].product_id, "p1");
    assert_eq!(top[0].quantity_sold, 2);
}

#[test]
fn inventory_alerts_list_low_stock_ascending() {
    let mut store = Store::new();
    store.products.push(product("p1", "t1", 100, 7));
    store.products.push(product("p2", "t1", 100, 0));
    store.products.push(product("p3", "t1", 100, 10));
    store.products.push(product("p4", "t1", 100, 11));  // above the threshold
    store.products.push(product("px", "other", 100, 1));  // another tenant
    let claims = claims_for("u1", Some("t1"), "user");
    let alerts = get_inventory_alerts(&store, &claims).unwrap();
    assert_eq!(alerts.len(), 3);
    assert_eq!(alerts[0].product_id, "p2");
    assert_eq!(alerts[0].current_stock, 0);
    assert_eq!(alerts[1].product_id, "p1");
    assert_eq!(alerts[2].product_id, "p3");
    for a in &alerts {
        assert_eq!(a.min_stock, 10);
        assert!(a.current_stock <= 10);
    }
}

#[test]
fn inventory_alerts_are_capped_at_ten() {
    let mut store = Store::new();
    for k in 0..12 {
        store.products.push(product(&format!("p{}", k), "t1", 100, k));
    }
    let claims = claims_for("u1", Some("t1"), "user");
    let alerts = get_inventory_alerts(&store, &claims).unwrap();
    assert_eq!(alerts.len(), 10);
    assert_eq!(alerts[0].current_stock, 0);
    assert_eq!(alerts[9].current_stock, 9);
}
