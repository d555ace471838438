//! Tenant-scoped business metrics: totals, a daily sales trend over the
//! last week, the products that sold most, and low-stock alerts.

use vstd::prelude::*;

use crate::authz::{authorize, decide, Action, Decision, Scope};
use crate::catalog::tenant_customers;
use crate::credentials::{date_string_of, format_day};
use crate::domain::{Claims, InventoryAlert, Product, Sale, SaleItem, SalesTrendPoint, TopProduct};
use crate::errors::ApiError;
use crate::sale::{
    lemma_tenant_revenue_nonneg, lemma_totals_nonneg, tenant_revenue, tenant_sales,
};
use crate::sort::sort_pairs_desc;
use crate::store::{items_subtotal_sum, lemma_subtotal_sum_add, Store};

verus! {

/// What the overview presents, all in the caller's tenant's scope.
pub struct MetricsOverview {
    pub total_revenue: i64,
    pub sales_count: i64,
    pub products_count: i64,
    pub customers_count: i64,
}

/// The products of one tenant (shared with the catalog's listing).
pub use crate::catalog::tenant_products;

/// The day number of a timestamp: whole days since the unix epoch.
pub open spec fn day_of(ts: u64) -> int {
    ts as int / 86400
}

/// The revenue of one tenant on one day.
pub open spec fn day_revenue(ss: Seq<Sale>, tid: Seq<char>, day: int) -> int
    decreases ss.len(),
{
    if ss.len() == 0 {
        0
    } else {
        (if ss.first().tenant_id@ == tid && day_of(ss.first().created_at) == day {
            ss.first().total_amount as int
        } else {
            0
        }) + day_revenue(ss.drop_first(), tid, day)
    }
}

/// The number of one tenant's sales on one day.
pub open spec fn day_count(ss: Seq<Sale>, tid: Seq<char>, day: int) -> int
    decreases ss.len(),
{
    if ss.len() == 0 {
        0
    } else {
        (if ss.first().tenant_id@ == tid && day_of(ss.first().created_at) == day {
            1int
        } else {
            0
        }) + day_count(ss.drop_first(), tid, day)
    }
}

/// Whether the sale with the given id belongs to the tenant.
pub open spec fn sale_in_tenant(ss: Seq<Sale>, sid: Seq<char>, tid: Seq<char>) -> bool {
    exists|i: int|
        0 <= i < ss.len() && (#[trigger] ss[i]).id@ == sid && ss[i].tenant_id@ == tid
}

/// The quantity of one product sold across the tenant's sales.
pub open spec fn qty_sold(
    items: Seq<SaleItem>,
    ss: Seq<Sale>,
    tid: Seq<char>,
    pid: Seq<char>,
) -> int
    decreases items.len(),
{
    if items.len() == 0 {
        0
    } else {
        (if items.first().product_id@ == pid && sale_in_tenant(ss, items.first().sale_id@, tid) {
            items.first().quantity as int
        } else {
            0
        }) + qty_sold(items.drop_first(), ss, tid, pid)
    }
}

/// The revenue of one product across the tenant's sales.
pub open spec fn revenue_sold(
    items: Seq<SaleItem>,
    ss: Seq<Sale>,
    tid: Seq<char>,
    pid: Seq<char>,
) -> int
    decreases items.len(),
{
    if items.len() == 0 {
        0
    } else {
        (if items.first().product_id@ == pid && sale_in_tenant(ss, items.first().sale_id@, tid) {
            items.first().subtotal as int
        } else {
            0
        }) + revenue_sold(items.drop_first(), ss, tid, pid)
    }
}

/// A day's revenue never exceeds the tenant's revenue, totals being
/// nonnegative.
pub proof fn lemma_day_revenue_bounds(ss: Seq<Sale>, tid: Seq<char>, day: int)
    requires
        forall|i: int| 0 <= i < ss.len() ==> (#[trigger] ss[i]).total_amount >= 0,
    ensures
        0 <= day_revenue(ss, tid, day),
        day_revenue(ss, tid, day) <= tenant_revenue(ss, tid),
        0 <= day_count(ss, tid, day),
        day_count(ss, tid, day) <= ss.len(),
    decreases ss.len(),
{
    if ss.len() > 0 {
        lemma_day_revenue_bounds(ss.drop_first(), tid, day);
        lemma_tenant_revenue_nonneg(ss.drop_first(), tid);
    }
}

/// A product's sold quantity is between zero and the number of lines times
/// the largest line quantity; its revenue is between zero and the sum of
/// every line's subtotal.
pub proof fn lemma_sold_bounds(items: Seq<SaleItem>, ss: Seq<Sale>, tid: Seq<char>, pid: Seq<char>)
    requires
        forall|i: int|
            0 <= i < items.len() ==> (#[trigger] items[i]).subtotal >= 0 && items[i].quantity > 0
                && items[i].quantity < 0x8000_0000,
    ensures
        0 <= qty_sold(items, ss, tid, pid),
        qty_sold(items, ss, tid, pid) <= items.len() * 0x8000_0000,
        0 <= revenue_sold(items, ss, tid, pid),
        revenue_sold(items, ss, tid, pid) <= items_subtotal_sum(items),
    decreases items.len(),
{
    if items.len() > 0 {
        lemma_sold_bounds(items.drop_first(), ss, tid, pid);
        assert(items =~= seq![items.first()] + items.drop_first());
        lemma_subtotal_sum_add(seq![items.first()], items.drop_first());
        assert(items_subtotal_sum(seq![items.first()]) == items.first().subtotal) by {
            let s = seq![items.first()];
            assert(s.len() == 1);
            assert(s.last() == items.first());
            assert(s.drop_last() =~= Seq::<SaleItem>::empty());
            assert(items_subtotal_sum(s.drop_last()) == 0);
        }
        assert((items.len() - 1) * 0x8000_0000 == items.len() * 0x8000_0000 - 0x8000_0000)
            by (nonlinear_arith);
    }
}

/// Computes the caller's tenant's overview: the exact revenue and the exact
/// numbers of sales, products and customers.
pub fn get_overview(store: &Store, claims: &Claims) -> (r: Result<MetricsOverview, ApiError>)
    requires
        store.wf(),
        tenant_revenue(store.sales@, claims.tenant_view()) <= i64::MAX,
        store.sales@.len() <= 0x7fff_ffff_ffff_ffffu64 as usize,
        store.products@.len() <= 0x7fff_ffff_ffff_ffffu64 as usize,
        store.customers@.len() <= 0x7fff_ffff_ffff_ffffu64 as usize,
    ensures
        match decide(*claims, Action::DataAccess) {
            Decision::Deny(e) => r == Err::<MetricsOverview, ApiError>(ApiError::Authz(e)),
            Decision::Allow(_) => {
                let m = r->Ok_0;
                &&& r is Ok
                &&& m.total_revenue == tenant_revenue(store.sales@, claims.tenant_view())
                &&& m.sales_count == tenant_sales(store.sales@, claims.tenant_view()).len()
                &&& m.products_count == tenant_products(store.products@, claims.tenant_view()).len()
                &&& m.customers_count == tenant_customers(
                    store.customers@,
                    claims.tenant_view(),
                ).len()
            },
        },
{
    let tenant_id = match authorize(claims, &Action::DataAccess) {
        Decision::Deny(e) => {
            return Err(ApiError::Authz(e));
        },
        Decision::Allow(Scope::TenantRows(t)) => t,
        Decision::Allow(_) => {
            proof {
                assert(false);
            }
            return Err(ApiError::Validation);
        },
    };
    let ghost tid = claims.tenant_view();

    let ns = store.sales.len();
    let mut revenue: i64 = 0;
    let mut sales_count: usize = 0;
    let mut i: usize = 0;
    proof {
        lemma_totals_nonneg(*store);
        assert(store.sales@.skip(0) =~= store.sales@);
    }
    while i < ns
        invariant
            store.wf(),
            ns == store.sales@.len(),
            i <= ns,
            tenant_id@ == tid,
            tenant_revenue(store.sales@, tid) <= i64::MAX,
            forall|k: int|
                0 <= k < store.sales@.len() ==> (#[trigger] store.sales@[k]).total_amount >= 0,
            revenue as int == tenant_revenue(store.sales@, tid) - tenant_revenue(
                store.sales@.skip(i as int),
                tid,
            ),
            revenue >= 0,
            sales_count == tenant_sales(store.sales@.take(i as int), tid).len(),
            sales_count <= i,
        decreases ns - i,
    {
        let s = &store.sales[i];
        proof {
            assert(store.sales@.skip(i as int).first() == store.sales@[i as int]);
            assert(store.sales@.skip(i as int).drop_first() =~= store.sales@.skip(i as int + 1));
            assert(forall|k: int|
                0 <= k < store.sales@.skip(i as int + 1).len() ==> (#[trigger] store.sales@.skip(
                    i as int + 1,
                )[k]).total_amount >= 0);
            lemma_tenant_revenue_nonneg(store.sales@.skip(i as int + 1), tid);
            reveal(Seq::filter);
            assert(store.sales@.take(i as int + 1).drop_last() =~= store.sales@.take(i as int));
            assert(store.sales@.take(i as int + 1).last() == store.sales@[i as int]);
        }
        if crate::str_eq(s.tenant_id.as_str(), tenant_id.as_str()) {
            revenue = revenue + s.total_amount;
            sales_count += 1;
        }
        i += 1;
    }
    proof {
        assert(store.sales@.skip(ns as int) =~= Seq::<Sale>::empty());
        assert(store.sales@.take(ns as int) =~= store.sales@);
    }

    let np = store.products.len();
    let mut products_count: usize = 0;
    let mut j: usize = 0;
    while j < np
        invariant
            np == store.products@.len(),
            j <= np,
            tenant_id@ == tid,
            products_count == tenant_products(store.products@.take(j as int), tid).len(),
            products_count <= j,
        decreases np - j,
    {
        proof {
            reveal(Seq::filter);
            assert(store.products@.take(j as int + 1).drop_last() =~= store.products@.take(
                j as int,
            ));
            assert(store.products@.take(j as int + 1).last() == store.products@[j as int]);
        }
        if crate::str_eq(store.products[j].tenant_id.as_str(), tenant_id.as_str()) {
            products_count += 1;
        }
        j += 1;
    }
    proof {
        assert(store.products@.take(np as int) =~= store.products@);
    }

    let nc = store.customers.len();
    let mut customers_count: usize = 0;
    let mut k: usize = 0;
    while k < nc
        invariant
            nc == store.customers@.len(),
            k <= nc,
            tenant_id@ == tid,
            customers_count == tenant_customers(store.customers@.take(k as int), tid).len(),
            customers_count <= k,
        decreases nc - k,
    {
        proof {
            reveal(Seq::filter);
            assert(store.customers@.take(k as int + 1).drop_last() =~= store.customers@.take(
                k as int,
            ));
            assert(store.customers@.take(k as int + 1).last() == store.customers@[k as int]);
        }
        if crate::str_eq(store.customers[k].tenant_id.as_str(), tenant_id.as_str()) {
            customers_count += 1;
        }
        k += 1;
    }
    proof {
        assert(store.customers@.take(nc as int) =~= store.customers@);
    }

    Ok(
        MetricsOverview {
            total_revenue: revenue,
            sales_count: sales_count as i64,
            products_count: products_count as i64,
            customers_count: customers_count as i64,
        },
    )
}

/// Whether one trend point reports day `d` of the tenant exactly.
pub open spec fn trend_point_at(p: SalesTrendPoint, ss: Seq<Sale>, tid: Seq<char>, d: int) -> bool {
    &&& p.date@ == date_string_of(d)
    &&& p.revenue == day_revenue(ss, tid, d)
    &&& p.sales_count == day_count(ss, tid, d)
    &&& p.sales_count > 0
}

/// Whether `ds` is the day column of the trend `points`: one strictly
/// ascending day of the window per point, each point reporting its day
/// exactly. Strict ascent gives both the date order and at most one point
/// per day.
pub open spec fn trend_days_match(
    points: Seq<SalesTrendPoint>,
    ss: Seq<Sale>,
    tid: Seq<char>,
    ds: Seq<int>,
    lo: int,
    hi: int,
) -> bool {
    &&& ds.len() == points.len()
    &&& (forall|k: int| 0 <= k < ds.len() ==> lo <= (#[trigger] ds[k]) <= hi)
    &&& (forall|a: int, b: int| 0 <= a < b < ds.len() ==> (#[trigger] ds[a]) < (#[trigger] ds[b]))
    &&& (forall|k: int|
        0 <= k < points.len() ==> trend_point_at(#[trigger] points[k], ss, tid, ds[k]))
}

/// The first day of the seven-day window that ends on `now`'s day.
pub open spec fn window_start(now: u64) -> int {
    if day_of(now) >= 6 {
        day_of(now) - 6
    } else {
        0
    }
}

/// What the trend of the last seven days reports: at most seven points,
/// one per strictly ascending day of the window, each day's revenue and
/// count exact, and a point for every day of the window that had sales.
pub open spec fn trend_ok(
    points: Seq<SalesTrendPoint>,
    ss: Seq<Sale>,
    tid: Seq<char>,
    now: u64,
) -> bool {
    &&& points.len() <= 7
    &&& (exists|ds: Seq<int>| #[trigger] trend_days_match(
        points,
        ss,
        tid,
        ds,
        window_start(now),
        day_of(now),
    ))
    &&& (forall|d: int|
        window_start(now) <= d <= day_of(now) && #[trigger] day_count(ss, tid, d) > 0 ==> (
        exists|k: int|
            0 <= k < points.len() && trend_point_at(points[k], ss, tid, d)))
}

/// The products that sold at least one unit across the tenant's sales.
pub open spec fn sold_products(
    ps: Seq<Product>,
    items: Seq<SaleItem>,
    ss: Seq<Sale>,
    tid: Seq<char>,
) -> Seq<Product> {
    ps.filter(|p: Product| qty_sold(items, ss, tid, p.id@) > 0)
}

/// The tenant's products at or under the low-stock threshold of ten.
pub open spec fn low_stock_products(ps: Seq<Product>, tid: Seq<char>) -> Seq<Product> {
    ps.filter(|p: Product| p.tenant_id@ == tid && p.stock_quantity <= 10)
}

/// Whether one top-products entry reports the product at index `i` exactly.
pub open spec fn top_entry_at(
    e: TopProduct,
    ps: Seq<Product>,
    items: Seq<SaleItem>,
    ss: Seq<Sale>,
    tid: Seq<char>,
    i: int,
) -> bool {
    &&& 0 <= i < ps.len()
    &&& e.product_id == ps[i].id
    &&& e.product_name == ps[i].name
    &&& e.quantity_sold == qty_sold(items, ss, tid, ps[i].id@)
    &&& e.quantity_sold > 0
    &&& e.revenue == revenue_sold(items, ss, tid, ps[i].id@)
}

/// Whether one top-products entry reports some product of the table
/// exactly.
pub open spec fn top_entry_ok(
    e: TopProduct,
    ps: Seq<Product>,
    items: Seq<SaleItem>,
    ss: Seq<Sale>,
    tid: Seq<char>,
) -> bool {
    exists|i: int| #[trigger] top_entry_at(e, ps, items, ss, tid, i)
}

/// Whether one alert reports the product at index `i` exactly: one of the
/// tenant's products at or under the threshold.
pub open spec fn alert_entry_at(e: InventoryAlert, ps: Seq<Product>, tid: Seq<char>, i: int) -> bool {
    &&& 0 <= i < ps.len()
    &&& ps[i].tenant_id@ == tid
    &&& ps[i].stock_quantity <= 10
    &&& e.product_id == ps[i].id
    &&& e.product_name == ps[i].name
    &&& e.current_stock == ps[i].stock_quantity as i64
    &&& e.min_stock == 10
}

/// Whether one alert reports some low-stock product of the tenant exactly.
pub open spec fn alert_entry_ok(e: InventoryAlert, ps: Seq<Product>, tid: Seq<char>) -> bool {
    exists|i: int| #[trigger] alert_entry_at(e, ps, tid, i)
}

/// Computes the sales trend of the last seven days: one point per day that
/// had sales, carrying the printed date and the exact revenue and count of
/// that day, and one for every such day.
#[verifier::rlimit(100)]
#[verifier::spinoff_prover]
pub fn get_sales_trend(store: &Store, claims: &Claims, now: u64) -> (r: Result<
    Vec<SalesTrendPoint>,
    ApiError,
>)
    requires
        store.wf(),
        tenant_revenue(store.sales@, claims.tenant_view()) <= i64::MAX,
        store.sales@.len() <= 0x7fff_ffff_ffff_ffffu64 as usize,
    ensures
        match decide(*claims, Action::DataAccess) {
            Decision::Deny(e) => r == Err::<Vec<SalesTrendPoint>, ApiError>(ApiError::Authz(e)),
            Decision::Allow(_) => r is Ok && trend_ok(
                r->Ok_0@,
                store.sales@,
                claims.tenant_view(),
                now,
            ),
        },
{
    let tenant_id = match authorize(claims, &Action::DataAccess) {
        Decision::Deny(e) => {
            return Err(ApiError::Authz(e));
        },
        Decision::Allow(Scope::TenantRows(t)) => t,
        Decision::Allow(_) => {
            proof {
                assert(false);
            }
            return Err(ApiError::Validation);
        },
    };
    let ghost tid = claims.tenant_view();
    proof {
        lemma_totals_nonneg(*store);
    }

    let day_now = now / 86400;
    let first_day = if day_now >= 6 {
        day_now - 6
    } else {
        0
    };
    let mut out: Vec<SalesTrendPoint> = Vec::new();
    let ghost mut days: Seq<int> = Seq::empty();
    let mut d = first_day;
    while d <= day_now
        invariant
            store.wf(),
            tenant_id@ == tid,
            day_now == day_of(now),
            first_day == (if day_of(now) >= 6 {
                day_of(now) - 6
            } else {
                0
            }),
            tenant_revenue(store.sales@, tid) <= i64::MAX,
            store.sales@.len() <= 0x7fff_ffff_ffff_ffffu64 as usize,
            forall|k: int|
                0 <= k < store.sales@.len() ==> (#[trigger] store.sales@[k]).total_amount >= 0,
            first_day <= d <= day_now + 1,
            out@.len() <= d - first_day,
            d - first_day <= 7,
            days.len() == out@.len(),
            forall|k: int| 0 <= k < days.len() ==> first_day <= (#[trigger] days[k]) < d,
            forall|a: int, b: int| 0 <= a < b < days.len() ==> (#[trigger] days[a]) < (
            #[trigger] days[b]),
            forall|k: int|
                0 <= k < out@.len() ==> trend_point_at(#[trigger] out@[k], store.sales@, tid, days[k]),
            forall|dd: int|
                first_day <= dd < d && #[trigger] day_count(store.sales@, tid, dd) > 0 ==> (
                exists|k: int|
                    0 <= k < out@.len() && trend_point_at(
                        #[trigger] out@[k],
                        store.sales@,
                        tid,
                        dd,
                    )),
        decreases day_now + 1 - d,
    {
        let ghost out_before = out@;
        let ns = store.sales.len();
        let mut revenue: i64 = 0;
        let mut count: usize = 0;
        let mut i: usize = 0;
        proof {
            assert(store.sales@.skip(0) =~= store.sales@);
            lemma_day_revenue_bounds(store.sales@, tid, d as int);
        }
        while i < ns
            invariant
                store.wf(),
                ns == store.sales@.len(),
                i <= ns,
                tenant_id@ == tid,
                tenant_revenue(store.sales@, tid) <= i64::MAX,
                forall|k: int|
                    0 <= k < store.sales@.len() ==> (#[trigger] store.sales@[k]).total_amount >= 0,
                revenue as int == day_revenue(store.sales@, tid, d as int) - day_revenue(
                    store.sales@.skip(i as int),
                    tid,
                    d as int,
                ),
                revenue >= 0,
                count as int == day_count(store.sales@, tid, d as int) - day_count(
                    store.sales@.skip(i as int),
                    tid,
                    d as int,
                ),
                count <= i,
            decreases ns - i,
        {
            let s = &store.sales[i];
            proof {
                assert(store.sales@.skip(i as int).first() == store.sales@[i as int]);
                assert(store.sales@.skip(i as int).drop_first() =~= store.sales@.skip(
                    i as int + 1,
                ));
                assert(forall|k: int|
                    0 <= k < store.sales@.skip(i as int + 1).len() ==> (
                    #[trigger] store.sales@.skip(i as int + 1)[k]).total_amount >= 0);
                lemma_day_revenue_bounds(store.sales@.skip(i as int + 1), tid, d as int);
                lemma_day_revenue_bounds(store.sales@, tid, d as int);
                lemma_tenant_revenue_nonneg(store.sales@, tid);
            }
            if crate::str_eq(s.tenant_id.as_str(), tenant_id.as_str()) && s.created_at / 86400
                == d {
                revenue = revenue + s.total_amount;
                count += 1;
            }
            i += 1;
        }
        proof {
            assert(store.sales@.skip(ns as int) =~= Seq::<Sale>::empty());
        }
        if count > 0 {
            proof {
                assert((d as int) * 86400 <= now as int) by (nonlinear_arith)
                    requires
                        0 <= (d as int),
                        (d as int) <= (now as int) / 86400,
                ;
            }
            let day_secs: u64 = d * 86400;
            let date = format_day(d, day_secs);
            out.push(SalesTrendPoint { date, revenue, sales_count: count as i64 });
            proof {
                days = days.push(d as int);
                assert(trend_point_at(out@[out@.len() - 1], store.sales@, tid, d as int));
                assert(forall|k: int| 0 <= k < out_before.len() ==> out@[k] == out_before[k]);
            }
        }
        proof {
            assert forall|dd: int|
                first_day <= dd < d + 1 && #[trigger] day_count(store.sales@, tid, dd) > 0
                    implies (exists|k: int|
                    0 <= k < out@.len() && trend_point_at(
                        #[trigger] out@[k],
                        store.sales@,
                        tid,
                        dd,
                    )) by {
                if dd < d {
                    let k = choose|k: int|
                        0 <= k < out_before.len() && trend_point_at(
                            #[trigger] out_before[k],
                            store.sales@,
                            tid,
                            dd,
                        );
                    assert(out@[k] == out_before[k]);
                    assert(trend_point_at(out@[k], store.sales@, tid, dd));
                } else {
                    assert(trend_point_at(out@[out@.len() - 1], store.sales@, tid, dd));
                }
            }
        }
        d += 1;
    }
    proof {
        assert(window_start(now) == first_day as int);
        assert(day_of(now) == day_now as int);
        assert(out@.len() <= 7);
        assert(trend_days_match(
            out@,
            store.sales@,
            claims.tenant_view(),
            days,
            window_start(now),
            day_of(now),
        ));
        assert(trend_ok(out@, store.sales@, claims.tenant_view(), now));
    }
    Ok(out)
}

/// Computes the best-selling products of the caller's tenant: at most five
/// entries, each carrying a product's exact sold quantity and revenue
/// across the tenant's sales, in descending order of quantity sold.
pub fn get_top_products(store: &Store, claims: &Claims) -> (r: Result<Vec<TopProduct>, ApiError>)
    requires
        store.wf(),
        store.sale_items@.len() < 0x8000_0000usize,
        items_subtotal_sum(store.sale_items@) <= i64::MAX,
    ensures
        match decide(*claims, Action::DataAccess) {
            Decision::Deny(e) => r == Err::<Vec<TopProduct>, ApiError>(ApiError::Authz(e)),
            Decision::Allow(_) => {
                let sold = sold_products(
                    store.products@,
                    store.sale_items@,
                    store.sales@,
                    claims.tenant_view(),
                );
                &&& r is Ok
                &&& r->Ok_0@.len() == (if sold.len() < 5 {
                    sold.len() as int
                } else {
                    5
                })
                &&& (forall|k: int|
                    0 <= k < r->Ok_0@.len() ==> top_entry_ok(
                        #[trigger] r->Ok_0@[k],
                        store.products@,
                        store.sale_items@,
                        store.sales@,
                        claims.tenant_view(),
                    ))
                &&& (forall|a: int, b: int|
                    0 <= a < b < r->Ok_0@.len() ==> (#[trigger] r->Ok_0@[a]).quantity_sold >= (
                    #[trigger] r->Ok_0@[b]).quantity_sold)
                &&& (r->Ok_0@.len() == 5 ==> (forall|i: int|
                    0 <= i < store.products@.len() && qty_sold(
                        store.sale_items@,
                        store.sales@,
                        claims.tenant_view(),
                        (#[trigger] store.products@[i]).id@,
                    ) > 0 && !(exists|k: int|
                        0 <= k < r->Ok_0@.len() && (#[trigger] r->Ok_0@[k]).product_id
                            == store.products@[i].id) ==> qty_sold(
                        store.sale_items@,
                        store.sales@,
                        claims.tenant_view(),
                        store.products@[i].id@,
                    ) <= r->Ok_0@[4].quantity_sold))
            },
        },
{
    let tenant_id = match authorize(claims, &Action::DataAccess) {
        Decision::Deny(e) => {
            return Err(ApiError::Authz(e));
        },
        Decision::Allow(Scope::TenantRows(t)) => t,
        Decision::Allow(_) => {
            proof {
                assert(false);
            }
            return Err(ApiError::Validation);
        },
    };
    let ghost tid = claims.tenant_view();
    let ghost items0 = store.sale_items@;
    let ghost sales0 = store.sales@;
    let ghost ps = store.products@;

    let np = store.products.len();
    let mut cands: Vec<(i64, TopProduct)> = Vec::new();
    let mut pi: usize = 0;
    while pi < np
        invariant
            store.wf(),
            np == store.products@.len(),
            pi <= np,
            tenant_id@ == tid,
            items0 == store.sale_items@,
            sales0 == store.sales@,
            ps == store.products@,
            store.sale_items@.len() < 0x8000_0000usize,
            items_subtotal_sum(store.sale_items@) <= i64::MAX,
            cands@.len() == sold_products(ps.take(pi as int), items0, sales0, tid).len(),
            forall|k: int|
                0 <= k < cands@.len() ==> top_entry_ok(
                    (#[trigger] cands@[k]).1,
                    ps,
                    items0,
                    sales0,
                    tid,
                ) && cands@[k].0 == cands@[k].1.quantity_sold,
            forall|i: int|
                0 <= i < pi && qty_sold(items0, sales0, tid, (#[trigger] ps[i]).id@) > 0 ==> (
                exists|k: int|
                    0 <= k < cands@.len() && (#[trigger] cands@[k]).1.product_id == ps[i].id
                        && cands@[k].0 == qty_sold(items0, sales0, tid, ps[i].id@)),
        decreases np - pi,
    {
        let p = &store.products[pi];
        let ni = store.sale_items.len();
        let mut qty: i64 = 0;
        let mut rev: i64 = 0;
        let mut i: usize = 0;
        proof {
            assert(items0.skip(0) =~= items0);
            lemma_sold_bounds(items0, sales0, tid, p.id@);
        }
        while i < ni
            invariant
                store.wf(),
                ni == store.sale_items@.len(),
                i <= ni,
                tenant_id@ == tid,
                items0 == store.sale_items@,
                sales0 == store.sales@,
                ps == store.products@,
                pi < np,
                np == store.products@.len(),
                p == &store.products[pi as int],
                store.sale_items@.len() < 0x8000_0000usize,
                items_subtotal_sum(store.sale_items@) <= i64::MAX,
                qty as int == qty_sold(items0, sales0, tid, p.id@) - qty_sold(
                    items0.skip(i as int),
                    sales0,
                    tid,
                    p.id@,
                ),
                qty >= 0,
                rev as int == revenue_sold(items0, sales0, tid, p.id@) - revenue_sold(
                    items0.skip(i as int),
                    sales0,
                    tid,
                    p.id@,
                ),
                rev >= 0,
            decreases ni - i,
        {
            let it = &store.sale_items[i];
            proof {
                assert(items0.skip(i as int).first() == items0[i as int]);
                assert(items0.skip(i as int).drop_first() =~= items0.skip(i as int + 1));
                assert(forall|k: int|
                    0 <= k < items0.skip(i as int + 1).len() ==> {
                        let li = #[trigger] items0.skip(i as int + 1)[k];
                        li.subtotal >= 0 && li.quantity > 0 && li.quantity < 0x8000_0000
                    });
                lemma_sold_bounds(items0.skip(i as int + 1), sales0, tid, p.id@);
                lemma_sold_bounds(items0, sales0, tid, p.id@);
                crate::sale::lemma_subtotal_sum_nonneg(items0);
            }
            if crate::str_eq(it.product_id.as_str(), p.id.as_str()) {
                if sale_of_tenant(&store.sales, &it.sale_id, &tenant_id) {
                    qty = qty + it.quantity as i64;
                    rev = rev + it.subtotal;
                }
            }
            i += 1;
        }
        proof {
            assert(items0.skip(ni as int) =~= Seq::<SaleItem>::empty());
            reveal(Seq::filter);
            assert(ps.take(pi as int + 1).drop_last() =~= ps.take(pi as int));
            assert(ps.take(pi as int + 1).last() == ps[pi as int]);
        }
        let ghost cands_before = cands@;
        if qty > 0 {
            let entry = TopProduct {
                product_id: p.id.clone(),
                product_name: p.name.clone(),
                quantity_sold: qty,
                revenue: rev,
            };
            cands.push((qty, entry));
            proof {
                assert(top_entry_at(cands@[cands@.len() - 1].1, ps, items0, sales0, tid, pi as int));
                assert(forall|k: int| 0 <= k < cands_before.len() ==> cands@[k] == cands_before[k]);
            }
        }
        proof {
            assert(qty as int == qty_sold(items0, sales0, tid, ps[pi as int].id@));
            assert forall|i: int|
                0 <= i < pi + 1 && qty_sold(items0, sales0, tid, (#[trigger] ps[i]).id@) > 0
                    implies (exists|k: int|
                    0 <= k < cands@.len() && (#[trigger] cands@[k]).1.product_id == ps[i].id
                        && cands@[k].0 == qty_sold(items0, sales0, tid, ps[i].id@)) by {
                if i < pi {
                    let k = choose|k: int|
                        0 <= k < cands_before.len() && (#[trigger] cands_before[k]).1.product_id
                            == ps[i].id && cands_before[k].0 == qty_sold(
                            items0,
                            sales0,
                            tid,
                            ps[i].id@,
                        );
                    assert(cands@[k] == cands_before[k]);
                    assert(cands@[k].1.product_id == ps[i].id);
                } else {
                    assert(cands@[cands@.len() - 1].1.product_id == ps[i].id);
                }
            }
        }
        pi += 1;
    }

    let ghost cands0 = cands@;
    let sorted = sort_pairs_desc(cands);
    let ghost sorted0 = sorted@;
    let mut out: Vec<TopProduct> = Vec::new();
    let m = sorted.len();
    let mut j: usize = 0;
    while j < m && j < 5
        invariant
            m == sorted@.len(),
            j <= m,
            j <= 5,
            out@.len() == j,
            forall|k: int| 0 <= k < j ==> (#[trigger] out@[k]) == sorted@[k].1,
        decreases m - j,
    {
        let e = &sorted[j].1;
        out.push(
            TopProduct {
                product_id: e.product_id.clone(),
                product_name: e.product_name.clone(),
                quantity_sold: e.quantity_sold,
                revenue: e.revenue,
            },
        );
        j += 1;
    }
    proof {
        assert(ps.take(np as int) =~= ps);
        assert forall|k: int| 0 <= k < out@.len() implies top_entry_ok(
            #[trigger] out@[k],
            ps,
            items0,
            sales0,
            tid,
        ) by {
            assert(sorted0.contains(sorted0[k]));
            assert(cands0.contains(sorted0[k]));
            let w = choose|w: int| 0 <= w < cands0.len() && cands0[w] == sorted0[k];
            assert(top_entry_ok(cands0[w].1, ps, items0, sales0, tid));
            assert(out@[k] == cands0[w].1);
        }
        assert forall|a: int, b: int|
            0 <= a < b < out@.len() implies (#[trigger] out@[a]).quantity_sold >= (
        #[trigger] out@[b]).quantity_sold by {
            assert(sorted0.contains(sorted0[a]));
            assert(cands0.contains(sorted0[a]));
            let wa = choose|w: int| 0 <= w < cands0.len() && cands0[w] == sorted0[a];
            assert(cands0[wa].0 == cands0[wa].1.quantity_sold);
            assert(sorted0.contains(sorted0[b]));
            assert(cands0.contains(sorted0[b]));
            let wb = choose|w: int| 0 <= w < cands0.len() && cands0[w] == sorted0[b];
            assert(cands0[wb].0 == cands0[wb].1.quantity_sold);
            assert(sorted0[a].0 >= sorted0[b].0);
        }
        if out@.len() == 5 {
            assert forall|i: int|
                0 <= i < ps.len() && qty_sold(items0, sales0, tid, (#[trigger] ps[i]).id@) > 0 && !(
                exists|k: int|
                    0 <= k < out@.len() && (#[trigger] out@[k]).product_id == ps[i].id) implies
                qty_sold(items0, sales0, tid, ps[i].id@) <= out@[4].quantity_sold by {
                let k = choose|k: int|
                    0 <= k < cands0.len() && (#[trigger] cands0[k]).1.product_id == ps[i].id
                        && cands0[k].0 == qty_sold(items0, sales0, tid, ps[i].id@);
                assert(cands0.contains(cands0[k]));
                assert(sorted0.contains(cands0[k]));
                let w = choose|w: int| 0 <= w < sorted0.len() && sorted0[w] == cands0[k];
                if w < 5 {
                    assert(out@[w] == sorted0[w].1);
                    assert(out@[w].product_id == ps[i].id);
                    assert(false);
                } else {
                    assert(sorted0[4].0 >= sorted0[w].0);
                    assert(sorted0.contains(sorted0[4]));
                    assert(cands0.contains(sorted0[4]));
                    let w4 = choose|w4: int| 0 <= w4 < cands0.len() && cands0[w4] == sorted0[4];
                    assert(cands0[w4].0 == cands0[w4].1.quantity_sold);
                    assert(out@[4] == sorted0[4].1);
                }
            }
        }
    }
    Ok(out)
}

/// Whether the sales table holds a sale with this id belonging to this
/// tenant.
fn sale_of_tenant(sales: &Vec<Sale>, sale_id: &String, tenant_id: &String) -> (r: bool)
    ensures
        r == sale_in_tenant(sales@, sale_id@, tenant_id@),
{
    let n = sales.len();
    let mut i: usize = 0;
    while i < n
        invariant
            n == sales@.len(),
            i <= n,
            forall|k: int|
                0 <= k < i ==> !((#[trigger] sales@[k]).id@ == sale_id@ && sales@[k].tenant_id@
                    == tenant_id@),
        decreases n - i,
    {
        let s = &sales[i];
        if crate::str_eq(s.id.as_str(), sale_id.as_str()) && crate::str_eq(
            s.tenant_id.as_str(),
            tenant_id.as_str(),
        ) {
            return true;
        }
        i += 1;
    }
    false
}

/// Computes the low-stock alerts of the caller's tenant: at most ten
/// entries, each one of the tenant's products with stock at or under the
/// alert threshold of ten, in ascending order of stock.
pub fn get_inventory_alerts(store: &Store, claims: &Claims) -> (r: Result<
    Vec<InventoryAlert>,
    ApiError,
>)
    requires
        store.wf(),
    ensures
        match decide(*claims, Action::DataAccess) {
            Decision::Deny(e) => r == Err::<Vec<InventoryAlert>, ApiError>(ApiError::Authz(e)),
            Decision::Allow(_) => {
                let low = low_stock_products(store.products@, claims.tenant_view());
                &&& r is Ok
                &&& r->Ok_0@.len() == (if low.len() < 10 {
                    low.len() as int
                } else {
                    10
                })
                &&& (forall|k: int|
                    0 <= k < r->Ok_0@.len() ==> alert_entry_ok(
                        #[trigger] r->Ok_0@[k],
                        store.products@,
                        claims.tenant_view(),
                    ))
                &&& (forall|a: int, b: int|
                    0 <= a < b < r->Ok_0@.len() ==> (#[trigger] r->Ok_0@[a]).current_stock <= (
                    #[trigger] r->Ok_0@[b]).current_stock)
                &&& (r->Ok_0@.len() == 10 ==> (forall|i: int|
                    0 <= i < store.products@.len() && (#[trigger] store.products@[i]).tenant_id@
                        == claims.tenant_view() && store.products@[i].stock_quantity <= 10 && !(
                    exists|k: int|
                        0 <= k < r->Ok_0@.len() && (#[trigger] r->Ok_0@[k]).product_id
                            == store.products@[i].id) ==> store.products@[i].stock_quantity as int
                        >= r->Ok_0@[9].current_stock))
            },
        },
{
    let tenant_id = match authorize(claims, &Action::DataAccess) {
        Decision::Deny(e) => {
            return Err(ApiError::Authz(e));
        },
        Decision::Allow(Scope::TenantRows(t)) => t,
        Decision::Allow(_) => {
            proof {
                assert(false);
            }
            return Err(ApiError::Validation);
        },
    };
    let ghost tid = claims.tenant_view();
    let ghost ps = store.products@;

    let np = store.products.len();
    let mut cands: Vec<(i64, InventoryAlert)> = Vec::new();
    let mut pi: usize = 0;
    while pi < np
        invariant
            store.wf(),
            np == store.products@.len(),
            pi <= np,
            tenant_id@ == tid,
            ps == store.products@,
            cands@.len() == low_stock_products(ps.take(pi as int), tid).len(),
            forall|k: int|
                0 <= k < cands@.len() ==> alert_entry_ok((#[trigger] cands@[k]).1, ps, tid)
                    && cands@[k].0 == -(cands@[k].1.current_stock as int),
            forall|i: int|
                0 <= i < pi && (#[trigger] ps[i]).tenant_id@ == tid && ps[i].stock_quantity <= 10
                    ==> (exists|k: int|
                    0 <= k < cands@.len() && (#[trigger] cands@[k]).1.product_id == ps[i].id
                        && cands@[k].0 == -(ps[i].stock_quantity as int)),
        decreases np - pi,
    {
        let p = &store.products[pi];
        let ghost cands_before = cands@;
        proof {
            reveal(Seq::filter);
            assert(ps.take(pi as int + 1).drop_last() =~= ps.take(pi as int));
            assert(ps.take(pi as int + 1).last() == ps[pi as int]);
        }
        if p.stock_quantity <= 10 && crate::str_eq(p.tenant_id.as_str(), tenant_id.as_str()) {
            let entry = InventoryAlert {
                product_id: p.id.clone(),
                product_name: p.name.clone(),
                current_stock: p.stock_quantity as i64,
                min_stock: 10,
            };
            let key: i64 = -(p.stock_quantity as i64);
            cands.push((key, entry));
            proof {
                assert(alert_entry_at(cands@[cands@.len() - 1].1, ps, tid, pi as int));
                assert(forall|k: int| 0 <= k < cands_before.len() ==> cands@[k] == cands_before[k]);
            }
        }
        proof {
            assert forall|i: int|
                0 <= i < pi + 1 && (#[trigger] ps[i]).tenant_id@ == tid && ps[i].stock_quantity
                    <= 10 implies (exists|k: int|
                    0 <= k < cands@.len() && (#[trigger] cands@[k]).1.product_id == ps[i].id
                        && cands@[k].0 == -(ps[i].stock_quantity as int)) by {
                if i < pi {
                    let k = choose|k: int|
                        0 <= k < cands_before.len() && (#[trigger] cands_before[k]).1.product_id
                            == ps[i].id && cands_before[k].0 == -(ps[i].stock_quantity as int);
                    assert(cands@[k] == cands_before[k]);
                    assert(cands@[k].1.product_id == ps[i].id);
                } else {
                    assert(cands@[cands@.len() - 1].1.product_id == ps[i].id);
                }
            }
        }
        pi += 1;
    }

    let ghost cands0 = cands@;
    let sorted = sort_pairs_desc(cands);
    let ghost sorted0 = sorted@;
    let mut out: Vec<InventoryAlert> = Vec::new();
    let m = sorted.len();
    let mut j: usize = 0;
    while j < m && j < 10
        invariant
            m == sorted@.len(),
            j <= m,
            j <= 10,
            out@.len() == j,
            forall|k: int| 0 <= k < j ==> (#[trigger] out@[k]) == sorted@[k].1,
        decreases m - j,
    {
        let e = &sorted[j].1;
        out.push(
            InventoryAlert {
                product_id: e.product_id.clone(),
                product_name: e.product_name.clone(),
                current_stock: e.current_stock,
                min_stock: e.min_stock,
            },
        );
        j += 1;
    }
    proof {
        assert(ps.take(np as int) =~= ps);
        assert forall|k: int| 0 <= k < out@.len() implies alert_entry_ok(
            #[trigger] out@[k],
            ps,
            tid,
        ) by {
            assert(sorted0.contains(sorted0[k]));
            assert(cands0.contains(sorted0[k]));
            let w = choose|w: int| 0 <= w < cands0.len() && cands0[w] == sorted0[k];
            assert(alert_entry_ok(cands0[w].1, ps, tid));
            assert(out@[k] == cands0[w].1);
        }
        assert forall|a: int, b: int|
            0 <= a < b < out@.len() implies (#[trigger] out@[a]).current_stock <= (
        #[trigger] out@[b]).current_stock by {
            assert(sorted0.contains(sorted0[a]));
            assert(cands0.contains(sorted0[a]));
            let wa = choose|w: int| 0 <= w < cands0.len() && cands0[w] == sorted0[a];
            assert(cands0[wa].0 == -(cands0[wa].1.current_stock as int));
            assert(sorted0.contains(sorted0[b]));
            assert(cands0.contains(sorted0[b]));
            let wb = choose|w: int| 0 <= w < cands0.len() && cands0[w] == sorted0[b];
            assert(cands0[wb].0 == -(cands0[wb].1.current_stock as int));
            assert(sorted0[a].0 >= sorted0[b].0);
        }
        if out@.len() == 10 {
            assert forall|i: int|
                0 <= i < ps.len() && (#[trigger] ps[i]).tenant_id@ == tid && ps[i].stock_quantity
                    <= 10 && !(exists|k: int|
                    0 <= k < out@.len() && (#[trigger] out@[k]).product_id == ps[i].id) implies
                ps[i].stock_quantity as int >= out@[9].current_stock by {
                let k = choose|k: int|
                    0 <= k < cands0.len() && (#[trigger] cands0[k]).1.product_id == ps[i].id
                        && cands0[k].0 == -(ps[i].stock_quantity as int);
                assert(cands0.contains(cands0[k]));
                assert(sorted0.contains(cands0[k]));
                let w = choose|w: int| 0 <= w < sorted0.len() && sorted0[w] == cands0[k];
                if w < 10 {
                    assert(out@[w] == sorted0[w].1);
                    assert(out@[w].product_id == ps[i].id);
                    assert(false);
                } else {
                    assert(sorted0[9].0 >= sorted0[w].0);
                    assert(sorted0.contains(sorted0[9]));
                    assert(cands0.contains(sorted0[9]));
                    let w9 = choose|w9: int| 0 <= w9 < cands0.len() && cands0[w9] == sorted0[9];
                    assert(cands0[w9].0 == -(cands0[w9].1.current_stock as int));
                    assert(out@[9] == sorted0[9].1);
                }
            }
        }
    }
    Ok(out)
}

} // verus!
