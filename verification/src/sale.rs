//! The atomic sale-creation protocol: stock validation in the order the
//! caller supplied, price snapshot, stock decrement, line-item insertion and
//! total computation, committed all-or-nothing.

use vstd::prelude::*;
use vstd::arithmetic::mul::lemma_mul_nonnegative;

use crate::authz::{authorize, decide, Action, Decision, Scope};
use crate::domain::{Claims, CreateSaleItemRequest, CreateSaleRequest, Product, Sale, SaleItem};
use crate::errors::{ApiError, AuthzError, SaleError};
use crate::sort::sort_pairs_desc;
use crate::store::{
    find_product, has_product, items_subtotal_sum, lemma_product_idx_unique,
    lemma_sale_items_of_add, lemma_sale_items_of_all, lemma_sale_items_of_none, product_ids_unique,
    product_idx, product_matches, sale_items_of, Store,
};

verus! {

/// The sales of one tenant, in table order.
pub open spec fn tenant_sales(ss: Seq<Sale>, tid: Seq<char>) -> Seq<Sale> {
    ss.filter(|s: Sale| s.tenant_id@ == tid)
}

/// The revenue of one tenant: the sum of its sales' totals.
pub open spec fn tenant_revenue(ss: Seq<Sale>, tid: Seq<char>) -> int
    decreases ss.len(),
{
    if ss.len() == 0 {
        0
    } else {
        (if ss.first().tenant_id@ == tid {
            ss.first().total_amount as int
        } else {
            0
        }) + tenant_revenue(ss.drop_first(), tid)
    }
}

/// A sum of nonnegative subtotals is nonnegative.
pub proof fn lemma_subtotal_sum_nonneg(items: Seq<SaleItem>)
    requires
        forall|i: int| 0 <= i < items.len() ==> (#[trigger] items[i]).subtotal >= 0,
    ensures
        items_subtotal_sum(items) >= 0,
    decreases items.len(),
{
    if items.len() > 0 {
        lemma_subtotal_sum_nonneg(items.drop_last());
    }
}

/// The lines of any one sale also have nonnegative subtotals, so their sum
/// is nonnegative.
pub proof fn lemma_sale_items_sum_nonneg(items: Seq<SaleItem>, sid: Seq<char>)
    requires
        forall|i: int| 0 <= i < items.len() ==> (#[trigger] items[i]).subtotal >= 0,
    ensures
        items_subtotal_sum(sale_items_of(items, sid)) >= 0,
    decreases items.len(),
{
    reveal(Seq::filter);
    if items.len() > 0 {
        lemma_sale_items_sum_nonneg(items.drop_last(), sid);
        if items.last().sale_id@ == sid {
            assert(sale_items_of(items, sid) == sale_items_of(items.drop_last(), sid).push(
                items.last(),
            ));
            assert(sale_items_of(items, sid).drop_last() =~= sale_items_of(
                items.drop_last(),
                sid,
            ));
        }
    }
}

/// In a well-formed store no sale's total is negative.
pub proof fn lemma_totals_nonneg(s: Store)
    requires
        s.wf(),
    ensures
        forall|i: int| 0 <= i < s.sales@.len() ==> (#[trigger] s.sales@[i]).total_amount >= 0,
{
    assert forall|i: int|
        0 <= i < s.sales@.len() implies (#[trigger] s.sales@[i]).total_amount >= 0 by {
        lemma_sale_items_sum_nonneg(s.sale_items@, s.sales@[i].id@);
    }
}

/// With nonnegative totals a tenant's revenue is nonnegative.
pub proof fn lemma_tenant_revenue_nonneg(ss: Seq<Sale>, tid: Seq<char>)
    requires
        forall|i: int| 0 <= i < ss.len() ==> (#[trigger] ss[i]).total_amount >= 0,
    ensures
        tenant_revenue(ss, tid) >= 0,
    decreases ss.len(),
{
    if ss.len() > 0 {
        lemma_tenant_revenue_nonneg(ss.drop_first(), tid);
    }
}

/// Lists the caller's tenant's sales, newest first: exactly the tenant's
/// rows, in descending order of their timestamps.
pub fn list_sales(store: &Store, claims: &Claims) -> (r: Result<Vec<Sale>, ApiError>)
    requires
        store.wf(),
        forall|i: int|
            0 <= i < store.sales@.len() ==> (#[trigger] store.sales@[i]).created_at
                <= 0x7fff_ffff_ffff_ffffu64,
    ensures
        match decide(*claims, Action::DataAccess) {
            Decision::Deny(e) => r == Err::<Vec<Sale>, ApiError>(ApiError::Authz(e)),
            Decision::Allow(_) => {
                let f = tenant_sales(store.sales@, claims.tenant_view());
                &&& r is Ok
                &&& r->Ok_0@.len() == f.len()
                &&& (forall|k: int| 0 <= k < f.len() ==> r->Ok_0@.contains(#[trigger] f[k]))
                &&& (forall|k: int| 0 <= k < r->Ok_0@.len() ==> f.contains(#[trigger] r->Ok_0@[k]))
                &&& (forall|a: int, b: int|
                    0 <= a < b < r->Ok_0@.len() ==> (#[trigger] r->Ok_0@[a]).created_at >= (
                    #[trigger] r->Ok_0@[b]).created_at)
            },
        },
{
    let tenant_id = match authorize(claims, &Action::DataAccess) {
        Decision::Deny(e) => {
            return Err(ApiError::Authz(e));
        },
        Decision::Allow(Scope::TenantRows(t)) => t,
        Decision::Allow(_) => {
            proof {
                assert(false);
            }
            return Err(ApiError::Validation);
        },
    };
    let ghost tid = claims.tenant_view();
    let n = store.sales.len();
    let mut pairs: Vec<(i64, Sale)> = Vec::new();
    let mut i: usize = 0;
    while i < n
        invariant
            n == store.sales@.len(),
            i <= n,
            tenant_id@ == tid,
            forall|k: int|
                0 <= k < store.sales@.len() ==> (#[trigger] store.sales@[k]).created_at
                    <= 0x7fff_ffff_ffff_ffffu64,
            pairs@.len() == tenant_sales(store.sales@.take(i as int), tid).len(),
            forall|k: int|
                0 <= k < pairs@.len() ==> (#[trigger] pairs@[k]).1 == tenant_sales(
                    store.sales@.take(i as int),
                    tid,
                )[k] && pairs@[k].0 == pairs@[k].1.created_at as i64 && pairs@[k].1.created_at
                    <= 0x7fff_ffff_ffff_ffffu64,
        decreases n - i,
    {
        let s = &store.sales[i];
        let mine = crate::str_eq(s.tenant_id.as_str(), tenant_id.as_str());
        proof {
            reveal(Seq::filter);
            assert(store.sales@.take(i as int + 1).drop_last() =~= store.sales@.take(i as int));
            assert(store.sales@.take(i as int + 1).last() == store.sales@[i as int]);
        }
        if mine {
            let key = s.created_at as i64;
            pairs.push((key, s.duplicate()));
        }
        i += 1;
    }
    proof {
        assert(store.sales@.take(n as int) =~= store.sales@);
    }
    let ghost pairs0 = pairs@;
    let sorted = sort_pairs_desc(pairs);
    let m = sorted.len();
    let mut out: Vec<Sale> = Vec::new();
    let mut j: usize = 0;
    while j < m
        invariant
            m == sorted@.len(),
            j <= m,
            out@.len() == j,
            forall|k: int| 0 <= k < j ==> (#[trigger] out@[k]) == sorted@[k].1,
        decreases m - j,
    {
        out.push(sorted[j].1.duplicate());
        j += 1;
    }
    proof {
        let f = tenant_sales(store.sales@, tid);
        assert forall|k: int| 0 <= k < f.len() implies out@.contains(#[trigger] f[k]) by {
            assert(pairs0[k] == (f[k].created_at as i64, f[k]));
            assert(pairs0.contains(pairs0[k]));
            assert(sorted@.contains(pairs0[k]));
            let w = choose|w: int| 0 <= w < sorted@.len() && sorted@[w] == pairs0[k];
            assert(out@[w] == f[k]);
        }
        assert forall|k: int| 0 <= k < out@.len() implies f.contains(#[trigger] out@[k]) by {
            assert(sorted@.contains(sorted@[k]));
            assert(pairs0.contains(sorted@[k]));
            let w = choose|w: int| 0 <= w < pairs0.len() && pairs0[w] == sorted@[k];
            assert(f[w] == out@[k]);
            assert(f.contains(f[w]));
        }
        assert forall|a: int, b: int|
            0 <= a < b < out@.len() implies (#[trigger] out@[a]).created_at >= (
        #[trigger] out@[b]).created_at by {
            assert(sorted@.contains(sorted@[a]));
            assert(pairs0.contains(sorted@[a]));
            let wa = choose|w: int| 0 <= w < pairs0.len() && pairs0[w] == sorted@[a];
            assert(pairs0[wa].0 == pairs0[wa].1.created_at as i64);
            assert(pairs0[wa].1.created_at <= 0x7fff_ffff_ffff_ffffu64);
            assert(sorted@.contains(sorted@[b]));
            assert(pairs0.contains(sorted@[b]));
            let wb = choose|w: int| 0 <= w < pairs0.len() && pairs0[w] == sorted@[b];
            assert(pairs0[wb].0 == pairs0[wb].1.created_at as i64);
            assert(pairs0[wb].1.created_at <= 0x7fff_ffff_ffff_ffffu64);
            assert(sorted@[a].0 >= sorted@[b].0);
        }
    }
    Ok(out)
}

/// The products table with each row's stock replaced by the matching entry
/// of `st`; every other field is kept.
pub open spec fn with_stocks(ps: Seq<Product>, st: Seq<i32>) -> Seq<Product>
    recommends
        ps.len() == st.len(),
{
    Seq::new(ps.len(), |i: int| Product { stock_quantity: st[i], ..ps[i] })
}

/// The amount one requested line contributes to the sale total: the listed
/// price of the product times the requested quantity, or nothing when the
/// product is not in the tenant's catalog.
pub open spec fn item_amount(ps: Seq<Product>, tid: Seq<char>, it: CreateSaleItemRequest) -> int {
    if has_product(ps, tid, it.product_id@) {
        ps[product_idx(ps, tid, it.product_id@)].price * it.quantity
    } else {
        0
    }
}

/// The total of a sale over the prices listed in `ps`.
pub open spec fn sale_total(
    ps: Seq<Product>,
    tid: Seq<char>,
    items: Seq<CreateSaleItemRequest>,
) -> int
    decreases items.len(),
{
    if items.len() == 0 {
        0
    } else {
        item_amount(ps, tid, items.first()) + sale_total(ps, tid, items.drop_first())
    }
}

/// The sale protocol run over the products table, item by item in the order
/// supplied: each line must name a product of the tenant with stock to
/// spare after the decrements of the earlier lines; the result is the table
/// with all decrements applied, or the first failure.
pub open spec fn sale_run(
    ps: Seq<Product>,
    tid: Seq<char>,
    items: Seq<CreateSaleItemRequest>,
) -> Result<Seq<Product>, SaleError>
    decreases items.len(),
{
    if items.len() == 0 {
        Ok(ps)
    } else {
        let it = items.first();
        if !has_product(ps, tid, it.product_id@) {
            Err(SaleError::ProductNotFound(it.product_id))
        } else {
            let j = product_idx(ps, tid, it.product_id@);
            if ps[j].stock_quantity < it.quantity {
                Err(SaleError::InsufficientStock(it.product_id))
            } else {
                sale_run(
                    ps.update(
                        j,
                        Product {
                            stock_quantity: (ps[j].stock_quantity - it.quantity) as i32,
                            ..ps[j]
                        },
                    ),
                    tid,
                    items.drop_first(),
                )
            }
        }
    }
}

/// With nonnegative prices and positive quantities no line amount and no
/// sale total is negative.
pub proof fn lemma_sale_total_nonneg(
    ps: Seq<Product>,
    tid: Seq<char>,
    items: Seq<CreateSaleItemRequest>,
)
    requires
        forall|i: int| 0 <= i < ps.len() ==> (#[trigger] ps[i]).price >= 0,
        forall|i: int| 0 <= i < items.len() ==> (#[trigger] items[i]).quantity > 0,
    ensures
        sale_total(ps, tid, items) >= 0,
        items.len() > 0 ==> item_amount(ps, tid, items.first()) >= 0,
    decreases items.len(),
{
    if items.len() > 0 {
        let it = items.first();
        if has_product(ps, tid, it.product_id@) {
            let j = product_idx(ps, tid, it.product_id@);
            assert(0 <= j < ps.len() && product_matches(ps[j], tid, it.product_id@));
            lemma_mul_nonnegative(ps[j].price as int, it.quantity as int);
        }
        lemma_sale_total_nonneg(ps, tid, items.drop_first());
    }
}

/// Tenant isolation of the sale protocol: a run scoped to one tenant never
/// changes a row of any other tenant, and never changes any field but the
/// stock of the rows it decrements.
pub proof fn lemma_sale_run_isolation(
    ps: Seq<Product>,
    tid: Seq<char>,
    items: Seq<CreateSaleItemRequest>,
)
    ensures
        sale_run(ps, tid, items) matches Ok(ps2) ==> {
            &&& ps2.len() == ps.len()
            &&& (forall|i: int|
                0 <= i < ps.len() && (#[trigger] ps[i]).tenant_id@ != tid ==> ps2[i] == ps[i])
            &&& (forall|i: int|
                0 <= i < ps.len() ==> (#[trigger] ps2[i]) == (Product {
                    stock_quantity: ps2[i].stock_quantity,
                    ..ps[i]
                }))
        },
    decreases items.len(),
{
    if items.len() > 0 {
        let it = items.first();
        if has_product(ps, tid, it.product_id@) {
            let j = product_idx(ps, tid, it.product_id@);
            assert(0 <= j < ps.len() && product_matches(ps[j], tid, it.product_id@));
            if ps[j].stock_quantity >= it.quantity {
                let ps1 = ps.update(
                    j,
                    Product { stock_quantity: (ps[j].stock_quantity - it.quantity) as i32, ..ps[j] },
                );
                lemma_sale_run_isolation(ps1, tid, items.drop_first());
            }
        }
    }
}

/// What one line that `stage_items` built states about its inputs.
pub open spec fn staged_line(
    line: SaleItem,
    ps: Seq<Product>,
    tid: Seq<char>,
    it: CreateSaleItemRequest,
    line_id: String,
    sale_id: String,
) -> bool {
    &&& line.id == line_id
    &&& line.sale_id == sale_id
    &&& line.product_id == it.product_id
    &&& line.quantity == it.quantity
    &&& line.unit_price == ps[product_idx(ps, tid, it.product_id@)].price
    &&& line.unit_price >= 0
    &&& line.subtotal == line.quantity * line.unit_price
}

/// Validates the requested lines in order against the current stocks,
/// building the line rows and the decremented stock column without touching
/// the table; fails with the first line's failure.
#[verifier::rlimit(100)]
#[verifier::spinoff_prover]
fn stage_items(
    products: &Vec<Product>,
    tenant_id: &String,
    items: &Vec<CreateSaleItemRequest>,
    sale_id: &String,
    item_ids: &Vec<String>,
) -> (r: Result<(Vec<SaleItem>, Vec<i32>, i64), SaleError>)
    requires
        product_ids_unique(products@),
        forall|i: int|
            0 <= i < products@.len() ==> (#[trigger] products@[i]).stock_quantity >= 0
                && products@[i].price >= 0,
        item_ids@.len() == items@.len(),
        forall|i: int| 0 <= i < items@.len() ==> (#[trigger] items@[i]).quantity > 0,
        sale_total(products@, tenant_id@, items@) <= i64::MAX,
    ensures
        match r {
            Result::Err(e) => sale_run(products@, tenant_id@, items@) == Err::<
                Seq<Product>,
                SaleError,
            >(e),
            Result::Ok((lines, remaining, total)) => {
                &&& remaining@.len() == products@.len()
                &&& (forall|k: int| 0 <= k < remaining@.len() ==> (#[trigger] remaining@[k]) >= 0)
                &&& sale_run(products@, tenant_id@, items@) == Ok::<Seq<Product>, SaleError>(
                    with_stocks(products@, remaining@),
                )
                &&& total >= 0
                &&& total as int == sale_total(products@, tenant_id@, items@)
                &&& items_subtotal_sum(lines@) == total as int
                &&& lines@.len() == items@.len()
                &&& (forall|k: int|
                    0 <= k < items@.len() ==> staged_line(
                        #[trigger] lines@[k],
                        products@,
                        tenant_id@,
                        items@[k],
                        item_ids@[k],
                        *sale_id,
                    ))
            },
        },
{
    let ghost tid = tenant_id@;
    let ghost ps0 = products@;
    let ghost full_items = items@;

    // Snapshot of every product's stock, decremented as lines are validated
    // so that repeated lines for one product are checked sequentially.
    let n_products = products.len();
    let mut remaining: Vec<i32> = Vec::new();
    let mut t: usize = 0;
    while t < n_products
        invariant
            n_products == ps0.len(),
            ps0 == products@,
            t <= n_products,
            remaining@.len() == t,
            forall|k: int| 0 <= k < t ==> remaining@[k] == ps0[k].stock_quantity,
        decreases n_products - t,
    {
        remaining.push(products[t].stock_quantity);
        t += 1;
    }
    proof {
        assert(with_stocks(ps0, remaining@) =~= ps0);
        assert(full_items.skip(0) =~= full_items);
    }

    let n_items = items.len();
    let mut lines: Vec<SaleItem> = Vec::new();
    let mut total: i64 = 0;
    let mut i: usize = 0;
    while i < n_items
        invariant
            product_ids_unique(ps0),
            forall|k: int|
                0 <= k < ps0.len() ==> (#[trigger] ps0[k]).stock_quantity >= 0 && ps0[k].price
                    >= 0,
            ps0 == products@,
            n_items == full_items.len(),
            item_ids@.len() == full_items.len(),
            full_items == items@,
            tid == tenant_id@,
            sale_total(ps0, tid, full_items) <= i64::MAX,
            forall|k: int| 0 <= k < full_items.len() ==> (#[trigger] full_items[k]).quantity > 0,
            i <= n_items,
            remaining@.len() == ps0.len(),
            forall|k: int| 0 <= k < ps0.len() ==> (#[trigger] remaining@[k]) >= 0,
            sale_run(with_stocks(ps0, remaining@), tid, full_items.skip(i as int)) == sale_run(
                ps0,
                tid,
                full_items,
            ),
            0 <= total,
            total as int == sale_total(ps0, tid, full_items) - sale_total(
                ps0,
                tid,
                full_items.skip(i as int),
            ),
            lines@.len() == i,
            items_subtotal_sum(lines@) == total as int,
            forall|k: int|
                0 <= k < i ==> staged_line(
                    #[trigger] lines@[k],
                    ps0,
                    tid,
                    full_items[k],
                    item_ids@[k],
                    *sale_id,
                ),
        decreases n_items - i,
    {
        let ghost ws = with_stocks(ps0, remaining@);
        proof {
            assert(full_items.skip(i as int).len() == full_items.len() - i);
            assert(full_items.skip(i as int).first() == full_items[i as int]);
            assert(forall|m: int|
                0 <= m < ps0.len() ==> (#[trigger] ws[m]).id@ == ps0[m].id@ && ws[m].tenant_id@
                    == ps0[m].tenant_id@ && ws[m].price == ps0[m].price && ws[m].stock_quantity
                    == remaining@[m]);
        }
        let it = &items[i];
        match find_product(products, tenant_id, &it.product_id) {
            None => {
                proof {
                    assert(!has_product(ps0, tid, it.product_id@));
                    if has_product(ws, tid, it.product_id@) {
                        let w = choose|m: int|
                            0 <= m < ws.len() && product_matches(
                                #[trigger] ws[m],
                                tid,
                                it.product_id@,
                            );
                        assert(product_matches(ps0[w], tid, it.product_id@));
                    }
                    assert(sale_run(ps0, tid, full_items) == Err::<Seq<Product>, SaleError>(
                        SaleError::ProductNotFound(full_items[i as int].product_id),
                    ));
                }
                return Err(SaleError::ProductNotFound(it.product_id.clone()));
            },
            Some(j) => {
                proof {
                    lemma_product_idx_unique(ps0, tid, it.product_id@, j as int);
                    assert(product_ids_unique(ws));
                    assert(product_matches(ws[j as int], tid, it.product_id@));
                    lemma_product_idx_unique(ws, tid, it.product_id@, j as int);
                }
                let have = remaining[j];
                if have < it.quantity {
                    proof {
                        assert(ws[j as int].stock_quantity < it.quantity);
                        assert(sale_run(ps0, tid, full_items) == Err::<Seq<Product>, SaleError>(
                            SaleError::InsufficientStock(full_items[i as int].product_id),
                        ));
                    }
                    return Err(SaleError::InsufficientStock(it.product_id.clone()));
                }
                let price = products[j].price;
                remaining[j] = have - it.quantity;
                proof {
                    assert((price as int) * (it.quantity as int) < 0x4000_0000_0000_0000int)
                        by (nonlinear_arith)
                        requires
                            0 <= (price as int) && (price as int) < 0x8000_0000int,
                            0 < (it.quantity as int) && (it.quantity as int) < 0x8000_0000int,
                    ;
                    lemma_mul_nonnegative(price as int, it.quantity as int);
                }
                let subtotal: i64 = (price as i64) * (it.quantity as i64);
                proof {
                    // the run after this decrement continues with the same
                    // outcome
                    let ws2 = ws.update(
                        j as int,
                        Product {
                            stock_quantity: (ws[j as int].stock_quantity - it.quantity) as i32,
                            ..ws[j as int]
                        },
                    );
                    assert(ws2 =~= with_stocks(ps0, remaining@));
                    assert(full_items.skip(i as int).drop_first() =~= full_items.skip(
                        i as int + 1,
                    ));
                    assert(sale_run(ws, tid, full_items.skip(i as int)) == sale_run(
                        ws2,
                        tid,
                        full_items.skip(i as int + 1),
                    ));
                    // the accumulated total stays within the bound
                    assert(item_amount(ps0, tid, full_items[i as int]) == price as int
                        * it.quantity as int);
                    assert(sale_total(ps0, tid, full_items.skip(i as int)) == item_amount(
                        ps0,
                        tid,
                        full_items[i as int],
                    ) + sale_total(ps0, tid, full_items.skip(i as int + 1)));
                    assert(forall|k: int|
                        0 <= k < full_items.skip(i as int + 1).len() ==> (#[trigger] full_items.skip(
                            i as int + 1,
                        )[k]).quantity > 0);
                    lemma_sale_total_nonneg(ps0, tid, full_items.skip(i as int + 1));
                }
                total = total + subtotal;
                let line = SaleItem {
                    id: item_ids[i].clone(),
                    sale_id: sale_id.clone(),
                    product_id: it.product_id.clone(),
                    quantity: it.quantity,
                    unit_price: price,
                    subtotal,
                };
                let ghost before_push = lines@;
                lines.push(line);
                proof {
                    assert(lines@.drop_last() =~= before_push);
                    assert(lines@[i as int] == line);
                    assert(line.id == item_ids@[i as int]);
                    assert(line.sale_id == *sale_id);
                    assert(line.product_id == full_items[i as int].product_id);
                    assert(line.quantity == full_items[i as int].quantity);
                    assert(line.unit_price == ps0[product_idx(
                        ps0,
                        tid,
                        full_items[i as int].product_id@,
                    )].price);
                    assert(line.subtotal == (price as int) * (it.quantity as int));
                    assert((it.quantity as int) * (price as int) == (price as int) * (
                    it.quantity as int)) by (nonlinear_arith);
                    assert(line.subtotal == line.quantity * line.unit_price);
                    assert(staged_line(
                        lines@[i as int],
                        ps0,
                        tid,
                        full_items[i as int],
                        item_ids@[i as int],
                        *sale_id,
                    ));
                }
                i += 1;
            },
        }
    }

    proof {
        assert(full_items.skip(n_items as int) =~= Seq::<CreateSaleItemRequest>::empty());
    }
    Ok((lines, remaining, total))
}

/// What the dashboard presents: the tenant's revenue, its number of sales,
/// and its most recent sales.
pub struct DashboardStats {
    pub total_revenue: i64,
    pub sales_count: i64,
    pub recent_sales: Vec<Sale>,
}

/// Computes the caller's tenant's dashboard: the exact revenue and sale
/// count, and up to five sales, each the tenant's, newest first.
pub fn get_dashboard_stats(store: &Store, claims: &Claims) -> (r: Result<DashboardStats, ApiError>)
    requires
        store.wf(),
        tenant_revenue(store.sales@, claims.tenant_view()) <= i64::MAX,
        store.sales@.len() <= 0x7fff_ffff_ffff_ffffu64 as usize,
        forall|i: int|
            0 <= i < store.sales@.len() ==> (#[trigger] store.sales@[i]).created_at
                <= 0x7fff_ffff_ffff_ffffu64,
    ensures
        match decide(*claims, Action::DataAccess) {
            Decision::Deny(e) => r == Err::<DashboardStats, ApiError>(ApiError::Authz(e)),
            Decision::Allow(_) => {
                let f = tenant_sales(store.sales@, claims.tenant_view());
                let st = r->Ok_0;
                &&& r is Ok
                &&& st.total_revenue == tenant_revenue(store.sales@, claims.tenant_view())
                &&& st.sales_count == f.len()
                &&& st.recent_sales@.len() == (if f.len() < 5 {
                    f.len() as int
                } else {
                    5
                })
                &&& (forall|k: int|
                    0 <= k < st.recent_sales@.len() ==> f.contains(#[trigger] st.recent_sales@[k]))
                &&& (forall|a: int, b: int|
                    0 <= a < b < st.recent_sales@.len() ==> (#[trigger] st.recent_sales@[a]).created_at
                        >= (#[trigger] st.recent_sales@[b]).created_at)
                &&& (st.recent_sales@.len() == 5 ==> (forall|j: int|
                    0 <= j < f.len() && !(exists|k: int|
                        0 <= k < st.recent_sales@.len() && (#[trigger] st.recent_sales@[k]) == f[j])
                        ==> (#[trigger] f[j]).created_at <= st.recent_sales@[4].created_at))
            },
        },
{
    let all = match list_sales(store, claims) {
        Ok(v) => v,
        Err(e) => {
            return Err(e);
        },
    };
    let tenant_id: &String = match &claims.tenant_id {
        Some(t) => t,
        None => {
            proof {
                assert(false);
            }
            return Err(ApiError::Authz(AuthzError::NoTenant));
        },
    };
    let ghost tid = claims.tenant_view();

    let sales_count = all.len() as i64;
    let ghost all0 = all@;
    let mut recent_sales = all;
    recent_sales.truncate(5);
    proof {
        if all0.len() >= 5 {
            assert(recent_sales@ == all0.subrange(0, 5));
            assert(forall|k: int| 0 <= k < 5 ==> (#[trigger] recent_sales@[k]) == all0[k]);
        }
        let f = tenant_sales(store.sales@, tid);
        if recent_sales@.len() == 5 {
            assert forall|j: int|
                0 <= j < f.len() && !(exists|k: int|
                    0 <= k < recent_sales@.len() && (#[trigger] recent_sales@[k]) == f[j]) implies (
            #[trigger] f[j]).created_at <= recent_sales@[4].created_at by {
                assert(all0.contains(f[j]));
                let w = choose|w: int| 0 <= w < all0.len() && all0[w] == f[j];
                if w < 5 {
                    assert(recent_sales@[w] == all0[w]);
                    assert(false);
                } else {
                    assert(all0[4].created_at >= all0[w].created_at);
                    assert(recent_sales@[4] == all0[4]);
                }
            }
        }
    }

    let n = store.sales.len();
    let mut revenue: i64 = 0;
    let mut i: usize = 0;
    proof {
        lemma_totals_nonneg(*store);
        assert(store.sales@.skip(0) =~= store.sales@);
    }
    while i < n
        invariant
            store.wf(),
            n == store.sales@.len(),
            i <= n,
            tenant_id@ == tid,
            tenant_revenue(store.sales@, tid) <= i64::MAX,
            forall|k: int| 0 <= k < store.sales@.len() ==> (#[trigger] store.sales@[k]).total_amount >= 0,
            revenue as int == tenant_revenue(store.sales@, tid) - tenant_revenue(
                store.sales@.skip(i as int),
                tid,
            ),
            revenue >= 0,
        decreases n - i,
    {
        let s = &store.sales[i];
        proof {
            assert(store.sales@.skip(i as int).first() == store.sales@[i as int]);
            assert(store.sales@.skip(i as int).drop_first() =~= store.sales@.skip(i as int + 1));
            assert(forall|k: int|
                0 <= k < store.sales@.skip(i as int + 1).len() ==> (#[trigger] store.sales@.skip(
                    i as int + 1,
                )[k]).total_amount >= 0);
            lemma_tenant_revenue_nonneg(store.sales@.skip(i as int + 1), tid);
        }
        if crate::str_eq(s.tenant_id.as_str(), tenant_id.as_str()) {
            revenue = revenue + s.total_amount;
        }
        i += 1;
    }
    proof {
        assert(store.sales@.skip(n as int) =~= Seq::<Sale>::empty());
    }

    Ok(DashboardStats { total_revenue: revenue, sales_count, recent_sales })
}

/// A committed sale leaves the store well formed: stocks replaced by the
/// validated nonnegative remainders, every new line belonging to the fresh
/// sale, and the fresh sale's total the sum of exactly its own lines, with
/// every earlier sale's total untouched.
#[verifier::rlimit(100)]
#[verifier::spinoff_prover]
proof fn lemma_commit_wf(
    s0: Store,
    s1: Store,
    committed: Seq<SaleItem>,
    remaining: Seq<i32>,
    sale_id_v: Seq<char>,
)
    requires
        s0.wf(),
        s1.users@ == s0.users@,
        s1.tenants@ == s0.tenants@,
        s1.products@ == with_stocks(s0.products@, remaining),
        remaining.len() == s0.products@.len(),
        forall|k: int| 0 <= k < remaining.len() ==> (#[trigger] remaining[k]) >= 0,
        s1.sale_items@ == s0.sale_items@ + committed,
        forall|k: int|
            0 <= k < committed.len() ==> {
                let li = #[trigger] committed[k];
                &&& li.sale_id@ == sale_id_v
                &&& li.quantity > 0
                &&& li.unit_price >= 0
                &&& li.subtotal == li.quantity * li.unit_price
            },
        s1.sales@.len() == s0.sales@.len() + 1,
        forall|k: int| 0 <= k < s0.sales@.len() ==> (#[trigger] s1.sales@[k]) == s0.sales@[k],
        s1.sales@.last().id@ == sale_id_v,
        s1.sales@.last().total_amount == items_subtotal_sum(committed),
        forall|k: int| 0 <= k < s0.sales@.len() ==> (#[trigger] s0.sales@[k]).id@ != sale_id_v,
        forall|k: int|
            0 <= k < s0.sale_items@.len() ==> (#[trigger] s0.sale_items@[k]).sale_id@ != sale_id_v,
    ensures
        s1.wf(),
{
    let ws = s1.products@;
    let ps0 = s0.products@;
    let items_all = s1.sale_items@;
    let old_items = s0.sale_items@;

    assert forall|a: int, b: int| 0 <= a < b < ws.len() implies (#[trigger] ws[a].id@) != (
    #[trigger] ws[b].id@) by {
        assert(ws[a].id@ == ps0[a].id@ && ws[b].id@ == ps0[b].id@);
    }
    assert(forall|i: int|
        0 <= i < ws.len() ==> (#[trigger] ws[i]).stock_quantity >= 0 && ws[i].price >= 0);

    assert forall|m: int| 0 <= m < items_all.len() implies {
        let li = #[trigger] items_all[m];
        li.quantity > 0 && li.unit_price >= 0 && li.subtotal == li.quantity * li.unit_price
    } by {
        if m < old_items.len() {
            assert(items_all[m] == old_items[m]);
        } else {
            assert(items_all[m] == committed[m - old_items.len()]);
        }
    }

    assert forall|s: int|
        0 <= s < s1.sales@.len() - 1 implies (#[trigger] s1.sales@[s]).total_amount
        == items_subtotal_sum(sale_items_of(items_all, s1.sales@[s].id@)) by {
        let sid = s0.sales@[s].id@;
        lemma_sale_items_of_add(old_items, committed, sid);
        lemma_sale_items_of_none(committed, sid);
        assert(sale_items_of(old_items, sid) + Seq::<SaleItem>::empty() =~= sale_items_of(
            old_items,
            sid,
        ));
    }

    lemma_sale_items_of_add(old_items, committed, sale_id_v);
    lemma_sale_items_of_none(old_items, sale_id_v);
    lemma_sale_items_of_all(committed, sale_id_v);
    assert(Seq::<SaleItem>::empty() + committed =~= committed);
    assert(s1.sales@.last().total_amount == items_subtotal_sum(
        sale_items_of(items_all, s1.sales@.last().id@),
    ));
    assert forall|i: int|
        0 <= i < s1.sales@.len() implies (#[trigger] s1.sales@[i]).total_amount
        == items_subtotal_sum(sale_items_of(items_all, s1.sales@[i].id@)) by {
        if i == s1.sales@.len() - 1 {
            assert(s1.sales@[i] == s1.sales@.last());
        }
    }
}

/// Creates a sale for the caller's tenant: validates every line in order,
/// snapshots unit prices, decrements stock, inserts the lines and the sale
/// row with the accumulated total, all-or-nothing.
///
/// `sale_id` and `item_ids` are the fresh row keys minted by the caller;
/// `now` is the commit timestamp.
#[verifier::rlimit(100)]
#[verifier::spinoff_prover]
pub fn create_sale(
    store: &mut Store,
    claims: &Claims,
    req: &CreateSaleRequest,
    sale_id: &String,
    item_ids: &Vec<String>,
    now: u64,
) -> (r: Result<String, ApiError>)
    requires
        old(store).wf(),
        item_ids@.len() == req.items@.len(),
        forall|i: int| 0 <= i < req.items@.len() ==> (#[trigger] req.items@[i]).quantity > 0,
        forall|i: int|
            0 <= i < old(store).sales@.len() ==> (#[trigger] old(store).sales@[i]).id@ != sale_id@,
        forall|i: int|
            0 <= i < old(store).sale_items@.len() ==> (#[trigger] old(
                store,
            ).sale_items@[i]).sale_id@ != sale_id@,
        claims.tenant_id is Some ==> sale_total(
            old(store).products@,
            claims.tenant_view(),
            req.items@,
        ) <= i64::MAX,
    ensures
        final(store).wf(),
        final(store).users@ == old(store).users@,
        final(store).tenants@ == old(store).tenants@,
        final(store).plans@ == old(store).plans@,
        final(store).customers@ == old(store).customers@,
        r is Err ==> *final(store) == *old(store),
        claims.tenant_id is None ==> r == Err::<String, ApiError>(
            ApiError::Authz(AuthzError::NoTenant),
        ),
        claims.tenant_id is Some ==> match sale_run(
            old(store).products@,
            claims.tenant_view(),
            req.items@,
        ) {
            Result::Err(e) => r == Err::<String, ApiError>(ApiError::Sale(e)),
            Result::Ok(ps2) => {
                &&& r is Ok
                &&& r->Ok_0 == *sale_id
                &&& final(store).products@ == ps2
                &&& final(store).sales@.len() == old(store).sales@.len() + 1
                &&& final(store).sales@.drop_last() == old(store).sales@
                &&& (final(store).sales@.last() == (Sale {
                    id: *sale_id,
                    tenant_id: claims.tenant_id.unwrap(),
                    user_id: claims.sub,
                    customer_id: req.customer_id,
                    total_amount: final(store).sales@.last().total_amount,
                    payment_method: req.payment_method,
                    status: final(store).sales@.last().status,
                    created_at: now,
                }))
                &&& final(store).sales@.last().total_amount == sale_total(
                    old(store).products@,
                    claims.tenant_view(),
                    req.items@,
                )
                &&& final(store).sales@.last().status@ == "completed"@
                &&& final(store).sale_items@.len() == old(store).sale_items@.len()
                    + req.items@.len()
                &&& final(store).sale_items@.take(old(store).sale_items@.len() as int) == old(
                    store,
                ).sale_items@
                &&& (forall|k: int|
                    0 <= k < req.items@.len() ==> staged_line(
                        #[trigger] final(store).sale_items@[old(store).sale_items@.len() + k],
                        old(store).products@,
                        claims.tenant_view(),
                        req.items@[k],
                        item_ids@[k],
                        *sale_id,
                    ))
            },
        },
{
    let tenant_id: &String = match &claims.tenant_id {
        Some(t) => t,
        None => {
            return Err(ApiError::Authz(AuthzError::NoTenant));
        },
    };
    let ghost tid = tenant_id@;
    let ghost ps0 = store.products@;

    let staged = match stage_items(&store.products, tenant_id, &req.items, sale_id, item_ids) {
        Ok(s) => s,
        Err(e) => {
            return Err(ApiError::Sale(e));
        },
    };
    let (new_items, remaining, total) = staged;

    // Commit: write the decremented stocks back, append the lines, insert
    // the sale row.
    let ghost old_sale_items = store.sale_items@;
    let ghost old_sales = store.sales@;
    let n_products = store.products.len();
    let mut j2: usize = 0;
    while j2 < n_products
        invariant
            n_products == ps0.len(),
            store.products@.len() == ps0.len(),
            remaining@.len() == ps0.len(),
            j2 <= n_products,
            forall|m: int| 0 <= m < j2 ==> store.products@[m] == with_stocks(ps0, remaining@)[m],
            forall|m: int| j2 <= m < ps0.len() ==> store.products@[m] == ps0[m],
            store.users@ == old(store).users@,
            store.tenants@ == old(store).tenants@,
            store.plans@ == old(store).plans@,
            store.customers@ == old(store).customers@,
            store.sales@ == old_sales,
            store.sale_items@ == old_sale_items,
        decreases n_products - j2,
    {
        let ns = remaining[j2];
        let p = &mut store.products[j2];
        p.stock_quantity = ns;
        j2 += 1;
    }
    proof {
        assert(store.products@ =~= with_stocks(ps0, remaining@));
    }

    let ghost committed_items = new_items@;
    let mut new_items_moved = new_items;
    store.sale_items.append(&mut new_items_moved);
    let sale = Sale {
        id: sale_id.clone(),
        tenant_id: tenant_id.clone(),
        user_id: claims.sub.clone(),
        customer_id: req.customer_id.clone(),
        total_amount: total,
        payment_method: req.payment_method.clone(),
        status: "completed".to_owned(),
        created_at: now,
    };
    store.sales.push(sale);

    proof {
        let items_all = store.sale_items@;
        assert(items_all == old_sale_items + committed_items);
        assert(store.sales@.drop_last() =~= old_sales);
        assert(items_all.take(old_sale_items.len() as int) =~= old_sale_items);
        assert(forall|s: int|
            0 <= s < old_sales.len() ==> (#[trigger] store.sales@[s]) == old_sales[s]);
        assert forall|k: int|
            0 <= k < committed_items.len() implies {
                let li = #[trigger] committed_items[k];
                &&& li.sale_id@ == sale_id@
                &&& li.quantity > 0
                &&& li.unit_price >= 0
                &&& li.subtotal == li.quantity * li.unit_price
            } by {
            assert(staged_line(
                committed_items[k],
                ps0,
                tid,
                req.items@[k],
                item_ids@[k],
                *sale_id,
            ));
        }
        lemma_commit_wf(*old(store), *store, committed_items, remaining@, sale_id@);
    }

    Ok(sale_id.clone())
}

} // verus!
