//! The relational store modeled as in-memory tables, with the invariants
//! that every committed state satisfies: stock quantities never negative,
//! sale totals equal to the sum of their line subtotals, and unique keys.

use vstd::prelude::*;

use crate::domain::{Customer, Plan, Product, Sale, SaleItem, Tenant, User};

verus! {

/// The persistent state: one vector per table.
pub struct Store {
    pub users: Vec<User>,
    pub tenants: Vec<Tenant>,
    pub plans: Vec<Plan>,
    pub products: Vec<Product>,
    pub customers: Vec<Customer>,
    pub sales: Vec<Sale>,
    pub sale_items: Vec<SaleItem>,
}

/// Whether product `p` is the row keyed by `(pid, tid)`.
pub open spec fn product_matches(p: Product, tid: Seq<char>, pid: Seq<char>) -> bool {
    p.tenant_id@ == tid && p.id@ == pid
}

/// Whether the table holds a product keyed by `(pid, tid)`.
pub open spec fn has_product(ps: Seq<Product>, tid: Seq<char>, pid: Seq<char>) -> bool {
    exists|i: int| 0 <= i < ps.len() && product_matches(#[trigger] ps[i], tid, pid)
}

/// The index of the product keyed by `(pid, tid)`; meaningful only when
/// `has_product` holds and product ids are unique.
pub open spec fn product_idx(ps: Seq<Product>, tid: Seq<char>, pid: Seq<char>) -> int {
    choose|i: int| 0 <= i < ps.len() && product_matches(#[trigger] ps[i], tid, pid)
}

/// The lines belonging to sale `sale_id`.
pub open spec fn sale_items_of(items: Seq<SaleItem>, sale_id: Seq<char>) -> Seq<SaleItem> {
    items.filter(|it: SaleItem| it.sale_id@ == sale_id)
}

/// The sum of the subtotals of `items`.
pub open spec fn items_subtotal_sum(items: Seq<SaleItem>) -> int
    decreases items.len(),
{
    if items.len() == 0 {
        0
    } else {
        items_subtotal_sum(items.drop_last()) + items.last().subtotal
    }
}

pub open spec fn product_ids_unique(ps: Seq<Product>) -> bool {
    forall|i: int, j: int| 0 <= i < j < ps.len() ==> (#[trigger] ps[i].id@) != (#[trigger] ps[j].id@)
}

pub open spec fn sale_ids_unique(ss: Seq<Sale>) -> bool {
    forall|i: int, j: int| 0 <= i < j < ss.len() ==> (#[trigger] ss[i].id@) != (#[trigger] ss[j].id@)
}

pub open spec fn user_ids_unique(us: Seq<User>) -> bool {
    forall|i: int, j: int| 0 <= i < j < us.len() ==> (#[trigger] us[i].id@) != (#[trigger] us[j].id@)
}

pub open spec fn user_emails_unique(us: Seq<User>) -> bool {
    forall|i: int, j: int|
        0 <= i < j < us.len() ==> (#[trigger] us[i].email@) != (#[trigger] us[j].email@)
}

pub open spec fn tenant_ids_unique(ts: Seq<Tenant>) -> bool {
    forall|i: int, j: int| 0 <= i < j < ts.len() ==> (#[trigger] ts[i].id@) != (#[trigger] ts[j].id@)
}

/// Whether the users table holds an account with this email.
pub open spec fn has_user_email(us: Seq<User>, email: Seq<char>) -> bool {
    exists|i: int| 0 <= i < us.len() && (#[trigger] us[i].email@) == email
}

/// Whether the tenants table holds a tenant with this id.
pub open spec fn has_tenant(ts: Seq<Tenant>, id: Seq<char>) -> bool {
    exists|i: int| 0 <= i < ts.len() && (#[trigger] ts[i].id@) == id
}

/// The index of the tenant with this id; meaningful only when `has_tenant`
/// holds and tenant ids are unique.
pub open spec fn tenant_idx(ts: Seq<Tenant>, id: Seq<char>) -> int {
    choose|i: int| 0 <= i < ts.len() && (#[trigger] ts[i].id@) == id
}

impl Store {
    pub open spec fn products_wf(self) -> bool {
        &&& product_ids_unique(self.products@)
        &&& forall|i: int|
            0 <= i < self.products@.len() ==> (#[trigger] self.products@[i]).stock_quantity >= 0
                && self.products@[i].price >= 0
    }

    pub open spec fn sale_items_wf(self) -> bool {
        forall|i: int|
            0 <= i < self.sale_items@.len() ==> {
                let it = #[trigger] self.sale_items@[i];
                it.quantity > 0 && it.unit_price >= 0 && it.subtotal == it.quantity
                    * it.unit_price
            }
    }

    pub open spec fn sales_wf(self) -> bool {
        &&& sale_ids_unique(self.sales@)
        &&& forall|i: int|
            0 <= i < self.sales@.len() ==> (#[trigger] self.sales@[i]).total_amount
                == items_subtotal_sum(sale_items_of(self.sale_items@, self.sales@[i].id@))
    }

    pub open spec fn users_wf(self) -> bool {
        user_ids_unique(self.users@) && user_emails_unique(self.users@)
    }

    pub open spec fn tenants_wf(self) -> bool {
        tenant_ids_unique(self.tenants@)
    }

    /// The invariant of every committed store state.
    pub open spec fn wf(self) -> bool {
        self.products_wf() && self.sale_items_wf() && self.sales_wf() && self.users_wf()
            && self.tenants_wf()
    }

    /// An empty store is well formed.
    pub fn new() -> (s: Store)
        ensures
            s.wf(),
            s.users@.len() == 0,
            s.tenants@.len() == 0,
            s.plans@.len() == 0,
            s.products@.len() == 0,
            s.customers@.len() == 0,
            s.sales@.len() == 0,
            s.sale_items@.len() == 0,
    {
        Store {
            users: Vec::new(),
            tenants: Vec::new(),
            plans: Vec::new(),
            products: Vec::new(),
            customers: Vec::new(),
            sales: Vec::new(),
            sale_items: Vec::new(),
        }
    }
}

/// A sale owns no line of a batch none of whose lines names it.
pub proof fn lemma_sale_items_of_none(items: Seq<SaleItem>, sid: Seq<char>)
    requires
        forall|i: int| 0 <= i < items.len() ==> (#[trigger] items[i]).sale_id@ != sid,
    ensures
        sale_items_of(items, sid) == Seq::<SaleItem>::empty(),
    decreases items.len(),
{
    reveal(Seq::filter);
    if items.len() != 0 {
        lemma_sale_items_of_none(items.drop_last(), sid);
    }
}

/// A sale owns every line of a batch all of whose lines name it.
pub proof fn lemma_sale_items_of_all(items: Seq<SaleItem>, sid: Seq<char>)
    requires
        forall|i: int| 0 <= i < items.len() ==> (#[trigger] items[i]).sale_id@ == sid,
    ensures
        sale_items_of(items, sid) == items,
    decreases items.len(),
{
    reveal(Seq::filter);
    if items.len() != 0 {
        lemma_sale_items_of_all(items.drop_last(), sid);
        assert(items.drop_last().push(items.last()) =~= items);
    }
}

/// The lines of a sale within a concatenation are the concatenation of its
/// lines within each part.
pub proof fn lemma_sale_items_of_add(a: Seq<SaleItem>, b: Seq<SaleItem>, sid: Seq<char>)
    ensures
        sale_items_of(a + b, sid) == sale_items_of(a, sid) + sale_items_of(b, sid),
    decreases b.len(),
{
    reveal(Seq::filter);
    if b.len() == 0 {
        assert(a + b =~= a);
        assert(sale_items_of(b, sid) =~= Seq::<SaleItem>::empty());
        assert(sale_items_of(a, sid) + sale_items_of(b, sid) =~= sale_items_of(a, sid));
    } else {
        lemma_sale_items_of_add(a, b.drop_last(), sid);
        assert((a + b).drop_last() =~= a + b.drop_last());
        assert((a + b).last() == b.last());
        if b.last().sale_id@ == sid {
            assert(sale_items_of(a, sid) + sale_items_of(b, sid) =~= (sale_items_of(a, sid)
                + sale_items_of(b.drop_last(), sid)).push(b.last()));
        }
    }
}

/// Subtotal sums distribute over concatenation.
pub proof fn lemma_subtotal_sum_add(a: Seq<SaleItem>, b: Seq<SaleItem>)
    ensures
        items_subtotal_sum(a + b) == items_subtotal_sum(a) + items_subtotal_sum(b),
    decreases b.len(),
{
    if b.len() == 0 {
        assert(a + b =~= a);
    } else {
        lemma_subtotal_sum_add(a, b.drop_last());
        assert((a + b).drop_last() =~= a + b.drop_last());
        assert((a + b).last() == b.last());
    }
}

/// Looks up the product keyed by `(product_id, tenant_id)`.
pub fn find_product(products: &Vec<Product>, tenant_id: &String, product_id: &String) -> (r: Option<
    usize,
>)
    ensures
        match r {
            Some(j) => j < products@.len() && product_matches(
                products@[j as int],
                tenant_id@,
                product_id@,
            ),
            None => !has_product(products@, tenant_id@, product_id@),
        },
{
    let n = products.len();
    let mut j: usize = 0;
    while j < n
        invariant
            n == products@.len(),
            j <= n,
            forall|k: int|
                0 <= k < j ==> !product_matches(#[trigger] products@[k], tenant_id@, product_id@),
        decreases n - j,
    {
        let p = &products[j];
        if crate::str_eq(p.id.as_str(), product_id.as_str()) && crate::str_eq(
            p.tenant_id.as_str(),
            tenant_id.as_str(),
        ) {
            return Some(j);
        }
        j += 1;
    }
    None
}

/// The index of the user with this email; meaningful only when
/// `has_user_email` holds and emails are unique.
pub open spec fn user_email_idx(us: Seq<User>, email: Seq<char>) -> int {
    choose|i: int| 0 <= i < us.len() && (#[trigger] us[i].email@) == email
}

/// Whether the users table holds a user with this id.
pub open spec fn has_user_id(us: Seq<User>, id: Seq<char>) -> bool {
    exists|i: int| 0 <= i < us.len() && (#[trigger] us[i].id@) == id
}

/// The index of the user with this id; meaningful only when `has_user_id`
/// holds and user ids are unique.
pub open spec fn user_idx(us: Seq<User>, id: Seq<char>) -> int {
    choose|i: int| 0 <= i < us.len() && (#[trigger] us[i].id@) == id
}

/// Looks up a user by email.
pub fn find_user_by_email(users: &Vec<User>, email: &String) -> (r: Option<usize>)
    ensures
        match r {
            Some(j) => j < users@.len() && users@[j as int].email@ == email@,
            None => !has_user_email(users@, email@),
        },
{
    let n = users.len();
    let mut j: usize = 0;
    while j < n
        invariant
            n == users@.len(),
            j <= n,
            forall|k: int| 0 <= k < j ==> (#[trigger] users@[k].email@) != email@,
        decreases n - j,
    {
        if crate::str_eq(users[j].email.as_str(), email.as_str()) {
            return Some(j);
        }
        j += 1;
    }
    None
}

/// Looks up a user by id.
pub fn find_user_by_id(users: &Vec<User>, id: &String) -> (r: Option<usize>)
    ensures
        match r {
            Some(j) => j < users@.len() && users@[j as int].id@ == id@,
            None => !has_user_id(users@, id@),
        },
{
    let n = users.len();
    let mut j: usize = 0;
    while j < n
        invariant
            n == users@.len(),
            j <= n,
            forall|k: int| 0 <= k < j ==> (#[trigger] users@[k].id@) != id@,
        decreases n - j,
    {
        if crate::str_eq(users[j].id.as_str(), id.as_str()) {
            return Some(j);
        }
        j += 1;
    }
    None
}

/// Looks up a tenant by id.
pub fn find_tenant_by_id(tenants: &Vec<Tenant>, id: &String) -> (r: Option<usize>)
    ensures
        match r {
            Some(j) => j < tenants@.len() && tenants@[j as int].id@ == id@,
            None => !has_tenant(tenants@, id@),
        },
{
    let n = tenants.len();
    let mut j: usize = 0;
    while j < n
        invariant
            n == tenants@.len(),
            j <= n,
            forall|k: int| 0 <= k < j ==> (#[trigger] tenants@[k].id@) != id@,
        decreases n - j,
    {
        if crate::str_eq(tenants[j].id.as_str(), id.as_str()) {
            return Some(j);
        }
        j += 1;
    }
    None
}

/// With unique emails, any index holding a user with the email is the index
/// that `user_email_idx` denotes.
pub proof fn lemma_user_email_idx_unique(us: Seq<User>, email: Seq<char>, j: int)
    requires
        user_emails_unique(us),
        0 <= j < us.len(),
        us[j].email@ == email,
    ensures
        has_user_email(us, email),
        user_email_idx(us, email) == j,
{
    assert(has_user_email(us, email));
    let c = user_email_idx(us, email);
    if c != j {
        if c < j {
            assert(us[c].email@ != us[j].email@);
        } else {
            assert(us[j].email@ != us[c].email@);
        }
    }
}

/// With unique user ids, any index holding the user with the id is the
/// index that `user_idx` denotes.
pub proof fn lemma_user_idx_unique(us: Seq<User>, id: Seq<char>, j: int)
    requires
        user_ids_unique(us),
        0 <= j < us.len(),
        us[j].id@ == id,
    ensures
        has_user_id(us, id),
        user_idx(us, id) == j,
{
    assert(has_user_id(us, id));
    let c = user_idx(us, id);
    if c != j {
        if c < j {
            assert(us[c].id@ != us[j].id@);
        } else {
            assert(us[j].id@ != us[c].id@);
        }
    }
}

/// With unique tenant ids, any index holding the tenant with the id is the
/// index that `tenant_idx` denotes.
pub proof fn lemma_tenant_idx_unique(ts: Seq<Tenant>, id: Seq<char>, j: int)
    requires
        tenant_ids_unique(ts),
        0 <= j < ts.len(),
        ts[j].id@ == id,
    ensures
        has_tenant(ts, id),
        tenant_idx(ts, id) == j,
{
    assert(has_tenant(ts, id));
    let c = tenant_idx(ts, id);
    if c != j {
        if c < j {
            assert(ts[c].id@ != ts[j].id@);
        } else {
            assert(ts[j].id@ != ts[c].id@);
        }
    }
}

/// Stock non-negativity: in every well-formed store state, and so after any
/// sequence of committed operations that preserve well-formedness, no
/// product's stock is negative.
pub proof fn lemma_stock_nonnegative(s: Store)
    requires
        s.wf(),
    ensures
        forall|i: int|
            0 <= i < s.products@.len() ==> (#[trigger] s.products@[i]).stock_quantity >= 0,
{
}

/// Total correctness: in every well-formed store state, each committed
/// sale's total equals the sum of the subtotals of exactly its lines.
pub proof fn lemma_sale_totals_correct(s: Store)
    requires
        s.wf(),
    ensures
        forall|i: int|
            0 <= i < s.sales@.len() ==> (#[trigger] s.sales@[i]).total_amount == items_subtotal_sum(
                sale_items_of(s.sale_items@, s.sales@[i].id@),
            ),
{
}

/// With unique product ids, any index holding the `(pid, tid)` row is the
/// index that `product_idx` denotes.
pub proof fn lemma_product_idx_unique(ps: Seq<Product>, tid: Seq<char>, pid: Seq<char>, j: int)
    requires
        product_ids_unique(ps),
        0 <= j < ps.len(),
        product_matches(ps[j], tid, pid),
    ensures
        has_product(ps, tid, pid),
        product_idx(ps, tid, pid) == j,
{
    assert(has_product(ps, tid, pid));
    let c = product_idx(ps, tid, pid);
    assert(0 <= c < ps.len() && product_matches(ps[c], tid, pid));
    if c != j {
        assert(ps[c].id@ == ps[j].id@);
        if c < j {
            assert(ps[c].id@ != ps[j].id@);
        } else {
            assert(ps[j].id@ != ps[c].id@);
        }
    }
}

} // verus!
