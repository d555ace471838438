//! Tenant-scoped catalog operations: products and customers. Every read
//! returns only the caller's tenant's rows and every write stays inside
//! them; later price changes never touch committed sales or their lines.

use vstd::prelude::*;

use crate::authz::{authorize, decide, Action, Decision, Scope};
use crate::domain::{
    clone_opt_string, Claims, CreateCustomerRequest, CreateProductRequest, Customer, Product,
    UpdateProductRequest,
};
use crate::errors::ApiError;
use crate::store::{has_product, lemma_product_idx_unique, product_idx, product_matches, Store};

verus! {

/// The products of one tenant.
pub open spec fn tenant_products(ps: Seq<Product>, tid: Seq<char>) -> Seq<Product> {
    ps.filter(|p: Product| p.tenant_id@ == tid)
}

/// The customers of one tenant.
pub open spec fn tenant_customers(cs: Seq<Customer>, tid: Seq<char>) -> Seq<Customer> {
    cs.filter(|c: Customer| c.tenant_id@ == tid)
}

/// A product row with the supplied fields of the patch applied, the others
/// kept, and the update timestamp refreshed.
pub open spec fn patched_product(p: Product, u: UpdateProductRequest, now: u64) -> Product {
    Product {
        name: if u.name is Some {
            u.name.unwrap()
        } else {
            p.name
        },
        description: if u.description is Some {
            u.description
        } else {
            p.description
        },
        price: if u.price is Some {
            u.price.unwrap()
        } else {
            p.price
        },
        stock_quantity: if u.stock_quantity is Some {
            u.stock_quantity.unwrap()
        } else {
            p.stock_quantity
        },
        sku: if u.sku is Some {
            u.sku
        } else {
            p.sku
        },
        updated_at: now,
        ..p
    }
}

/// Lists the products of the caller's tenant, and nothing of any other
/// tenant's.
pub fn list_products(store: &Store, claims: &Claims) -> (r: Result<Vec<Product>, ApiError>)
    ensures
        match decide(*claims, Action::DataAccess) {
            Decision::Deny(e) => r == Err::<Vec<Product>, ApiError>(ApiError::Authz(e)),
            Decision::Allow(_) => r is Ok && r->Ok_0@ == tenant_products(
                store.products@,
                claims.tenant_view(),
            ),
        },
{
    let tenant_id = match authorize(claims, &Action::DataAccess) {
        Decision::Deny(e) => {
            return Err(ApiError::Authz(e));
        },
        Decision::Allow(Scope::TenantRows(t)) => t,
        Decision::Allow(_) => {
            proof {
                assert(false);
            }
            return Err(ApiError::Validation);
        },
    };
    let n = store.products.len();
    let mut out: Vec<Product> = Vec::new();
    let mut i: usize = 0;
    while i < n
        invariant
            n == store.products@.len(),
            i <= n,
            tenant_id@ == claims.tenant_view(),
            out@ == tenant_products(store.products@.take(i as int), claims.tenant_view()),
        decreases n - i,
    {
        let p = &store.products[i];
        let mine = crate::str_eq(p.tenant_id.as_str(), tenant_id.as_str());
        proof {
            reveal(Seq::filter);
            assert(store.products@.take(i as int + 1).drop_last() =~= store.products@.take(
                i as int,
            ));
            assert(store.products@.take(i as int + 1).last() == store.products@[i as int]);
        }
        if mine {
            out.push(p.duplicate());
        }
        i += 1;
    }
    proof {
        assert(store.products@.take(n as int) =~= store.products@);
    }
    Ok(out)
}

/// Creates a product in the caller's tenant. A negative price or stock is
/// refused, keeping the stock and price invariants.
pub fn create_product(
    store: &mut Store,
    claims: &Claims,
    payload: &CreateProductRequest,
    product_id: &String,
    now: u64,
) -> (r: Result<String, ApiError>)
    requires
        old(store).wf(),
        forall|i: int|
            0 <= i < old(store).products@.len() ==> (#[trigger] old(store).products@[i]).id@
                != product_id@,
    ensures
        final(store).wf(),
        final(store).users@ == old(store).users@,
        final(store).tenants@ == old(store).tenants@,
        final(store).plans@ == old(store).plans@,
        final(store).customers@ == old(store).customers@,
        final(store).sales@ == old(store).sales@,
        final(store).sale_items@ == old(store).sale_items@,
        r is Err ==> *final(store) == *old(store),
        match decide(*claims, Action::DataAccess) {
            Decision::Deny(e) => r == Err::<String, ApiError>(ApiError::Authz(e)),
            Decision::Allow(_) => {
                if payload.price < 0 || payload.stock_quantity < 0 {
                    r == Err::<String, ApiError>(ApiError::Validation)
                } else {
                    &&& r is Ok
                    &&& r->Ok_0 == *product_id
                    &&& final(store).products@ == old(store).products@.push(
                        Product {
                            id: *product_id,
                            tenant_id: claims.tenant_id.unwrap(),
                            name: payload.name,
                            description: payload.description,
                            price: payload.price,
                            stock_quantity: payload.stock_quantity,
                            sku: payload.sku,
                            created_at: now,
                            updated_at: now,
                        },
                    )
                }
            },
        },
{
    let tenant_id = match authorize(claims, &Action::DataAccess) {
        Decision::Deny(e) => {
            return Err(ApiError::Authz(e));
        },
        Decision::Allow(Scope::TenantRows(t)) => t,
        Decision::Allow(_) => {
            proof {
                assert(false);
            }
            return Err(ApiError::Validation);
        },
    };
    if payload.price < 0 || payload.stock_quantity < 0 {
        return Err(ApiError::Validation);
    }
    let row = Product {
        id: product_id.clone(),
        tenant_id,
        name: payload.name.clone(),
        description: clone_opt_string(&payload.description),
        price: payload.price,
        stock_quantity: payload.stock_quantity,
        sku: clone_opt_string(&payload.sku),
        created_at: now,
        updated_at: now,
    };
    store.products.push(row);
    Ok(product_id.clone())
}

/// Applies a partial update to one product of the caller's tenant: only the
/// supplied fields change and the update timestamp is refreshed. A product
/// of another tenant is never touched, and committed sales and their lines
/// are never altered, whatever the price change.
pub fn update_product(
    store: &mut Store,
    claims: &Claims,
    id: &String,
    patch: &UpdateProductRequest,
    now: u64,
) -> (r: Result<(), ApiError>)
    requires
        old(store).wf(),
    ensures
        final(store).wf(),
        final(store).users@ == old(store).users@,
        final(store).tenants@ == old(store).tenants@,
        final(store).plans@ == old(store).plans@,
        final(store).customers@ == old(store).customers@,
        final(store).sales@ == old(store).sales@,
        final(store).sale_items@ == old(store).sale_items@,
        r is Err ==> *final(store) == *old(store),
        match decide(*claims, Action::DataAccess) {
            Decision::Deny(e) => r == Err::<(), ApiError>(ApiError::Authz(e)),
            Decision::Allow(_) => {
                if !has_product(old(store).products@, claims.tenant_view(), id@) {
                    r == Err::<(), ApiError>(ApiError::NotFound)
                } else {
                    let idx = product_idx(old(store).products@, claims.tenant_view(), id@);
                    let p0 = old(store).products@[idx];
                    if (patch.price is Some && patch.price.unwrap() < 0) || (patch.stock_quantity
                        is Some && patch.stock_quantity.unwrap() < 0) {
                        r == Err::<(), ApiError>(ApiError::Validation)
                    } else {
                        r is Ok && final(store).products@ == old(store).products@.update(
                            idx,
                            patched_product(p0, *patch, now),
                        )
                    }
                }
            },
        },
{
    let tenant_id = match authorize(claims, &Action::DataAccess) {
        Decision::Deny(e) => {
            return Err(ApiError::Authz(e));
        },
        Decision::Allow(Scope::TenantRows(t)) => t,
        Decision::Allow(_) => {
            proof {
                assert(false);
            }
            return Err(ApiError::Validation);
        },
    };
    let j = match crate::store::find_product(&store.products, &tenant_id, id) {
        Some(j) => j,
        None => {
            return Err(ApiError::NotFound);
        },
    };
    proof {
        lemma_product_idx_unique(store.products@, tenant_id@, id@, j as int);
    }
    if let Some(p) = &patch.price {
        if *p < 0 {
            return Err(ApiError::Validation);
        }
    }
    if let Some(s) = &patch.stock_quantity {
        if *s < 0 {
            return Err(ApiError::Validation);
        }
    }
    let p = &store.products[j];
    let new_row = Product {
        id: p.id.clone(),
        tenant_id: p.tenant_id.clone(),
        name: match &patch.name {
            Some(v) => v.clone(),
            None => p.name.clone(),
        },
        description: match &patch.description {
            Some(v) => Some(v.clone()),
            None => clone_opt_string(&p.description),
        },
        price: match patch.price {
            Some(v) => v,
            None => p.price,
        },
        stock_quantity: match patch.stock_quantity {
            Some(v) => v,
            None => p.stock_quantity,
        },
        sku: match &patch.sku {
            Some(v) => Some(v.clone()),
            None => clone_opt_string(&p.sku),
        },
        created_at: p.created_at,
        updated_at: now,
    };
    let ghost products0 = store.products@;
    store.products[j] = new_row;
    proof {
        assert forall|a: int, b: int|
            0 <= a < b < store.products@.len() implies (#[trigger] store.products@[a].id@) != (
        #[trigger] store.products@[b].id@) by {
            assert(products0[a].id@ != products0[b].id@);
        }
    }
    Ok(())
}

/// Lists the customers of the caller's tenant, and nothing of any other
/// tenant's.
pub fn list_customers(store: &Store, claims: &Claims) -> (r: Result<Vec<Customer>, ApiError>)
    ensures
        match decide(*claims, Action::DataAccess) {
            Decision::Deny(e) => r == Err::<Vec<Customer>, ApiError>(ApiError::Authz(e)),
            Decision::Allow(_) => r is Ok && r->Ok_0@ == tenant_customers(
                store.customers@,
                claims.tenant_view(),
            ),
        },
{
    let tenant_id = match authorize(claims, &Action::DataAccess) {
        Decision::Deny(e) => {
            return Err(ApiError::Authz(e));
        },
        Decision::Allow(Scope::TenantRows(t)) => t,
        Decision::Allow(_) => {
            proof {
                assert(false);
            }
            return Err(ApiError::Validation);
        },
    };
    let n = store.customers.len();
    let mut out: Vec<Customer> = Vec::new();
    let mut i: usize = 0;
    while i < n
        invariant
            n == store.customers@.len(),
            i <= n,
            tenant_id@ == claims.tenant_view(),
            out@ == tenant_customers(store.customers@.take(i as int), claims.tenant_view()),
        decreases n - i,
    {
        let c = &store.customers[i];
        let mine = crate::str_eq(c.tenant_id.as_str(), tenant_id.as_str());
        proof {
            reveal(Seq::filter);
            assert(store.customers@.take(i as int + 1).drop_last() =~= store.customers@.take(
                i as int,
            ));
            assert(store.customers@.take(i as int + 1).last() == store.customers@[i as int]);
        }
        if mine {
            out.push(c.duplicate());
        }
        i += 1;
    }
    proof {
        assert(store.customers@.take(n as int) =~= store.customers@);
    }
    Ok(out)
}

/// Creates a customer in the caller's tenant.
pub fn create_customer(
    store: &mut Store,
    claims: &Claims,
    payload: &CreateCustomerRequest,
    customer_id: &String,
    now: u64,
) -> (r: Result<String, ApiError>)
    requires
        old(store).wf(),
    ensures
        final(store).wf(),
        final(store).users@ == old(store).users@,
        final(store).tenants@ == old(store).tenants@,
        final(store).plans@ == old(store).plans@,
        final(store).products@ == old(store).products@,
        final(store).sales@ == old(store).sales@,
        final(store).sale_items@ == old(store).sale_items@,
        r is Err ==> *final(store) == *old(store),
        match decide(*claims, Action::DataAccess) {
            Decision::Deny(e) => r == Err::<String, ApiError>(ApiError::Authz(e)),
            Decision::Allow(_) => {
                &&& r is Ok
                &&& r->Ok_0 == *customer_id
                &&& final(store).customers@ == old(store).customers@.push(
                    Customer {
                        id: *customer_id,
                        tenant_id: claims.tenant_id.unwrap(),
                        name: payload.name,
                        email: payload.email,
                        phone: payload.phone,
                        notes: payload.notes,
                        created_at: now,
                    },
                )
            },
        },
{
    let tenant_id = match authorize(claims, &Action::DataAccess) {
        Decision::Deny(e) => {
            return Err(ApiError::Authz(e));
        },
        Decision::Allow(Scope::TenantRows(t)) => t,
        Decision::Allow(_) => {
            proof {
                assert(false);
            }
            return Err(ApiError::Validation);
        },
    };
    let row = Customer {
        id: customer_id.clone(),
        tenant_id,
        name: payload.name.clone(),
        email: clone_opt_string(&payload.email),
        phone: clone_opt_string(&payload.phone),
        notes: clone_opt_string(&payload.notes),
        created_at: now,
    };
    store.customers.push(row);
    Ok(customer_id.clone())
}

} // verus!
