//! Entities of the store and the request/response payloads, with the spec
//! functions that the contracts use to speak about roles and ownership.
//!
//! Monetary fields are integer minor units (cents). Timestamps are unix
//! seconds held as `u64`.

use vstd::prelude::*;

verus! {

/// Identity asserted by a verified bearer token.
#[derive(Debug, Clone)]
pub struct Claims {
    pub sub: String,
    pub tenant_id: Option<String>,
    pub role: String,
    pub exp: usize,
}

/// A platform account: a platform actor, a reseller, or a shopkeeper.
#[derive(Debug, Clone)]
pub struct User {
    pub id: String,
    pub email: String,
    pub password_hash: String,
    pub role: String,
    pub tenant_id: Option<String>,
    pub created_at: u64,
}

/// An isolated retail workspace owning its products, customers and sales.
#[derive(Debug, Clone)]
pub struct Tenant {
    pub id: String,
    pub name: String,
    pub plan_id: Option<String>,
    pub status: String,
    pub business_type: Option<String>,
    pub reseller_id: Option<String>,
    pub created_at: String,
    pub custom_fields: Option<String>,
    pub updated_at: Option<String>,
}

/// A static catalog entry.
#[derive(Debug, Clone)]
pub struct Plan {
    pub id: String,
    pub name: String,
    pub price: i32,
    pub max_users: i32,
    pub features: Option<String>,
    pub created_at: u64,
}

/// A product scoped to one tenant; its stock never goes negative.
#[derive(Debug, Clone)]
pub struct Product {
    pub id: String,
    pub tenant_id: String,
    pub name: String,
    pub description: Option<String>,
    pub price: i32,
    pub stock_quantity: i32,
    pub sku: Option<String>,
    pub created_at: u64,
    pub updated_at: u64,
}

/// A customer scoped to one tenant.
#[derive(Debug, Clone)]
pub struct Customer {
    pub id: String,
    pub tenant_id: String,
    pub name: String,
    pub email: Option<String>,
    pub phone: Option<String>,
    pub notes: Option<String>,
    pub created_at: u64,
}

/// A committed sale; its total equals the sum of its line subtotals.
#[derive(Debug, Clone)]
pub struct Sale {
    pub id: String,
    pub tenant_id: String,
    pub user_id: String,
    pub customer_id: Option<String>,
    pub total_amount: i64,
    pub payment_method: String,
    pub status: String,
    pub created_at: u64,
}

/// A line of a sale; `unit_price` is the price at sale time, immutable once
/// written.
#[derive(Debug, Clone)]
pub struct SaleItem {
    pub id: String,
    pub sale_id: String,
    pub product_id: String,
    pub quantity: i32,
    pub unit_price: i32,
    pub subtotal: i64,
}

#[derive(Debug, Clone)]
pub struct CreateUserRequest {
    pub email: String,
    pub password: String,
    pub role: Option<String>,
}

#[derive(Debug, Clone)]
pub struct LoginRequest {
    pub email: String,
    pub password: String,
}

#[derive(Debug, Clone)]
pub struct AuthResponse {
    pub token: String,
    pub role: String,
    pub business_type: Option<String>,
    pub name: Option<String>,
    pub email: String,
}

#[derive(Debug, Clone)]
pub struct CreateProductRequest {
    pub name: String,
    pub description: Option<String>,
    pub price: i32,
    pub stock_quantity: i32,
    pub sku: Option<String>,
}

#[derive(Debug, Clone)]
pub struct UpdateProductRequest {
    pub name: Option<String>,
    pub description: Option<String>,
    pub price: Option<i32>,
    pub stock_quantity: Option<i32>,
    pub sku: Option<String>,
}

#[derive(Debug, Clone)]
pub struct CreateSaleRequest {
    pub items: Vec<CreateSaleItemRequest>,
    pub payment_method: String,
    pub customer_id: Option<String>,
}

#[derive(Debug, Clone)]
pub struct CreateSaleItemRequest {
    pub product_id: String,
    pub quantity: i32,
}

#[derive(Debug, Clone)]
pub struct CreatePlanRequest {
    pub name: String,
    pub price: i32,
    pub max_users: i32,
    pub features: Option<String>,
}

#[derive(Debug, Clone)]
pub struct CreateTenantRequest {
    pub name: String,
    pub plan_id: Option<String>,
    pub business_type: Option<String>,
    pub owner_email: Option<String>,
    pub owner_password: Option<String>,
}

#[derive(Debug, Clone)]
pub struct UpdateTenantRequest {
    pub name: Option<String>,
    pub plan_id: Option<String>,
    pub status: Option<String>,
    pub business_type: Option<String>,
    pub custom_fields: Option<String>,
}

#[derive(Debug, Clone)]
pub struct UpdateUserRequest {
    pub email: Option<String>,
    pub password: Option<String>,
    pub role: Option<String>,
}

#[derive(Debug, Clone)]
pub struct CreateCustomerRequest {
    pub name: String,
    pub email: Option<String>,
    pub phone: Option<String>,
    pub notes: Option<String>,
}

/// One day of the sales trend: the printed date, the day's revenue and its
/// number of sales.
#[derive(Debug, Clone)]
pub struct SalesTrendPoint {
    pub date: String,
    pub revenue: i64,
    pub sales_count: i64,
}

/// One best-selling product: its sold quantity and revenue across the
/// tenant's sales.
#[derive(Debug, Clone)]
pub struct TopProduct {
    pub product_id: String,
    pub product_name: String,
    pub quantity_sold: i64,
    pub revenue: i64,
}

/// One low-stock alert: a product at or under the alert threshold.
#[derive(Debug, Clone)]
pub struct InventoryAlert {
    pub product_id: String,
    pub product_name: String,
    pub current_stock: i64,
    pub min_stock: i64,
}

/// What a successful login asserts about the account; the signed token is
/// issued from these fields.
#[derive(Debug, Clone)]
pub struct LoginOutcome {
    pub user_id: String,
    pub role: String,
    pub tenant_id: Option<String>,
    pub business_type: Option<String>,
    pub email: String,
}

/// A copy of an optional string, equal to it.
pub fn clone_opt_string(s: &Option<String>) -> (r: Option<String>)
    ensures
        r == *s,
{
    match s {
        Some(v) => Some(v.clone()),
        None => None,
    }
}

impl Tenant {
    /// A copy equal to this row.
    pub fn duplicate(&self) -> (r: Tenant)
        ensures
            r == *self,
    {
        Tenant {
            id: self.id.clone(),
            name: self.name.clone(),
            plan_id: clone_opt_string(&self.plan_id),
            status: self.status.clone(),
            business_type: clone_opt_string(&self.business_type),
            reseller_id: clone_opt_string(&self.reseller_id),
            created_at: self.created_at.clone(),
            custom_fields: clone_opt_string(&self.custom_fields),
            updated_at: clone_opt_string(&self.updated_at),
        }
    }
}

impl User {
    /// A copy equal to this row.
    pub fn duplicate(&self) -> (r: User)
        ensures
            r == *self,
    {
        User {
            id: self.id.clone(),
            email: self.email.clone(),
            password_hash: self.password_hash.clone(),
            role: self.role.clone(),
            tenant_id: clone_opt_string(&self.tenant_id),
            created_at: self.created_at,
        }
    }
}

impl Product {
    /// A copy equal to this row.
    pub fn duplicate(&self) -> (r: Product)
        ensures
            r == *self,
    {
        Product {
            id: self.id.clone(),
            tenant_id: self.tenant_id.clone(),
            name: self.name.clone(),
            description: clone_opt_string(&self.description),
            price: self.price,
            stock_quantity: self.stock_quantity,
            sku: clone_opt_string(&self.sku),
            created_at: self.created_at,
            updated_at: self.updated_at,
        }
    }
}

impl Customer {
    /// A copy equal to this row.
    pub fn duplicate(&self) -> (r: Customer)
        ensures
            r == *self,
    {
        Customer {
            id: self.id.clone(),
            tenant_id: self.tenant_id.clone(),
            name: self.name.clone(),
            email: clone_opt_string(&self.email),
            phone: clone_opt_string(&self.phone),
            notes: clone_opt_string(&self.notes),
            created_at: self.created_at,
        }
    }
}

impl Sale {
    /// A copy equal to this row.
    pub fn duplicate(&self) -> (r: Sale)
        ensures
            r == *self,
    {
        Sale {
            id: self.id.clone(),
            tenant_id: self.tenant_id.clone(),
            user_id: self.user_id.clone(),
            customer_id: clone_opt_string(&self.customer_id),
            total_amount: self.total_amount,
            payment_method: self.payment_method.clone(),
            status: self.status.clone(),
            created_at: self.created_at,
        }
    }
}

impl Plan {
    /// A copy equal to this row.
    pub fn duplicate(&self) -> (r: Plan)
        ensures
            r == *self,
    {
        Plan {
            id: self.id.clone(),
            name: self.name.clone(),
            price: self.price,
            max_users: self.max_users,
            features: clone_opt_string(&self.features),
            created_at: self.created_at,
        }
    }
}

/// The role string of a platform administrator.
pub open spec fn admin_role() -> Seq<char> {
    "admin"@
}

/// The role string of a reseller.
pub open spec fn reseller_role() -> Seq<char> {
    "reseller"@
}

/// The role string of a shopkeeper.
pub open spec fn user_role() -> Seq<char> {
    "user"@
}

impl Claims {
    pub open spec fn is_admin(self) -> bool {
        self.role@ == admin_role()
    }

    pub open spec fn is_reseller(self) -> bool {
        self.role@ == reseller_role()
    }

    /// The tenant the caller is scoped to, when one is present.
    pub open spec fn tenant_view(self) -> Seq<char>
        recommends
            self.tenant_id is Some,
    {
        self.tenant_id.unwrap()@
    }
}

} // verus!
