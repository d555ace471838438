//! Multi-tenant point-of-sale core: authorization and tenancy rules together
//! with the atomic sale-transaction protocol, stated and proved over an
//! explicit store model.

pub mod accounts;
pub mod authz;
pub mod catalog;
pub mod credentials;
pub mod domain;
pub mod errors;
pub mod lifecycle;
pub mod metrics;
pub mod sale;
pub mod sort;
pub mod store;

use vstd::prelude::*;

verus! {

/// Compares two string slices by their character sequences.
pub fn str_eq(a: &str, b: &str) -> (r: bool)
    ensures
        r == (a@ == b@),
{
    let sa: String = a.to_owned();
    let sb: String = b.to_owned();
    sa == sb
}

} // verus!
