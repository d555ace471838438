//! Typed failures of the policy, lifecycle and sale operations.

use vstd::prelude::*;

verus! {

/// Failures of bearer-token verification. All three are rejected alike by
/// callers; the distinction is observable for logging.
#[derive(Debug, Clone, Copy, PartialEq, Eq, Structural)]
pub enum AuthError {
    InvalidSignature,
    Expired,
    Malformed,
}

/// Denials issued by the authorization policy.
#[derive(Debug, Clone, Copy, PartialEq, Eq, Structural)]
pub enum AuthzError {
    Forbidden,
    NotOwner,
    NoTenant,
    CannotDeleteSelf,
}

/// Conflicts with rows already in the store.
#[derive(Debug, Clone, Copy, PartialEq, Eq, Structural)]
pub enum ConflictError {
    DuplicateEmail,
    HasDependents,
}

/// Failures of the sale transaction; each names the offending product id.
#[derive(Debug, Clone)]
pub enum SaleError {
    ProductNotFound(String),
    InsufficientStock(String),
}

/// The taxonomy of failures an operation can surface.
#[derive(Debug, Clone)]
pub enum ApiError {
    Auth(AuthError),
    Authz(AuthzError),
    Conflict(ConflictError),
    Sale(SaleError),
    Validation,
    NotFound,
    InvalidCredentials,
    Hashing,
}

} // verus!
