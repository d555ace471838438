//! The credential primitives: password hashing and verification, delegated
//! to argon2 behind trusted wrappers, and the calendar-date formatter the
//! metrics use, delegated to chrono.

use argon2::{PasswordHash, PasswordHasher, PasswordVerifier};
use vstd::prelude::*;

use crate::errors::ApiError;

verus! {

/// Whether argon2's verification accepts `password` against the PHC hash
/// string `hash`; a function of the two strings alone. A malformed hash
/// string verifies as false.
pub uninterp spec fn password_matches(hash: Seq<char>, password: Seq<char>) -> bool;

/// Relies on argon2's `PasswordHasher::hash_password` with the default
/// parameters: it draws a fresh random salt and returns a PHC string that
/// verifies against the same password, whatever salt was drawn.
#[verifier::external_body]
pub fn hash_password(password: &str) -> (r: Result<String, ApiError>)
    ensures
        r is Ok ==> password_matches(r->Ok_0@, password@),
        r is Err ==> r->Err_0 == ApiError::Hashing,
{
    match argon2::Argon2::default().hash_password(password.as_bytes()) {
        Ok(h) => Ok(h.to_string()),
        Err(_) => Err(ApiError::Hashing),
    }
}

/// Relies on argon2's `PasswordVerifier::verify_password`: the outcome is a
/// function of the hash string and the password alone, and a hash that does
/// not parse as a PHC string verifies as false rather than failing.
#[verifier::external_body]
pub fn verify_password(hash: &str, password: &str) -> (r: bool)
    ensures
        r == password_matches(hash@, password@),
{
    let parsed = match PasswordHash::new(hash) {
        Ok(h) => h,
        Err(_) => return false,
    };
    argon2::Argon2::default().verify_password(password.as_bytes(), &parsed).is_ok()
}

/// The printed calendar date of a day number (days since the unix epoch);
/// a function of the day alone.
pub uninterp spec fn date_string_of(day: int) -> Seq<char>;

/// Relies on chrono's `DateTime::from_timestamp` and `format`: the printed
/// `YYYY-MM-DD` date is a function of the day number alone; a day beyond
/// chrono's calendar range prints as the empty string. The caller supplies
/// the day's timestamp `day_secs`, so the body only converts and calls.
#[verifier::external_body]
pub fn format_day(day: u64, day_secs: u64) -> (r: String)
    requires
        day_secs == day * 86400,
    ensures
        r@ == date_string_of(day as int),
{
    match i64::try_from(day_secs).ok().and_then(|s| chrono::DateTime::from_timestamp(s, 0)) {
        Some(dt) => dt.format("%Y-%m-%d").to_string(),
        None => String::new(),
    }
}

} // verus!
