//! Password hashing, trusted at the boundary to the `argon2` crate.
//!
//! The store never sees inside a hash: a stored credential is a PHC string,
//! and the one fact the contracts rely on is `verifies`, the (deterministic)
//! outcome of checking a password against such a string.

use vstd::prelude::*;

use argon2::password_hash::{PasswordHash, PasswordHasher, PasswordVerifier, SaltString};
use argon2::password_hash::rand_core::OsRng;
use argon2::Argon2;

verus! {

/// Whether a password verifies against a PHC-encoded hash string. This names
/// the outcome of `argon2::Argon2::verify_password`, which recomputes the
/// hash from the password and the salt and parameters carried inside the
/// string and compares; it depends on these two arguments alone.
pub uninterp spec fn verifies(password: Seq<char>, phc: Seq<char>) -> bool;

/// Relies on `argon2::Argon2::hash_password` (Argon2id with the crate's
/// default parameters) over a fresh random salt from `OsRng`, and on the
/// documented round trip of the `password_hash` API: a PHC string produced
/// from a password verifies against that same password. The salt is random,
/// so nothing else is assumed of the result.
#[verifier::external_body]
pub(crate) fn hash_password(password: &str) -> (r: Option<String>)
    ensures
        r matches Some(h) ==> verifies(password@, h@),
{
    let salt = SaltString::generate(&mut OsRng);
    match Argon2::default().hash_password(password.as_bytes(), &salt) {
        Ok(h) => Some(h.to_string()),
        Err(_) => None,
    }
}

/// Relies on `argon2::Argon2::verify_password`: deterministic in the
/// password and the PHC string, since every parameter it uses is parsed out
/// of the string itself. A string that does not parse as a PHC hash
/// verifies nothing.
#[verifier::external_body]
pub(crate) fn verify_password(password: &str, phc: &str) -> (r: bool)
    ensures
        r == verifies(password@, phc@),
{
    match PasswordHash::new(phc) {
        Ok(parsed) => Argon2::default().verify_password(password.as_bytes(), &parsed).is_ok(),
        Err(_) => false,
    }
}

} // verus!
