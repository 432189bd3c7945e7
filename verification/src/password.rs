//! Hashing and verifying passwords with Argon2. The three functions are
//! trusted: their contracts name what the `argon2` crate returns and are
//! not proved.

use argon2::Argon2;
use argon2::password_hash::rand_core::OsRng;
use argon2::password_hash::{PasswordHash, PasswordHasher, PasswordVerifier, SaltString};
use vstd::prelude::*;

verus! {

/// The hash that Argon2 with its default parameters gives for a password and
/// a salt in its text form, as a string in the PHC format; `None` where it
/// refuses the salt or the password.
pub uninterp spec fn argon2_hash(password: Seq<char>, salt: Seq<char>) -> Option<Seq<char>>;

/// Whether a string is a hash in the PHC format that Argon2 finds to be the
/// hash of this password.
pub uninterp spec fn argon2_verifies(password_hash: Seq<char>, password: Seq<char>) -> bool;

/// A fresh random salt, in its text form, from `SaltString::generate` with
/// the operating system's random numbers. Nothing is promised of it: each
/// call gives another salt. It does not return where the operating system
/// has no random numbers to give.
#[verifier::external_body]
pub fn generate_salt() -> (salt: String) {
    SaltString::generate(&mut OsRng).as_str().to_owned()
}

/// The hash of a password under a salt, by `Argon2::default().hash_password`
/// on the salt that `SaltString::from_b64` reads, written out as a string.
/// `None` where either refuses: a salt that is no such text or decodes to
/// fewer than eight bytes, a password beyond the length that Argon2 takes.
/// The contract names the result and says nothing of what it holds.
#[verifier::external_body]
pub fn hash(password: &str, salt: &str) -> (r: Option<String>)
    ensures
        r is Some == argon2_hash(password@, salt@) is Some,
        r matches Some(h) ==> argon2_hash(password@, salt@) == Some(h@),
{
    match SaltString::from_b64(salt) {
        Ok(salt) => match Argon2::default().hash_password(password.as_bytes(), &salt) {
            Ok(hashed) => Some(hashed.to_string()),
            Err(_) => None,
        },
        Err(_) => None,
    }
}

/// Whether a stored hash is the hash of this password, by
/// `Argon2::default().verify_password` on the hash that `PasswordHash::new`
/// reads. A stored string that is no hash verifies no password. The contract
/// names the result and says nothing of when it is true. The work and the
/// memory that the call takes are those that the stored hash asks for.
#[verifier::external_body]
pub fn verify(password_hash: &str, password: &str) -> (r: bool)
    ensures
        r == argon2_verifies(password_hash@, password@),
{
    match PasswordHash::new(password_hash) {
        Ok(parsed) => Argon2::default().verify_password(password.as_bytes(), &parsed).is_ok(),
        Err(_) => false,
    }
}

} // verus!
