//! Password hashing with Argon2 (default parameters, random salt) and its
//! verification.
use crate::error::ErrorMessage;
use argon2::password_hash::rand_core::OsRng;
use argon2::password_hash::SaltString;
use argon2::{Argon2, PasswordHash, PasswordHasher, PasswordVerifier};
use vstd::prelude::*;

verus! {

/// Whether `password` matches the encoded hash `hash` (`Some(true)` or
/// `Some(false)`), or `None` when `hash` is no well-formed password hash.
pub uninterp spec fn password_matches(password: Seq<char>, hash: Seq<char>) -> Option<bool>;

/// `Argon2::default().hash_password` with a salt from `SaltString::generate`
/// on the operating system's random source, encoded with `to_string`. The
/// salt is random, so the hash is not a function of the password; claimed
/// of every outcome: a produced hash verifies the password it was made from
/// (the round trip the crate's documentation shows).
#[verifier::external_body]
fn argon2_hash(password: &String) -> (r: Option<String>)
    ensures
        r matches Some(h) ==> password_matches(password@, h@) == Some(true),
{
    let salt = SaltString::generate(&mut OsRng);
    match Argon2::default().hash_password(password.as_bytes(), &salt) {
        Ok(h) => Some(h.to_string()),
        Err(_) => None,
    }
}

/// `PasswordHash::new` on the hash, then `Argon2::default().verify_password`:
/// `None` when the hash does not parse, otherwise whether the password
/// matches; named [`password_matches`], a function of the two texts.
#[verifier::external_body]
fn argon2_verify(password: &String, hash: &String) -> (r: Option<bool>)
    ensures
        r == password_matches(password@, hash@),
{
    match PasswordHash::new(hash.as_str()) {
        Ok(parsed) => Some(Argon2::default().verify_password(password.as_bytes(), &parsed).is_ok()),
        Err(_) => None,
    }
}

/// Hashes a password. Failures are reported as a hashing error; a hash
/// produced verifies the password.
pub fn generate(password: String) -> (r: Result<String, ErrorMessage>)
    ensures
        r matches Err(e) ==> e == ErrorMessage::HashingError,
        r matches Ok(h) ==> password_matches(password@, h@) == Some(true),
{
    match argon2_hash(&password) {
        Some(h) => Ok(h),
        None => Err(ErrorMessage::HashingError),
    }
}

/// What [`compare`] answers for a password and a stored hash: whether they
/// match, or a hashing error when the hash is no well-formed password hash.
pub open spec fn compare_outcome(password: Seq<char>, hash: Seq<char>) -> Result<bool, ErrorMessage> {
    match password_matches(password, hash) {
        Some(b) => Ok(b),
        None => Err(ErrorMessage::HashingError),
    }
}

/// Checks a password against a stored hash; a hash that does not parse is a
/// hashing error.
pub fn compare(password: &String, hashed_password: &String) -> (r: Result<bool, ErrorMessage>)
    ensures
        r == compare_outcome(password@, hashed_password@),
{
    match argon2_verify(password, hashed_password) {
        Some(b) => Ok(b),
        None => Err(ErrorMessage::HashingError),
    }
}

/// A hash that [`generate`] made from a password accepts that password:
/// [`compare`] answers `Ok(true)` for the two.
pub proof fn law_generated_hash_accepts_its_password(password: Seq<char>, hash: Seq<char>)
    requires
        password_matches(password, hash) == Some(true),
    ensures
        compare_outcome(password, hash) == Ok::<bool, ErrorMessage>(true),
{
}

} // verus!
