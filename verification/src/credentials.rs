//! Credential hashing and verification: a memory-hard, salted, one-way hash
//! with an independently generated random salt for every hash operation.
//!
//! The hash string is opaque to everything outside this module: it embeds the
//! algorithm identifier, cost parameters, salt and digest, and verification
//! always uses the salt parsed back out of the stored string.

use vstd::prelude::*;

use crate::errors::EncryptionError;
use argon2::{Argon2, PasswordHasher, PasswordVerifier};

verus! {

/// Whether the plaintext `p` matches the stored hash string `h`, that is,
/// whether Argon2, run with the parameters and salt embedded in `h`, maps `p`
/// to the digest embedded in `h`. A malformed hash string matches nothing.
pub uninterp spec fn argon2_matches(p: Seq<char>, h: Seq<char>) -> bool;

/// Relies on argon2's `PasswordVerifier::verify_password`: it parses the
/// parameters and salt out of the stored hash string, recomputes the digest of
/// the plaintext and compares; the outcome depends on the two strings alone.
/// A hash string that does not parse is rejected like a mismatch.
#[verifier::external_body]
pub(crate) fn argon2_verify(p: &str, h: &str) -> (r: bool)
    ensures
        r == argon2_matches(p@, h@),
{
    Argon2::default().verify_password(p.as_bytes(), h).is_ok()
}

/// Relies on argon2's `PasswordHasher::hash_password`: it draws a fresh random
/// salt, hashes the plaintext and returns the PHC hash string, which then
/// verifies against the same plaintext whatever salt was drawn.
#[verifier::external_body]
fn argon2_hash(p: &str) -> (r: Result<String, EncryptionError>)
    ensures
        r matches Ok(h) ==> argon2_matches(p@, h@),
        r matches Err(e) ==> e == EncryptionError::HashError,
{
    match Argon2::default().hash_password(p.as_bytes()) {
        Ok(h) => Ok(h.to_string()),
        Err(_) => Err(EncryptionError::HashError),
    }
}

/// What `validate` returns: success exactly when the plaintext matches the
/// stored hash. A wrong plaintext and a malformed hash string are deliberately
/// not distinguished, so that a caller cannot learn whether a hash is
/// well-formed.
pub open spec fn spec_validate(p: Seq<char>, h: Seq<char>) -> Result<(), EncryptionError> {
    if argon2_matches(p, h) {
        Ok(())
    } else {
        Err(EncryptionError::VerifyError)
    }
}

/// One-way hashing and verification of user passwords.
pub trait Encryption {
    /// Hash a plaintext with a fresh random salt. Any string, the empty one
    /// included, is hashable; failure means an internal algorithm error.
    fn hash(&self, str: &str) -> (r: Result<String, EncryptionError>)
        ensures
            r matches Ok(h) ==> argon2_matches(str@, h@),
            r matches Err(e) ==> e == EncryptionError::HashError,
    ;

    /// Verify a plaintext against a stored hash string.
    fn validate(&self, str: &str, hash: &str) -> (r: Result<(), EncryptionError>)
        ensures
            r == spec_validate(str@, hash@),
    ;
}

/// The production credential hasher. It keeps no state: every `hash` call
/// draws its own salt.
pub struct EncryptionService {
}

impl EncryptionService {
    pub fn new() -> (s: Self) {
        EncryptionService {  }
    }
}

impl Encryption for EncryptionService {
    fn hash(&self, str: &str) -> (r: Result<String, EncryptionError>) {
        argon2_hash(str)
    }

    fn validate(&self, str: &str, hash: &str) -> (r: Result<(), EncryptionError>) {
        if argon2_verify(str, hash) {
            Ok(())
        } else {
            Err(EncryptionError::VerifyError)
        }
    }
}

/// Law: a hash produced for a plaintext validates against that plaintext.
/// Every hash string `h` that `hash(p)` can return satisfies
/// `argon2_matches(p, h)`, so `validate(p, h)` succeeds.
pub proof fn lemma_fresh_hash_validates(p: Seq<char>, h: Seq<char>)
    requires
        argon2_matches(p, h),
    ensures
        spec_validate(p, h) == Ok::<(), EncryptionError>(()),
{
}

/// Law: a plaintext that does not match a stored hash is rejected with
/// `VerifyError`, never with any other error.
pub proof fn lemma_mismatch_rejected(p: Seq<char>, h: Seq<char>)
    requires
        !argon2_matches(p, h),
    ensures
        spec_validate(p, h) == Err::<(), EncryptionError>(EncryptionError::VerifyError),
{
}

} // verus!
