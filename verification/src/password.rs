//! The password-hashing primitive: `hash` producing a salted digest and
//! `verify` checking a plaintext against a digest.

use vstd::prelude::*;
use scrypt::password_hash::PasswordHasher;
use scrypt::password_hash::PasswordVerifier;

verus! {

/// What verification of `password` against `digest` yields: `Some(b)` when
/// the digest parses, with `b` the verification outcome; `None` when it does
/// not parse. Both the parse and the verification are functions of the two
/// strings alone (the salt and parameters are part of the digest).
pub uninterp spec fn scrypt_check(password: Seq<char>, digest: Seq<char>) -> Option<bool>;

/// Relies on scrypt's `Scrypt.hash_password_customized` with a freshly
/// generated salt and moderate cost parameters (recorded in the digest):
/// whatever salt was drawn, hashing succeeds — the parameters are valid,
/// the generated salt is well-formed and the output length is accepted —
/// and the digest it returns verifies against the password it was computed
/// from.
#[verifier::external_body]
pub(crate) fn hash_password(password: &str) -> (r: Result<String, ()>)
    ensures
        r is Ok,
        r matches Ok(d) ==> scrypt_check(password@, d@) == Some(true),
{
    let salt = scrypt::password_hash::SaltString::generate(
        &mut scrypt::password_hash::rand_core::OsRng,
    );
    let params = match scrypt::Params::new(12, 8, 1, 32) {
        Ok(p) => p,
        Err(_) => return Err(()),
    };
    match scrypt::Scrypt.hash_password_customized(password.as_bytes(), None, None, params, &salt) {
        Ok(h) => Ok(h.to_string()),
        Err(_) => Err(()),
    }
}

/// Relies on scrypt's `PasswordHash` parsing and `Scrypt.verify_password`:
/// both are deterministic in the password and digest strings.
#[verifier::external_body]
pub(crate) fn verify_password(password: &str, digest: &str) -> (r: Result<bool, ()>)
    ensures
        r matches Ok(b) ==> scrypt_check(password@, digest@) == Some(b),
        r matches Err(e) ==> scrypt_check(password@, digest@) is None,
{
    match scrypt::password_hash::PasswordHash::new(digest) {
        Ok(h) => match scrypt::Scrypt.verify_password(password.as_bytes(), &h) {
            Ok(()) => Ok(true),
            Err(scrypt::password_hash::Error::Password) => Ok(false),
            Err(_) => Err(()),
        },
        Err(_) => Err(()),
    }
}

} // verus!
