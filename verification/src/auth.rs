//! The claims and token service: issues and verifies signed, time-limited
//! identity assertions, and checks a verified caller against an expected
//! owner.
//!
//! Issuance and verification are pure with respect to process state: they
//! depend only on their arguments (the caller supplies the current instant),
//! so no session state is retained between calls.

use vstd::prelude::*;
use crate::errors::BackendError;
use crate::models::User;

verus! {

/// The token the signing primitive produces for the given claims and secret:
/// a deterministic function of exactly these four values.
pub uninterp spec fn token_of(
    username: Seq<char>,
    email: Seq<char>,
    exp: int,
    secret: Seq<u8>,
) -> Seq<char>;

/// The claims that signature checking recovers from a token under a secret:
/// the embedded username, email and expiry when the token is well-formed and
/// validly signed with that secret, and nothing otherwise. A deterministic
/// function of the token and secret alone.
pub uninterp spec fn claims_of(token: Seq<char>, secret: Seq<u8>) -> Option<
    (Seq<char>, Seq<char>, int),
>;

/// Relies on jsonwebtoken::encode with HS512 and a plain secret: the token
/// is a deterministic function of the claims and secret, and decoding it
/// with the same secret recovers exactly the claims that were encoded.
/// Signing cannot fail here: the key family always matches HS512, an HMAC
/// key accepts any length, signing is infallible and the string-keyed
/// claims map always serializes.
#[verifier::external_body]
fn jwt_encode(username: &str, email: &str, exp: i64, secret: &[u8]) -> (r: Result<String, String>)
    ensures
        r is Ok,
        r matches Ok(t) ==> t@ == token_of(username@, email@, exp as int, secret@) && claims_of(
            t@,
            secret@,
        ) == Some((username@, email@, exp as int)),
{
    let header = jsonwebtoken::Header::new(jsonwebtoken::Algorithm::HS512);
    let key = jsonwebtoken::EncodingKey::from_secret(secret);
    let mut claims = serde_json::Map::new();
    claims.insert("username".to_string(), serde_json::Value::String(username.to_string()));
    claims.insert("email".to_string(), serde_json::Value::String(email.to_string()));
    claims.insert("exp".to_string(), serde_json::Value::from(exp));
    match jsonwebtoken::encode(&header, &serde_json::Value::Object(claims), &key) {
        Ok(t) => Ok(t),
        Err(e) => Err(e.to_string()),
    }
}

/// Relies on jsonwebtoken::decode with HS512, expiry checking turned off
/// and no claim required to be present: with this fixed validation setup
/// the clock is never read, so the outcome is a deterministic function of
/// the token and secret, and is the claims exactly when the signature is
/// valid and the username, email and expiry claims are all present — for
/// any expiry value, negative ones too.
#[verifier::external_body]
fn jwt_decode(token: &str, secret: &[u8]) -> (r: Option<(String, String, i64)>)
    ensures
        r matches Some(c) ==> claims_of(token@, secret@) == Some((c.0@, c.1@, c.2 as int)),
        r is None ==> claims_of(token@, secret@) is None,
{
    let key = jsonwebtoken::DecodingKey::from_secret(secret);
    let mut validation = jsonwebtoken::Validation::new(jsonwebtoken::Algorithm::HS512);
    validation.validate_exp = false;
    validation.required_spec_claims = Default::default();
    let data = match jsonwebtoken::decode::<serde_json::Value>(token, &key, &validation) {
        Ok(d) => d.claims,
        Err(_) => return None,
    };
    let u = data.get("username").and_then(|v| v.as_str());
    let e = data.get("email").and_then(|v| v.as_str());
    let x = data.get("exp").and_then(|v| v.as_i64());
    match (u, e, x) {
        (Some(u), Some(e), Some(x)) => Some((u.to_string(), e.to_string(), x)),
        _ => None,
    }
}

/// A verified, time-limited assertion of caller identity.
#[derive(Debug, Clone)]
pub struct Claims {
    pub username: String,
    pub email: String,
    pub exp: i64,
}

/// The number of seconds an issued token stays valid: 60 minutes.
pub const TOKEN_VALIDITY_SECONDS: i64 = 3600;

/// The claims and token operations.
pub struct Auth {}

impl Auth {
    /// What verification of `token` under `secret` at instant `now` yields:
    /// the embedded claims when the token is validly signed and not yet
    /// expired, nothing otherwise.
    pub open spec fn spec_verify(token: Seq<char>, secret: Seq<u8>, now: int) -> Option<
        (Seq<char>, Seq<char>, int),
    > {
        match claims_of(token, secret) {
            Some(c) => if c.2 > now {
                Some(c)
            } else {
                None
            },
            None => None,
        }
    }

    /// Issues a signed token embedding the user's username and email, with
    /// an expiry of 60 minutes past `now`.
    ///
    /// Round trip: as long as the expiry instant has not been reached, the
    /// issued token verifies under the same secret to exactly the claims it
    /// was issued with; at or past the expiry instant it verifies to
    /// nothing. Issuance succeeds exactly when the expiry computation does
    /// not overflow: that is its only failure mode.
    pub fn create_token(user: &User, secret: &[u8], now: i64) -> (r: Result<String, BackendError>)
        ensures
            (r is Ok) == (now + TOKEN_VALIDITY_SECONDS <= i64::MAX),
            r matches Ok(t) ==> {
                &&& now + TOKEN_VALIDITY_SECONDS <= i64::MAX
                &&& t@ == token_of(
                    user.username@,
                    user.email@,
                    now + TOKEN_VALIDITY_SECONDS,
                    secret@,
                )
                &&& claims_of(t@, secret@) == Some(
                    (user.username@, user.email@, now + TOKEN_VALIDITY_SECONDS as int),
                )
                &&& forall|m: int|
                    m < now + TOKEN_VALIDITY_SECONDS ==> Self::spec_verify(t@, secret@, m) == Some(
                        (user.username@, user.email@, now + TOKEN_VALIDITY_SECONDS as int),
                    )
                &&& forall|m: int|
                    m >= now + TOKEN_VALIDITY_SECONDS ==> Self::spec_verify(t@, secret@, m) is None
            },
            r matches Err(e) ==> e is TokenCreationFailure,
    {
        match now.checked_add(TOKEN_VALIDITY_SECONDS) {
            Some(exp) => {
                match jwt_encode(user.username.as_str(), user.email.as_str(), exp, secret) {
                    Ok(t) => Ok(t),
                    Err(msg) => Err(BackendError::TokenCreationFailure(msg)),
                }
            },
            None => Err(
                BackendError::TokenCreationFailure("time calculation error".to_owned()),
            ),
        }
    }

    /// Verifies a token: checks the signature against the secret and the
    /// embedded expiry against `now`. Succeeds with the embedded claims
    /// exactly when the token is validly signed and not yet expired; any
    /// forged, malformed or expired token is an authentication failure.
    pub fn authenticate(token: &str, secret: &[u8], now: i64) -> (r: Result<Claims, BackendError>)
        ensures
            (r is Ok) == (Self::spec_verify(token@, secret@, now as int) is Some),
            r matches Ok(c) ==> Self::spec_verify(token@, secret@, now as int) == Some(
                (c.username@, c.email@, c.exp as int),
            ),
            r matches Err(e) ==> e is AuthenticationFailure,
    {
        match jwt_decode(token, secret) {
            Some((username, email, exp)) => {
                if exp > now {
                    Ok(Claims { username, email, exp })
                } else {
                    Err(BackendError::AuthenticationFailure)
                }
            },
            None => Err(BackendError::AuthenticationFailure),
        }
    }

    /// Verifies a token and then requires the verified caller to be
    /// `expected_user`: the secondary diagnostic of the mutation protocol,
    /// distinguishing a forged or expired token from a valid caller who is
    /// not the owner.
    pub fn authorize(token: &str, secret: &[u8], expected_user: &str, now: i64) -> (r: Result<
        (),
        BackendError,
    >)
        ensures
            (r is Ok) == (Self::spec_verify(token@, secret@, now as int) matches Some(c) && c.0
                == expected_user@),
            Self::spec_verify(token@, secret@, now as int) is None ==> (r matches Err(e)
                && e is AuthenticationFailure),
            (Self::spec_verify(token@, secret@, now as int) matches Some(c) && c.0
                != expected_user@) ==> (r matches Err(e) && e is Forbidden),
    {
        match Self::authenticate(token, secret, now) {
            Ok(claims) => {
                if crate::text::str_eq(claims.username.as_str(), expected_user) {
                    Ok(())
                } else {
                    Err(BackendError::Forbidden)
                }
            },
            Err(e) => Err(e),
        }
    }
}

/// Law: a token never verifies at or past its embedded expiry instant,
/// whatever its claims and secret.
pub proof fn lemma_expired_token_never_verifies(token: Seq<char>, secret: Seq<u8>, now: int)
    requires
        claims_of(token, secret) matches Some(c) && now >= c.2,
    ensures
        Auth::spec_verify(token, secret, now) is None,
{
}

/// Law: a token that signature checking rejects (forged, tampered with, or
/// malformed) verifies to nothing at any instant.
pub proof fn lemma_unsigned_token_never_verifies(token: Seq<char>, secret: Seq<u8>, now: int)
    requires
        claims_of(token, secret) is None,
    ensures
        Auth::spec_verify(token, secret, now) is None,
{
}

} // verus!
