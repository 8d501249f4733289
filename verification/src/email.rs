//! Email address validation.

use vstd::prelude::*;

verus! {

/// Whether the outside validation routine accepts a string as an email
/// address. The exact shape check (RFC 5321 length bounds, user and domain
/// grammars) belongs to the outside routine; contracts rely only on the
/// verdict being a function of the string alone.
pub uninterp spec fn email_ok(email: Seq<char>) -> bool;

/// Relies on validator's `ValidateEmail` impl for `str`: the verdict is a
/// deterministic function of the string alone.
#[verifier::external_body]
pub(crate) fn validate_email(email: &str) -> (r: bool)
    ensures
        r == email_ok(email@),
{
    validator::ValidateEmail::validate_email(&email)
}

} // verus!
