use vstd::prelude::*;

verus! {

/// Whether bcrypt's `verify` accepts `password` against `digest`, that is,
/// returns `Ok(true)`.  The outcome is a function of the two arguments alone:
/// the digest carries its own cost and salt, and verification recomputes the
/// hash from them deterministically.
pub uninterp spec fn bcrypt_matches(password: Seq<char>, digest: Seq<char>) -> bool;

/// Relies on bcrypt::hash: for a cost inside bcrypt's accepted range it
/// returns, salt aside, a 60-character digest that bcrypt::verify accepts
/// against the same password; it fails only when the system's randomness
/// source does.  The digest is salted, so nothing more is claimed of its text.
#[verifier::external_body]
pub(crate) fn hash_password(password: &str, cost: u32) -> (r: Option<String>)
    requires
        4 <= cost <= 31,
    ensures
        r matches Option::Some(digest) ==> digest@.len() == 60 && bcrypt_matches(
            password@,
            digest@,
        ),
{
    bcrypt::hash(password, cost).ok()
}

/// Relies on bcrypt::verify: deterministic in password and digest; a
/// malformed digest is reported as an error, surfaced here as `false`.
#[verifier::external_body]
pub(crate) fn verify_password(password: &str, digest: &str) -> (r: bool)
    ensures
        r == bcrypt_matches(password@, digest@),
{
    bcrypt::verify(password, digest).unwrap_or(false)
}

} // verus!
