use vstd::prelude::*;

verus! {

/// Relies on uuid::Uuid::new_v4 and its Display form: a random version-4
/// identifier printed as 36 hyphenated characters.  The value is random, so
/// only its length is claimed; what the session rules need is that it is
/// never the empty revocation sentinel.
#[verifier::external_body]
pub(crate) fn generate_login_session() -> (r: String)
    ensures
        r@.len() == 36,
{
    uuid::Uuid::new_v4().to_string()
}

/// Relies on chrono::Utc::now: the wall clock, as seconds since the Unix
/// epoch.  Nothing can be promised of a clock reading.
#[verifier::external_body]
pub(crate) fn now_unix_seconds() -> i64 {
    chrono::Utc::now().timestamp()
}

/// The wall clock clamped to the non-negative range the token arithmetic
/// works in.
pub fn current_timestamp() -> u64 {
    let t = now_unix_seconds();
    if t < 0 {
        0
    } else {
        t as u64
    }
}

} // verus!
