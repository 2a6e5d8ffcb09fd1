//! Calls into the clock, the random source and std's case mapping. Each
//! function here is believed as its contract states; the logic that uses the
//! results is verified elsewhere.

use vstd::prelude::*;

verus! {

/// What `str::to_lowercase` returns for a text.
pub uninterp spec fn lower_of(s: Seq<char>) -> Seq<char>;

/// Relies on chrono's `Utc::now().timestamp()`: the current Unix time in
/// seconds. Nothing is promised of its value.
#[verifier::external_body]
pub(crate) fn unix_now() -> (r: i64) {
    chrono::Utc::now().timestamp()
}

/// Relies on chrono's `Utc::now()` formatted as `%Y-%m-%dT%H:%M:%SZ`: the
/// current UTC time in the form the signed vendor protocol expects.
#[verifier::external_body]
pub(crate) fn utc_now_iso8601() -> (r: String) {
    chrono::Utc::now().format("%Y-%m-%dT%H:%M:%SZ").to_string()
}

/// Relies on uuid's `Uuid::new_v4()` written through `Display`: a random
/// identifier in hyphenated form, 36 characters long.
#[verifier::external_body]
pub(crate) fn new_uuid_string() -> (r: String)
    ensures
        r@.len() == 36,
{
    uuid::Uuid::new_v4().to_string()
}

/// Relies on uuid's `Uuid::new_v4().as_u128()`, truncated to 64 bits: a
/// random request nonce. Nothing is promised of its value.
#[verifier::external_body]
pub(crate) fn random_nonce() -> (r: u64) {
    uuid::Uuid::new_v4().as_u128() as u64
}

/// Relies on `str::to_lowercase`: the result depends on the characters alone.
#[verifier::external_body]
pub(crate) fn lowercase(s: &str) -> (r: String)
    ensures
        r@ == lower_of(s@),
{
    s.to_lowercase()
}

} // verus!
