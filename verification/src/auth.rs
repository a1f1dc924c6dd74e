//! Token verification for the stream endpoint.
//!
//! A request carries a compact JWT in its query string; access is granted
//! exactly when the token's HS256 signature verifies against the shared
//! secret and its expiry lies in the future. Every failure — forged or
//! malformed token, wrong algorithm, expired or missing `exp`, missing
//! claim — collapses into the one denied outcome, so a caller can learn
//! nothing about which check failed.

use vstd::prelude::*;

use crate::proxy::AuthOutcome;

verus! {

/// The clock-independent part of token verification: the `storage_path`
/// claim that `token` yields under HS256 verification against `secret` —
/// present exactly when the compact JWT parses, names HS256, its signature
/// verifies, and the claim is a string. Whether access is granted also
/// depends on the token's expiry against the clock, which no function of
/// these arguments can express.
pub uninterp spec fn hs256_storage_path(token: Seq<char>, secret: Seq<u8>) -> Option<Seq<char>>;

/// Relies on jsonwebtoken::decode with `Validation::default()`, less the
/// audience check (no audience is configured here, and a token carrying an
/// `aud` claim must not be rejected for it): the call returns claims only
/// when the compact JWT parses, names HS256, its signature verifies
/// against `secret`, and its `exp` claim is present and in the future
/// under the library's default leeway. This body hands back the
/// `storage_path` claim when all of that holds and the claim is a string.
/// The expiry check reads the clock, so of the result only its
/// clock-independent part is stated: a returned path is the one the
/// signature vouches for, and where signature or shape already fail, no
/// clock can make the call succeed.
#[verifier::external_body]
fn decode_storage_path(token: &str, secret: &[u8]) -> (r: Option<String>)
    ensures
        r matches Some(p) ==> (hs256_storage_path(token@, secret@) matches Some(q) && p@ == q),
        hs256_storage_path(token@, secret@) is None ==> r is None,
{
    let key = jsonwebtoken::DecodingKey::from_secret(secret);
    let mut validation = jsonwebtoken::Validation::default();
    validation.validate_aud = false;
    match jsonwebtoken::decode::<serde_json::Value>(token, &key, &validation) {
        Ok(data) => match data.claims.get("storage_path") {
            Some(v) => v.as_str().map(|s| s.to_string()),
            None => None,
        },
        Err(_) => None,
    }
}

/// Checks the query token against the shared secret and yields either the
/// storage path the token grants or the one undifferentiated denial. A
/// granted outcome carries exactly the path the token's signature vouches
/// for, and a token that fails verification independently of the clock is
/// always denied; a well-signed token may still be denied, for its expiry.
/// The plan functions decide the response that follows.
pub fn authenticate(token: &str, secret: &[u8]) -> (r: AuthOutcome)
    ensures
        r matches AuthOutcome::Granted { storage_path } ==> (hs256_storage_path(token@, secret@)
            matches Some(q) && storage_path@ == q),
        hs256_storage_path(token@, secret@) is None ==> r is Denied,
{
    match decode_storage_path(token, secret) {
        Some(p) => AuthOutcome::Granted { storage_path: p },
        None => AuthOutcome::Denied,
    }
}

} // verus!
