//! The session resolver: binds an inbound request to a stable client
//! identity, minting a fresh opaque token when none is carried.

use vstd::prelude::*;
use uuid::Uuid;

verus! {

/// Relies on `uuid::Uuid::new_v4` (a version-4 UUID drawn from a
/// cryptographically random source) and `Uuid::as_u128`: mints a fresh
/// random 128-bit token. Nothing is promised of the value; randomness
/// admits no stronger contract.
#[verifier::external_body]
pub(crate) fn mint_token() -> u128 {
    Uuid::new_v4().as_u128()
}

/// Resolves the identity token carried by a request, if any, to a
/// stable client identity.
///
/// A carried token is returned unchanged and marked not new; a missing
/// one is always recoverable by minting a fresh identity, so resolution
/// never fails. When the flag is true the caller must instruct the
/// client to persist the token for the rest of the session.
pub fn resolve(token: Option<u128>) -> (r: (u128, bool))
    ensures
        token matches Some(t) ==> r == (t, false),
        token is None ==> r.1 == true,
{
    match token {
        Some(t) => (t, false),
        None => (mint_token(), true),
    }
}

} // verus!
