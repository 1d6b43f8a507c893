//! The key resolver: maps request fields to the key handles the engine
//! needs. For re-encryption it decodes the caller's hex-encoded public key
//! and classifies a bad spelling or a bad length as a malformed request.

use vstd::prelude::*;

verus! {

use crate::engine::{FheContext, PublicKey};
use crate::errors::OracleError;
use crate::hexcode::{hex_decode, unhex};

/// The raw public-key bytes a hex string resolves to: it must decode as hex
/// and match the engine's expected public-key size exactly.
pub open spec fn spec_resolve_user_key(hex: Seq<char>, expected_len: int) -> Option<Seq<u8>> {
    match unhex(hex) {
        Some(b) => if b.len() == expected_len {
            Some(b)
        } else {
            None
        },
        None => None,
    }
}

/// Resolves the requesting user's public key from its hex spelling, as an
/// ephemeral engine key object. Fails with `MalformedRequest` exactly when
/// the hex is bad or the byte length does not match the context's key size.
pub fn resolve_user_key(ctx: &FheContext, user_public_key: &str) -> (r: Result<
    PublicKey,
    OracleError,
>)
    requires
        ctx.wf(),
    ensures
        match spec_resolve_user_key(user_public_key@, ctx.params().key_len as int) {
            Some(b) => (r matches Ok(pk) && pk.bytes() == b && pk.wf()),
            None => r == Err::<PublicKey, OracleError>(OracleError::MalformedRequest),
        },
{
    match hex_decode(user_public_key) {
        None => Err(OracleError::MalformedRequest),
        Some(bytes) => {
            if bytes.len() != ctx.key_len() {
                return Err(OracleError::MalformedRequest);
            }
            match PublicKey::from_raw_bytes(bytes) {
                Ok(pk) => Ok(pk),
                Err(_) => Err(OracleError::MalformedRequest),
            }
        },
    }
}

} // verus!
