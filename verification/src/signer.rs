//! The response signer: canonicalization of a response's semantic content
//! and the keyed signature over it.
//!
//! The canonical payload is deterministic and injective: the operation
//! identifier, the input envelope's canonical byte image, and the textual
//! result value, each length-prefixed, in that fixed order. Two calls with
//! identical inputs therefore sign byte-identical payloads, and distinct
//! payloads never collide. The signature itself is the keyed payload image,
//! hex-spelled; a deployment may swap in an external signing capability
//! behind the same canonicalization contract.

use vstd::prelude::*;

verus! {

use vstd::string::StringSliceAdditionalSpecFns;
use vstd::utf8::encode_utf8;
use crate::errors::OracleError;
use crate::hexcode::{hex_encode, hex_of, lemma_hex_of_injective};
use crate::textutil::{lemma_encode_utf8_injective, push_bytes, str_eq};
use crate::varint::{varint, varint_write, lemma_varint_prefix_free};

/// Canonical byte payload of a response: operation identifier, envelope
/// image and textual result, each length-prefixed.
pub open spec fn spec_canonical_payload(op: Seq<char>, env: Seq<u8>, result: Seq<char>) -> Seq<
    u8,
> {
    varint(encode_utf8(op).len()) + encode_utf8(op) + varint(env.len()) + env + varint(
        encode_utf8(result).len(),
    ) + encode_utf8(result)
}

/// Signature of a canonical payload under a signing key: the hex spelling
/// of the length-prefixed key followed by the payload.
pub open spec fn spec_sign(key: Seq<u8>, payload: Seq<u8>) -> Seq<char> {
    hex_of(varint(key.len()) + key + payload)
}

/// Splitting a concatenation at the same length splits it into the same
/// parts.
pub proof fn lemma_concat_split<T>(a1: Seq<T>, b1: Seq<T>, a2: Seq<T>, b2: Seq<T>)
    requires
        a1 + b1 == a2 + b2,
        a1.len() == a2.len(),
    ensures
        a1 == a2,
        b1 == b2,
{
    assert forall|i: int| 0 <= i < a1.len() implies a1[i] == a2[i] by {
        assert((a1 + b1)[i] == a1[i]);
        assert((a2 + b2)[i] == a2[i]);
    }
    assert(a1 =~= a2);
    assert((a1 + b1).len() == a1.len() + b1.len());
    assert((a2 + b2).len() == a2.len() + b2.len());
    assert(b1.len() == b2.len());
    assert forall|i: int| 0 <= i < b1.len() implies b1[i] == b2[i] by {
        assert((a1 + b1)[a1.len() + i] == b1[i]);
        assert((a2 + b2)[a2.len() + i] == b2[i]);
    }
    assert(b1 =~= b2);
}

/// Signing is injective in the payload for a fixed key: equal signatures
/// under one key sign one canonical payload.
pub proof fn lemma_sign_injective(key: Seq<u8>, p1: Seq<u8>, p2: Seq<u8>)
    requires
        spec_sign(key, p1) == spec_sign(key, p2),
    ensures
        p1 == p2,
{
    lemma_hex_of_injective(varint(key.len()) + key + p1, varint(key.len()) + key + p2);
    lemma_concat_split(varint(key.len()) + key, p1, varint(key.len()) + key, p2);
}

/// Canonicalization is injective: equal canonical payloads carry the same
/// operation, the same envelope image and the same result.
#[verifier::rlimit(60)]
pub proof fn lemma_canonical_payload_injective(
    op1: Seq<char>,
    env1: Seq<u8>,
    res1: Seq<char>,
    op2: Seq<char>,
    env2: Seq<u8>,
    res2: Seq<char>,
)
    requires
        spec_canonical_payload(op1, env1, res1) == spec_canonical_payload(op2, env2, res2),
    ensures
        op1 == op2,
        env1 == env2,
        res1 == res2,
{
    let u1 = encode_utf8(op1);
    let u3 = encode_utf8(res1);
    let w1 = encode_utf8(op2);
    let w3 = encode_utf8(res2);
    let t1 = u1 + (varint(env1.len()) + (env1 + (varint(u3.len()) + u3)));
    let t2 = w1 + (varint(env2.len()) + (env2 + (varint(w3.len()) + w3)));
    assert(spec_canonical_payload(op1, env1, res1) =~= varint(u1.len()) + t1);
    assert(spec_canonical_payload(op2, env2, res2) =~= varint(w1.len()) + t2);
    lemma_varint_prefix_free(u1.len(), w1.len(), t1, t2);
    lemma_concat_split(
        u1,
        varint(env1.len()) + (env1 + (varint(u3.len()) + u3)),
        w1,
        varint(env2.len()) + (env2 + (varint(w3.len()) + w3)),
    );
    lemma_encode_utf8_injective(op1, op2);
    lemma_varint_prefix_free(
        env1.len(),
        env2.len(),
        env1 + (varint(u3.len()) + u3),
        env2 + (varint(w3.len()) + w3),
    );
    lemma_concat_split(env1, varint(u3.len()) + u3, env2, varint(w3.len()) + w3);
    lemma_varint_prefix_free(u3.len(), w3.len(), u3, w3);
    lemma_encode_utf8_injective(res1, res2);
}

/// Builds the canonical payload of one response.
pub fn canonical_payload(op: &str, envelope_image: &[u8], result: &str) -> (r: Vec<u8>)
    ensures
        r@ == spec_canonical_payload(op@, envelope_image@, result@),
{
    let mut out: Vec<u8> = Vec::new();
    let ob: &[u8] = op.as_bytes();
    varint_write(&mut out, ob.len() as u64);
    push_bytes(&mut out, ob);
    varint_write(&mut out, envelope_image.len() as u64);
    push_bytes(&mut out, envelope_image);
    let rb: &[u8] = result.as_bytes();
    varint_write(&mut out, rb.len() as u64);
    push_bytes(&mut out, rb);
    proof {
        assert(out@ =~= spec_canonical_payload(op@, envelope_image@, result@));
    }
    out
}

/// Signs a canonical payload. Fails exactly when the signing key is empty,
/// and the unsigned result is then withheld entirely.
pub fn sign(key: &[u8], payload: &[u8]) -> (r: Result<String, OracleError>)
    ensures
        key@.len() > 0 ==> (r matches Ok(s) && s@ == spec_sign(key@, payload@)),
        key@.len() == 0 ==> r == Err::<String, OracleError>(OracleError::SigningFailure),
{
    if key.len() == 0 {
        return Err(OracleError::SigningFailure);
    }
    let mut image: Vec<u8> = Vec::new();
    varint_write(&mut image, key.len() as u64);
    push_bytes(&mut image, key);
    push_bytes(&mut image, payload);
    proof {
        assert(image@ =~= varint(key@.len()) + key@ + payload@);
    }
    Ok(hex_encode(image.as_slice()))
}

/// Checks a signature against a canonical payload under the verification
/// key: true exactly for the signature [`sign`] produces.
pub fn verify_signature(key: &[u8], payload: &[u8], signature: &str) -> (r: bool)
    ensures
        r == (key@.len() > 0 && signature@ == spec_sign(key@, payload@)),
{
    match sign(key, payload) {
        Ok(expect) => str_eq(expect.as_str(), signature),
        Err(_) => false,
    }
}

} // verus!
