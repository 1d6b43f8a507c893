//! The byte-level entry points of the two transports: decode a framed
//! request body, dispatch it, encode the response. A frame names its
//! operation by a one-byte tag; the body is the request under the chosen
//! codec. Both transports feed the same typed dispatch, so their semantics
//! coincide by construction.

use vstd::prelude::*;

verus! {

use crate::codec_bin;
use crate::codec_json;
use crate::errors::OracleError;
use crate::service::{
    spec_decrypt_outcome, spec_is_nil_outcome, spec_reencrypt_outcome, OracleService,
};

/// Operation tag of a decrypt frame.
pub const OP_DECRYPT: u8 = 1;

/// Operation tag of a re-encrypt frame.
pub const OP_REENCRYPT: u8 = 2;

/// Operation tag of a nil-assertion frame.
pub const OP_ASSERT_IS_NIL: u8 = 3;

/// The outcome a binary frame owes: decode failure and unknown tags are
/// malformed; otherwise the operation's outcome, its response encoded.
pub open spec fn spec_frame_outcome_bin(
    secret: Seq<u8>,
    pk_len: int,
    sigkey: Seq<u8>,
    tag: u8,
    body: Seq<u8>,
) -> Result<Seq<u8>, OracleError> {
    if tag == OP_DECRYPT {
        match codec_bin::spec_dec_decrypt_request(body) {
            None => Err(OracleError::MalformedRequest),
            Some(m) => match spec_decrypt_outcome(secret, sigkey, m) {
                Ok(r) => Ok(codec_bin::spec_enc_decrypt_response(r)),
                Err(e) => Err(e),
            },
        }
    } else if tag == OP_REENCRYPT {
        match codec_bin::spec_dec_reencrypt_request(body) {
            None => Err(OracleError::MalformedRequest),
            Some(m) => match spec_reencrypt_outcome(secret, pk_len, sigkey, m) {
                Ok(r) => Ok(codec_bin::spec_enc_reencrypt_response(r)),
                Err(e) => Err(e),
            },
        }
    } else if tag == OP_ASSERT_IS_NIL {
        match codec_bin::spec_dec_is_nil_request(body) {
            None => Err(OracleError::MalformedRequest),
            Some(m) => match spec_is_nil_outcome(secret, sigkey, m) {
                Ok(r) => Ok(codec_bin::spec_enc_is_nil_response(r)),
                Err(e) => Err(e),
            },
        }
    } else {
        Err(OracleError::MalformedRequest)
    }
}

/// The outcome a JSON frame owes, over characters.
pub open spec fn spec_frame_outcome_json(
    secret: Seq<u8>,
    pk_len: int,
    sigkey: Seq<u8>,
    tag: u8,
    body: Seq<char>,
) -> Result<Seq<char>, OracleError> {
    if tag == OP_DECRYPT {
        match codec_json::spec_dec_decrypt_request_json(body) {
            None => Err(OracleError::MalformedRequest),
            Some(m) => match spec_decrypt_outcome(secret, sigkey, m) {
                Ok(r) => Ok(codec_json::spec_enc_decrypt_response_json(r)),
                Err(e) => Err(e),
            },
        }
    } else if tag == OP_REENCRYPT {
        match codec_json::spec_dec_reencrypt_request_json(body) {
            None => Err(OracleError::MalformedRequest),
            Some(m) => match spec_reencrypt_outcome(secret, pk_len, sigkey, m) {
                Ok(r) => Ok(codec_json::spec_enc_reencrypt_response_json(r)),
                Err(e) => Err(e),
            },
        }
    } else if tag == OP_ASSERT_IS_NIL {
        match codec_json::spec_dec_is_nil_request_json(body) {
            None => Err(OracleError::MalformedRequest),
            Some(m) => match spec_is_nil_outcome(secret, sigkey, m) {
                Ok(r) => Ok(codec_json::spec_enc_is_nil_response_json(r)),
                Err(e) => Err(e),
            },
        }
    } else {
        Err(OracleError::MalformedRequest)
    }
}

/// Serves one binary frame: wire bytes in, wire bytes out.
pub fn handle_frame_bin(svc: &OracleService, tag: u8, body: &[u8]) -> (r: Result<
    Vec<u8>,
    OracleError,
>)
    requires
        svc.wf(),
    ensures
        match r {
            Ok(out) => spec_frame_outcome_bin(
                svc.secret_bytes(),
                svc.ctx_params().key_len as int,
                svc.signing_key_bytes(),
                tag,
                body@,
            ) == Ok::<Seq<u8>, OracleError>(out@),
            Err(e) => spec_frame_outcome_bin(
                svc.secret_bytes(),
                svc.ctx_params().key_len as int,
                svc.signing_key_bytes(),
                tag,
                body@,
            ) == Err::<Seq<u8>, OracleError>(e),
        },
{
    if tag == OP_DECRYPT {
        match codec_bin::decode_decrypt_request(body) {
            None => Err(OracleError::MalformedRequest),
            Some(m) => match svc.decrypt(&m) {
                Ok(resp) => Ok(codec_bin::encode_decrypt_response(&resp)),
                Err(e) => Err(e),
            },
        }
    } else if tag == OP_REENCRYPT {
        match codec_bin::decode_reencrypt_request(body) {
            None => Err(OracleError::MalformedRequest),
            Some(m) => match svc.reencrypt(&m) {
                Ok(resp) => Ok(codec_bin::encode_reencrypt_response(&resp)),
                Err(e) => Err(e),
            },
        }
    } else if tag == OP_ASSERT_IS_NIL {
        match codec_bin::decode_is_nil_request(body) {
            None => Err(OracleError::MalformedRequest),
            Some(m) => match svc.assert_is_nil(&m) {
                Ok(resp) => Ok(codec_bin::encode_is_nil_response(&resp)),
                Err(e) => Err(e),
            },
        }
    } else {
        Err(OracleError::MalformedRequest)
    }
}

/// Serves one JSON frame: wire text in, wire text out.
pub fn handle_frame_json(svc: &OracleService, tag: u8, body: &str) -> (r: Result<
    String,
    OracleError,
>)
    requires
        svc.wf(),
    ensures
        match r {
            Ok(out) => spec_frame_outcome_json(
                svc.secret_bytes(),
                svc.ctx_params().key_len as int,
                svc.signing_key_bytes(),
                tag,
                body@,
            ) == Ok::<Seq<char>, OracleError>(out@),
            Err(e) => spec_frame_outcome_json(
                svc.secret_bytes(),
                svc.ctx_params().key_len as int,
                svc.signing_key_bytes(),
                tag,
                body@,
            ) == Err::<Seq<char>, OracleError>(e),
        },
{
    if tag == OP_DECRYPT {
        match codec_json::decode_decrypt_request_json(body) {
            None => Err(OracleError::MalformedRequest),
            Some(m) => match svc.decrypt(&m) {
                Ok(resp) => Ok(codec_json::encode_decrypt_response_json(&resp)),
                Err(e) => Err(e),
            },
        }
    } else if tag == OP_REENCRYPT {
        match codec_json::decode_reencrypt_request_json(body) {
            None => Err(OracleError::MalformedRequest),
            Some(m) => match svc.reencrypt(&m) {
                Ok(resp) => Ok(codec_json::encode_reencrypt_response_json(&resp)),
                Err(e) => Err(e),
            },
        }
    } else if tag == OP_ASSERT_IS_NIL {
        match codec_json::decode_is_nil_request_json(body) {
            None => Err(OracleError::MalformedRequest),
            Some(m) => match svc.assert_is_nil(&m) {
                Ok(resp) => Ok(codec_json::encode_is_nil_response_json(&resp)),
                Err(e) => Err(e),
            },
        }
    } else {
        Err(OracleError::MalformedRequest)
    }
}

} // verus!
