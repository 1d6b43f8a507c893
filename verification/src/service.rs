//! The oracle service: one typed entry point per operation and a dispatch
//! function over the closed operation union.
//!
//! Each call is self-contained and fail-closed: the envelope's presence is
//! checked first, then the proof is verified, and only then is key material
//! used; the engine's work strictly precedes signing, and no unsigned result
//! is ever returned. Every outcome, success or classified failure, is pinned
//! down by the `spec_*_outcome` functions.

use vstd::prelude::*;

verus! {

use crate::codec_bin::{encode_envelope, lemma_enc_envelope_injective, spec_enc_envelope};
use crate::engine::{
    decryptor, is_zero_bytes, public_encryptor, spec_decrypt, spec_encrypt, FheContext, ParamSet,
    SecretKey,
};
use crate::envelope::EnvelopeModel;
use crate::errors::OracleError;
use crate::hexcode::{hex_encode, hex_of};
use crate::messages::{
    DecryptRequest, DecryptRequestModel, DecryptResponse, DecryptResponseModel, IsNilRequest,
    IsNilRequestModel, IsNilResponse, IsNilResponseModel, OracleRequest, OracleRequestModel,
    OracleResponse, OracleResponseModel, ReencryptRequest, ReencryptRequestModel,
    ReencryptResponse, ReencryptResponseModel,
};
use crate::proof_check::{spec_proof_ok, verify_proof};
use crate::resolver::{resolve_user_key, spec_resolve_user_key};
use crate::signer::{
    canonical_payload, lemma_canonical_payload_injective, lemma_sign_injective, sign,
    spec_canonical_payload, spec_sign,
};

/// The outcome the decrypt operation owes for a request, given the secret
/// key and the signing key.
pub open spec fn spec_decrypt_outcome(
    secret: Seq<u8>,
    sigkey: Seq<u8>,
    req: DecryptRequestModel,
) -> Result<DecryptResponseModel, OracleError> {
    match req.encrypted {
        None => Err(OracleError::MalformedRequest),
        Some(env) => if !spec_proof_ok(env, req.proof_text) {
            Err(OracleError::ProofRejected)
        } else if !env.well_sized() {
            Err(OracleError::EngineFailure)
        } else if sigkey.len() == 0 {
            Err(OracleError::SigningFailure)
        } else {
            let text = hex_of(spec_decrypt(env, secret));
            Ok(
                DecryptResponseModel {
                    decrypted: text,
                    signature: spec_sign(
                        sigkey,
                        spec_canonical_payload("Decrypt"@, spec_enc_envelope(env), text),
                    ),
                },
            )
        },
    }
}

/// The outcome the re-encrypt operation owes for a request, given the secret
/// key, the expected public-key byte length and the signing key.
pub open spec fn spec_reencrypt_outcome(
    secret: Seq<u8>,
    pk_len: int,
    sigkey: Seq<u8>,
    req: ReencryptRequestModel,
) -> Result<ReencryptResponseModel, OracleError> {
    match req.encrypted {
        None => Err(OracleError::MalformedRequest),
        Some(env) => if !spec_proof_ok(env, req.proof_text) {
            Err(OracleError::ProofRejected)
        } else {
            match spec_resolve_user_key(req.user_public_key, pk_len) {
                None => Err(OracleError::MalformedRequest),
                Some(pk) => if !env.well_sized() {
                    Err(OracleError::EngineFailure)
                } else if sigkey.len() == 0 {
                    Err(OracleError::SigningFailure)
                } else {
                    let out = spec_encrypt(spec_decrypt(env, secret), pk, env.width);
                    let text = hex_of(out.data);
                    Ok(
                        ReencryptResponseModel {
                            reencrypted: text,
                            signature: spec_sign(
                                sigkey,
                                spec_canonical_payload(
                                    "Reencrypt"@,
                                    spec_enc_envelope(env),
                                    text,
                                ),
                            ),
                        },
                    )
                },
            }
        },
    }
}

/// The textual result value of a nil assertion, as it enters the canonical
/// payload.
pub open spec fn spec_bool_text(b: bool) -> Seq<char> {
    if b {
        "true"@
    } else {
        "false"@
    }
}

/// The outcome the nil-assertion operation owes for a request.
pub open spec fn spec_is_nil_outcome(
    secret: Seq<u8>,
    sigkey: Seq<u8>,
    req: IsNilRequestModel,
) -> Result<IsNilResponseModel, OracleError> {
    match req.encrypted {
        None => Err(OracleError::MalformedRequest),
        Some(env) => if !spec_proof_ok(env, req.proof_text) {
            Err(OracleError::ProofRejected)
        } else if !env.well_sized() {
            Err(OracleError::EngineFailure)
        } else if sigkey.len() == 0 {
            Err(OracleError::SigningFailure)
        } else {
            let is_nil = is_zero_bytes(spec_decrypt(env, secret));
            Ok(
                IsNilResponseModel {
                    is_nil,
                    signature: spec_sign(
                        sigkey,
                        spec_canonical_payload(
                            "AssertIsNil"@,
                            spec_enc_envelope(env),
                            spec_bool_text(is_nil),
                        ),
                    ),
                },
            )
        },
    }
}

/// The outcome dispatch owes for a request union value.
pub open spec fn spec_dispatch_outcome(
    secret: Seq<u8>,
    pk_len: int,
    sigkey: Seq<u8>,
    req: OracleRequestModel,
) -> Result<OracleResponseModel, OracleError> {
    match req {
        OracleRequestModel::Decrypt(m) => match spec_decrypt_outcome(secret, sigkey, m) {
            Ok(resp) => Ok(OracleResponseModel::Decrypt(resp)),
            Err(e) => Err(e),
        },
        OracleRequestModel::Reencrypt(m) => match spec_reencrypt_outcome(
            secret,
            pk_len,
            sigkey,
            m,
        ) {
            Ok(resp) => Ok(OracleResponseModel::Reencrypt(resp)),
            Err(e) => Err(e),
        },
        OracleRequestModel::AssertIsNil(m) => match spec_is_nil_outcome(secret, sigkey, m) {
            Ok(resp) => Ok(OracleResponseModel::AssertIsNil(resp)),
            Err(e) => Err(e),
        },
    }
}

/// Proof gate law: whenever the envelope is present and the proof fails
/// verification, every operation answers `ProofRejected` — the outcome of a
/// rejected proof never depends on key material, so no engine work happens.
pub proof fn lemma_proof_gate(
    secret: Seq<u8>,
    pk_len: int,
    sigkey: Seq<u8>,
    req: OracleRequestModel,
)
    requires
        match req {
            OracleRequestModel::Decrypt(m) => m.encrypted matches Some(env)
                && !spec_proof_ok(env, m.proof_text),
            OracleRequestModel::Reencrypt(m) => m.encrypted matches Some(env)
                && !spec_proof_ok(env, m.proof_text),
            OracleRequestModel::AssertIsNil(m) => m.encrypted matches Some(env)
                && !spec_proof_ok(env, m.proof_text),
        },
    ensures
        spec_dispatch_outcome(secret, pk_len, sigkey, req) == Err::<
            OracleResponseModel,
            OracleError,
        >(OracleError::ProofRejected),
{
}

/// Round-trip law at the protocol level: a ciphertext the engine produced
/// under the service's secret key, carried in a well-proved request,
/// decrypts to the hex spelling of its plaintext.
pub proof fn lemma_service_decrypt_roundtrip(
    secret: Seq<u8>,
    sigkey: Seq<u8>,
    p: Seq<u8>,
    w: crate::envelope::EncryptedType,
    pf: Seq<char>,
)
    requires
        secret.len() > 0,
        sigkey.len() > 0,
        pf.len() > 0,
        p.len() == w.spec_byte_len(),
    ensures
        ({
            let env = spec_encrypt(p, secret, w);
            let req = DecryptRequestModel { encrypted: Some(env), proof_text: pf };
            &&& spec_decrypt_outcome(secret, sigkey, req) matches Ok(resp)
            &&& spec_decrypt_outcome(secret, sigkey, req).unwrap().decrypted == hex_of(p)
        }),
{
    crate::engine::lemma_encrypt_decrypt_roundtrip(p, secret, w);
}

/// Re-encryption law at the protocol level: re-encrypting a ciphertext of
/// the service's key for a caller key `pk` answers the hex spelling of a
/// ciphertext that decrypts, under `pk`, to the original plaintext.
pub proof fn lemma_service_reencrypt_preserves(
    secret: Seq<u8>,
    pk: Seq<u8>,
    sigkey: Seq<u8>,
    p: Seq<u8>,
    w: crate::envelope::EncryptedType,
    pf: Seq<char>,
)
    requires
        secret.len() > 0,
        pk.len() > 0,
        sigkey.len() > 0,
        pf.len() > 0,
        p.len() == w.spec_byte_len(),
    ensures
        ({
            let env = spec_encrypt(p, secret, w);
            let req = ReencryptRequestModel {
                encrypted: Some(env),
                user_public_key: hex_of(pk),
                proof_text: pf,
            };
            let outcome = spec_reencrypt_outcome(secret, pk.len() as int, sigkey, req);
            &&& outcome matches Ok(resp)
            &&& outcome.unwrap().reencrypted == hex_of(spec_encrypt(p, pk, w).data)
            &&& spec_decrypt(spec_encrypt(p, pk, w), pk) == p
        }),
{
    crate::hexcode::lemma_hex_roundtrip(pk);
    crate::engine::lemma_encrypt_decrypt_roundtrip(p, secret, w);
    crate::engine::lemma_encrypt_decrypt_roundtrip(p, pk, w);
}

/// Nil-assertion law at the protocol level: a well-proved request over a
/// ciphertext of the service's key answers true exactly when the plaintext
/// is all zero.
pub proof fn lemma_service_is_nil_correct(
    secret: Seq<u8>,
    sigkey: Seq<u8>,
    p: Seq<u8>,
    w: crate::envelope::EncryptedType,
    pf: Seq<char>,
)
    requires
        secret.len() > 0,
        sigkey.len() > 0,
        pf.len() > 0,
        p.len() == w.spec_byte_len(),
    ensures
        ({
            let env = spec_encrypt(p, secret, w);
            let req = IsNilRequestModel { encrypted: Some(env), proof_text: pf };
            &&& spec_is_nil_outcome(secret, sigkey, req) matches Ok(resp)
            &&& spec_is_nil_outcome(secret, sigkey, req).unwrap().is_nil == is_zero_bytes(p)
        }),
{
    crate::engine::lemma_encrypt_decrypt_roundtrip(p, secret, w);
}

/// Signature bindingness law: under one signing key, equal signatures over
/// canonical payloads bind the same operation, the same input envelope and
/// the same result text. Tampering with any of the three invalidates the
/// signature.
pub proof fn lemma_signature_binding(
    sigkey: Seq<u8>,
    op1: Seq<char>,
    e1: EnvelopeModel,
    res1: Seq<char>,
    op2: Seq<char>,
    e2: EnvelopeModel,
    res2: Seq<char>,
)
    requires
        spec_sign(sigkey, spec_canonical_payload(op1, spec_enc_envelope(e1), res1)) == spec_sign(
            sigkey,
            spec_canonical_payload(op2, spec_enc_envelope(e2), res2),
        ),
    ensures
        op1 == op2,
        e1 == e2,
        res1 == res2,
{
    lemma_sign_injective(
        sigkey,
        spec_canonical_payload(op1, spec_enc_envelope(e1), res1),
        spec_canonical_payload(op2, spec_enc_envelope(e2), res2),
    );
    lemma_canonical_payload_injective(
        op1,
        spec_enc_envelope(e1),
        res1,
        op2,
        spec_enc_envelope(e2),
        res2,
    );
    lemma_enc_envelope_injective(e1, e2);
}

/// Whether every byte of `v` is zero.
fn all_zero(v: &[u8]) -> (r: bool)
    ensures
        r == is_zero_bytes(v@),
{
    let n: usize = v.len();
    let mut i: usize = 0;
    while i < n
        invariant
            i <= n,
            n == v@.len(),
            forall|j: int| 0 <= j < i ==> v@[j] == 0,
        decreases n - i,
    {
        if v[i] != 0 {
            return false;
        }
        i += 1;
    }
    true
}

/// The oracle service: holds the process-lifetime context, the secret-key
/// handle and the signing key, shared read-only across calls.
pub struct OracleService {
    ctx: FheContext,
    secret: SecretKey,
    signing_key: Vec<u8>,
}

impl OracleService {
    pub closed spec fn secret_bytes(&self) -> Seq<u8> {
        self.secret.bytes()
    }

    pub closed spec fn signing_key_bytes(&self) -> Seq<u8> {
        self.signing_key@
    }

    pub closed spec fn ctx_params(&self) -> ParamSet {
        self.ctx.params()
    }

    /// A service is well formed when its context and secret key are.
    pub open spec fn wf(&self) -> bool {
        self.ctx_params().key_len > 0 && self.secret_bytes().len() > 0
    }

    /// Assembles the service from its process-lifetime resources. The
    /// signing key may be empty; signing then fails closed on every call.
    pub fn new(ctx: FheContext, secret: SecretKey, signing_key: Vec<u8>) -> (r: OracleService)
        requires
            ctx.wf(),
            secret.wf(),
        ensures
            r.wf(),
            r.secret_bytes() == secret.bytes(),
            r.signing_key_bytes() == signing_key@,
            r.ctx_params() == ctx.params(),
    {
        OracleService { ctx, secret, signing_key }
    }

    /// Decrypts the request's envelope and signs the textual plaintext.
    pub fn decrypt(&self, req: &DecryptRequest) -> (r: Result<DecryptResponse, OracleError>)
        requires
            self.wf(),
        ensures
            match r {
                Ok(resp) => spec_decrypt_outcome(
                    self.secret_bytes(),
                    self.signing_key_bytes(),
                    req@,
                ) == Ok::<DecryptResponseModel, OracleError>(resp@),
                Err(e) => spec_decrypt_outcome(
                    self.secret_bytes(),
                    self.signing_key_bytes(),
                    req@,
                ) == Err::<DecryptResponseModel, OracleError>(e),
            },
    {
        let env = match &req.encrypted {
            None => {
                return Err(OracleError::MalformedRequest);
            },
            Some(e) => e,
        };
        if !verify_proof(env, req.proof_text.as_str()) {
            return Err(OracleError::ProofRejected);
        }
        let d = match decryptor(&self.ctx, &self.secret) {
            Ok(d) => d,
            Err(_) => {
                return Err(OracleError::EngineFailure);
            },
        };
        let plain = match d.decrypt(env) {
            Ok(p) => p,
            Err(_) => {
                return Err(OracleError::EngineFailure);
            },
        };
        let text = hex_encode(plain.as_slice());
        let env_img = encode_envelope(env);
        let payload = canonical_payload("Decrypt", env_img.as_slice(), text.as_str());
        let signature = match sign(self.signing_key.as_slice(), payload.as_slice()) {
            Ok(s) => s,
            Err(e) => {
                return Err(e);
            },
        };
        Ok(DecryptResponse { decrypted: text, signature })
    }

    /// Re-encrypts the request's envelope under the requesting user's public
    /// key and signs the hex-spelled result.
    pub fn reencrypt(&self, req: &ReencryptRequest) -> (r: Result<ReencryptResponse, OracleError>)
        requires
            self.wf(),
        ensures
            match r {
                Ok(resp) => spec_reencrypt_outcome(
                    self.secret_bytes(),
                    self.ctx_params().key_len as int,
                    self.signing_key_bytes(),
                    req@,
                ) == Ok::<ReencryptResponseModel, OracleError>(resp@),
                Err(e) => spec_reencrypt_outcome(
                    self.secret_bytes(),
                    self.ctx_params().key_len as int,
                    self.signing_key_bytes(),
                    req@,
                ) == Err::<ReencryptResponseModel, OracleError>(e),
            },
    {
        let env = match &req.encrypted {
            None => {
                return Err(OracleError::MalformedRequest);
            },
            Some(e) => e,
        };
        if !verify_proof(env, req.proof_text.as_str()) {
            return Err(OracleError::ProofRejected);
        }
        let pk = match resolve_user_key(&self.ctx, req.user_public_key.as_str()) {
            Ok(pk) => pk,
            Err(e) => {
                return Err(e);
            },
        };
        let d = match decryptor(&self.ctx, &self.secret) {
            Ok(d) => d,
            Err(_) => {
                return Err(OracleError::EngineFailure);
            },
        };
        let plain = match d.decrypt(env) {
            Ok(p) => p,
            Err(_) => {
                return Err(OracleError::EngineFailure);
            },
        };
        let enc = match public_encryptor(&self.ctx, &pk) {
            Ok(e) => e,
            Err(_) => {
                return Err(OracleError::EngineFailure);
            },
        };
        let out = match enc.encrypt(&plain, env.width) {
            Ok(c) => c,
            Err(_) => {
                return Err(OracleError::EngineFailure);
            },
        };
        let text = hex_encode(out.data.as_slice());
        let env_img = encode_envelope(env);
        let payload = canonical_payload("Reencrypt", env_img.as_slice(), text.as_str());
        let signature = match sign(self.signing_key.as_slice(), payload.as_slice()) {
            Ok(s) => s,
            Err(e) => {
                return Err(e);
            },
        };
        Ok(ReencryptResponse { reencrypted: text, signature })
    }

    /// Asserts whether the request's envelope encrypts an all-zero value and
    /// signs the boolean outcome.
    pub fn assert_is_nil(&self, req: &IsNilRequest) -> (r: Result<IsNilResponse, OracleError>)
        requires
            self.wf(),
        ensures
            match r {
                Ok(resp) => spec_is_nil_outcome(
                    self.secret_bytes(),
                    self.signing_key_bytes(),
                    req@,
                ) == Ok::<IsNilResponseModel, OracleError>(resp@),
                Err(e) => spec_is_nil_outcome(
                    self.secret_bytes(),
                    self.signing_key_bytes(),
                    req@,
                ) == Err::<IsNilResponseModel, OracleError>(e),
            },
    {
        let env = match &req.encrypted {
            None => {
                return Err(OracleError::MalformedRequest);
            },
            Some(e) => e,
        };
        if !verify_proof(env, req.proof_text.as_str()) {
            return Err(OracleError::ProofRejected);
        }
        let d = match decryptor(&self.ctx, &self.secret) {
            Ok(d) => d,
            Err(_) => {
                return Err(OracleError::EngineFailure);
            },
        };
        let plain = match d.decrypt(env) {
            Ok(p) => p,
            Err(_) => {
                return Err(OracleError::EngineFailure);
            },
        };
        let is_nil = all_zero(plain.as_slice());
        let text: &str = if is_nil {
            "true"
        } else {
            "false"
        };
        let env_img = encode_envelope(env);
        let payload = canonical_payload("AssertIsNil", env_img.as_slice(), text);
        let signature = match sign(self.signing_key.as_slice(), payload.as_slice()) {
            Ok(s) => s,
            Err(e) => {
                return Err(e);
            },
        };
        Ok(IsNilResponse { is_nil, signature })
    }

    /// Routes a request union value to its operation: the single typed
    /// dispatch point both transports feed.
    pub fn dispatch(&self, req: &OracleRequest) -> (r: Result<OracleResponse, OracleError>)
        requires
            self.wf(),
        ensures
            match r {
                Ok(resp) => spec_dispatch_outcome(
                    self.secret_bytes(),
                    self.ctx_params().key_len as int,
                    self.signing_key_bytes(),
                    req@,
                ) == Ok::<OracleResponseModel, OracleError>(resp@),
                Err(e) => spec_dispatch_outcome(
                    self.secret_bytes(),
                    self.ctx_params().key_len as int,
                    self.signing_key_bytes(),
                    req@,
                ) == Err::<OracleResponseModel, OracleError>(e),
            },
    {
        match req {
            OracleRequest::Decrypt(m) => match self.decrypt(m) {
                Ok(resp) => Ok(OracleResponse::Decrypt(resp)),
                Err(e) => Err(e),
            },
            OracleRequest::Reencrypt(m) => match self.reencrypt(m) {
                Ok(resp) => Ok(OracleResponse::Reencrypt(resp)),
                Err(e) => Err(e),
            },
            OracleRequest::AssertIsNil(m) => match self.assert_is_nil(m) {
                Ok(resp) => Ok(OracleResponse::AssertIsNil(resp)),
                Err(e) => Err(e),
            },
        }
    }
}

} // verus!
