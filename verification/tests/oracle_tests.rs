use decryption_oracle::codec_bin::encode_envelope;
use decryption_oracle::engine::{
    create_context, decryptor, encryptor, keygen_secret, ParamSet,
};
use decryption_oracle::envelope::{EncryptedType, FheEncrypted};
use decryption_oracle::errors::OracleError;
use decryption_oracle::hexcode::{hex_decode, hex_encode};
use decryption_oracle::messages::{
    DecryptRequest, IsNilRequest, OracleRequest, OracleResponse, ReencryptRequest,
};
use decryption_oracle::service::OracleService;
use decryption_oracle::signer::{canonical_payload, sign, verify_signature};

const ALL_WIDTHS: [EncryptedType; 6] = [
    EncryptedType::Uint8,
    EncryptedType::Uint16,
    EncryptedType::Uint32,
    EncryptedType::Uint64,
    EncryptedType::Uint128,
    EncryptedType::Uint256,
];

fn service_with(seed: u64, signing_key: &[u8]) -> OracleService {
    let params = ParamSet { key_len: 32, seed };
    let ctx = create_context(params).expect("Failed to create context");
    let sk = keygen_secret(&ctx).expect("Failed to generate secret key");
    OracleService::new(ctx, sk, signing_key.to_vec())
}

fn encrypt_under(seed: u64, plaintext: &[u8], width: EncryptedType) -> FheEncrypted {
    let params = ParamSet { key_len: 32, seed };
    let ctx = create_context(params).expect("Failed to create context");
    let sk = keygen_secret(&ctx).expect("Failed to generate secret key");
    let enc = encryptor(&ctx, &sk).expect("Failed to create encryptor");
    enc.encrypt(&plaintext.to_vec(), width).expect("Failed to encrypt")
}

fn plaintext_for(width: EncryptedType) -> Vec<u8> {
    let mut v = Vec::new();
    for i in 0..width.byte_len() {
        v.push((i as u8).wrapping_mul(31).wrapping_add(7));
    }
    v
}

#[test]
fn decrypt_round_trip_all_widths() {
    let svc = service_with(11, b"signing-key");
    for width in ALL_WIDTHS {
        let plain = plaintext_for(width);
        let env = encrypt_under(11, &plain, width);
        let req = DecryptRequest { encrypted: Some(env), proof_text: "p".to_string() };
        let resp = svc.decrypt(&req).expect("decrypt failed");
        assert_eq!(resp.decrypted, hex_encode(&plain));
        assert!(!resp.signature.is_empty());
    }
}

#[test]
fn reencrypt_preserves_plaintext() {
    // Encrypt under key A, re-encrypt for key B, decrypt under key B.
    let seed_a = 21;
    let seed_b = 99;
    let svc = service_with(seed_a, b"signing-key");

    let params_b = ParamSet { key_len: 32, seed: seed_b };
    let ctx_b = create_context(params_b).expect("Failed to create context");
    let sk_b = keygen_secret(&ctx_b).expect("Failed to generate secret key");
    let pk_b = decryption_oracle::engine::keygen_public(&ctx_b, &sk_b)
        .expect("Failed to generate public key");

    let plain = plaintext_for(EncryptedType::Uint64);
    let env = encrypt_under(seed_a, &plain, EncryptedType::Uint64);
    let req = ReencryptRequest {
        encrypted: Some(env),
        user_public_key: hex_encode(&pk_b.to_bytes()),
        proof_text: "p".to_string(),
    };
    let resp = svc.reencrypt(&req).expect("reencrypt failed");

    let reenc_bytes = hex_decode(&resp.reencrypted).expect("reencrypted is not hex");
    let env_b = FheEncrypted { data: reenc_bytes, width: EncryptedType::Uint64 };
    let dec_b = decryptor(&ctx_b, &sk_b).expect("Failed to create decryptor");
    let recovered = dec_b.decrypt(&env_b).expect("Failed to decrypt");
    assert_eq!(recovered, plain);
}

#[test]
fn is_nil_true_on_zero_false_on_nonzero() {
    let svc = service_with(5, b"signing-key");

    let zero = vec![0u8; EncryptedType::Uint32.byte_len()];
    let env0 = encrypt_under(5, &zero, EncryptedType::Uint32);
    let req0 = IsNilRequest { encrypted: Some(env0), proof_text: "p".to_string() };
    assert_eq!(svc.assert_is_nil(&req0).expect("assert_is_nil failed").is_nil, true);

    let nonzero = vec![0u8, 0, 9, 0];
    let env1 = encrypt_under(5, &nonzero, EncryptedType::Uint32);
    let req1 = IsNilRequest { encrypted: Some(env1), proof_text: "p".to_string() };
    assert_eq!(svc.assert_is_nil(&req1).expect("assert_is_nil failed").is_nil, false);
}

#[test]
fn rejected_proof_yields_proof_rejected() {
    let svc = service_with(3, b"signing-key");
    let env = encrypt_under(3, &plaintext_for(EncryptedType::Uint8), EncryptedType::Uint8);

    let req = DecryptRequest { encrypted: Some(env.clone()), proof_text: String::new() };
    assert_eq!(svc.decrypt(&req).unwrap_err(), OracleError::ProofRejected);

    let req = ReencryptRequest {
        encrypted: Some(env.clone()),
        user_public_key: "zz-not-hex".to_string(),
        proof_text: String::new(),
    };
    assert_eq!(svc.reencrypt(&req).unwrap_err(), OracleError::ProofRejected);

    let req = IsNilRequest { encrypted: Some(env), proof_text: String::new() };
    assert_eq!(svc.assert_is_nil(&req).unwrap_err(), OracleError::ProofRejected);
}

#[test]
fn missing_envelope_is_malformed() {
    let svc = service_with(3, b"signing-key");
    let req = DecryptRequest { encrypted: None, proof_text: "p".to_string() };
    assert_eq!(svc.decrypt(&req).unwrap_err(), OracleError::MalformedRequest);
}

#[test]
fn malformed_hex_user_key_is_malformed_not_engine_failure() {
    let svc = service_with(7, b"signing-key");
    let env = encrypt_under(7, &plaintext_for(EncryptedType::Uint16), EncryptedType::Uint16);

    // Not hex at all.
    let req = ReencryptRequest {
        encrypted: Some(env.clone()),
        user_public_key: "zz".to_string(),
        proof_text: "p".to_string(),
    };
    assert_eq!(svc.reencrypt(&req).unwrap_err(), OracleError::MalformedRequest);

    // Hex, but the wrong key size.
    let req = ReencryptRequest {
        encrypted: Some(env),
        user_public_key: "abcd".to_string(),
        proof_text: "p".to_string(),
    };
    assert_eq!(svc.reencrypt(&req).unwrap_err(), OracleError::MalformedRequest);
}

#[test]
fn wrong_payload_length_is_engine_failure() {
    let svc = service_with(13, b"signing-key");
    let env = FheEncrypted { data: vec![1, 2, 3], width: EncryptedType::Uint8 };
    let req = DecryptRequest { encrypted: Some(env), proof_text: "p".to_string() };
    assert_eq!(svc.decrypt(&req).unwrap_err(), OracleError::EngineFailure);
}

#[test]
fn empty_signing_key_fails_closed() {
    let svc = service_with(13, b"");
    let env = encrypt_under(13, &plaintext_for(EncryptedType::Uint8), EncryptedType::Uint8);
    let req = DecryptRequest { encrypted: Some(env), proof_text: "p".to_string() };
    assert_eq!(svc.decrypt(&req).unwrap_err(), OracleError::SigningFailure);
}

#[test]
fn signatures_bind_request_and_result() {
    let key = b"signing-key";
    let svc = service_with(17, key);
    let plain_a = vec![1u8];
    let plain_b = vec![2u8];
    let env_a = encrypt_under(17, &plain_a, EncryptedType::Uint8);
    let env_b = encrypt_under(17, &plain_b, EncryptedType::Uint8);

    let resp_a = svc
        .decrypt(&DecryptRequest { encrypted: Some(env_a.clone()), proof_text: "p".to_string() })
        .expect("decrypt failed");
    let resp_b = svc
        .decrypt(&DecryptRequest { encrypted: Some(env_b.clone()), proof_text: "p".to_string() })
        .expect("decrypt failed");

    // Distinct requests give distinct signatures.
    assert_ne!(resp_a.signature, resp_b.signature);

    // The signature checks out against the canonical payload of its own call.
    let payload_a = canonical_payload("Decrypt", &encode_envelope(&env_a), &resp_a.decrypted);
    assert!(verify_signature(key, &payload_a, &resp_a.signature));

    // Tampering with the result invalidates it.
    let tampered = canonical_payload("Decrypt", &encode_envelope(&env_a), "00");
    assert!(!verify_signature(key, &tampered, &resp_a.signature));

    // Binding to the operation: the same envelope and text under another
    // operation name fails verification.
    let other_op = canonical_payload("Reencrypt", &encode_envelope(&env_a), &resp_a.decrypted);
    assert!(!verify_signature(key, &other_op, &resp_a.signature));

    // Binding to the input: another envelope fails verification.
    let other_env = canonical_payload("Decrypt", &encode_envelope(&env_b), &resp_a.decrypted);
    assert!(!verify_signature(key, &other_env, &resp_a.signature));
}

#[test]
fn signer_rejects_empty_key() {
    assert_eq!(sign(b"", b"payload").unwrap_err(), OracleError::SigningFailure);
    assert!(!verify_signature(b"", b"payload", "anything"));
}

#[test]
fn dispatch_routes_each_operation() {
    let svc = service_with(29, b"signing-key");
    let plain = plaintext_for(EncryptedType::Uint16);
    let env = encrypt_under(29, &plain, EncryptedType::Uint16);

    let req = OracleRequest::Decrypt(DecryptRequest {
        encrypted: Some(env.clone()),
        proof_text: "p".to_string(),
    });
    match svc.dispatch(&req).expect("dispatch failed") {
        OracleResponse::Decrypt(resp) => assert_eq!(resp.decrypted, hex_encode(&plain)),
        _ => panic!("dispatch routed decrypt to the wrong operation"),
    }

    let req = OracleRequest::AssertIsNil(IsNilRequest {
        encrypted: Some(env.clone()),
        proof_text: "p".to_string(),
    });
    match svc.dispatch(&req).expect("dispatch failed") {
        OracleResponse::AssertIsNil(resp) => assert_eq!(resp.is_nil, false),
        _ => panic!("dispatch routed assert_is_nil to the wrong operation"),
    }

    let req = OracleRequest::Reencrypt(ReencryptRequest {
        encrypted: Some(env),
        user_public_key: "zz".to_string(),
        proof_text: String::new(),
    });
    assert_eq!(svc.dispatch(&req).unwrap_err(), OracleError::ProofRejected);
}

#[test]
fn error_codes_and_messages_are_stable() {
    assert_eq!(OracleError::MalformedRequest.code(), 1);
    assert_eq!(OracleError::ProofRejected.code(), 2);
    assert_eq!(OracleError::EngineFailure.code(), 3);
    assert_eq!(OracleError::SigningFailure.code(), 4);
    assert_eq!(OracleError::MalformedRequest.message(), "malformed request");
    assert_eq!(OracleError::ProofRejected.message(), "proof rejected");
    assert_eq!(OracleError::EngineFailure.message(), "engine failure");
    assert_eq!(OracleError::SigningFailure.message(), "signing failure");
}
