use decryption_oracle::codec_bin;
use decryption_oracle::codec_json;
use decryption_oracle::engine::{create_context, encryptor, keygen_secret, ParamSet};
use decryption_oracle::envelope::{EncryptedType, FheEncrypted};
use decryption_oracle::errors::OracleError;
use decryption_oracle::hexcode::hex_encode;
use decryption_oracle::messages::DecryptRequest;
use decryption_oracle::service::OracleService;
use decryption_oracle::transport::{
    handle_frame_bin, handle_frame_json, OP_ASSERT_IS_NIL, OP_DECRYPT,
};

fn setup() -> (OracleService, FheEncrypted, Vec<u8>) {
    let params = ParamSet { key_len: 32, seed: 42 };
    let ctx = create_context(params).expect("Failed to create context");
    let sk = keygen_secret(&ctx).expect("Failed to generate secret key");
    let enc = encryptor(&ctx, &sk).expect("Failed to create encryptor");
    let plain = vec![7u8, 0, 0, 9];
    let env = enc.encrypt(&plain, EncryptedType::Uint32).expect("Failed to encrypt");
    (OracleService::new(ctx, sk, b"signing-key".to_vec()), env, plain)
}

#[test]
fn binary_frame_round_trips_through_the_service() {
    let (svc, env, plain) = setup();
    let req = DecryptRequest { encrypted: Some(env), proof_text: "p".to_string() };
    let body = codec_bin::encode_decrypt_request(&req);
    let out = handle_frame_bin(&svc, OP_DECRYPT, &body).expect("frame failed");
    let resp = codec_bin::decode_decrypt_response(&out).expect("response decode failed");
    assert_eq!(resp.decrypted, hex_encode(&plain));
}

#[test]
fn json_frame_round_trips_through_the_service() {
    let (svc, env, plain) = setup();
    let req = DecryptRequest { encrypted: Some(env), proof_text: "p".to_string() };
    let body = codec_json::encode_decrypt_request_json(&req);
    let out = handle_frame_json(&svc, OP_DECRYPT, &body).expect("frame failed");
    let resp = codec_json::decode_decrypt_response_json(&out).expect("response decode failed");
    assert_eq!(resp.decrypted, hex_encode(&plain));
}

#[test]
fn both_transports_agree_on_the_result() {
    let (svc, env, _plain) = setup();
    let req = DecryptRequest { encrypted: Some(env), proof_text: "p".to_string() };
    let bin_out = handle_frame_bin(&svc, OP_DECRYPT, &codec_bin::encode_decrypt_request(&req))
        .expect("binary frame failed");
    let json_out = handle_frame_json(
        &svc,
        OP_DECRYPT,
        &codec_json::encode_decrypt_request_json(&req),
    )
    .expect("json frame failed");
    let bin_resp = codec_bin::decode_decrypt_response(&bin_out).expect("decode failed");
    let json_resp = codec_json::decode_decrypt_response_json(&json_out).expect("decode failed");
    assert_eq!(bin_resp.decrypted, json_resp.decrypted);
    assert_eq!(bin_resp.signature, json_resp.signature);
}

#[test]
fn unknown_tag_and_garbage_bodies_are_malformed() {
    let (svc, _env, _plain) = setup();
    assert_eq!(
        handle_frame_bin(&svc, 9, &[]).unwrap_err(),
        OracleError::MalformedRequest
    );
    assert_eq!(
        handle_frame_bin(&svc, OP_ASSERT_IS_NIL, &[0xff, 0xff]).unwrap_err(),
        OracleError::MalformedRequest
    );
    assert_eq!(
        handle_frame_json(&svc, OP_DECRYPT, "not json").unwrap_err(),
        OracleError::MalformedRequest
    );
}
