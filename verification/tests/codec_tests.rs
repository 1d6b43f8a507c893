use decryption_oracle::codec_bin;
use decryption_oracle::codec_json;
use decryption_oracle::envelope::{EncryptedType, FheEncrypted};
use decryption_oracle::hexcode::{hex_decode, hex_encode};
use decryption_oracle::messages::{
    DecryptRequest, DecryptResponse, IsNilRequest, IsNilResponse, ReencryptRequest,
    ReencryptResponse,
};
use decryption_oracle::varint::{varint_read, varint_write};

fn sample_envelope() -> FheEncrypted {
    FheEncrypted { data: vec![0x01, 0x02, 0xff, 0x00], width: EncryptedType::Uint32 }
}

fn envelopes_equal(a: &FheEncrypted, b: &FheEncrypted) {
    assert_eq!(a.data, b.data);
    assert_eq!(a.width, b.width);
}

fn opt_envelopes_equal(a: &Option<FheEncrypted>, b: &Option<FheEncrypted>) {
    match (a, b) {
        (None, None) => {},
        (Some(x), Some(y)) => envelopes_equal(x, y),
        _ => panic!("one envelope present, the other absent"),
    }
}

#[test]
fn hex_encoding_round_trips() {
    assert_eq!(hex_encode(&[0xde, 0xad, 0x01]), "dead01");
    assert_eq!(hex_decode("dead01").unwrap(), vec![0xde, 0xad, 0x01]);
    assert_eq!(hex_decode("DEAD01").unwrap(), vec![0xde, 0xad, 0x01]);
    assert_eq!(hex_decode(""), Some(vec![]));
    assert_eq!(hex_decode("abc"), None);
    assert_eq!(hex_decode("zz"), None);
    assert_eq!(hex_decode(&hex_encode(&[0, 255, 16, 32])).unwrap(), vec![0, 255, 16, 32]);
}

#[test]
fn varint_encoding_round_trips() {
    let mut out: Vec<u8> = Vec::new();
    varint_write(&mut out, 300);
    assert_eq!(out, vec![0xac, 0x02]);
    assert_eq!(varint_read(&out, 0), Some((300, 2)));

    let mut big: Vec<u8> = Vec::new();
    varint_write(&mut big, u64::MAX);
    assert_eq!(varint_read(&big, 0), Some((u64::MAX, big.len())));

    // An unterminated varint is rejected.
    assert_eq!(varint_read(&[0x80], 0), None);
}

#[test]
fn width_names_and_ordinals() {
    assert_eq!(EncryptedType::Uint8.as_str_name(), "Uint8");
    assert_eq!(EncryptedType::Uint256.as_str_name(), "Uint256");
    assert_eq!(EncryptedType::from_str_name("Uint64"), Some(EncryptedType::Uint64));
    assert_eq!(EncryptedType::from_str_name("Uint7"), None);
    for w in [
        EncryptedType::Uint8,
        EncryptedType::Uint16,
        EncryptedType::Uint32,
        EncryptedType::Uint64,
        EncryptedType::Uint128,
        EncryptedType::Uint256,
    ] {
        assert_eq!(EncryptedType::from_str_name(w.as_str_name()), Some(w));
        assert_eq!(EncryptedType::from_ordinal(w.ordinal()), Some(w));
    }
    assert_eq!(EncryptedType::from_ordinal(6), None);
    assert_eq!(EncryptedType::Uint128.byte_len(), 16);
}

#[test]
fn binary_envelope_has_expected_bytes() {
    let env = FheEncrypted { data: vec![0x01, 0x02], width: EncryptedType::Uint32 };
    let bytes = codec_bin::encode_envelope(&env);
    assert_eq!(bytes, vec![0x0a, 0x02, 0x01, 0x02, 0x10, 0x02]);
    let back = codec_bin::decode_envelope(&bytes).expect("decode failed");
    envelopes_equal(&env, &back);

    // Default fields are skipped: empty payload at width zero encodes to
    // nothing at all.
    let empty = FheEncrypted { data: vec![], width: EncryptedType::Uint8 };
    assert_eq!(codec_bin::encode_envelope(&empty), Vec::<u8>::new());
    let back = codec_bin::decode_envelope(&[]).expect("decode failed");
    envelopes_equal(&empty, &back);
}

#[test]
fn binary_requests_round_trip() {
    let req = DecryptRequest {
        encrypted: Some(sample_envelope()),
        proof_text: "some proof".to_string(),
    };
    let bytes = codec_bin::encode_decrypt_request(&req);
    let back = codec_bin::decode_decrypt_request(&bytes).expect("decode failed");
    opt_envelopes_equal(&req.encrypted, &back.encrypted);
    assert_eq!(req.proof_text, back.proof_text);

    let req = DecryptRequest { encrypted: None, proof_text: String::new() };
    let bytes = codec_bin::encode_decrypt_request(&req);
    assert_eq!(bytes, Vec::<u8>::new());
    let back = codec_bin::decode_decrypt_request(&bytes).expect("decode failed");
    opt_envelopes_equal(&req.encrypted, &back.encrypted);
    assert_eq!(req.proof_text, back.proof_text);

    let req = ReencryptRequest {
        encrypted: Some(sample_envelope()),
        user_public_key: "00ff".to_string(),
        proof_text: "p".to_string(),
    };
    let bytes = codec_bin::encode_reencrypt_request(&req);
    let back = codec_bin::decode_reencrypt_request(&bytes).expect("decode failed");
    opt_envelopes_equal(&req.encrypted, &back.encrypted);
    assert_eq!(req.user_public_key, back.user_public_key);
    assert_eq!(req.proof_text, back.proof_text);

    let req = IsNilRequest { encrypted: Some(sample_envelope()), proof_text: "p".to_string() };
    let bytes = codec_bin::encode_is_nil_request(&req);
    let back = codec_bin::decode_is_nil_request(&bytes).expect("decode failed");
    opt_envelopes_equal(&req.encrypted, &back.encrypted);
    assert_eq!(req.proof_text, back.proof_text);
}

#[test]
fn binary_responses_round_trip() {
    let resp = DecryptResponse { decrypted: "00ff".to_string(), signature: "ab".to_string() };
    let bytes = codec_bin::encode_decrypt_response(&resp);
    let back = codec_bin::decode_decrypt_response(&bytes).expect("decode failed");
    assert_eq!(resp.decrypted, back.decrypted);
    assert_eq!(resp.signature, back.signature);

    let resp = ReencryptResponse { reencrypted: "cafe".to_string(), signature: "ab".to_string() };
    let bytes = codec_bin::encode_reencrypt_response(&resp);
    let back = codec_bin::decode_reencrypt_response(&bytes).expect("decode failed");
    assert_eq!(resp.reencrypted, back.reencrypted);
    assert_eq!(resp.signature, back.signature);

    for is_nil in [true, false] {
        let resp = IsNilResponse { is_nil, signature: "ab".to_string() };
        let bytes = codec_bin::encode_is_nil_response(&resp);
        let back = codec_bin::decode_is_nil_response(&bytes).expect("decode failed");
        assert_eq!(resp.is_nil, back.is_nil);
        assert_eq!(resp.signature, back.signature);
    }
}

#[test]
fn binary_decoder_rejects_trailing_bytes() {
    let mut bytes = codec_bin::encode_envelope(&sample_envelope());
    bytes.push(0x00);
    assert!(codec_bin::decode_envelope(&bytes).is_none());
}

#[test]
fn json_envelope_has_expected_text() {
    let env = FheEncrypted { data: vec![0x0a, 0xff], width: EncryptedType::Uint16 };
    let text = codec_json::encode_envelope_json(&env);
    assert_eq!(text, "{\"data\":\"0aff\",\"type\":\"Uint16\"}");
    let back = codec_json::decode_envelope_json(&text).expect("decode failed");
    envelopes_equal(&env, &back);
}

#[test]
fn json_requests_round_trip() {
    let req = DecryptRequest {
        encrypted: Some(sample_envelope()),
        proof_text: "quote \" slash \\ tab \t end".to_string(),
    };
    let text = codec_json::encode_decrypt_request_json(&req);
    let back = codec_json::decode_decrypt_request_json(&text).expect("decode failed");
    opt_envelopes_equal(&req.encrypted, &back.encrypted);
    assert_eq!(req.proof_text, back.proof_text);

    let req = DecryptRequest { encrypted: None, proof_text: "p".to_string() };
    let text = codec_json::encode_decrypt_request_json(&req);
    assert_eq!(text, "{\"encrypted\":null,\"proof\":\"p\"}");
    let back = codec_json::decode_decrypt_request_json(&text).expect("decode failed");
    opt_envelopes_equal(&req.encrypted, &back.encrypted);
    assert_eq!(req.proof_text, back.proof_text);

    let req = ReencryptRequest {
        encrypted: Some(sample_envelope()),
        user_public_key: "00ff".to_string(),
        proof_text: "p".to_string(),
    };
    let text = codec_json::encode_reencrypt_request_json(&req);
    let back = codec_json::decode_reencrypt_request_json(&text).expect("decode failed");
    opt_envelopes_equal(&req.encrypted, &back.encrypted);
    assert_eq!(req.user_public_key, back.user_public_key);
    assert_eq!(req.proof_text, back.proof_text);

    let req = IsNilRequest { encrypted: Some(sample_envelope()), proof_text: "p".to_string() };
    let text = codec_json::encode_is_nil_request_json(&req);
    let back = codec_json::decode_is_nil_request_json(&text).expect("decode failed");
    opt_envelopes_equal(&req.encrypted, &back.encrypted);
    assert_eq!(req.proof_text, back.proof_text);
}

#[test]
fn json_responses_round_trip() {
    let resp = DecryptResponse { decrypted: "00ff".to_string(), signature: "ab".to_string() };
    let text = codec_json::encode_decrypt_response_json(&resp);
    assert_eq!(text, "{\"decrypted\":\"00ff\",\"signature\":\"ab\"}");
    let back = codec_json::decode_decrypt_response_json(&text).expect("decode failed");
    assert_eq!(resp.decrypted, back.decrypted);
    assert_eq!(resp.signature, back.signature);

    let resp = ReencryptResponse { reencrypted: "cafe".to_string(), signature: "ab".to_string() };
    let text = codec_json::encode_reencrypt_response_json(&resp);
    let back = codec_json::decode_reencrypt_response_json(&text).expect("decode failed");
    assert_eq!(resp.reencrypted, back.reencrypted);
    assert_eq!(resp.signature, back.signature);

    for is_nil in [true, false] {
        let resp = IsNilResponse { is_nil, signature: "sig".to_string() };
        let text = codec_json::encode_is_nil_response_json(&resp);
        let back = codec_json::decode_is_nil_response_json(&text).expect("decode failed");
        assert_eq!(resp.is_nil, back.is_nil);
        assert_eq!(resp.signature, back.signature);
    }
}

#[test]
fn json_string_escaping_round_trips_control_chars() {
    let req = DecryptRequest {
        encrypted: None,
        proof_text: "\u{0}\u{1f}\nmixed \u{7} text".to_string(),
    };
    let text = codec_json::encode_decrypt_request_json(&req);
    let back = codec_json::decode_decrypt_request_json(&text).expect("decode failed");
    assert_eq!(req.proof_text, back.proof_text);
}

#[test]
fn json_decoder_rejects_malformed_input() {
    assert!(codec_json::decode_decrypt_request_json("{}").is_none());
    assert!(codec_json::decode_decrypt_request_json("").is_none());
    assert!(
        codec_json::decode_envelope_json("{\"data\":\"zz\",\"type\":\"Uint16\"}").is_none()
    );
    assert!(
        codec_json::decode_envelope_json("{\"data\":\"0a\",\"type\":\"Uint9\"}").is_none()
    );
    let mut text = codec_json::encode_envelope_json(&sample_envelope());
    text.push(' ');
    assert!(codec_json::decode_envelope_json(&text).is_none());
}

#[test]
fn both_codecs_decode_to_identical_request_values() {
    let req = ReencryptRequest {
        encrypted: Some(sample_envelope()),
        user_public_key: "00ff".to_string(),
        proof_text: "proof material".to_string(),
    };
    let from_bin = codec_bin::decode_reencrypt_request(
        &codec_bin::encode_reencrypt_request(&req),
    )
    .expect("binary decode failed");
    let from_json = codec_json::decode_reencrypt_request_json(
        &codec_json::encode_reencrypt_request_json(&req),
    )
    .expect("json decode failed");
    opt_envelopes_equal(&from_bin.encrypted, &from_json.encrypted);
    assert_eq!(from_bin.user_public_key, from_json.user_public_key);
    assert_eq!(from_bin.proof_text, from_json.proof_text);

    let resp = IsNilResponse { is_nil: true, signature: "s".to_string() };
    let from_bin = codec_bin::decode_is_nil_response(&codec_bin::encode_is_nil_response(&resp))
        .expect("binary decode failed");
    let from_json = codec_json::decode_is_nil_response_json(
        &codec_json::encode_is_nil_response_json(&resp),
    )
    .expect("json decode failed");
    assert_eq!(from_bin.is_nil, from_json.is_nil);
    assert_eq!(from_bin.signature, from_json.signature);
}
