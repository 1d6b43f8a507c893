use decryption_oracle::engine::{
    create_context, decryptor, encryptor, evaluator, keygen_bootstrap, keygen_public,
    keygen_secret, public_encryptor, ParamSet,
};

fn params() -> ParamSet {
    ParamSet { key_len: 32, seed: 0x5eed }
}

#[test]
fn test_context_creation() {
    let _ctx = create_context(params()).expect("Failed to create context");
}

#[test]
fn test_key_generation() {
    let ctx = create_context(params()).expect("Failed to create context");
    let sk = keygen_secret(&ctx).expect("Failed to generate secret key");
    let _pk = keygen_public(&ctx, &sk).expect("Failed to generate public key");
    let _bk = keygen_bootstrap(&ctx, &sk).expect("Failed to generate bootstrap key");
}

#[test]
fn test_encrypt_decrypt_bool() {
    let ctx = create_context(params()).expect("Failed to create context");
    let sk = keygen_secret(&ctx).expect("Failed to generate secret key");
    let enc = encryptor(&ctx, &sk).expect("Failed to create encryptor");
    let dec = decryptor(&ctx, &sk).expect("Failed to create decryptor");

    let ct = enc.encrypt_bool(true).expect("Failed to encrypt true");
    assert_eq!(dec.decrypt_bool(&ct).expect("Failed to decrypt"), true);

    let cf = enc.encrypt_bool(false).expect("Failed to encrypt false");
    assert_eq!(dec.decrypt_bool(&cf).expect("Failed to decrypt"), false);
}

#[test]
fn test_public_key_encryption() {
    let ctx = create_context(params()).expect("Failed to create context");
    let sk = keygen_secret(&ctx).expect("Failed to generate secret key");
    let pk = keygen_public(&ctx, &sk).expect("Failed to generate public key");
    let enc = public_encryptor(&ctx, &pk).expect("Failed to create public encryptor");
    let dec = decryptor(&ctx, &sk).expect("Failed to create decryptor");

    let ct = enc.encrypt_bool(true).expect("Failed to encrypt");
    assert_eq!(dec.decrypt_bool(&ct).expect("Failed to decrypt"), true);
}

#[test]
fn test_gate_operations() {
    let ctx = create_context(params()).expect("Failed to create context");
    let sk = keygen_secret(&ctx).expect("Failed to generate secret key");
    let bk = keygen_bootstrap(&ctx, &sk).expect("Failed to generate bootstrap key");
    let enc = encryptor(&ctx, &sk).expect("Failed to create encryptor");
    let dec = decryptor(&ctx, &sk).expect("Failed to create decryptor");
    let ev = evaluator(&ctx, &bk, &sk).expect("Failed to create evaluator");

    let t = enc.encrypt_bool(true).expect("Failed to encrypt");
    let f = enc.encrypt_bool(false).expect("Failed to encrypt");

    let and_tf = ev.and(&t, &f).expect("AND failed");
    assert_eq!(dec.decrypt_bool(&and_tf).unwrap(), false);

    let or_tf = ev.or(&t, &f).expect("OR failed");
    assert_eq!(dec.decrypt_bool(&or_tf).unwrap(), true);

    let xor_tf = ev.xor(&t, &f).expect("XOR failed");
    assert_eq!(dec.decrypt_bool(&xor_tf).unwrap(), true);

    let not_t = ev.not(&t).expect("NOT failed");
    assert_eq!(dec.decrypt_bool(&not_t).unwrap(), false);

    let nand_tt = ev.nand(&t, &t).expect("NAND failed");
    assert_eq!(dec.decrypt_bool(&nand_tt).unwrap(), false);
}
