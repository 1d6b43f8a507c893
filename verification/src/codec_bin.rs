//! The binary wire codec: the schema's messages under the standard
//! tag/varint/length-delimited encoding with integer field tags.
//!
//! Encoding is canonical: fields appear in tag order and a field holding its
//! default value (empty bytes, empty string, ordinal zero, false, absent
//! message) is not emitted. Decoding is strict: it accepts fields only in
//! tag order and rejects trailing bytes, so whatever decodes re-encodes to
//! what was read. The round-trip lemmas state that decoding undoes encoding
//! for every message value.

use vstd::prelude::*;

verus! {

use vstd::string::StringSliceAdditionalSpecFns;
use vstd::utf8::{
    decode_utf8, encode_utf8, encode_utf8_decode_utf8, encode_utf8_valid_utf8, valid_utf8,
};
use crate::envelope::{lemma_width_name_roundtrip, EncryptedType, EnvelopeModel, FheEncrypted};
use crate::messages::{
    DecryptRequest, DecryptRequestModel, DecryptResponse, DecryptResponseModel, IsNilRequest,
    IsNilRequestModel, IsNilResponse, IsNilResponseModel, ReencryptRequest,
    ReencryptRequestModel, ReencryptResponse, ReencryptResponseModel,
};
use crate::textutil::{bytes_to_string, push_bytes};
use crate::varint::{lemma_varint_roundtrip, parse_varint, varint, varint_read, varint_write};

// Tag bytes (field number shifted left three, low bits the wire type):
// 0x0a tags field one length-delimited, 0x12 field two length-delimited,
// 0x1a field three length-delimited, 0x10 field two varint, 0x08 field one
// varint.

/// A length-delimited field, skipped when its content is empty.
pub open spec fn enc_bytes_field(tag: u8, b: Seq<u8>) -> Seq<u8> {
    if b.len() == 0 {
        Seq::empty()
    } else {
        seq![tag] + varint(b.len()) + b
    }
}

/// A string field: its UTF-8 bytes, length-delimited, skipped when empty.
pub open spec fn enc_str_field(tag: u8, s: Seq<char>) -> Seq<u8> {
    enc_bytes_field(tag, encode_utf8(s))
}

/// A varint field, skipped when its value is zero.
pub open spec fn enc_varint_field(tag: u8, n: nat) -> Seq<u8> {
    if n == 0 {
        Seq::empty()
    } else {
        seq![tag] + varint(n)
    }
}

/// Canonical byte image of an envelope: payload bytes at field one, width
/// ordinal at field two.
pub open spec fn spec_enc_envelope(e: EnvelopeModel) -> Seq<u8> {
    enc_bytes_field(0x0a, e.data) + enc_varint_field(0x10, e.width.spec_ordinal() as nat)
}

/// An optional embedded message field: the submessage's image,
/// length-delimited; absent when the option is.
pub open spec fn enc_envelope_field(tag: u8, e: Option<EnvelopeModel>) -> Seq<u8> {
    match e {
        None => Seq::empty(),
        Some(e) => seq![tag] + varint(spec_enc_envelope(e).len()) + spec_enc_envelope(e),
    }
}

pub open spec fn spec_enc_decrypt_request(m: DecryptRequestModel) -> Seq<u8> {
    enc_envelope_field(0x0a, m.encrypted) + enc_str_field(0x12, m.proof_text)
}

pub open spec fn spec_enc_is_nil_request(m: IsNilRequestModel) -> Seq<u8> {
    enc_envelope_field(0x0a, m.encrypted) + enc_str_field(0x12, m.proof_text)
}

pub open spec fn spec_enc_reencrypt_request(m: ReencryptRequestModel) -> Seq<u8> {
    enc_envelope_field(0x0a, m.encrypted) + enc_str_field(0x12, m.user_public_key)
        + enc_str_field(0x1a, m.proof_text)
}

pub open spec fn spec_enc_decrypt_response(m: DecryptResponseModel) -> Seq<u8> {
    enc_str_field(0x0a, m.decrypted) + enc_str_field(0x12, m.signature)
}

pub open spec fn spec_enc_reencrypt_response(m: ReencryptResponseModel) -> Seq<u8> {
    enc_str_field(0x0a, m.reencrypted) + enc_str_field(0x12, m.signature)
}

pub open spec fn spec_enc_is_nil_response(m: IsNilResponseModel) -> Seq<u8> {
    enc_varint_field(0x08, if m.is_nil {
        1nat
    } else {
        0nat
    }) + enc_str_field(0x12, m.signature)
}

/// Parse of one length-delimited payload (its length varint already at the
/// front): the content and what follows.
pub open spec fn parse_len_payload(t: Seq<u8>) -> Option<(Seq<u8>, Seq<u8>)> {
    match parse_varint(t) {
        Some((n, r)) => if n <= r.len() {
            Some((r.take(n as int), r.skip(n as int)))
        } else {
            None
        },
        None => None,
    }
}

/// Parse of an optional length-delimited field at the front of `t`: the
/// content (empty when absent) and what follows.
pub open spec fn parse_bytes_field(t: Seq<u8>, tag: u8) -> Option<(Seq<u8>, Seq<u8>)> {
    if t.len() > 0 && t[0] == tag {
        parse_len_payload(t.drop_first())
    } else {
        Some((Seq::empty(), t))
    }
}

/// Parse of an optional string field: the characters (empty when absent)
/// and what follows; rejects content that is no valid UTF-8.
pub open spec fn parse_str_field(t: Seq<u8>, tag: u8) -> Option<(Seq<char>, Seq<u8>)> {
    match parse_bytes_field(t, tag) {
        Some((b, rest)) => if valid_utf8(b) {
            Some((decode_utf8(b), rest))
        } else {
            None
        },
        None => None,
    }
}

/// Parse of an optional varint field: the value (zero when absent) and what
/// follows.
pub open spec fn parse_varint_field(t: Seq<u8>, tag: u8) -> Option<(nat, Seq<u8>)> {
    if t.len() > 0 && t[0] == tag {
        parse_varint(t.drop_first())
    } else {
        Some((0nat, t))
    }
}

/// Strict decode of an envelope from exactly `t`.
pub open spec fn spec_dec_envelope(t: Seq<u8>) -> Option<EnvelopeModel> {
    match parse_bytes_field(t, 0x0a) {
        Some((data, t1)) => match parse_varint_field(t1, 0x10) {
            Some((ord, t2)) => match EncryptedType::spec_from_ordinal(ord as int) {
                Some(w) => if t2.len() == 0 {
                    Some(EnvelopeModel { data, width: w })
                } else {
                    None
                },
                None => None,
            },
            None => None,
        },
        None => None,
    }
}

/// Parse of an optional embedded envelope field.
pub open spec fn parse_envelope_field(t: Seq<u8>, tag: u8) -> Option<
    (Option<EnvelopeModel>, Seq<u8>),
> {
    if t.len() > 0 && t[0] == tag {
        match parse_len_payload(t.drop_first()) {
            Some((sub, rest)) => match spec_dec_envelope(sub) {
                Some(e) => Some((Some(e), rest)),
                None => None,
            },
            None => None,
        }
    } else {
        Some((None, t))
    }
}

pub open spec fn spec_dec_decrypt_request(t: Seq<u8>) -> Option<DecryptRequestModel> {
    match parse_envelope_field(t, 0x0a) {
        Some((env, t1)) => match parse_str_field(t1, 0x12) {
            Some((pf, t2)) => if t2.len() == 0 {
                Some(DecryptRequestModel { encrypted: env, proof_text: pf })
            } else {
                None
            },
            None => None,
        },
        None => None,
    }
}

pub open spec fn spec_dec_is_nil_request(t: Seq<u8>) -> Option<IsNilRequestModel> {
    match parse_envelope_field(t, 0x0a) {
        Some((env, t1)) => match parse_str_field(t1, 0x12) {
            Some((pf, t2)) => if t2.len() == 0 {
                Some(IsNilRequestModel { encrypted: env, proof_text: pf })
            } else {
                None
            },
            None => None,
        },
        None => None,
    }
}

pub open spec fn spec_dec_reencrypt_request(t: Seq<u8>) -> Option<ReencryptRequestModel> {
    match parse_envelope_field(t, 0x0a) {
        Some((env, t1)) => match parse_str_field(t1, 0x12) {
            Some((upk, t2)) => match parse_str_field(t2, 0x1a) {
                Some((pf, t3)) => if t3.len() == 0 {
                    Some(
                        ReencryptRequestModel {
                            encrypted: env,
                            user_public_key: upk,
                            proof_text: pf,
                        },
                    )
                } else {
                    None
                },
                None => None,
            },
            None => None,
        },
        None => None,
    }
}

pub open spec fn spec_dec_decrypt_response(t: Seq<u8>) -> Option<DecryptResponseModel> {
    match parse_str_field(t, 0x0a) {
        Some((d, t1)) => match parse_str_field(t1, 0x12) {
            Some((sig, t2)) => if t2.len() == 0 {
                Some(DecryptResponseModel { decrypted: d, signature: sig })
            } else {
                None
            },
            None => None,
        },
        None => None,
    }
}

pub open spec fn spec_dec_reencrypt_response(t: Seq<u8>) -> Option<ReencryptResponseModel> {
    match parse_str_field(t, 0x0a) {
        Some((d, t1)) => match parse_str_field(t1, 0x12) {
            Some((sig, t2)) => if t2.len() == 0 {
                Some(ReencryptResponseModel { reencrypted: d, signature: sig })
            } else {
                None
            },
            None => None,
        },
        None => None,
    }
}

pub open spec fn spec_dec_is_nil_response(t: Seq<u8>) -> Option<IsNilResponseModel> {
    match parse_varint_field(t, 0x08) {
        Some((n, t1)) => if n <= 1 {
            match parse_str_field(t1, 0x12) {
                Some((sig, t2)) => if t2.len() == 0 {
                    Some(IsNilResponseModel { is_nil: n == 1, signature: sig })
                } else {
                    None
                },
                None => None,
            }
        } else {
            None
        },
        None => None,
    }
}

// ------------------------------------------------------------------
// Round-trip lemmas: strict decoding undoes canonical encoding.
// ------------------------------------------------------------------

proof fn lemma_parse_len_payload_roundtrip(b: Seq<u8>, rest: Seq<u8>)
    ensures
        parse_len_payload(varint(b.len()) + (b + rest)) == Some((b, rest)),
{
    lemma_varint_roundtrip(b.len(), b + rest);
    assert((b + rest).take(b.len() as int) =~= b);
    assert((b + rest).skip(b.len() as int) =~= rest);
}

/// The empty character sequence is the only one with an empty encoding.
proof fn lemma_encode_utf8_empty(s: Seq<char>)
    requires
        encode_utf8(s).len() == 0,
    ensures
        s == Seq::<char>::empty(),
{
    encode_utf8_decode_utf8(s);
    assert(encode_utf8(s) =~= Seq::<u8>::empty());
    assert(decode_utf8(Seq::<u8>::empty()) =~= Seq::<char>::empty());
}

proof fn lemma_bytes_field_roundtrip(tag: u8, b: Seq<u8>, rest: Seq<u8>)
    requires
        rest.len() == 0 || rest[0] != tag,
    ensures
        parse_bytes_field(enc_bytes_field(tag, b) + rest, tag) == Some((b, rest)),
{
    if b.len() == 0 {
        assert(enc_bytes_field(tag, b) + rest =~= rest);
        assert(b =~= Seq::<u8>::empty());
    } else {
        let t = enc_bytes_field(tag, b) + rest;
        assert(t[0] == tag);
        assert(t.drop_first() =~= varint(b.len()) + (b + rest));
        lemma_parse_len_payload_roundtrip(b, rest);
    }
}

proof fn lemma_str_field_roundtrip(tag: u8, s: Seq<char>, rest: Seq<u8>)
    requires
        rest.len() == 0 || rest[0] != tag,
    ensures
        parse_str_field(enc_str_field(tag, s) + rest, tag) == Some((s, rest)),
{
    let u = encode_utf8(s);
    lemma_bytes_field_roundtrip(tag, u, rest);
    encode_utf8_valid_utf8(s);
    encode_utf8_decode_utf8(s);
    if u.len() == 0 {
        lemma_encode_utf8_empty(s);
        assert(valid_utf8(Seq::<u8>::empty()));
        assert(decode_utf8(Seq::<u8>::empty()) =~= Seq::<char>::empty());
    }
}

proof fn lemma_varint_field_roundtrip(tag: u8, n: nat, rest: Seq<u8>)
    requires
        rest.len() == 0 || rest[0] != tag,
    ensures
        parse_varint_field(enc_varint_field(tag, n) + rest, tag) == Some((n, rest)),
{
    if n == 0 {
        assert(enc_varint_field(tag, n) + rest =~= rest);
    } else {
        let t = enc_varint_field(tag, n) + rest;
        assert(t[0] == tag);
        assert(t.drop_first() =~= varint(n) + rest);
        lemma_varint_roundtrip(n, rest);
    }
}

/// Strict decoding undoes canonical encoding of an envelope.
pub proof fn lemma_envelope_bin_roundtrip(e: EnvelopeModel)
    ensures
        spec_dec_envelope(spec_enc_envelope(e)) == Some(e),
{
    let ord = e.width.spec_ordinal() as nat;
    let wenc = enc_varint_field(0x10, ord);
    if wenc.len() > 0 {
        assert(wenc[0] == 0x10);
    }
    lemma_bytes_field_roundtrip(0x0a, e.data, wenc);
    assert(enc_bytes_field(0x0a, e.data) + wenc =~= spec_enc_envelope(e));
    lemma_varint_field_roundtrip(0x10, ord, Seq::<u8>::empty());
    assert(enc_varint_field(0x10, ord) + Seq::<u8>::empty() =~= wenc);
    lemma_width_name_roundtrip(e.width);
}

/// Canonical envelope images are injective: one image, one envelope.
pub proof fn lemma_enc_envelope_injective(e1: EnvelopeModel, e2: EnvelopeModel)
    requires
        spec_enc_envelope(e1) == spec_enc_envelope(e2),
    ensures
        e1 == e2,
{
    lemma_envelope_bin_roundtrip(e1);
    lemma_envelope_bin_roundtrip(e2);
}

proof fn lemma_envelope_field_roundtrip(tag: u8, e: Option<EnvelopeModel>, rest: Seq<u8>)
    requires
        rest.len() == 0 || rest[0] != tag,
    ensures
        parse_envelope_field(enc_envelope_field(tag, e) + rest, tag) == Some((e, rest)),
{
    match e {
        None => {
            assert(enc_envelope_field(tag, e) + rest =~= rest);
        },
        Some(env) => {
            let sub = spec_enc_envelope(env);
            let t = enc_envelope_field(tag, e) + rest;
            assert(t[0] == tag);
            assert(t.drop_first() =~= varint(sub.len()) + (sub + rest));
            lemma_parse_len_payload_roundtrip(sub, rest);
            lemma_envelope_bin_roundtrip(env);
        },
    }
}

/// Decoding undoes encoding for every decrypt request.
pub proof fn lemma_decrypt_request_bin_roundtrip(m: DecryptRequestModel)
    ensures
        spec_dec_decrypt_request(spec_enc_decrypt_request(m)) == Some(m),
{
    let pf = enc_str_field(0x12, m.proof_text);
    if pf.len() > 0 {
        assert(pf[0] == 0x12);
    }
    lemma_envelope_field_roundtrip(0x0a, m.encrypted, pf);
    assert(enc_envelope_field(0x0a, m.encrypted) + pf =~= spec_enc_decrypt_request(m));
    lemma_str_field_roundtrip(0x12, m.proof_text, Seq::<u8>::empty());
    assert(enc_str_field(0x12, m.proof_text) + Seq::<u8>::empty() =~= pf);
}

/// Decoding undoes encoding for every nil-assertion request.
pub proof fn lemma_is_nil_request_bin_roundtrip(m: IsNilRequestModel)
    ensures
        spec_dec_is_nil_request(spec_enc_is_nil_request(m)) == Some(m),
{
    let pf = enc_str_field(0x12, m.proof_text);
    if pf.len() > 0 {
        assert(pf[0] == 0x12);
    }
    lemma_envelope_field_roundtrip(0x0a, m.encrypted, pf);
    assert(enc_envelope_field(0x0a, m.encrypted) + pf =~= spec_enc_is_nil_request(m));
    lemma_str_field_roundtrip(0x12, m.proof_text, Seq::<u8>::empty());
    assert(enc_str_field(0x12, m.proof_text) + Seq::<u8>::empty() =~= pf);
}

/// Decoding undoes encoding for every re-encrypt request.
pub proof fn lemma_reencrypt_request_bin_roundtrip(m: ReencryptRequestModel)
    ensures
        spec_dec_reencrypt_request(spec_enc_reencrypt_request(m)) == Some(m),
{
    let upk = enc_str_field(0x12, m.user_public_key);
    let pf = enc_str_field(0x1a, m.proof_text);
    if upk.len() > 0 {
        assert(upk[0] == 0x12);
    }
    if pf.len() > 0 {
        assert(pf[0] == 0x1a);
    }
    let tail = upk + pf;
    if tail.len() > 0 {
        assert(tail[0] != 0x0a);
    }
    lemma_envelope_field_roundtrip(0x0a, m.encrypted, tail);
    assert(enc_envelope_field(0x0a, m.encrypted) + tail =~= spec_enc_reencrypt_request(m));
    lemma_str_field_roundtrip(0x12, m.user_public_key, pf);
    assert(enc_str_field(0x12, m.user_public_key) + pf =~= tail);
    lemma_str_field_roundtrip(0x1a, m.proof_text, Seq::<u8>::empty());
    assert(enc_str_field(0x1a, m.proof_text) + Seq::<u8>::empty() =~= pf);
}

/// Decoding undoes encoding for every decrypt response.
pub proof fn lemma_decrypt_response_bin_roundtrip(m: DecryptResponseModel)
    ensures
        spec_dec_decrypt_response(spec_enc_decrypt_response(m)) == Some(m),
{
    let sig = enc_str_field(0x12, m.signature);
    if sig.len() > 0 {
        assert(sig[0] == 0x12);
    }
    lemma_str_field_roundtrip(0x0a, m.decrypted, sig);
    assert(enc_str_field(0x0a, m.decrypted) + sig =~= spec_enc_decrypt_response(m));
    lemma_str_field_roundtrip(0x12, m.signature, Seq::<u8>::empty());
    assert(enc_str_field(0x12, m.signature) + Seq::<u8>::empty() =~= sig);
}

/// Decoding undoes encoding for every re-encrypt response.
pub proof fn lemma_reencrypt_response_bin_roundtrip(m: ReencryptResponseModel)
    ensures
        spec_dec_reencrypt_response(spec_enc_reencrypt_response(m)) == Some(m),
{
    let sig = enc_str_field(0x12, m.signature);
    if sig.len() > 0 {
        assert(sig[0] == 0x12);
    }
    lemma_str_field_roundtrip(0x0a, m.reencrypted, sig);
    assert(enc_str_field(0x0a, m.reencrypted) + sig =~= spec_enc_reencrypt_response(m));
    lemma_str_field_roundtrip(0x12, m.signature, Seq::<u8>::empty());
    assert(enc_str_field(0x12, m.signature) + Seq::<u8>::empty() =~= sig);
}

/// Decoding undoes encoding for every nil-assertion response.
pub proof fn lemma_is_nil_response_bin_roundtrip(m: IsNilResponseModel)
    ensures
        spec_dec_is_nil_response(spec_enc_is_nil_response(m)) == Some(m),
{
    let flag: nat = if m.is_nil {
        1nat
    } else {
        0nat
    };
    let sig = enc_str_field(0x12, m.signature);
    if sig.len() > 0 {
        assert(sig[0] == 0x12);
    }
    lemma_varint_field_roundtrip(0x08, flag, sig);
    assert(enc_varint_field(0x08, flag) + sig =~= spec_enc_is_nil_response(m));
    lemma_str_field_roundtrip(0x12, m.signature, Seq::<u8>::empty());
    assert(enc_str_field(0x12, m.signature) + Seq::<u8>::empty() =~= sig);
}

// ------------------------------------------------------------------
// Executable encoders.
// ------------------------------------------------------------------

/// Writes a length-delimited field, skipping empty content.
fn write_bytes_field(out: &mut Vec<u8>, tag: u8, b: &[u8])
    ensures
        final(out)@ == old(out)@ + enc_bytes_field(tag, b@),
{
    if b.len() > 0 {
        out.push(tag);
        varint_write(out, b.len() as u64);
        push_bytes(out, b);
        proof {
            assert(out@ =~= old(out)@ + enc_bytes_field(tag, b@));
        }
    } else {
        proof {
            assert(out@ =~= old(out)@ + enc_bytes_field(tag, b@));
        }
    }
}

/// Writes a string field, skipping the empty string.
fn write_str_field(out: &mut Vec<u8>, tag: u8, s: &str)
    ensures
        final(out)@ == old(out)@ + enc_str_field(tag, s@),
{
    write_bytes_field(out, tag, s.as_bytes());
}

/// Writes a varint field, skipping value zero.
fn write_varint_field(out: &mut Vec<u8>, tag: u8, n: u64)
    ensures
        final(out)@ == old(out)@ + enc_varint_field(tag, n as nat),
{
    if n > 0 {
        out.push(tag);
        varint_write(out, n);
        proof {
            assert(out@ =~= old(out)@ + enc_varint_field(tag, n as nat));
        }
    } else {
        proof {
            assert(out@ =~= old(out)@ + enc_varint_field(tag, n as nat));
        }
    }
}

/// Canonical binary image of an envelope.
pub fn encode_envelope(e: &FheEncrypted) -> (r: Vec<u8>)
    ensures
        r@ == spec_enc_envelope(e@),
{
    let mut out: Vec<u8> = Vec::new();
    write_bytes_field(&mut out, 0x0a, e.data.as_slice());
    write_varint_field(&mut out, 0x10, e.width.ordinal());
    proof {
        assert(out@ =~= spec_enc_envelope(e@));
    }
    out
}

/// Writes an optional embedded envelope field.
fn write_envelope_field(out: &mut Vec<u8>, tag: u8, e: &Option<FheEncrypted>)
    ensures
        final(out)@ == old(out)@ + enc_envelope_field(
            tag,
            match e {
                Some(env) => Some(env@),
                None => None,
            },
        ),
{
    match e {
        None => {
            proof {
                assert(out@ =~= old(out)@ + Seq::<u8>::empty());
            }
        },
        Some(env) => {
            let sub = encode_envelope(env);
            out.push(tag);
            varint_write(out, sub.len() as u64);
            push_bytes(out, sub.as_slice());
            proof {
                assert(out@ =~= old(out)@ + enc_envelope_field(tag, Some(env@)));
            }
        },
    }
}

/// Binary encoding of a decrypt request.
pub fn encode_decrypt_request(m: &DecryptRequest) -> (r: Vec<u8>)
    ensures
        r@ == spec_enc_decrypt_request(m@),
{
    let mut out: Vec<u8> = Vec::new();
    write_envelope_field(&mut out, 0x0a, &m.encrypted);
    write_str_field(&mut out, 0x12, m.proof_text.as_str());
    proof {
        assert(out@ =~= spec_enc_decrypt_request(m@));
    }
    out
}

/// Binary encoding of a nil-assertion request.
pub fn encode_is_nil_request(m: &IsNilRequest) -> (r: Vec<u8>)
    ensures
        r@ == spec_enc_is_nil_request(m@),
{
    let mut out: Vec<u8> = Vec::new();
    write_envelope_field(&mut out, 0x0a, &m.encrypted);
    write_str_field(&mut out, 0x12, m.proof_text.as_str());
    proof {
        assert(out@ =~= spec_enc_is_nil_request(m@));
    }
    out
}

/// Binary encoding of a re-encrypt request.
pub fn encode_reencrypt_request(m: &ReencryptRequest) -> (r: Vec<u8>)
    ensures
        r@ == spec_enc_reencrypt_request(m@),
{
    let mut out: Vec<u8> = Vec::new();
    write_envelope_field(&mut out, 0x0a, &m.encrypted);
    write_str_field(&mut out, 0x12, m.user_public_key.as_str());
    write_str_field(&mut out, 0x1a, m.proof_text.as_str());
    proof {
        assert(out@ =~= spec_enc_reencrypt_request(m@));
    }
    out
}

/// Binary encoding of a decrypt response.
pub fn encode_decrypt_response(m: &DecryptResponse) -> (r: Vec<u8>)
    ensures
        r@ == spec_enc_decrypt_response(m@),
{
    let mut out: Vec<u8> = Vec::new();
    write_str_field(&mut out, 0x0a, m.decrypted.as_str());
    write_str_field(&mut out, 0x12, m.signature.as_str());
    proof {
        assert(out@ =~= spec_enc_decrypt_response(m@));
    }
    out
}

/// Binary encoding of a re-encrypt response.
pub fn encode_reencrypt_response(m: &ReencryptResponse) -> (r: Vec<u8>)
    ensures
        r@ == spec_enc_reencrypt_response(m@),
{
    let mut out: Vec<u8> = Vec::new();
    write_str_field(&mut out, 0x0a, m.reencrypted.as_str());
    write_str_field(&mut out, 0x12, m.signature.as_str());
    proof {
        assert(out@ =~= spec_enc_reencrypt_response(m@));
    }
    out
}

/// Binary encoding of a nil-assertion response.
pub fn encode_is_nil_response(m: &IsNilResponse) -> (r: Vec<u8>)
    ensures
        r@ == spec_enc_is_nil_response(m@),
{
    let mut out: Vec<u8> = Vec::new();
    write_varint_field(&mut out, 0x08, if m.is_nil {
        1
    } else {
        0
    });
    write_str_field(&mut out, 0x12, m.signature.as_str());
    proof {
        assert(out@ =~= spec_enc_is_nil_response(m@));
    }
    out
}

// ------------------------------------------------------------------
// Executable decoders.
// ------------------------------------------------------------------

/// The bytes of `s` between `from` and `to`, copied out.
fn copy_range(s: &[u8], from: usize, to: usize) -> (r: Vec<u8>)
    requires
        from <= to <= s@.len(),
    ensures
        r@ == s@.subrange(from as int, to as int),
{
    let mut r: Vec<u8> = Vec::new();
    let mut i: usize = from;
    while i < to
        invariant
            from <= i <= to <= s@.len(),
            r@ == s@.subrange(from as int, i as int),
        decreases to - i,
    {
        r.push(s[i]);
        proof {
            assert(r@ =~= s@.subrange(from as int, i + 1));
        }
        i += 1;
    }
    r
}

/// Reads one length-delimited payload at `pos` (its length varint first).
fn read_len_payload(s: &[u8], pos: usize) -> (r: Option<(Vec<u8>, usize)>)
    requires
        pos <= s@.len(),
    ensures
        match r {
            Some(p) => {
                &&& parse_len_payload(s@.skip(pos as int)) == Some(
                    (p.0@, s@.skip(p.1 as int)),
                )
                &&& pos <= p.1 <= s@.len()
            },
            None => parse_len_payload(s@.skip(pos as int)) is None,
        },
{
    match varint_read(s, pos) {
        None => {
            let slen: usize = s.len();
            proof {
                crate::varint::lemma_parse_varint_rest_len(s@.skip(pos as int));
                match parse_varint(s@.skip(pos as int)) {
                    Some(p) => {
                        assert(p.1.len() < s@.skip(pos as int).len());
                        assert(s@.skip(pos as int).len() <= slen);
                        assert(p.1.len() < p.0);
                    },
                    None => {},
                }
            }
            None
        },
        Some((n, np)) => {
            let remaining: usize = s.len() - np;
            if n > remaining as u64 {
                proof {
                    assert(s@.skip(np as int).len() == s@.len() - np);
                }
                None
            } else {
                let end: usize = np + (n as usize);
                let content = copy_range(s, np, end);
                proof {
                    let rest = s@.skip(np as int);
                    assert(rest.take(n as int) =~= s@.subrange(np as int, end as int));
                    assert(rest.skip(n as int) =~= s@.skip(end as int));
                }
                Some((content, end))
            }
        },
    }
}

/// Reads an optional length-delimited field at `pos`.
fn read_bytes_field(s: &[u8], pos: usize, tag: u8) -> (r: Option<(Vec<u8>, usize)>)
    requires
        pos <= s@.len(),
    ensures
        match r {
            Some(p) => {
                &&& parse_bytes_field(s@.skip(pos as int), tag) == Some(
                    (p.0@, s@.skip(p.1 as int)),
                )
                &&& pos <= p.1 <= s@.len()
            },
            None => parse_bytes_field(s@.skip(pos as int), tag) is None,
        },
{
    if pos < s.len() && s[pos] == tag {
        proof {
            assert(s@.skip(pos as int)[0] == s@[pos as int]);
            assert(s@.skip(pos as int).drop_first() =~= s@.skip(pos + 1));
        }
        read_len_payload(s, pos + 1)
    } else {
        proof {
            if pos < s@.len() {
                assert(s@.skip(pos as int)[0] == s@[pos as int]);
            }
        }
        Some((Vec::new(), pos))
    }
}

/// Reads an optional string field at `pos`.
fn read_str_field(s: &[u8], pos: usize, tag: u8) -> (r: Option<(String, usize)>)
    requires
        pos <= s@.len(),
    ensures
        match r {
            Some(p) => {
                &&& parse_str_field(s@.skip(pos as int), tag) == Some(
                    (p.0@, s@.skip(p.1 as int)),
                )
                &&& pos <= p.1 <= s@.len()
            },
            None => parse_str_field(s@.skip(pos as int), tag) is None,
        },
{
    match read_bytes_field(s, pos, tag) {
        None => None,
        Some((content, np)) => match bytes_to_string(content) {
            None => None,
            Some(st) => Some((st, np)),
        },
    }
}

/// Reads an optional varint field at `pos`.
fn read_varint_field(s: &[u8], pos: usize, tag: u8) -> (r: Option<(u64, usize)>)
    requires
        pos <= s@.len(),
    ensures
        match r {
            Some(p) => {
                &&& parse_varint_field(s@.skip(pos as int), tag) == Some(
                    (p.0 as nat, s@.skip(p.1 as int)),
                )
                &&& pos <= p.1 <= s@.len()
            },
            None => match parse_varint_field(s@.skip(pos as int), tag) {
                Some(p) => p.0 > u64::MAX,
                None => true,
            },
        },
{
    if pos < s.len() && s[pos] == tag {
        proof {
            assert(s@.skip(pos as int)[0] == s@[pos as int]);
            assert(s@.skip(pos as int).drop_first() =~= s@.skip(pos + 1));
        }
        varint_read(s, pos + 1)
    } else {
        proof {
            if pos < s@.len() {
                assert(s@.skip(pos as int)[0] == s@[pos as int]);
            }
        }
        Some((0, pos))
    }
}

/// Strict binary decode of an envelope from exactly `s`.
pub fn decode_envelope(s: &[u8]) -> (r: Option<FheEncrypted>)
    ensures
        match r {
            Some(e) => spec_dec_envelope(s@) == Some(e@),
            None => spec_dec_envelope(s@) is None,
        },
{
    proof {
        assert(s@.skip(0) =~= s@);
    }
    let (data, pos) = match read_bytes_field(s, 0, 0x0a) {
        None => {
            return None;
        },
        Some(p) => p,
    };
    let (ord, pos) = match read_varint_field(s, pos, 0x10) {
        None => {
            proof {
                match parse_varint_field(s@.skip(pos as int), 0x10) {
                    Some(p) => {
                        assert(EncryptedType::spec_from_ordinal(p.0 as int) is None);
                    },
                    None => {},
                }
            }
            return None;
        },
        Some(p) => p,
    };
    let width = match EncryptedType::from_ordinal(ord) {
        None => {
            return None;
        },
        Some(w) => w,
    };
    if pos != s.len() {
        return None;
    }
    proof {
        assert(s@.skip(pos as int).len() == 0);
    }
    Some(FheEncrypted { data, width })
}

/// Reads an optional embedded envelope field at `pos`.
fn read_envelope_field(s: &[u8], pos: usize, tag: u8) -> (r: Option<
    (Option<FheEncrypted>, usize),
>)
    requires
        pos <= s@.len(),
    ensures
        match r {
            Some(p) => {
                &&& parse_envelope_field(s@.skip(pos as int), tag) == Some(
                    (
                        match p.0 {
                            Some(e) => Some(e@),
                            None => None,
                        },
                        s@.skip(p.1 as int),
                    ),
                )
                &&& pos <= p.1 <= s@.len()
            },
            None => parse_envelope_field(s@.skip(pos as int), tag) is None,
        },
{
    if pos < s.len() && s[pos] == tag {
        proof {
            assert(s@.skip(pos as int)[0] == s@[pos as int]);
            assert(s@.skip(pos as int).drop_first() =~= s@.skip(pos + 1));
        }
        match read_len_payload(s, pos + 1) {
            None => None,
            Some((sub, np)) => match decode_envelope(sub.as_slice()) {
                None => None,
                Some(e) => Some((Some(e), np)),
            },
        }
    } else {
        proof {
            if pos < s@.len() {
                assert(s@.skip(pos as int)[0] == s@[pos as int]);
            }
        }
        Some((None, pos))
    }
}

/// Strict binary decode of a decrypt request from exactly `s`.
pub fn decode_decrypt_request(s: &[u8]) -> (r: Option<DecryptRequest>)
    ensures
        match r {
            Some(m) => spec_dec_decrypt_request(s@) == Some(m@),
            None => spec_dec_decrypt_request(s@) is None,
        },
{
    proof {
        assert(s@.skip(0) =~= s@);
    }
    let (encrypted, pos) = match read_envelope_field(s, 0, 0x0a) {
        None => {
            return None;
        },
        Some(p) => p,
    };
    let (proof_text, pos) = match read_str_field(s, pos, 0x12) {
        None => {
            return None;
        },
        Some(p) => p,
    };
    if pos != s.len() {
        return None;
    }
    proof {
        assert(s@.skip(pos as int).len() == 0);
    }
    Some(DecryptRequest { encrypted, proof_text })
}

/// Strict binary decode of a nil-assertion request from exactly `s`.
pub fn decode_is_nil_request(s: &[u8]) -> (r: Option<IsNilRequest>)
    ensures
        match r {
            Some(m) => spec_dec_is_nil_request(s@) == Some(m@),
            None => spec_dec_is_nil_request(s@) is None,
        },
{
    proof {
        assert(s@.skip(0) =~= s@);
    }
    let (encrypted, pos) = match read_envelope_field(s, 0, 0x0a) {
        None => {
            return None;
        },
        Some(p) => p,
    };
    let (proof_text, pos) = match read_str_field(s, pos, 0x12) {
        None => {
            return None;
        },
        Some(p) => p,
    };
    if pos != s.len() {
        return None;
    }
    proof {
        assert(s@.skip(pos as int).len() == 0);
    }
    Some(IsNilRequest { encrypted, proof_text })
}

/// Strict binary decode of a re-encrypt request from exactly `s`.
pub fn decode_reencrypt_request(s: &[u8]) -> (r: Option<ReencryptRequest>)
    ensures
        match r {
            Some(m) => spec_dec_reencrypt_request(s@) == Some(m@),
            None => spec_dec_reencrypt_request(s@) is None,
        },
{
    proof {
        assert(s@.skip(0) =~= s@);
    }
    let (encrypted, pos) = match read_envelope_field(s, 0, 0x0a) {
        None => {
            return None;
        },
        Some(p) => p,
    };
    let (user_public_key, pos) = match read_str_field(s, pos, 0x12) {
        None => {
            return None;
        },
        Some(p) => p,
    };
    let (proof_text, pos) = match read_str_field(s, pos, 0x1a) {
        None => {
            return None;
        },
        Some(p) => p,
    };
    if pos != s.len() {
        return None;
    }
    proof {
        assert(s@.skip(pos as int).len() == 0);
    }
    Some(ReencryptRequest { encrypted, user_public_key, proof_text })
}

/// Strict binary decode of a decrypt response from exactly `s`.
pub fn decode_decrypt_response(s: &[u8]) -> (r: Option<DecryptResponse>)
    ensures
        match r {
            Some(m) => spec_dec_decrypt_response(s@) == Some(m@),
            None => spec_dec_decrypt_response(s@) is None,
        },
{
    proof {
        assert(s@.skip(0) =~= s@);
    }
    let (decrypted, pos) = match read_str_field(s, 0, 0x0a) {
        None => {
            return None;
        },
        Some(p) => p,
    };
    let (signature, pos) = match read_str_field(s, pos, 0x12) {
        None => {
            return None;
        },
        Some(p) => p,
    };
    if pos != s.len() {
        return None;
    }
    proof {
        assert(s@.skip(pos as int).len() == 0);
    }
    Some(DecryptResponse { decrypted, signature })
}

/// Strict binary decode of a re-encrypt response from exactly `s`.
pub fn decode_reencrypt_response(s: &[u8]) -> (r: Option<ReencryptResponse>)
    ensures
        match r {
            Some(m) => spec_dec_reencrypt_response(s@) == Some(m@),
            None => spec_dec_reencrypt_response(s@) is None,
        },
{
    proof {
        assert(s@.skip(0) =~= s@);
    }
    let (reencrypted, pos) = match read_str_field(s, 0, 0x0a) {
        None => {
            return None;
        },
        Some(p) => p,
    };
    let (signature, pos) = match read_str_field(s, pos, 0x12) {
        None => {
            return None;
        },
        Some(p) => p,
    };
    if pos != s.len() {
        return None;
    }
    proof {
        assert(s@.skip(pos as int).len() == 0);
    }
    Some(ReencryptResponse { reencrypted, signature })
}

/// Strict binary decode of a nil-assertion response from exactly `s`.
pub fn decode_is_nil_response(s: &[u8]) -> (r: Option<IsNilResponse>)
    ensures
        match r {
            Some(m) => spec_dec_is_nil_response(s@) == Some(m@),
            None => spec_dec_is_nil_response(s@) is None,
        },
{
    proof {
        assert(s@.skip(0) =~= s@);
    }
    let (flag, pos) = match read_varint_field(s, 0, 0x08) {
        None => {
            return None;
        },
        Some(p) => p,
    };
    if flag > 1 {
        return None;
    }
    let (signature, pos) = match read_str_field(s, pos, 0x12) {
        None => {
            return None;
        },
        Some(p) => p,
    };
    if pos != s.len() {
        return None;
    }
    proof {
        assert(s@.skip(pos as int).len() == 0);
    }
    Some(IsNilResponse { is_nil: flag == 1, signature })
}

} // verus!
