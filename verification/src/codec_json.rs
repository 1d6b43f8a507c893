//! The JSON wire codec: the same logical schema as the binary codec, as
//! compact JSON objects with lower-case field names.
//!
//! The shape is hand-specified and canonical: every field present, in fixed
//! order, no whitespace; byte payloads spelled in lowercase hex; the width
//! discriminator as its symbolic name; an absent envelope as `null`. String
//! content escapes `"` and `\` with a backslash and a control character as
//! `\u00` plus two hex digits. Decoding is strict and the round-trip lemmas
//! state that it undoes encoding for every message value.

use vstd::prelude::*;

verus! {

use crate::envelope::{lemma_width_name_roundtrip, EncryptedType, EnvelopeModel, FheEncrypted};
use crate::hexcode::{
    hex_digit_char, hex_of, lemma_hex_digit_char, lemma_hex_roundtrip, unhex,
};
use crate::messages::{
    DecryptRequest, DecryptRequestModel, DecryptResponse, DecryptResponseModel, IsNilRequest,
    IsNilRequestModel, IsNilResponse, IsNilResponseModel, ReencryptRequest,
    ReencryptRequestModel, ReencryptResponse, ReencryptResponseModel,
};
use crate::textutil::{chars_to_string, str_chars};
use vstd::utf8::char_u32_cast;

// ------------------------------------------------------------------
// String escaping.
// ------------------------------------------------------------------

/// The spelling of one character inside a JSON string.
pub open spec fn esc_char(c: char) -> Seq<char> {
    if c == '"' {
        seq!['\\', '"']
    } else if c == '\\' {
        seq!['\\', '\\']
    } else if (c as u32) < 32 {
        seq![
            '\\',
            'u',
            '0',
            '0',
            hex_digit_char((c as u32) as int / 16),
            hex_digit_char((c as u32) as int % 16),
        ]
    } else {
        seq![c]
    }
}

/// The escaped spelling of a whole character sequence.
pub open spec fn esc_str(s: Seq<char>) -> Seq<char>
    decreases s.len(),
{
    if s.len() == 0 {
        Seq::empty()
    } else {
        esc_char(s[0]) + esc_str(s.drop_first())
    }
}

/// A JSON string's content followed by its closing quote.
pub open spec fn jstr(s: Seq<char>) -> Seq<char> {
    esc_str(s) + seq!['"']
}

/// Parse of a JSON string body up to and over its closing quote: the
/// unescaped content and what follows the quote.
pub open spec fn parse_jstring_body(t: Seq<char>) -> Option<(Seq<char>, Seq<char>)>
    decreases t.len(),
{
    if t.len() == 0 {
        None
    } else if t[0] == '"' {
        Some((Seq::empty(), t.drop_first()))
    } else if t[0] == '\\' {
        if t.len() < 2 {
            None
        } else if t[1] == '"' || t[1] == '\\' {
            match parse_jstring_body(t.skip(2)) {
                Some((s, rest)) => Some((seq![t[1]] + s, rest)),
                None => None,
            }
        } else if t[1] == 'u' {
            if t.len() < 6 {
                None
            } else if t[2] == '0' && t[3] == '0' && crate::hexcode::is_hex_char(t[4])
                && crate::hexcode::is_hex_char(t[5]) {
                let v = crate::hexcode::hex_char_val(t[4]) * 16 + crate::hexcode::hex_char_val(
                    t[5],
                );
                if v < 32 {
                    match parse_jstring_body(t.skip(6)) {
                        Some((s, rest)) => Some((seq![(v as u32) as char] + s, rest)),
                        None => None,
                    }
                } else {
                    None
                }
            } else {
                None
            }
        } else {
            None
        }
    } else if (t[0] as u32) < 32 {
        None
    } else {
        match parse_jstring_body(t.drop_first()) {
            Some((s, rest)) => Some((seq![t[0]] + s, rest)),
            None => None,
        }
    }
}

/// Escaping distributes over concatenation.
proof fn lemma_esc_concat(a: Seq<char>, b: Seq<char>)
    ensures
        esc_str(a + b) == esc_str(a) + esc_str(b),
    decreases a.len(),
{
    if a.len() == 0 {
        assert(a + b =~= b);
        assert(esc_str(a) + esc_str(b) =~= esc_str(b));
    } else {
        lemma_esc_concat(a.drop_first(), b);
        assert((a + b).drop_first() =~= a.drop_first() + b);
        assert(esc_str(a + b) =~= esc_str(a) + esc_str(b));
    }
}

/// Parsing a string body undoes escaping, whatever follows the quote.
proof fn lemma_jstring_roundtrip(s: Seq<char>, rest: Seq<char>)
    ensures
        parse_jstring_body(esc_str(s) + (seq!['"'] + rest)) == Some((s, rest)),
    decreases s.len(),
{
    if s.len() == 0 {
        let t = esc_str(s) + (seq!['"'] + rest);
        assert(t[0] == '"');
        assert(t.drop_first() =~= rest);
        assert(Seq::<char>::empty() =~= s);
    } else {
        let c = s[0];
        let t = esc_str(s) + (seq!['"'] + rest);
        let t_tail = esc_str(s.drop_first()) + (seq!['"'] + rest);
        lemma_jstring_roundtrip(s.drop_first(), rest);
        if c == '"' || c == '\\' {
            assert(t[0] == '\\');
            assert(t[1] == c);
            assert(t.skip(2) =~= t_tail);
            assert(seq![t[1]] + s.drop_first() =~= s);
        } else if (c as u32) < 32 {
            let v = (c as u32) as int;
            lemma_hex_digit_char(v / 16);
            lemma_hex_digit_char(v % 16);
            assert(t[0] == '\\');
            assert(t[1] == 'u');
            assert(t[2] == '0');
            assert(t[3] == '0');
            assert(t[4] == hex_digit_char(v / 16));
            assert(t[5] == hex_digit_char(v % 16));
            assert(t.skip(6) =~= t_tail);
            let w = crate::hexcode::hex_char_val(t[4]) * 16 + crate::hexcode::hex_char_val(t[5]);
            assert(w == v);
            char_u32_cast(c, c as u32);
            assert((w as u32) as char == c);
            assert(seq![(w as u32) as char] + s.drop_first() =~= s);
        } else {
            assert(t[0] == c);
            assert(t.drop_first() =~= t_tail);
            assert(seq![t[0]] + s.drop_first() =~= s);
        }
    }
}

/// Literal match at the front of `t`: what follows the literal, if it is
/// there.
pub open spec fn spec_expect_lit(t: Seq<char>, lit: Seq<char>) -> Option<Seq<char>> {
    if t.len() >= lit.len() && t.take(lit.len() as int) == lit {
        Some(t.skip(lit.len() as int))
    } else {
        None
    }
}

proof fn lemma_expect_lit(lit: Seq<char>, rest: Seq<char>)
    ensures
        spec_expect_lit(lit + rest, lit) == Some(rest),
{
    assert((lit + rest).take(lit.len() as int) =~= lit);
    assert((lit + rest).skip(lit.len() as int) =~= rest);
}

// ------------------------------------------------------------------
// Canonical JSON images.
// ------------------------------------------------------------------

pub open spec fn spec_enc_envelope_json(e: EnvelopeModel) -> Seq<char> {
    "{\"data\":\""@ + jstr(hex_of(e.data)) + ",\"type\":\""@ + jstr(e.width.spec_str_name())
        + "}"@
}

pub open spec fn spec_enc_opt_envelope_json(e: Option<EnvelopeModel>) -> Seq<char> {
    match e {
        None => "null"@,
        Some(env) => spec_enc_envelope_json(env),
    }
}

pub open spec fn spec_enc_decrypt_request_json(m: DecryptRequestModel) -> Seq<char> {
    "{\"encrypted\":"@ + spec_enc_opt_envelope_json(m.encrypted) + ",\"proof\":\""@ + jstr(
        m.proof_text,
    ) + "}"@
}

pub open spec fn spec_enc_is_nil_request_json(m: IsNilRequestModel) -> Seq<char> {
    "{\"encrypted\":"@ + spec_enc_opt_envelope_json(m.encrypted) + ",\"proof\":\""@ + jstr(
        m.proof_text,
    ) + "}"@
}

pub open spec fn spec_enc_reencrypt_request_json(m: ReencryptRequestModel) -> Seq<char> {
    "{\"encrypted\":"@ + spec_enc_opt_envelope_json(m.encrypted) + ",\"user_public_key\":\""@
        + jstr(m.user_public_key) + ",\"proof\":\""@ + jstr(m.proof_text) + "}"@
}

pub open spec fn spec_enc_decrypt_response_json(m: DecryptResponseModel) -> Seq<char> {
    "{\"decrypted\":\""@ + jstr(m.decrypted) + ",\"signature\":\""@ + jstr(m.signature) + "}"@
}

pub open spec fn spec_enc_reencrypt_response_json(m: ReencryptResponseModel) -> Seq<char> {
    "{\"reencrypted\":\""@ + jstr(m.reencrypted) + ",\"signature\":\""@ + jstr(m.signature)
        + "}"@
}

pub open spec fn spec_enc_is_nil_response_json(m: IsNilResponseModel) -> Seq<char> {
    "{\"is_nil\":"@ + (if m.is_nil {
        "true"@
    } else {
        "false"@
    }) + ",\"signature\":\""@ + jstr(m.signature) + "}"@
}

// ------------------------------------------------------------------
// Strict parsers.
// ------------------------------------------------------------------

/// Parse of one envelope object at the front of `t`: the envelope and what
/// follows its closing brace.
pub open spec fn parse_envelope_json(t: Seq<char>) -> Option<(EnvelopeModel, Seq<char>)> {
    match spec_expect_lit(t, "{\"data\":\""@) {
        None => None,
        Some(t1) => match parse_jstring_body(t1) {
            None => None,
            Some((hx, t2)) => match unhex(hx) {
                None => None,
                Some(data) => match spec_expect_lit(t2, ",\"type\":\""@) {
                    None => None,
                    Some(t3) => match parse_jstring_body(t3) {
                        None => None,
                        Some((nm, t4)) => match EncryptedType::spec_from_str_name(nm) {
                            None => None,
                            Some(w) => match spec_expect_lit(t4, "}"@) {
                                None => None,
                                Some(t5) => Some((EnvelopeModel { data, width: w }, t5)),
                            },
                        },
                    },
                },
            },
        },
    }
}

/// Parse of an envelope or `null` at the front of `t`.
pub open spec fn parse_opt_envelope_json(t: Seq<char>) -> Option<
    (Option<EnvelopeModel>, Seq<char>),
> {
    if t.len() > 0 && t[0] == '{' {
        match parse_envelope_json(t) {
            Some((e, rest)) => Some((Some(e), rest)),
            None => None,
        }
    } else {
        match spec_expect_lit(t, "null"@) {
            Some(rest) => Some((None, rest)),
            None => None,
        }
    }
}

pub open spec fn spec_dec_decrypt_request_json(t: Seq<char>) -> Option<DecryptRequestModel> {
    match spec_expect_lit(t, "{\"encrypted\":"@) {
        None => None,
        Some(t1) => match parse_opt_envelope_json(t1) {
            None => None,
            Some((env, t2)) => match spec_expect_lit(t2, ",\"proof\":\""@) {
                None => None,
                Some(t3) => match parse_jstring_body(t3) {
                    None => None,
                    Some((pf, t4)) => match spec_expect_lit(t4, "}"@) {
                        None => None,
                        Some(t5) => if t5.len() == 0 {
                            Some(DecryptRequestModel { encrypted: env, proof_text: pf })
                        } else {
                            None
                        },
                    },
                },
            },
        },
    }
}

pub open spec fn spec_dec_is_nil_request_json(t: Seq<char>) -> Option<IsNilRequestModel> {
    match spec_dec_decrypt_request_json(t) {
        Some(m) => Some(IsNilRequestModel { encrypted: m.encrypted, proof_text: m.proof_text }),
        None => None,
    }
}

pub open spec fn spec_dec_reencrypt_request_json(t: Seq<char>) -> Option<ReencryptRequestModel> {
    match spec_expect_lit(t, "{\"encrypted\":"@) {
        None => None,
        Some(t1) => match parse_opt_envelope_json(t1) {
            None => None,
            Some((env, t2)) => match spec_expect_lit(t2, ",\"user_public_key\":\""@) {
                None => None,
                Some(t3) => match parse_jstring_body(t3) {
                    None => None,
                    Some((upk, t4)) => match spec_expect_lit(t4, ",\"proof\":\""@) {
                        None => None,
                        Some(t5) => match parse_jstring_body(t5) {
                            None => None,
                            Some((pf, t6)) => match spec_expect_lit(t6, "}"@) {
                                None => None,
                                Some(t7) => if t7.len() == 0 {
                                    Some(
                                        ReencryptRequestModel {
                                            encrypted: env,
                                            user_public_key: upk,
                                            proof_text: pf,
                                        },
                                    )
                                } else {
                                    None
                                },
                            },
                        },
                    },
                },
            },
        },
    }
}

/// Shared shape of the two string/string responses: first field name's
/// opening literal, then two strings.
pub open spec fn parse_two_string_response(t: Seq<char>, lit1: Seq<char>) -> Option<
    (Seq<char>, Seq<char>),
> {
    match spec_expect_lit(t, lit1) {
        None => None,
        Some(t1) => match parse_jstring_body(t1) {
            None => None,
            Some((a, t2)) => match spec_expect_lit(t2, ",\"signature\":\""@) {
                None => None,
                Some(t3) => match parse_jstring_body(t3) {
                    None => None,
                    Some((sig, t4)) => match spec_expect_lit(t4, "}"@) {
                        None => None,
                        Some(t5) => if t5.len() == 0 {
                            Some((a, sig))
                        } else {
                            None
                        },
                    },
                },
            },
        },
    }
}

pub open spec fn spec_dec_decrypt_response_json(t: Seq<char>) -> Option<DecryptResponseModel> {
    match parse_two_string_response(t, "{\"decrypted\":\""@) {
        Some((d, sig)) => Some(DecryptResponseModel { decrypted: d, signature: sig }),
        None => None,
    }
}

pub open spec fn spec_dec_reencrypt_response_json(t: Seq<char>) -> Option<
    ReencryptResponseModel,
> {
    match parse_two_string_response(t, "{\"reencrypted\":\""@) {
        Some((d, sig)) => Some(ReencryptResponseModel { reencrypted: d, signature: sig }),
        None => None,
    }
}

pub open spec fn spec_dec_is_nil_response_json(t: Seq<char>) -> Option<IsNilResponseModel> {
    match spec_expect_lit(t, "{\"is_nil\":"@) {
        None => None,
        Some(t1) => {
            let flag = if t1.len() > 0 && t1[0] == 't' {
                match spec_expect_lit(t1, "true"@) {
                    Some(t2) => Some((true, t2)),
                    None => None,
                }
            } else {
                match spec_expect_lit(t1, "false"@) {
                    Some(t2) => Some((false, t2)),
                    None => None,
                }
            };
            match flag {
                None => None,
                Some((is_nil, t2)) => match spec_expect_lit(t2, ",\"signature\":\""@) {
                    None => None,
                    Some(t3) => match parse_jstring_body(t3) {
                        None => None,
                        Some((sig, t4)) => match spec_expect_lit(t4, "}"@) {
                            None => None,
                            Some(t5) => if t5.len() == 0 {
                                Some(IsNilResponseModel { is_nil, signature: sig })
                            } else {
                                None
                            },
                        },
                    },
                },
            }
        },
    }
}

// ------------------------------------------------------------------
// Round-trip lemmas: strict decoding undoes canonical encoding.
// ------------------------------------------------------------------

/// Parsing an envelope object undoes its encoding, whatever follows.
proof fn lemma_envelope_json_roundtrip(e: EnvelopeModel, rest: Seq<char>)
    ensures
        parse_envelope_json(spec_enc_envelope_json(e) + rest) == Some((e, rest)),
{
    let hx = hex_of(e.data);
    let nm = e.width.spec_str_name();
    let l1 = "{\"data\":\""@;
    let l2 = ",\"type\":\""@;
    let l3 = "}"@;
    let q = seq!['"'];
    let t1 = esc_str(hx) + (q + (l2 + (esc_str(nm) + (q + (l3 + rest)))));
    assert(spec_enc_envelope_json(e) + rest =~= l1 + t1);
    lemma_expect_lit(l1, t1);
    lemma_jstring_roundtrip(hx, l2 + (esc_str(nm) + (q + (l3 + rest))));
    lemma_hex_roundtrip(e.data);
    lemma_expect_lit(l2, esc_str(nm) + (q + (l3 + rest)));
    lemma_jstring_roundtrip(nm, l3 + rest);
    lemma_width_name_roundtrip(e.width);
    lemma_expect_lit(l3, rest);
}

/// Parsing an envelope-or-null undoes its encoding, whatever follows.
proof fn lemma_opt_envelope_json_roundtrip(e: Option<EnvelopeModel>, rest: Seq<char>)
    ensures
        parse_opt_envelope_json(spec_enc_opt_envelope_json(e) + rest) == Some((e, rest)),
{
    match e {
        Some(env) => {
            reveal_strlit("{\"data\":\"");
            let t = spec_enc_opt_envelope_json(e) + rest;
            assert(t[0] == ("{\"data\":\""@)[0]);
            assert(t[0] == '{');
            lemma_envelope_json_roundtrip(env, rest);
        },
        None => {
            reveal_strlit("null");
            let t = "null"@ + rest;
            assert(t[0] == 'n');
            lemma_expect_lit("null"@, rest);
        },
    }
}

/// Decoding undoes encoding for every decrypt request.
pub proof fn lemma_decrypt_request_json_roundtrip(m: DecryptRequestModel)
    ensures
        spec_dec_decrypt_request_json(spec_enc_decrypt_request_json(m)) == Some(m),
{
    let le = "{\"encrypted\":"@;
    let lp = ",\"proof\":\""@;
    let rb = "}"@;
    let q = seq!['"'];
    let x = spec_enc_opt_envelope_json(m.encrypted) + (lp + (esc_str(m.proof_text) + (q + rb)));
    assert(spec_enc_decrypt_request_json(m) =~= le + x);
    lemma_expect_lit(le, x);
    lemma_opt_envelope_json_roundtrip(m.encrypted, lp + (esc_str(m.proof_text) + (q + rb)));
    lemma_expect_lit(lp, esc_str(m.proof_text) + (q + rb));
    lemma_jstring_roundtrip(m.proof_text, rb);
    lemma_expect_lit(rb, Seq::<char>::empty());
    assert(rb + Seq::<char>::empty() =~= rb);
}

/// Decoding undoes encoding for every nil-assertion request.
pub proof fn lemma_is_nil_request_json_roundtrip(m: IsNilRequestModel)
    ensures
        spec_dec_is_nil_request_json(spec_enc_is_nil_request_json(m)) == Some(m),
{
    let twin = DecryptRequestModel { encrypted: m.encrypted, proof_text: m.proof_text };
    assert(spec_enc_is_nil_request_json(m) == spec_enc_decrypt_request_json(twin));
    lemma_decrypt_request_json_roundtrip(twin);
}

/// Decoding undoes encoding for every re-encrypt request.
pub proof fn lemma_reencrypt_request_json_roundtrip(m: ReencryptRequestModel)
    ensures
        spec_dec_reencrypt_request_json(spec_enc_reencrypt_request_json(m)) == Some(m),
{
    let le = "{\"encrypted\":"@;
    let lu = ",\"user_public_key\":\""@;
    let lp = ",\"proof\":\""@;
    let rb = "}"@;
    let q = seq!['"'];
    let x = spec_enc_opt_envelope_json(m.encrypted) + (lu + (esc_str(m.user_public_key) + (q + (
    lp + (esc_str(m.proof_text) + (q + rb))))));
    assert(spec_enc_reencrypt_request_json(m) =~= le + x);
    lemma_expect_lit(le, x);
    lemma_opt_envelope_json_roundtrip(
        m.encrypted,
        lu + (esc_str(m.user_public_key) + (q + (lp + (esc_str(m.proof_text) + (q + rb))))),
    );
    lemma_expect_lit(
        lu,
        esc_str(m.user_public_key) + (q + (lp + (esc_str(m.proof_text) + (q + rb)))),
    );
    lemma_jstring_roundtrip(m.user_public_key, lp + (esc_str(m.proof_text) + (q + rb)));
    lemma_expect_lit(lp, esc_str(m.proof_text) + (q + rb));
    lemma_jstring_roundtrip(m.proof_text, rb);
    lemma_expect_lit(rb, Seq::<char>::empty());
    assert(rb + Seq::<char>::empty() =~= rb);
}

/// Shared round trip of the two string/string responses.
proof fn lemma_two_string_response_roundtrip(lit1: Seq<char>, a: Seq<char>, sig: Seq<char>)
    ensures
        parse_two_string_response(
            lit1 + jstr(a) + ",\"signature\":\""@ + jstr(sig) + "}"@,
            lit1,
        ) == Some((a, sig)),
{
    let ls = ",\"signature\":\""@;
    let rb = "}"@;
    let q = seq!['"'];
    let x = esc_str(a) + (q + (ls + (esc_str(sig) + (q + rb))));
    assert(lit1 + jstr(a) + ls + jstr(sig) + rb =~= lit1 + x);
    lemma_expect_lit(lit1, x);
    lemma_jstring_roundtrip(a, ls + (esc_str(sig) + (q + rb)));
    lemma_expect_lit(ls, esc_str(sig) + (q + rb));
    lemma_jstring_roundtrip(sig, rb);
    lemma_expect_lit(rb, Seq::<char>::empty());
    assert(rb + Seq::<char>::empty() =~= rb);
}

/// Decoding undoes encoding for every decrypt response.
pub proof fn lemma_decrypt_response_json_roundtrip(m: DecryptResponseModel)
    ensures
        spec_dec_decrypt_response_json(spec_enc_decrypt_response_json(m)) == Some(m),
{
    lemma_two_string_response_roundtrip("{\"decrypted\":\""@, m.decrypted, m.signature);
}

/// Decoding undoes encoding for every re-encrypt response.
pub proof fn lemma_reencrypt_response_json_roundtrip(m: ReencryptResponseModel)
    ensures
        spec_dec_reencrypt_response_json(spec_enc_reencrypt_response_json(m)) == Some(m),
{
    lemma_two_string_response_roundtrip("{\"reencrypted\":\""@, m.reencrypted, m.signature);
}

/// Decoding undoes encoding for every nil-assertion response.
pub proof fn lemma_is_nil_response_json_roundtrip(m: IsNilResponseModel)
    ensures
        spec_dec_is_nil_response_json(spec_enc_is_nil_response_json(m)) == Some(m),
{
    let ln = "{\"is_nil\":"@;
    let ls = ",\"signature\":\""@;
    let rb = "}"@;
    let q = seq!['"'];
    let flag = if m.is_nil {
        "true"@
    } else {
        "false"@
    };
    reveal_strlit("true");
    reveal_strlit("false");
    let x = flag + (ls + (esc_str(m.signature) + (q + rb)));
    assert(spec_enc_is_nil_response_json(m) =~= ln + x);
    lemma_expect_lit(ln, x);
    if m.is_nil {
        assert(x[0] == 't');
    } else {
        assert(x[0] == 'f');
    }
    lemma_expect_lit(flag, ls + (esc_str(m.signature) + (q + rb)));
    lemma_expect_lit(ls, esc_str(m.signature) + (q + rb));
    lemma_jstring_roundtrip(m.signature, rb);
    lemma_expect_lit(rb, Seq::<char>::empty());
    assert(rb + Seq::<char>::empty() =~= rb);
}

// ------------------------------------------------------------------
// Cross-codec equivalence: the binary and the JSON image of one message
// decode back to the same in-memory value — the message itself.
// ------------------------------------------------------------------

/// Cross-codec law for decrypt requests.
pub proof fn lemma_cross_codec_decrypt_request(m: DecryptRequestModel)
    ensures
        crate::codec_bin::spec_dec_decrypt_request(
            crate::codec_bin::spec_enc_decrypt_request(m),
        ) == spec_dec_decrypt_request_json(spec_enc_decrypt_request_json(m)),
        spec_dec_decrypt_request_json(spec_enc_decrypt_request_json(m)) == Some(m),
{
    crate::codec_bin::lemma_decrypt_request_bin_roundtrip(m);
    lemma_decrypt_request_json_roundtrip(m);
}

/// Cross-codec law for nil-assertion requests.
pub proof fn lemma_cross_codec_is_nil_request(m: IsNilRequestModel)
    ensures
        crate::codec_bin::spec_dec_is_nil_request(
            crate::codec_bin::spec_enc_is_nil_request(m),
        ) == spec_dec_is_nil_request_json(spec_enc_is_nil_request_json(m)),
        spec_dec_is_nil_request_json(spec_enc_is_nil_request_json(m)) == Some(m),
{
    crate::codec_bin::lemma_is_nil_request_bin_roundtrip(m);
    lemma_is_nil_request_json_roundtrip(m);
}

/// Cross-codec law for re-encrypt requests.
pub proof fn lemma_cross_codec_reencrypt_request(m: ReencryptRequestModel)
    ensures
        crate::codec_bin::spec_dec_reencrypt_request(
            crate::codec_bin::spec_enc_reencrypt_request(m),
        ) == spec_dec_reencrypt_request_json(spec_enc_reencrypt_request_json(m)),
        spec_dec_reencrypt_request_json(spec_enc_reencrypt_request_json(m)) == Some(m),
{
    crate::codec_bin::lemma_reencrypt_request_bin_roundtrip(m);
    lemma_reencrypt_request_json_roundtrip(m);
}

/// Cross-codec law for decrypt responses.
pub proof fn lemma_cross_codec_decrypt_response(m: DecryptResponseModel)
    ensures
        crate::codec_bin::spec_dec_decrypt_response(
            crate::codec_bin::spec_enc_decrypt_response(m),
        ) == spec_dec_decrypt_response_json(spec_enc_decrypt_response_json(m)),
        spec_dec_decrypt_response_json(spec_enc_decrypt_response_json(m)) == Some(m),
{
    crate::codec_bin::lemma_decrypt_response_bin_roundtrip(m);
    lemma_decrypt_response_json_roundtrip(m);
}

/// Cross-codec law for re-encrypt responses.
pub proof fn lemma_cross_codec_reencrypt_response(m: ReencryptResponseModel)
    ensures
        crate::codec_bin::spec_dec_reencrypt_response(
            crate::codec_bin::spec_enc_reencrypt_response(m),
        ) == spec_dec_reencrypt_response_json(spec_enc_reencrypt_response_json(m)),
        spec_dec_reencrypt_response_json(spec_enc_reencrypt_response_json(m)) == Some(m),
{
    crate::codec_bin::lemma_reencrypt_response_bin_roundtrip(m);
    lemma_reencrypt_response_json_roundtrip(m);
}

/// Cross-codec law for nil-assertion responses.
pub proof fn lemma_cross_codec_is_nil_response(m: IsNilResponseModel)
    ensures
        crate::codec_bin::spec_dec_is_nil_response(
            crate::codec_bin::spec_enc_is_nil_response(m),
        ) == spec_dec_is_nil_response_json(spec_enc_is_nil_response_json(m)),
        spec_dec_is_nil_response_json(spec_enc_is_nil_response_json(m)) == Some(m),
{
    crate::codec_bin::lemma_is_nil_response_bin_roundtrip(m);
    lemma_is_nil_response_json_roundtrip(m);
}

// ------------------------------------------------------------------
// Executable encoders.
// ------------------------------------------------------------------

/// Appends the characters of a literal.
fn push_lit(out: &mut Vec<char>, lit: &str)
    ensures
        final(out)@ == old(out)@ + lit@,
{
    let cs = str_chars(lit);
    let n: usize = cs.len();
    let mut i: usize = 0;
    while i < n
        invariant
            i <= n,
            n == cs@.len(),
            cs@ == lit@,
            out@ == old(out)@ + lit@.subrange(0, i as int),
        decreases n - i,
    {
        out.push(cs[i]);
        proof {
            assert(out@ =~= old(out)@ + lit@.subrange(0, i + 1));
        }
        i += 1;
    }
    proof {
        assert(out@ =~= old(out)@ + lit@);
    }
}

/// Appends the escaped spelling of a string's characters.
fn push_escaped(out: &mut Vec<char>, s: &str)
    ensures
        final(out)@ == old(out)@ + esc_str(s@),
{
    let cs = str_chars(s);
    let n: usize = cs.len();
    let mut i: usize = 0;
    while i < n
        invariant
            i <= n,
            n == cs@.len(),
            cs@ == s@,
            out@ == old(out)@ + esc_str(s@.subrange(0, i as int)),
        decreases n - i,
    {
        let c = cs[i];
        if c == '"' {
            out.push('\\');
            out.push('"');
        } else if c == '\\' {
            out.push('\\');
            out.push('\\');
        } else {
            let v: u32 = c as u32;
            if v < 32 {
                out.push('\\');
                out.push('u');
                out.push('0');
                out.push('0');
                out.push(crate::hexcode::hex_digit((v / 16) as u8));
                out.push(crate::hexcode::hex_digit((v % 16) as u8));
            } else {
                out.push(c);
            }
        }
        proof {
            let pre = s@.subrange(0, i as int);
            let cur = s@.subrange(i as int, i + 1);
            assert(cur =~= seq![c]);
            assert(s@.subrange(0, i + 1) =~= pre + cur);
            lemma_esc_concat(pre, cur);
            assert(cur.drop_first() =~= Seq::<char>::empty());
            assert(esc_str(Seq::<char>::empty()) =~= Seq::<char>::empty());
            assert(esc_str(cur) =~= esc_char(c));
            assert(out@ =~= old(out)@ + esc_str(s@.subrange(0, i + 1)));
        }
        i += 1;
    }
    proof {
        assert(s@.subrange(0, n as int) =~= s@);
        assert(out@ =~= old(out)@ + esc_str(s@));
    }
}

/// Appends a JSON string body and its closing quote.
fn push_jstr(out: &mut Vec<char>, s: &str)
    ensures
        final(out)@ == old(out)@ + jstr(s@),
{
    push_escaped(out, s);
    out.push('"');
    proof {
        assert(out@ =~= old(out)@ + jstr(s@));
    }
}

/// Appends the JSON image of an envelope.
fn push_envelope_json(out: &mut Vec<char>, e: &FheEncrypted)
    ensures
        final(out)@ == old(out)@ + spec_enc_envelope_json(e@),
{
    push_lit(out, "{\"data\":\"");
    let hs = crate::hexcode::hex_encode(e.data.as_slice());
    push_jstr(out, hs.as_str());
    push_lit(out, ",\"type\":\"");
    push_jstr(out, e.width.as_str_name());
    push_lit(out, "}");
    proof {
        assert(out@ =~= old(out)@ + spec_enc_envelope_json(e@));
    }
}

/// Appends the JSON image of an optional envelope (`null` when absent).
fn push_opt_envelope_json(out: &mut Vec<char>, e: &Option<FheEncrypted>)
    ensures
        final(out)@ == old(out)@ + spec_enc_opt_envelope_json(
            match e {
                Some(env) => Some(env@),
                None => None,
            },
        ),
{
    match e {
        None => {
            push_lit(out, "null");
        },
        Some(env) => {
            push_envelope_json(out, env);
        },
    }
}

/// JSON encoding of an envelope.
pub fn encode_envelope_json(e: &FheEncrypted) -> (r: String)
    ensures
        r@ == spec_enc_envelope_json(e@),
{
    let mut out: Vec<char> = Vec::new();
    push_envelope_json(&mut out, e);
    chars_to_string(&out)
}

/// JSON encoding of a decrypt request.
pub fn encode_decrypt_request_json(m: &DecryptRequest) -> (r: String)
    ensures
        r@ == spec_enc_decrypt_request_json(m@),
{
    let mut out: Vec<char> = Vec::new();
    push_lit(&mut out, "{\"encrypted\":");
    push_opt_envelope_json(&mut out, &m.encrypted);
    push_lit(&mut out, ",\"proof\":\"");
    push_jstr(&mut out, m.proof_text.as_str());
    push_lit(&mut out, "}");
    proof {
        assert(out@ =~= spec_enc_decrypt_request_json(m@));
    }
    chars_to_string(&out)
}

/// JSON encoding of a nil-assertion request.
pub fn encode_is_nil_request_json(m: &IsNilRequest) -> (r: String)
    ensures
        r@ == spec_enc_is_nil_request_json(m@),
{
    let mut out: Vec<char> = Vec::new();
    push_lit(&mut out, "{\"encrypted\":");
    push_opt_envelope_json(&mut out, &m.encrypted);
    push_lit(&mut out, ",\"proof\":\"");
    push_jstr(&mut out, m.proof_text.as_str());
    push_lit(&mut out, "}");
    proof {
        assert(out@ =~= spec_enc_is_nil_request_json(m@));
    }
    chars_to_string(&out)
}

/// JSON encoding of a re-encrypt request.
pub fn encode_reencrypt_request_json(m: &ReencryptRequest) -> (r: String)
    ensures
        r@ == spec_enc_reencrypt_request_json(m@),
{
    let mut out: Vec<char> = Vec::new();
    push_lit(&mut out, "{\"encrypted\":");
    push_opt_envelope_json(&mut out, &m.encrypted);
    push_lit(&mut out, ",\"user_public_key\":\"");
    push_jstr(&mut out, m.user_public_key.as_str());
    push_lit(&mut out, ",\"proof\":\"");
    push_jstr(&mut out, m.proof_text.as_str());
    push_lit(&mut out, "}");
    proof {
        assert(out@ =~= spec_enc_reencrypt_request_json(m@));
    }
    chars_to_string(&out)
}

/// JSON encoding of a decrypt response.
pub fn encode_decrypt_response_json(m: &DecryptResponse) -> (r: String)
    ensures
        r@ == spec_enc_decrypt_response_json(m@),
{
    let mut out: Vec<char> = Vec::new();
    push_lit(&mut out, "{\"decrypted\":\"");
    push_jstr(&mut out, m.decrypted.as_str());
    push_lit(&mut out, ",\"signature\":\"");
    push_jstr(&mut out, m.signature.as_str());
    push_lit(&mut out, "}");
    proof {
        assert(out@ =~= spec_enc_decrypt_response_json(m@));
    }
    chars_to_string(&out)
}

/// JSON encoding of a re-encrypt response.
pub fn encode_reencrypt_response_json(m: &ReencryptResponse) -> (r: String)
    ensures
        r@ == spec_enc_reencrypt_response_json(m@),
{
    let mut out: Vec<char> = Vec::new();
    push_lit(&mut out, "{\"reencrypted\":\"");
    push_jstr(&mut out, m.reencrypted.as_str());
    push_lit(&mut out, ",\"signature\":\"");
    push_jstr(&mut out, m.signature.as_str());
    push_lit(&mut out, "}");
    proof {
        assert(out@ =~= spec_enc_reencrypt_response_json(m@));
    }
    chars_to_string(&out)
}

/// JSON encoding of a nil-assertion response.
pub fn encode_is_nil_response_json(m: &IsNilResponse) -> (r: String)
    ensures
        r@ == spec_enc_is_nil_response_json(m@),
{
    let mut out: Vec<char> = Vec::new();
    push_lit(&mut out, "{\"is_nil\":");
    if m.is_nil {
        push_lit(&mut out, "true");
    } else {
        push_lit(&mut out, "false");
    }
    push_lit(&mut out, ",\"signature\":\"");
    push_jstr(&mut out, m.signature.as_str());
    push_lit(&mut out, "}");
    proof {
        assert(out@ =~= spec_enc_is_nil_response_json(m@));
    }
    chars_to_string(&out)
}

// ------------------------------------------------------------------
// Executable decoders.
// ------------------------------------------------------------------

/// Matches a literal at `pos`: the position after it, if it is there.
fn match_lit(cs: &Vec<char>, pos: usize, lit: &str) -> (r: Option<usize>)
    requires
        pos <= cs@.len(),
    ensures
        match r {
            Some(np) => {
                &&& spec_expect_lit(cs@.skip(pos as int), lit@) == Some(cs@.skip(np as int))
                &&& pos <= np <= cs@.len()
            },
            None => spec_expect_lit(cs@.skip(pos as int), lit@) is None,
        },
{
    let lcs = str_chars(lit);
    let ln: usize = lcs.len();
    let n: usize = cs.len();
    if n - pos < ln {
        return None;
    }
    let mut i: usize = 0;
    while i < ln
        invariant
            i <= ln,
            ln == lit@.len(),
            lcs@ == lit@,
            n == cs@.len(),
            pos + ln <= n,
            forall|j: int| 0 <= j < i ==> cs@[pos + j] == lit@[j],
        decreases ln - i,
    {
        if cs[pos + i] != lcs[i] {
            proof {
                let t = cs@.skip(pos as int);
                if t.len() >= lit@.len() && t.take(lit@.len() as int) == lit@ {
                    assert(t.take(lit@.len() as int)[i as int] == lit@[i as int]);
                    assert(t[i as int] == cs@[pos + i]);
                }
            }
            return None;
        }
        i += 1;
    }
    proof {
        let t = cs@.skip(pos as int);
        assert(t.take(lit@.len() as int) =~= lit@);
        assert(t.skip(lit@.len() as int) =~= cs@.skip(pos + ln));
    }
    Some(pos + ln)
}

/// Reads a JSON string body through its closing quote at `pos`.
fn read_jstring(cs: &Vec<char>, pos: usize) -> (r: Option<(String, usize)>)
    requires
        pos <= cs@.len(),
    ensures
        match r {
            Some(p) => {
                &&& parse_jstring_body(cs@.skip(pos as int)) == Some(
                    (p.0@, cs@.skip(p.1 as int)),
                )
                &&& pos <= p.1 <= cs@.len()
            },
            None => parse_jstring_body(cs@.skip(pos as int)) is None,
        },
{
    let n: usize = cs.len();
    let mut i: usize = pos;
    let mut acc: Vec<char> = Vec::new();
    proof {
        match parse_jstring_body(cs@.skip(pos as int)) {
            Some((s2, rest)) => {
                assert(Seq::<char>::empty() + s2 =~= s2);
            },
            None => {},
        }
    }
    loop
        invariant
            pos <= i <= n,
            n == cs@.len(),
            match parse_jstring_body(cs@.skip(i as int)) {
                Some(p) => parse_jstring_body(cs@.skip(pos as int)) == Some(
                    (acc@ + p.0, p.1),
                ),
                None => parse_jstring_body(cs@.skip(pos as int)) is None,
            },
        decreases n - i,
    {
        if i == n {
            return None;
        }
        let c = cs[i];
        proof {
            assert(cs@.skip(i as int)[0] == cs@[i as int]);
        }
        if c == '"' {
            proof {
                assert(cs@.skip(i as int).drop_first() =~= cs@.skip(i + 1));
                assert(acc@ + Seq::<char>::empty() =~= acc@);
            }
            return Some((chars_to_string(&acc), i + 1));
        } else if c == '\\' {
            if i + 1 == n {
                return None;
            }
            let c2 = cs[i + 1];
            proof {
                assert(cs@.skip(i as int)[1] == cs@[i + 1]);
            }
            if c2 == '"' || c2 == '\\' {
                acc.push(c2);
                proof {
                    assert(cs@.skip(i as int).skip(2) =~= cs@.skip(i + 2));
                    match parse_jstring_body(cs@.skip(i + 2)) {
                        Some(p) => {
                            assert(acc@ + p.0 =~= acc@.drop_last() + (seq![c2] + p.0));
                        },
                        None => {},
                    }
                }
                i += 2;
            } else if c2 == 'u' {
                if n - i < 6 {
                    return None;
                }
                proof {
                    assert(cs@.skip(i as int)[2] == cs@[i + 2]);
                    assert(cs@.skip(i as int)[3] == cs@[i + 3]);
                    assert(cs@.skip(i as int)[4] == cs@[i + 4]);
                    assert(cs@.skip(i as int)[5] == cs@[i + 5]);
                }
                let h4 = crate::hexcode::hex_val(cs[i + 4]);
                let h5 = crate::hexcode::hex_val(cs[i + 5]);
                if cs[i + 2] != '0' || cs[i + 3] != '0' || h4 == 16 || h5 == 16 {
                    return None;
                }
                let v: u8 = h4 * 16 + h5;
                if v >= 32 {
                    return None;
                }
                acc.push(v as char);
                proof {
                    assert(v as char == (v as u32) as char);
                    assert(cs@.skip(i as int).skip(6) =~= cs@.skip(i + 6));
                    match parse_jstring_body(cs@.skip(i + 6)) {
                        Some(p) => {
                            assert(acc@ + p.0 =~= acc@.drop_last() + (seq![(v as u32) as char]
                                + p.0));
                        },
                        None => {},
                    }
                }
                i += 6;
            } else {
                return None;
            }
        } else {
            let v: u32 = c as u32;
            if v < 32 {
                return None;
            }
            acc.push(c);
            proof {
                assert(cs@.skip(i as int).drop_first() =~= cs@.skip(i + 1));
                match parse_jstring_body(cs@.skip(i + 1)) {
                    Some(p) => {
                        assert(acc@ + p.0 =~= acc@.drop_last() + (seq![c] + p.0));
                    },
                    None => {},
                }
            }
            i += 1;
        }
    }
}

/// Reads an envelope object at `pos`.
fn read_envelope_json(cs: &Vec<char>, pos: usize) -> (r: Option<(FheEncrypted, usize)>)
    requires
        pos <= cs@.len(),
    ensures
        match r {
            Some(p) => {
                &&& parse_envelope_json(cs@.skip(pos as int)) == Some(
                    (p.0@, cs@.skip(p.1 as int)),
                )
                &&& pos <= p.1 <= cs@.len()
            },
            None => parse_envelope_json(cs@.skip(pos as int)) is None,
        },
{
    let pos = match match_lit(cs, pos, "{\"data\":\"") {
        None => {
            return None;
        },
        Some(p) => p,
    };
    let (hx, pos) = match read_jstring(cs, pos) {
        None => {
            return None;
        },
        Some(p) => p,
    };
    let data = match crate::hexcode::hex_decode(hx.as_str()) {
        None => {
            return None;
        },
        Some(d) => d,
    };
    let pos = match match_lit(cs, pos, ",\"type\":\"") {
        None => {
            return None;
        },
        Some(p) => p,
    };
    let (nm, pos) = match read_jstring(cs, pos) {
        None => {
            return None;
        },
        Some(p) => p,
    };
    let width = match EncryptedType::from_str_name(nm.as_str()) {
        None => {
            return None;
        },
        Some(w) => w,
    };
    let pos = match match_lit(cs, pos, "}") {
        None => {
            return None;
        },
        Some(p) => p,
    };
    Some((FheEncrypted { data, width }, pos))
}

/// Reads an envelope object or `null` at `pos`.
fn read_opt_envelope_json(cs: &Vec<char>, pos: usize) -> (r: Option<
    (Option<FheEncrypted>, usize),
>)
    requires
        pos <= cs@.len(),
    ensures
        match r {
            Some(p) => {
                &&& parse_opt_envelope_json(cs@.skip(pos as int)) == Some(
                    (
                        match p.0 {
                            Some(e) => Some(e@),
                            None => None,
                        },
                        cs@.skip(p.1 as int),
                    ),
                )
                &&& pos <= p.1 <= cs@.len()
            },
            None => parse_opt_envelope_json(cs@.skip(pos as int)) is None,
        },
{
    proof {
        if pos < cs@.len() {
            assert(cs@.skip(pos as int)[0] == cs@[pos as int]);
        }
    }
    if pos < cs.len() && cs[pos] == '{' {
        match read_envelope_json(cs, pos) {
            None => None,
            Some((e, np)) => Some((Some(e), np)),
        }
    } else {
        match match_lit(cs, pos, "null") {
            None => None,
            Some(np) => Some((None, np)),
        }
    }
}

/// Strict JSON decode of an envelope from exactly `s`.
pub fn decode_envelope_json(s: &str) -> (r: Option<FheEncrypted>)
    ensures
        match r {
            Some(e) => {
                &&& parse_envelope_json(s@) matches Some(p)
                &&& p.0 == e@
                &&& p.1.len() == 0
            },
            None => !(parse_envelope_json(s@) matches Some(p) && p.1.len() == 0),
        },
{
    let cs = str_chars(s);
    proof {
        assert(cs@.skip(0) =~= s@);
    }
    match read_envelope_json(&cs, 0) {
        None => None,
        Some((e, np)) => {
            if np != cs.len() {
                return None;
            }
            proof {
                assert(cs@.skip(np as int).len() == 0);
            }
            Some(e)
        },
    }
}

/// Strict JSON decode of a decrypt request from exactly `s`.
pub fn decode_decrypt_request_json(s: &str) -> (r: Option<DecryptRequest>)
    ensures
        match r {
            Some(m) => spec_dec_decrypt_request_json(s@) == Some(m@),
            None => spec_dec_decrypt_request_json(s@) is None,
        },
{
    let cs = str_chars(s);
    proof {
        assert(cs@.skip(0) =~= s@);
    }
    let pos = match match_lit(&cs, 0, "{\"encrypted\":") {
        None => {
            return None;
        },
        Some(p) => p,
    };
    let (encrypted, pos) = match read_opt_envelope_json(&cs, pos) {
        None => {
            return None;
        },
        Some(p) => p,
    };
    let pos = match match_lit(&cs, pos, ",\"proof\":\"") {
        None => {
            return None;
        },
        Some(p) => p,
    };
    let (proof_text, pos) = match read_jstring(&cs, pos) {
        None => {
            return None;
        },
        Some(p) => p,
    };
    let pos = match match_lit(&cs, pos, "}") {
        None => {
            return None;
        },
        Some(p) => p,
    };
    if pos != cs.len() {
        return None;
    }
    proof {
        assert(cs@.skip(pos as int).len() == 0);
    }
    Some(DecryptRequest { encrypted, proof_text })
}

/// Strict JSON decode of a nil-assertion request from exactly `s`.
pub fn decode_is_nil_request_json(s: &str) -> (r: Option<IsNilRequest>)
    ensures
        match r {
            Some(m) => spec_dec_is_nil_request_json(s@) == Some(m@),
            None => spec_dec_is_nil_request_json(s@) is None,
        },
{
    match decode_decrypt_request_json(s) {
        None => None,
        Some(m) => Some(IsNilRequest { encrypted: m.encrypted, proof_text: m.proof_text }),
    }
}

/// Strict JSON decode of a re-encrypt request from exactly `s`.
pub fn decode_reencrypt_request_json(s: &str) -> (r: Option<ReencryptRequest>)
    ensures
        match r {
            Some(m) => spec_dec_reencrypt_request_json(s@) == Some(m@),
            None => spec_dec_reencrypt_request_json(s@) is None,
        },
{
    let cs = str_chars(s);
    proof {
        assert(cs@.skip(0) =~= s@);
    }
    let pos = match match_lit(&cs, 0, "{\"encrypted\":") {
        None => {
            return None;
        },
        Some(p) => p,
    };
    let (encrypted, pos) = match read_opt_envelope_json(&cs, pos) {
        None => {
            return None;
        },
        Some(p) => p,
    };
    let pos = match match_lit(&cs, pos, ",\"user_public_key\":\"") {
        None => {
            return None;
        },
        Some(p) => p,
    };
    let (user_public_key, pos) = match read_jstring(&cs, pos) {
        None => {
            return None;
        },
        Some(p) => p,
    };
    let pos = match match_lit(&cs, pos, ",\"proof\":\"") {
        None => {
            return None;
        },
        Some(p) => p,
    };
    let (proof_text, pos) = match read_jstring(&cs, pos) {
        None => {
            return None;
        },
        Some(p) => p,
    };
    let pos = match match_lit(&cs, pos, "}") {
        None => {
            return None;
        },
        Some(p) => p,
    };
    if pos != cs.len() {
        return None;
    }
    proof {
        assert(cs@.skip(pos as int).len() == 0);
    }
    Some(ReencryptRequest { encrypted, user_public_key, proof_text })
}

/// Strict JSON decode of a decrypt response from exactly `s`.
pub fn decode_decrypt_response_json(s: &str) -> (r: Option<DecryptResponse>)
    ensures
        match r {
            Some(m) => spec_dec_decrypt_response_json(s@) == Some(m@),
            None => spec_dec_decrypt_response_json(s@) is None,
        },
{
    let cs = str_chars(s);
    proof {
        assert(cs@.skip(0) =~= s@);
    }
    let pos = match match_lit(&cs, 0, "{\"decrypted\":\"") {
        None => {
            return None;
        },
        Some(p) => p,
    };
    let (decrypted, pos) = match read_jstring(&cs, pos) {
        None => {
            return None;
        },
        Some(p) => p,
    };
    let pos = match match_lit(&cs, pos, ",\"signature\":\"") {
        None => {
            return None;
        },
        Some(p) => p,
    };
    let (signature, pos) = match read_jstring(&cs, pos) {
        None => {
            return None;
        },
        Some(p) => p,
    };
    let pos = match match_lit(&cs, pos, "}") {
        None => {
            return None;
        },
        Some(p) => p,
    };
    if pos != cs.len() {
        return None;
    }
    proof {
        assert(cs@.skip(pos as int).len() == 0);
    }
    Some(DecryptResponse { decrypted, signature })
}

/// Strict JSON decode of a re-encrypt response from exactly `s`.
pub fn decode_reencrypt_response_json(s: &str) -> (r: Option<ReencryptResponse>)
    ensures
        match r {
            Some(m) => spec_dec_reencrypt_response_json(s@) == Some(m@),
            None => spec_dec_reencrypt_response_json(s@) is None,
        },
{
    let cs = str_chars(s);
    proof {
        assert(cs@.skip(0) =~= s@);
    }
    let pos = match match_lit(&cs, 0, "{\"reencrypted\":\"") {
        None => {
            return None;
        },
        Some(p) => p,
    };
    let (reencrypted, pos) = match read_jstring(&cs, pos) {
        None => {
            return None;
        },
        Some(p) => p,
    };
    let pos = match match_lit(&cs, pos, ",\"signature\":\"") {
        None => {
            return None;
        },
        Some(p) => p,
    };
    let (signature, pos) = match read_jstring(&cs, pos) {
        None => {
            return None;
        },
        Some(p) => p,
    };
    let pos = match match_lit(&cs, pos, "}") {
        None => {
            return None;
        },
        Some(p) => p,
    };
    if pos != cs.len() {
        return None;
    }
    proof {
        assert(cs@.skip(pos as int).len() == 0);
    }
    Some(ReencryptResponse { reencrypted, signature })
}

/// Strict JSON decode of a nil-assertion response from exactly `s`.
pub fn decode_is_nil_response_json(s: &str) -> (r: Option<IsNilResponse>)
    ensures
        match r {
            Some(m) => spec_dec_is_nil_response_json(s@) == Some(m@),
            None => spec_dec_is_nil_response_json(s@) is None,
        },
{
    let cs = str_chars(s);
    proof {
        assert(cs@.skip(0) =~= s@);
    }
    let pos = match match_lit(&cs, 0, "{\"is_nil\":") {
        None => {
            return None;
        },
        Some(p) => p,
    };
    proof {
        if pos < cs@.len() {
            assert(cs@.skip(pos as int)[0] == cs@[pos as int]);
        }
    }
    let (is_nil, pos) = if pos < cs.len() && cs[pos] == 't' {
        match match_lit(&cs, pos, "true") {
            None => {
                return None;
            },
            Some(np) => (true, np),
        }
    } else {
        match match_lit(&cs, pos, "false") {
            None => {
                return None;
            },
            Some(np) => (false, np),
        }
    };
    let pos = match match_lit(&cs, pos, ",\"signature\":\"") {
        None => {
            return None;
        },
        Some(p) => p,
    };
    let (signature, pos) = match read_jstring(&cs, pos) {
        None => {
            return None;
        },
        Some(p) => p,
    };
    let pos = match match_lit(&cs, pos, "}") {
        None => {
            return None;
        },
        Some(p) => p,
    };
    if pos != cs.len() {
        return None;
    }
    proof {
        assert(cs@.skip(pos as int).len() == 0);
    }
    Some(IsNilResponse { is_nil, signature })
}

} // verus!
