//! The logical request/response schema of the oracle, shared by both wire
//! codecs, and the closed operation union that dispatch routes on.
//!
//! Each message owns a mathematical model (`View`); contracts of the codecs
//! and of the service speak only of these models. The proof carried by each
//! request travels on the wire under the field name `proof`; in code it is
//! called `proof_text`.

use vstd::prelude::*;

verus! {

use crate::envelope::{EnvelopeModel, FheEncrypted};

/// Request to decrypt an encrypted number; carries proof material.
#[derive(Debug)]
pub struct DecryptRequest {
    pub encrypted: Option<FheEncrypted>,
    pub proof_text: String,
}

pub struct DecryptRequestModel {
    pub encrypted: Option<EnvelopeModel>,
    pub proof_text: Seq<char>,
}

impl View for DecryptRequest {
    type V = DecryptRequestModel;

    open spec fn view(&self) -> DecryptRequestModel {
        DecryptRequestModel {
            encrypted: match self.encrypted {
                Some(e) => Some(e@),
                None => None,
            },
            proof_text: self.proof_text@,
        }
    }
}

/// Request to re-encrypt an encrypted number under the requesting user's
/// public key (hex encoded); carries proof material.
#[derive(Debug)]
pub struct ReencryptRequest {
    pub encrypted: Option<FheEncrypted>,
    pub user_public_key: String,
    pub proof_text: String,
}

pub struct ReencryptRequestModel {
    pub encrypted: Option<EnvelopeModel>,
    pub user_public_key: Seq<char>,
    pub proof_text: Seq<char>,
}

impl View for ReencryptRequest {
    type V = ReencryptRequestModel;

    open spec fn view(&self) -> ReencryptRequestModel {
        ReencryptRequestModel {
            encrypted: match self.encrypted {
                Some(e) => Some(e@),
                None => None,
            },
            user_public_key: self.user_public_key@,
            proof_text: self.proof_text@,
        }
    }
}

/// Request to assert whether an encrypted number is nil; carries proof
/// material.
#[derive(Debug)]
pub struct IsNilRequest {
    pub encrypted: Option<FheEncrypted>,
    pub proof_text: String,
}

pub struct IsNilRequestModel {
    pub encrypted: Option<EnvelopeModel>,
    pub proof_text: Seq<char>,
}

impl View for IsNilRequest {
    type V = IsNilRequestModel;

    open spec fn view(&self) -> IsNilRequestModel {
        IsNilRequestModel {
            encrypted: match self.encrypted {
                Some(e) => Some(e@),
                None => None,
            },
            proof_text: self.proof_text@,
        }
    }
}

/// Response carrying the decoded plaintext in its textual encoding, signed.
#[derive(Debug)]
pub struct DecryptResponse {
    pub decrypted: String,
    pub signature: String,
}

pub struct DecryptResponseModel {
    pub decrypted: Seq<char>,
    pub signature: Seq<char>,
}

impl View for DecryptResponse {
    type V = DecryptResponseModel;

    open spec fn view(&self) -> DecryptResponseModel {
        DecryptResponseModel { decrypted: self.decrypted@, signature: self.signature@ }
    }
}

/// Response carrying the hex encoded re-encrypted ciphertext, signed.
#[derive(Debug)]
pub struct ReencryptResponse {
    pub reencrypted: String,
    pub signature: String,
}

pub struct ReencryptResponseModel {
    pub reencrypted: Seq<char>,
    pub signature: Seq<char>,
}

impl View for ReencryptResponse {
    type V = ReencryptResponseModel;

    open spec fn view(&self) -> ReencryptResponseModel {
        ReencryptResponseModel { reencrypted: self.reencrypted@, signature: self.signature@ }
    }
}

/// Response carrying the nil assertion's outcome, signed.
#[derive(Debug)]
pub struct IsNilResponse {
    pub is_nil: bool,
    pub signature: String,
}

pub struct IsNilResponseModel {
    pub is_nil: bool,
    pub signature: Seq<char>,
}

impl View for IsNilResponse {
    type V = IsNilResponseModel;

    open spec fn view(&self) -> IsNilResponseModel {
        IsNilResponseModel { is_nil: self.is_nil, signature: self.signature@ }
    }
}

/// The closed union of operations the oracle serves; dispatch routes on this
/// tag instead of a path string.
#[derive(Debug)]
pub enum OracleRequest {
    Decrypt(DecryptRequest),
    Reencrypt(ReencryptRequest),
    AssertIsNil(IsNilRequest),
}

pub enum OracleRequestModel {
    Decrypt(DecryptRequestModel),
    Reencrypt(ReencryptRequestModel),
    AssertIsNil(IsNilRequestModel),
}

impl View for OracleRequest {
    type V = OracleRequestModel;

    open spec fn view(&self) -> OracleRequestModel {
        match self {
            OracleRequest::Decrypt(r) => OracleRequestModel::Decrypt(r@),
            OracleRequest::Reencrypt(r) => OracleRequestModel::Reencrypt(r@),
            OracleRequest::AssertIsNil(r) => OracleRequestModel::AssertIsNil(r@),
        }
    }
}

/// The response union matching [`OracleRequest`], one variant per operation.
#[derive(Debug)]
pub enum OracleResponse {
    Decrypt(DecryptResponse),
    Reencrypt(ReencryptResponse),
    AssertIsNil(IsNilResponse),
}

pub enum OracleResponseModel {
    Decrypt(DecryptResponseModel),
    Reencrypt(ReencryptResponseModel),
    AssertIsNil(IsNilResponseModel),
}

impl View for OracleResponse {
    type V = OracleResponseModel;

    open spec fn view(&self) -> OracleResponseModel {
        match self {
            OracleResponse::Decrypt(r) => OracleResponseModel::Decrypt(r@),
            OracleResponse::Reencrypt(r) => OracleResponseModel::Reencrypt(r@),
            OracleResponse::AssertIsNil(r) => OracleResponseModel::AssertIsNil(r@),
        }
    }
}

} // verus!
