//! Verified core of an FHE decryption oracle.
//!
//! The oracle holds secret key material for a fully homomorphic encryption
//! scheme and answers three operations over typed requests: decrypt a
//! ciphertext, re-encrypt a ciphertext under a caller-supplied public key,
//! and assert whether a ciphertext encrypts a nil (all-zero) value. Every
//! request carries a proof that is validated before any key material is
//! touched, and every response is signed over a canonical payload that binds
//! it to the request it answers.
//!
//! Modules, leaves first: [`envelope`] defines the ciphertext envelope and
//! its width tag; [`errors`] the classified failure kinds; [`hexcode`] and
//! [`varint`] the byte-level encodings shared by the codecs and the signer;
//! [`engine`] a deterministic reference engine implementing the engine
//! binding interface; [`textutil`] small verified string helpers;
//! [`proof_check`] the proof verifier; [`resolver`] the key resolver;
//! [`signer`] response canonicalization and signing; [`messages`] the
//! request/response schema; [`codec_bin`] and [`codec_json`] the two wire
//! codecs over that schema; [`service`] the oracle service and its typed
//! dispatch; [`transport`] the byte-level frame entry points of both
//! transports.

pub mod codec_bin;
pub mod codec_json;
pub mod engine;
pub mod envelope;
pub mod errors;
pub mod hexcode;
pub mod messages;
pub mod proof_check;
pub mod resolver;
pub mod service;
pub mod signer;
pub mod textutil;
pub mod transport;
pub mod varint;
