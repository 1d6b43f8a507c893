//! Classified failures of the oracle protocol.

use vstd::prelude::*;

verus! {

/// Failure reported by the engine binding. Opaque to callers of the oracle:
/// the service maps every engine failure to [`OracleError::EngineFailure`].
#[derive(Clone, Copy, PartialEq, Eq, Structural, Debug)]
pub enum EngineError {
    /// The ciphertext payload does not decode under the declared width.
    CiphertextMismatch,
    /// The key material handed to the engine has the wrong shape.
    KeyMismatch,
}

/// Caller-visible failure of an oracle call. Every failure aborts the call
/// entirely; there is no partial-success response shape.
#[derive(Clone, Copy, PartialEq, Eq, Structural, Debug)]
pub enum OracleError {
    /// Envelope, width or hex decoding failed; no engine call was attempted.
    MalformedRequest,
    /// Proof verification failed; no partial decryption is ever revealed.
    ProofRejected,
    /// The engine reported an internal error; contained to this call.
    EngineFailure,
    /// No signature could be produced; the unsigned result is withheld.
    SigningFailure,
}

impl OracleError {
    /// Stable numeric code of this failure kind.
    pub open spec fn spec_code(self) -> int {
        match self {
            OracleError::MalformedRequest => 1,
            OracleError::ProofRejected => 2,
            OracleError::EngineFailure => 3,
            OracleError::SigningFailure => 4,
        }
    }

    /// Stable human-readable message; never carries key material.
    pub open spec fn spec_message(self) -> Seq<char> {
        match self {
            OracleError::MalformedRequest => "malformed request"@,
            OracleError::ProofRejected => "proof rejected"@,
            OracleError::EngineFailure => "engine failure"@,
            OracleError::SigningFailure => "signing failure"@,
        }
    }

    pub fn code(&self) -> (r: u32)
        ensures
            r == self.spec_code(),
    {
        match self {
            OracleError::MalformedRequest => 1,
            OracleError::ProofRejected => 2,
            OracleError::EngineFailure => 3,
            OracleError::SigningFailure => 4,
        }
    }

    pub fn message(&self) -> (r: &'static str)
        ensures
            r@ == self.spec_message(),
    {
        match self {
            OracleError::MalformedRequest => "malformed request",
            OracleError::ProofRejected => "proof rejected",
            OracleError::EngineFailure => "engine failure",
            OracleError::SigningFailure => "signing failure",
        }
    }
}

} // verus!
