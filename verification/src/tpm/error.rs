//! Errors of the TPM backend.

use vstd::prelude::*;

verus! {

/// Errors produced by the TPM backend.
#[derive(Debug, Clone, PartialEq, Eq)]
pub enum TpmError {
    /// The backend cannot be used at all in this environment: `tpm2-tools` is
    /// missing, or the simulator is not reachable. Surfaces as `501`.
    NotImplemented(String),
    /// The caller supplied something the backend cannot work with (a non-hex
    /// nonce, an oversized nonce, ...). Surfaces as `400`.
    InvalidInput(String),
    /// The backend failed for an internal reason: a bad configuration, an I/O
    /// error, a TPM command that was rejected. Surfaces as `500`.
    Internal(String),
}

/// The mathematical view of a [`TpmError`].
pub enum TpmFault {
    NotImplemented(Seq<char>),
    InvalidInput(Seq<char>),
    Internal(Seq<char>),
}

impl View for TpmError {
    type V = TpmFault;

    open spec fn view(&self) -> TpmFault {
        match self {
            TpmError::NotImplemented(message) => TpmFault::NotImplemented(message@),
            TpmError::InvalidInput(message) => TpmFault::InvalidInput(message@),
            TpmError::Internal(message) => TpmFault::Internal(message@),
        }
    }
}

impl TpmFault {
    /// The human readable form of the error.
    pub open spec fn shown(self) -> Seq<char> {
        match self {
            TpmFault::NotImplemented(message) => "TPM backend unavailable: "@ + message,
            TpmFault::InvalidInput(message) => "invalid TPM input: "@ + message,
            TpmFault::Internal(message) => "internal TPM error: "@ + message,
        }
    }
}

impl TpmError {
    /// The human readable form of the error.
    pub fn to_string(&self) -> (r: String)
        ensures
            r@ == self@.shown(),
    {
        match self {
            TpmError::NotImplemented(message) => {
                let mut out = "TPM backend unavailable: ".to_string();
                out.append(message.as_str());
                out
            },
            TpmError::InvalidInput(message) => {
                let mut out = "invalid TPM input: ".to_string();
                out.append(message.as_str());
                out
            },
            TpmError::Internal(message) => {
                let mut out = "internal TPM error: ".to_string();
                out.append(message.as_str());
                out
            },
        }
    }
}

/// What an error says of itself ends with its message, and tells its kind.
pub proof fn law_errors_show_their_messages(message: Seq<char>)
    ensures
        TpmFault::NotImplemented(message).shown() == "TPM backend unavailable: "@ + message,
        TpmFault::InvalidInput(message).shown() == "invalid TPM input: "@ + message,
        TpmFault::Internal(message).shown() == "internal TPM error: "@ + message,
{
}

} // verus!
