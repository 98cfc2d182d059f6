//! TPM 2.0 attestation backend.
//!
//! The backend drives a TPM 2.0 device through `tpm2-tools`. One request does
//! this:
//!
//! ```text
//!   measure the folder        TPM
//!   ------------------>  PCR_Reset(pcr)
//!                        PCR_Extend(pcr, folder_digest)
//!                        PCR_Read(pcr)            -> pcr_value
//!                        Quote(pcr, qualifying)   -> TPMT_SIGNATURE + TPMS_ATTEST
//! ```
//!
//! The folder digest is **not** the attestation. Only the PCR value and the
//! signed quote are, and both are produced by the TPM itself.
//!
//! Reading the file system and running commands is left to the program around
//! this library. It performs what [`measure::FolderScan`], [`session::Session`]
//! and [`verify::Verification`] ask for, one action at a time, and hands the
//! outcome back; every decision is taken here.

pub mod binding;
pub mod command;
pub mod config;
pub mod error;
pub mod history;
pub mod measure;
pub mod nonce;
pub mod payload;
pub mod registers;
pub mod session;
pub mod verify;
pub mod walk;

pub use command::{classify_failure, tpm2, CommandOutcome, Scratch};
pub use config::{
    default_measure_dir, TpmConfig, TpmEnvironment, BACKEND_NAME, DEFAULT_AK_HANDLE,
    DEFAULT_HASH_ALGORITHM, DEFAULT_PCR_INDEX, DEFAULT_SIMULATOR_DIR, DEFAULT_TCTI, ENV_AK_HANDLE,
    ENV_HASH_ALGORITHM, ENV_MEASURE_DIR, ENV_PCR_INDEX, ENV_SIMULATOR_DIR, ENV_TCTI,
    MAX_QUALIFYING_DATA_LEN, RC_MEASURE_FAIL, RC_QUOTE_FAIL, RC_REQUEST_ERROR, RC_SUCCESS,
};
pub use error::TpmError;
pub use measure::{
    measure_folder, FileKind, FolderScan, ListFault, ScanAction, ScanAnswer,
};
pub use nonce::{challenge_bytes, normalize_nonce};
pub use payload::{
    utc_timestamp, AttestationAllResponse, CombinedEvidence, FolderMeasurement,
    InformationTpmResponse, MeasuredFile, QuoteEvidence, QuoteTpmRequest, QuoteTpmResponse,
    TdxEvidence, TpmEvidence, TpmMeasurement, VerifyAllResponse,
};
pub use session::{information_tpm, quote_tpm, Event, Session, Step, TpmState};
pub use verify::{check_quote, write_error, Verification};
