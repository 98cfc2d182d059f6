//! Payloads of the TPM routes.

use crate::calendar;
use vstd::prelude::*;

verus! {

/// One measured file.
#[derive(Debug, Clone, PartialEq, Eq)]
pub struct MeasuredFile {
    /// Path of the file **relative to the measured directory**, as text: bytes
    /// that are not UTF-8 are replaced, and backslashes are shown as slashes.
    pub name: String,
    /// `SHA-256` of the file contents, hex encoded.
    pub hash: String,
    /// Size of the file in bytes.
    pub size: u64,
}

/// The mathematical view of a [`MeasuredFile`].
#[verifier::ext_equal]
pub struct FileModel {
    pub name: Seq<char>,
    pub hash: Seq<char>,
    pub size: u64,
}

impl View for MeasuredFile {
    type V = FileModel;

    open spec fn view(&self) -> FileModel {
        FileModel { name: self.name@, hash: self.hash@, size: self.size }
    }
}

/// The views of a list of measured files.
pub open spec fn file_views(files: Seq<MeasuredFile>) -> Seq<FileModel> {
    Seq::new(files.len(), |i: int| files[i]@)
}

/// Result of measuring a directory.
#[derive(Debug, Clone, PartialEq, Eq)]
pub struct FolderMeasurement {
    /// Absolute path of the measured directory.
    pub directory: String,
    /// Hash algorithm used for the per-file and the total digest.
    pub hash_algorithm: String,
    /// The measured files, sorted by relative path.
    pub measurement: Vec<MeasuredFile>,
    /// The combined digest that is extended into the PCR.
    pub total_hash: String,
}

/// The mathematical view of a [`FolderMeasurement`].
#[verifier::ext_equal]
pub struct FolderModel {
    pub directory: Seq<char>,
    pub hash_algorithm: Seq<char>,
    pub measurement: Seq<FileModel>,
    pub total_hash: Seq<char>,
}

impl View for FolderMeasurement {
    type V = FolderModel;

    open spec fn view(&self) -> FolderModel {
        FolderModel {
            directory: self.directory@,
            hash_algorithm: self.hash_algorithm@,
            measurement: file_views(self.measurement@),
            total_hash: self.total_hash@,
        }
    }
}

/// Measurement block (`time-stamp` / `measurement` / `total_hash`).
#[derive(Debug, Clone, PartialEq, Eq)]
pub struct TpmMeasurement {
    /// UTC timestamp of the measurement, `YYYY.MM.DD HH:MM:SS`.
    pub time_stamp: String,
    /// The measured files.
    pub measurement: Vec<MeasuredFile>,
    /// The combined digest.
    pub total_hash: String,
}

/// UTC time at `seconds` since the Unix epoch as `YYYY.MM.DD HH:MM:SS`.
pub open spec fn stamp_text(seconds: nat) -> Seq<char> {
    calendar::date_text(seconds, '.') + " "@ + calendar::clock_text(seconds)
}

/// UTC time at `seconds` since the Unix epoch as `YYYY.MM.DD HH:MM:SS`.
pub fn utc_timestamp(seconds: u64) -> (r: String)
    ensures
        r@ == stamp_text(seconds as nat),
{
    let mut out = calendar::date_string(seconds, '.');
    out.append(" ");
    out.append(calendar::clock_string(seconds).as_str());
    out
}

/// Until the end of the year 9999 a timestamp has 19 characters, with dots
/// between the parts of the date and a blank before the time of day.
pub proof fn law_timestamp_shape(seconds: nat)
    requires
        seconds < 253_402_300_800,
    ensures
        stamp_text(seconds).len() == 19,
        stamp_text(seconds)[4] == '.',
        stamp_text(seconds)[7] == '.',
        stamp_text(seconds)[10] == ' ',
{
    reveal_strlit(" ");
    calendar::law_stamp_shape(seconds, '.');
}

/// Whether `block` is the measurement `folder`, stamped at `seconds`.
pub open spec fn stamped(folder: FolderModel, seconds: nat, block: TpmMeasurement) -> bool {
    &&& block.time_stamp@ == stamp_text(seconds)
    &&& file_views(block.measurement@) == folder.measurement
    &&& block.total_hash@ == folder.total_hash
}

impl FolderMeasurement {
    /// The measurement block, stamped at `seconds` since the Unix epoch.
    pub fn as_tpm_measurement(&self, seconds: u64) -> (r: TpmMeasurement)
        ensures
            stamped(self@, seconds as nat, r),
    {
        let mut files: Vec<MeasuredFile> = Vec::new();
        let mut i: usize = 0;
        while i < self.measurement.len()
            invariant
                i <= self.measurement@.len(),
                files@.len() == i,
                forall|j: int| 0 <= j < i ==> (#[trigger] files@[j])@ == self.measurement@[j]@,
            decreases self.measurement@.len() - i,
        {
            let file = &self.measurement[i];
            files.push(
                MeasuredFile { name: file.name.clone(), hash: file.hash.clone(), size: file.size },
            );
            i = i + 1;
        }
        assert(file_views(files@) == self@.measurement);
        TpmMeasurement {
            time_stamp: utc_timestamp(seconds),
            measurement: files,
            total_hash: self.total_hash.clone(),
        }
    }
}

/// Successful response of `GET /information_tpm`.
#[derive(Debug, Clone, PartialEq, Eq)]
pub struct InformationTpmResponse {
    /// Which client library is used to talk to the TPM (`tpm2-tools`).
    pub backend: String,
    /// Where the simulator deployment lives.
    pub simulator: String,
    /// The TCTI every TPM command is issued with.
    pub tcti: String,
    /// The directory that was measured (absolute).
    pub measured_directory: String,
    /// The hash algorithm used for the folder digest.
    pub hash_algorithm: String,
    /// The PCR the folder digest was extended into.
    pub pcr_index: u32,
    /// The folder measurement.
    pub measurement: TpmMeasurement,
    /// The PCR value after `PCR_Reset` + `PCR_Extend`, hex encoded.
    pub pcr_value: String,
    /// Persistent handle of the Attestation Key.
    pub ak_handle: String,
    /// Public part of the Attestation Key, PEM encoded (best effort).
    pub ak_pubkey: Option<String>,
}

/// Request body of `POST /quote_tpm`.
///
/// `challenge` is accepted as an alias of `nonce`; `nonce_size` and `mask` are
/// accepted for compatibility but are not required.
#[derive(Debug, Clone, PartialEq, Eq)]
pub struct QuoteTpmRequest {
    /// The challenge, hex encoded. Bound to the quote as `qualifyingData`.
    pub nonce: Option<String>,
    /// Alias of `nonce`.
    pub challenge: Option<String>,
    /// Accepted for compatibility; the length is derived from `nonce`.
    pub nonce_size: Option<usize>,
    /// Accepted for compatibility; the PCR is server configured.
    pub mask: Option<String>,
}

impl Default for QuoteTpmRequest {
    /// The request `{}`.
    fn default() -> (r: Self)
        ensures
            r.nonce is None && r.challenge is None && r.nonce_size is None && r.mask is None,
    {
        QuoteTpmRequest { nonce: None, challenge: None, nonce_size: None, mask: None }
    }
}

/// The TPM evidence carried by [`QuoteTpmResponse`].
#[derive(Debug, Clone, PartialEq, Eq)]
pub struct TpmEvidence {
    /// `signature:message:pcrs`, each part base64-encoded (see
    /// [`TpmEvidence::signature`] for the exact layering).
    pub quote: String,
    /// Length of [`TpmEvidence::quote`] in characters.
    pub quote_size: usize,
    /// `base64(hex(TPMT_SIGNATURE))`.
    pub signature: String,
    /// `base64(hex(TPMS_ATTEST))` - the structure the signature covers.
    pub message: String,
    /// `base64(hex(TPML_PCR_SELECTION))`, one digest per selected PCR.
    pub pcrs: String,
    /// Size of the raw signature in bytes.
    pub signature_size: usize,
    /// Size of the raw attestation structure in bytes.
    pub message_size: usize,
    /// The challenge that was bound to the quote, hex encoded (lowercase).
    pub nonce: String,
    /// Length of the challenge in bytes.
    pub nonce_size: usize,
    /// The PCR the quote covers.
    pub pcr_index: u32,
    /// The hash bank the quote covers.
    pub hash_algorithm: String,
    /// The Attestation Key that produced the signature.
    pub ak_handle: String,
}

/// `evidence` wrapper of [`QuoteTpmResponse`].
#[derive(Debug, Clone, PartialEq, Eq)]
pub struct QuoteEvidence {
    /// The TPM evidence.
    pub tpm: TpmEvidence,
}

/// Successful response of `POST /quote_tpm`.
#[derive(Debug, Clone, PartialEq, Eq)]
pub struct QuoteTpmResponse {
    /// Status code; always [`crate::tpm::RC_SUCCESS`] on an HTTP 200.
    pub status: u32,
    /// The folder measurement the PCR was extended with.
    pub measurement: TpmMeasurement,
    /// The PCR value after `PCR_Reset` + `PCR_Extend`, hex encoded.
    pub pcr_value: String,
    /// The PCR index the quote covers.
    pub pcr_index: u32,
    /// The hash bank the quote covers.
    pub hash_algorithm: String,
    /// The TPM evidence.
    pub evidence: QuoteEvidence,
    /// Public part of the Attestation Key, PEM encoded (best effort).
    pub ak_pubkey: String,
}

/// The TDX evidence carried by [`AttestationAllResponse`].
#[derive(Debug, Clone, PartialEq, Eq)]
pub struct TdxEvidence {
    /// The `TDREPORT`, hex encoded (2048 hex chars for 1024 bytes).
    pub report: String,
    /// The challenge that the report is bound to, hex encoded (lowercase).
    pub nonce: String,
    /// Length of the challenge in bytes.
    pub nonce_size: usize,
}

/// `evidence` wrapper of [`AttestationAllResponse`].
#[derive(Debug, Clone, PartialEq, Eq)]
pub struct CombinedEvidence {
    /// The TPM evidence.
    pub tpm: TpmEvidence,
    /// The TDX evidence. Always there in a response; a structure that is
    /// handed in for verification may lack it.
    pub tdx: Option<TdxEvidence>,
}

/// Successful response of `POST /attestation_all`, and request body of
/// `POST /verify_all`: the `/quote_tpm` structure with a TDX report bound to
/// the same challenge.
#[derive(Debug, Clone, PartialEq, Eq)]
pub struct AttestationAllResponse {
    /// Status code; always [`crate::tpm::RC_SUCCESS`] on an HTTP 200.
    pub status: u32,
    /// The folder measurement the PCR was extended with.
    pub measurement: TpmMeasurement,
    /// The PCR value after `PCR_Reset` + `PCR_Extend`, hex encoded.
    pub pcr_value: String,
    /// The PCR index the quote covers.
    pub pcr_index: u32,
    /// The hash bank the quote covers.
    pub hash_algorithm: String,
    /// The TPM and the TDX evidence.
    pub evidence: CombinedEvidence,
    /// Public part of the Attestation Key, PEM encoded (best effort).
    pub ak_pubkey: String,
}

/// Successful response of `POST /verify_all`.
#[derive(Debug, Clone, Copy, PartialEq, Eq)]
pub struct VerifyAllResponse {
    /// Whether both halves verified.
    pub trusted: bool,
    /// Whether `tpm2_checkquote` accepted the TPM quote.
    pub tpm_trusted: bool,
    /// Whether the TDX module accepted the TDX report.
    pub tdx_trusted: bool,
}

/// A timestamp is the date with dots, a blank, and the time of day.
pub proof fn law_timestamps_are_date_and_time(seconds: nat)
    ensures
        stamp_text(seconds) == calendar::date_text(seconds, '.') + seq![' '] + calendar::clock_text(
            seconds,
        ),
{
    reveal_strlit(" ");
    assert(stamp_text(seconds) =~= calendar::date_text(seconds, '.') + seq![' ']
        + calendar::clock_text(seconds));
}

/// A measurement block holds the files and the digest of the folder as they are,
/// and the time at which it was made.
pub proof fn law_blocks_hold_the_folder(
    folder: FolderModel,
    seconds: nat,
    block: TpmMeasurement,
    i: int,
)
    requires
        stamped(folder, seconds, block),
        0 <= i < folder.measurement.len(),
    ensures
        block.time_stamp@ == stamp_text(seconds),
        block.total_hash@ == folder.total_hash,
        block.measurement@.len() == folder.measurement.len(),
        block.measurement@[i].name@ == folder.measurement[i].name,
        block.measurement@[i].hash@ == folder.measurement[i].hash,
        block.measurement@[i].size == folder.measurement[i].size,
{
    assert(file_views(block.measurement@)[i] == block.measurement@[i]@);
}

} // verus!
