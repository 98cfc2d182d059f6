//! TDX and TPM attestation: the core of a web service.
//!
//! The service answers these routes:
//!
//! * `GET  /ping`                                   - liveness probe (`pong`).
//! * `GET  /attestation-with-randomnumber?rn=<hex>` - generate a TDX report.
//! * `POST /verify-report`                          - verify a TDX report.
//! * `POST /parse-report`                           - decode a TDX report.
//! * `GET  /information_tpm`                        - measure a folder into a TPM.
//! * `POST /quote_tpm`                              - quote the measurement.
//! * `POST /attestation_all`                        - a TPM quote and a TDX report.
//! * `POST /verify_all`                             - verify both.
//!
//! Everything that the service decides or computes is here, with its contract.
//! Devices, programs and files are driven by the program around this library,
//! which hands their outcomes back as plain values. When a device is missing the
//! corresponding route answers `501 Not Implemented` rather than faking a
//! result: no report is ever fabricated, and no report is ever reported as
//! trusted without hardware verification.
#![allow(unused_imports)]

pub mod api;
pub mod attestation;
pub mod calendar;
pub mod encoding;
pub mod logging;
pub mod paths;
pub mod report;
pub mod text;
pub mod tpm;

pub use api::{
    attestation_all, attestation_with_random_number, information_tpm, parse_report, ping,
    quote_tpm, verify_all, verify_report, ApiError, AttestationResponse, Body, ErrorResponse,
    Status, VerifyReportRequest, VerifyReportResponse,
};
pub use attestation::{
    generate_tdx_report, report_request, tdreport_reportdata, verify_request, verify_tdx_report,
    verify_tdx_report_hardware, AttestationError, DeviceReply, TDG_MR_VERIFYREPORT_LEAF,
    TDREPORT_LEN, TDREPORT_MAC_OFFSET, TDREPORT_REPORTDATA_OFFSET, TDX_GUEST_DEVICE, TDX_SUCCESS,
    TDX_VERIFY_DEVICE,
};
pub use report::{
    parse_tdreport, ParseReportRequest, ParseReportResponse, ReportMacStruct, TdInfo, TeeTcbInfo,
};
pub use tpm::{
    measure_folder, normalize_nonce, AttestationAllResponse, FolderMeasurement,
    InformationTpmResponse, MeasuredFile, QuoteTpmRequest, QuoteTpmResponse, TdxEvidence,
    TpmConfig, TpmError, TpmEvidence, TpmMeasurement, TpmState, VerifyAllResponse, BACKEND_NAME,
    DEFAULT_AK_HANDLE, DEFAULT_HASH_ALGORITHM, DEFAULT_PCR_INDEX, DEFAULT_SIMULATOR_DIR,
    DEFAULT_TCTI, ENV_AK_HANDLE, ENV_HASH_ALGORITHM, ENV_MEASURE_DIR, ENV_PCR_INDEX,
    ENV_SIMULATOR_DIR, ENV_TCTI, MAX_QUALIFYING_DATA_LEN, RC_MEASURE_FAIL, RC_QUOTE_FAIL,
    RC_REQUEST_ERROR, RC_SUCCESS,
};
