//! HTTP layer: payloads, errors, and what every route answers.
//!
//! | Method | Path                                 | Success         | Failure       |
//! |--------|--------------------------------------|-----------------|---------------|
//! | `GET`  | `/ping`                              | `200 pong`      | -             |
//! | `GET`  | `/attestation-with-randomnumber?rn=` | `200 {report}`  | `400` / `501` |
//! | `POST` | `/verify-report`                     | `200 {trusted}` | `400` / `501` |
//! | `POST` | `/parse-report`                      | `200 {parsed}`  | `400`         |
//! | `GET`  | `/information_tpm`                   | `200 {info}`    | `400` / `501` |
//! | `POST` | `/quote_tpm`                         | `200 {quote}`   | `400` / `501` |
//! | `POST` | `/attestation_all`                   | `200 {tpm+tdx}` | `400` / `501` |
//! | `POST` | `/verify_all`                        | `200 {trusted}` | `400` / `501` |
//!
//! A route that needs a device is two functions here: one takes from the
//! request what the device is asked for, and one gives the response once the
//! device has replied. The program around this library asks the device in
//! between, and only when the first function accepts the request.

use crate::attestation;
use crate::attestation::{AttestationError, AttestationFault, DeviceReply, TDREPORT_LEN};
use crate::encoding;
use crate::report;
use crate::report::{ParseReportRequest, ParseReportResponse};
use crate::text;
use crate::tpm::command::ScratchModel;
use crate::tpm::error::{TpmError, TpmFault};
use crate::tpm::history;
use crate::tpm::nonce;
use crate::tpm::payload::{
    AttestationAllResponse, CombinedEvidence, InformationTpmResponse, QuoteTpmRequest,
    QuoteTpmResponse, TdxEvidence, VerifyAllResponse,
};
use crate::tpm::session;
use crate::tpm::session::{EventModel, Phase, StateModel};
use crate::tpm::verify;
use crate::tpm::verify::Verification;
use vstd::prelude::*;
use vstd::utf8::*;

verus! {

// ---------------------------------------------------------------------------
// Status codes
// ---------------------------------------------------------------------------

/// An HTTP status. Statuses with the same code are equal.
#[derive(Debug, Clone, Copy)]
pub enum Status {
    /// `200 OK`.
    Success,
    /// `400 Bad Request`.
    BadRequest,
    /// `404 Not Found`.
    NotFound,
    /// `422 Unprocessable Entity`.
    UnprocessableEntity,
    /// `500 Internal Server Error`.
    InternalServerError,
    /// `501 Not Implemented`.
    NotImplemented,
    /// Any other status, by its code.
    Other(u16),
}

impl Status {
    /// The numeric code.
    pub open spec fn spec_code(self) -> u16 {
        match self {
            Status::Success => 200,
            Status::BadRequest => 400,
            Status::NotFound => 404,
            Status::UnprocessableEntity => 422,
            Status::InternalServerError => 500,
            Status::NotImplemented => 501,
            Status::Other(code) => code,
        }
    }

    /// The numeric code.
    pub fn code(self) -> (r: u16)
        ensures
            r == self.spec_code(),
    {
        match self {
            Status::Success => 200,
            Status::BadRequest => 400,
            Status::NotFound => 404,
            Status::UnprocessableEntity => 422,
            Status::InternalServerError => 500,
            Status::NotImplemented => 501,
            Status::Other(code) => code,
        }
    }
}

impl PartialEq for Status {
    fn eq(&self, other: &Self) -> (r: bool) {
        self.code() == other.code()
    }
}

impl vstd::std_specs::cmp::PartialEqSpecImpl for Status {
    open spec fn obeys_eq_spec() -> bool {
        true
    }

    open spec fn eq_spec(&self, other: &Self) -> bool {
        self.spec_code() == other.spec_code()
    }
}

impl Eq for Status {

}

/// A status code with its reason phrase, such as `404 Not Found`.
pub uninterp spec fn status_text(code: u16) -> Seq<char>;

/// Calls the `Display` rendering of Rocket's `Status`: the code, a blank and
/// the reason phrase. The table of reason phrases is left as a name, except for
/// the codes that the service answers with.
#[verifier::external_body]
fn show_status(code: u16) -> (r: String)
    ensures
        r@ == status_text(code),
        code == 200 ==> r@ == "200 OK"@,
        code == 400 ==> r@ == "400 Bad Request"@,
        code == 404 ==> r@ == "404 Not Found"@,
        code == 422 ==> r@ == "422 Unprocessable Entity"@,
        code == 500 ==> r@ == "500 Internal Server Error"@,
        code == 501 ==> r@ == "501 Not Implemented"@,
{
    rocket::http::Status::new(code).to_string()
}

// ---------------------------------------------------------------------------
// Payloads
// ---------------------------------------------------------------------------

/// Successful response of `GET /attestation-with-randomnumber`.
#[derive(Debug, Clone, PartialEq, Eq)]
pub struct AttestationResponse {
    /// The TDX report, hex encoded.
    pub report: String,
}

/// Request body of `POST /verify-report`.
#[derive(Debug, Clone, PartialEq, Eq)]
pub struct VerifyReportRequest {
    /// The TDX report to verify, hex encoded.
    pub report: String,
}

/// Successful response of `POST /verify-report`.
#[derive(Debug, Clone, PartialEq, Eq)]
pub struct VerifyReportResponse {
    /// Whether the report is trusted. Only ever set from the real verifier.
    pub trusted: bool,
}

/// Body returned for every error response.
#[derive(Debug, Clone, PartialEq, Eq)]
pub struct ErrorResponse {
    /// Human readable description of the failure.
    pub error: String,
}

impl ErrorResponse {
    /// The body that says `message`.
    pub fn new(message: String) -> (r: Self)
        ensures
            r.error@ == message@,
    {
        ErrorResponse { error: message }
    }
}

/// A request body, once it is read and parsed.
#[derive(Debug)]
pub enum Body<T> {
    /// It could not be read, for the given reason.
    Unreadable(String),
    /// It is no JSON document of the expected shape, for the given reason.
    Malformed(String),
    /// It was parsed.
    Parsed(T),
}

/// Why a body gives no request, in words; `None` when it does.
pub open spec fn body_refusal<T>(body: Body<T>) -> Option<Seq<char>> {
    match body {
        Body::Unreadable(reason) => Some("could not read body: "@ + reason@),
        Body::Malformed(reason) => Some("invalid JSON body: "@ + reason@),
        Body::Parsed(_) => None,
    }
}

// ---------------------------------------------------------------------------
// Error type
// ---------------------------------------------------------------------------

/// An HTTP error that can be returned from a route handler.
///
/// Handlers never panic: every failure path is expressed as an `ApiError`,
/// which renders a JSON body plus the matching status code.
#[derive(Debug, Clone)]
pub struct ApiError {
    status: Status,
    message: String,
}

/// The mathematical view of an [`ApiError`].
#[verifier::ext_equal]
pub struct ApiFault {
    pub status: Status,
    pub message: Seq<char>,
}

impl View for ApiError {
    type V = ApiFault;

    closed spec fn view(&self) -> ApiFault {
        ApiFault { status: self.status, message: self.message@ }
    }
}

/// `400 Bad Request`.
pub open spec fn bad_request(message: Seq<char>) -> ApiFault {
    ApiFault { status: Status::BadRequest, message }
}

/// What a TDX error is answered with: no TDX backend in this environment is a
/// 501, never a fake report.
pub open spec fn attestation_fault(e: AttestationFault) -> ApiFault {
    match e {
        AttestationFault::NotImplemented => ApiFault {
            status: Status::NotImplemented,
            message: "TDX attestation is not implemented on this host"@,
        },
        AttestationFault::InvalidInput(message) => bad_request(message),
        AttestationFault::Internal(message) => ApiFault {
            status: Status::InternalServerError,
            message,
        },
    }
}

/// What a TPM error is answered with: no TPM backend reachable is a 501, never
/// a fabricated measurement.
pub open spec fn tpm_fault(e: TpmFault) -> ApiFault {
    match e {
        TpmFault::NotImplemented(message) => ApiFault { status: Status::NotImplemented, message },
        TpmFault::InvalidInput(message) => bad_request(message),
        TpmFault::Internal(message) => ApiFault { status: Status::InternalServerError, message },
    }
}

impl ApiError {
    /// Creates an error with an explicit status code.
    pub fn new(status: Status, message: String) -> (r: Self)
        ensures
            r@ == (ApiFault { status, message: message@ }),
    {
        ApiError { status, message }
    }

    /// `400 Bad Request` - the caller sent something malformed.
    pub fn bad_request(message: String) -> (r: Self)
        ensures
            r@ == bad_request(message@),
    {
        ApiError::new(Status::BadRequest, message)
    }

    /// The HTTP status this error is rendered with.
    pub fn status(&self) -> (r: Status)
        ensures
            r == self@.status,
    {
        self.status
    }

    /// The human readable message this error is rendered with.
    pub fn message(&self) -> (r: &str)
        ensures
            r@ == self@.message,
    {
        self.message.as_str()
    }

    /// The human readable form of the error.
    pub fn to_string(&self) -> (r: String)
        ensures
            r@ == status_text(self@.status.spec_code()) + ": "@ + self@.message,
    {
        let mut out = show_status(self.status.code());
        out.append(": ");
        out.append(self.message.as_str());
        out
    }

    /// The status and the body that the error is rendered with.
    pub fn response(self) -> (r: (Status, ErrorResponse))
        ensures
            r.0 == self@.status,
            r.1.error@ == self@.message,
    {
        (self.status, ErrorResponse::new(self.message))
    }
}

impl From<AttestationError> for ApiError {
    fn from(err: AttestationError) -> (r: Self)
        ensures
            r@ == attestation_fault(err@),
    {
        match err {
            AttestationError::NotImplemented => ApiError::new(
                Status::NotImplemented,
                "TDX attestation is not implemented on this host".to_string(),
            ),
            AttestationError::InvalidInput(message) => ApiError::new(Status::BadRequest, message),
            AttestationError::Internal(message) => ApiError::new(
                Status::InternalServerError,
                message,
            ),
        }
    }
}

impl vstd::std_specs::convert::FromSpecImpl<AttestationError> for ApiError {
    open spec fn obeys_from_spec() -> bool {
        false
    }

    open spec fn from_spec(err: AttestationError) -> Self {
        arbitrary()
    }
}

impl From<TpmError> for ApiError {
    fn from(err: TpmError) -> (r: Self)
        ensures
            r@ == tpm_fault(err@),
    {
        match err {
            TpmError::NotImplemented(message) => ApiError::new(Status::NotImplemented, message),
            TpmError::InvalidInput(message) => ApiError::new(Status::BadRequest, message),
            TpmError::Internal(message) => ApiError::new(Status::InternalServerError, message),
        }
    }
}

impl vstd::std_specs::convert::FromSpecImpl<TpmError> for ApiError {
    open spec fn obeys_from_spec() -> bool {
        false
    }

    open spec fn from_spec(err: TpmError) -> Self {
        arbitrary()
    }
}

/// The request that a body gives.
fn request_of<T>(body: &Body<T>) -> (r: Result<&T, ApiError>)
    ensures
        match r {
            Ok(request) => *body == Body::Parsed(*request),
            Err(e) => body_refusal(*body) matches Some(why) && e@ == bad_request(why),
        },
{
    match body {
        Body::Unreadable(reason) => {
            let mut message = "could not read body: ".to_string();
            message.append(reason.as_str());
            Err(ApiError::bad_request(message))
        },
        Body::Malformed(reason) => {
            let mut message = "invalid JSON body: ".to_string();
            message.append(reason.as_str());
            Err(ApiError::bad_request(message))
        },
        Body::Parsed(request) => Ok(request),
    }
}

// ---------------------------------------------------------------------------
// TDX routes
// ---------------------------------------------------------------------------

/// `GET /ping` - liveness probe.
///
/// Always answers `200 OK` with the plain-text body `pong`.
pub fn ping() -> (r: &'static str)
    ensures
        r@ == "pong"@,
{
    "pong"
}

/// The bytes that the hex encoded field `name` stands for, or the error that it
/// is answered with.
pub open spec fn hex_field(name: Seq<char>, value: Seq<char>) -> Result<Seq<u8>, ApiFault> {
    match encoding::hex_refusal(encode_utf8(value)) {
        Some(why) => Err(bad_request("'"@ + name + "' is not a valid hex string: "@ + why)),
        None => Ok(encoding::unhexed(encode_utf8(value))),
    }
}

/// The bytes that the hex encoded field `name` stands for.
fn decode_field(name: &str, value: &str) -> (r: Result<Vec<u8>, ApiError>)
    ensures
        match r {
            Ok(bytes) => hex_field(name@, value@) == Ok::<Seq<u8>, ApiFault>(bytes@),
            Err(e) => hex_field(name@, value@) == Err::<Seq<u8>, ApiFault>(e@),
        },
{
    match encoding::decode_hex(value) {
        Ok(bytes) => Ok(bytes),
        Err(why) => {
            let mut message = "'".to_string();
            message.append(name);
            message.append("' is not a valid hex string: ");
            message.append(why.as_str());
            Err(ApiError::bad_request(message))
        },
    }
}

/// The random number that the query parameter `rn` gives, or the error that it
/// is answered with.
pub open spec fn requested_number(rn: Option<String>) -> Result<Seq<u8>, ApiFault> {
    match rn {
        None => Err(bad_request("missing query parameter 'rn'"@)),
        Some(value) => hex_field("rn"@, value@),
    }
}

/// The random number that the query parameter `rn` gives.
///
/// No byte length is enforced here: the length and zero-padding rules belong to
/// [`attestation::report_request`].
pub fn random_number(rn: &Option<String>) -> (r: Result<Vec<u8>, ApiError>)
    ensures
        match r {
            Ok(bytes) => requested_number(*rn) == Ok::<Seq<u8>, ApiFault>(bytes@),
            Err(e) => requested_number(*rn) == Err::<Seq<u8>, ApiFault>(e@),
        },
{
    match rn {
        None => Err(ApiError::bad_request("missing query parameter 'rn'".to_string())),
        Some(value) => decode_field("rn", value.as_str()),
    }
}

/// `GET /attestation-with-randomnumber?rn=<hex>`
///
/// `rn` is the hex encoded random number (nonce) that the report must be bound
/// to, and `reply` is how the device answered the request for that report.
///
/// * missing `rn`         -> `400 Bad Request`
/// * non-hexadecimal `rn` -> `400 Bad Request`
/// * oversized `rn`       -> `400 Bad Request`
/// * no TDX backend       -> `501 Not Implemented`
/// * otherwise            -> `200 { "report": "<hex>" }`
pub fn attestation_with_random_number(
    rn: Option<String>,
    reply: DeviceReply<[u8; TDREPORT_LEN]>,
) -> (r: Result<AttestationResponse, ApiError>)
    ensures
        match requested_number(rn) {
            Err(e) => r matches Err(error) && error@ == e,
            Ok(bytes) => match attestation::generated(bytes, reply) {
                Err(e) => r matches Err(error) && error@ == attestation_fault(e),
                Ok(report) => r matches Ok(response) && response.report@ == encoding::hex_text(
                    report,
                ),
            },
        },
{
    let bytes = match random_number(&rn) {
        Ok(bytes) => bytes,
        Err(e) => {
            return Err(e);
        },
    };
    match attestation::generate_tdx_report(bytes.as_slice(), reply) {
        Ok(report) => Ok(AttestationResponse { report: encoding::hex_encode(report.as_slice()) }),
        Err(e) => Err(ApiError::from(e)),
    }
}

/// The report that a body hands in, or the error that it is answered with.
pub open spec fn handed_report(body: Body<VerifyReportRequest>) -> Result<Seq<u8>, ApiFault> {
    match body {
        Body::Parsed(request) => hex_field("report"@, request.report@),
        _ => Err(bad_request(body_refusal(body)->0)),
    }
}

/// The report that a body hands in for verification.
pub fn report_to_verify(body: &Body<VerifyReportRequest>) -> (r: Result<Vec<u8>, ApiError>)
    ensures
        match r {
            Ok(bytes) => handed_report(*body) == Ok::<Seq<u8>, ApiFault>(bytes@),
            Err(e) => handed_report(*body) == Err::<Seq<u8>, ApiFault>(e@),
        },
{
    match request_of(body) {
        Ok(request) => decode_field("report", request.report.as_str()),
        Err(e) => Err(e),
    }
}

/// `POST /verify-report`
///
/// Request body: `{ "report": "<hex>" }`; `reply` is how the device answered
/// the request to verify that report.
///
/// * unreadable / non-JSON body -> `400 Bad Request`
/// * `report` not hex           -> `400 Bad Request`
/// * `report` not 1024 bytes    -> `400 Bad Request`
/// * no TDX verifier            -> `501 Not Implemented`
/// * otherwise                  -> `200 { "trusted": bool }`
pub fn verify_report(body: Body<VerifyReportRequest>, reply: DeviceReply<u64>) -> (r: Result<
    VerifyReportResponse,
    ApiError,
>)
    ensures
        match handed_report(body) {
            Err(e) => r matches Err(error) && error@ == e,
            Ok(report) => match attestation::verdict(report, reply) {
                Err(e) => r matches Err(error) && error@ == attestation_fault(e),
                Ok(trusted) => r == Ok::<VerifyReportResponse, ApiError>(
                    VerifyReportResponse { trusted },
                ),
            },
        },
{
    let report = match report_to_verify(&body) {
        Ok(report) => report,
        Err(e) => {
            return Err(e);
        },
    };
    match attestation::verify_tdx_report(report.as_slice(), reply) {
        Ok(trusted) => Ok(VerifyReportResponse { trusted }),
        Err(e) => Err(ApiError::from(e)),
    }
}

/// `POST /parse-report`
///
/// Request body: `{ "report": "<hex>" }`.
///
/// Decodes a hex encoded `TDREPORT` into a human readable document. This is a
/// *parsing* endpoint: it never verifies the report and never claims it is
/// authentic. Use `POST /verify-report` for that.
///
/// * unreadable / non-JSON body -> `400 Bad Request`
/// * `report` not hex           -> `400 Bad Request`
/// * `report` not 1024 bytes    -> `400 Bad Request`
/// * well-formed request        -> `200 { ...decoded fields... }`
pub fn parse_report(body: Body<ParseReportRequest>) -> (r: Result<ParseReportResponse, ApiError>)
    ensures
        match body {
            Body::Parsed(request) => match hex_field("report"@, request.report@) {
                Err(e) => r matches Err(error) && error@ == e,
                Ok(bytes) => if bytes.len() == TDREPORT_LEN {
                    r matches Ok(parsed) && report::decoded(bytes, parsed)
                } else {
                    r matches Err(error) && error@ == bad_request(
                        attestation::wrong_length_text(bytes.len()),
                    )
                },
            },
            _ => r matches Err(error) && error@ == bad_request(body_refusal(body)->0),
        },
{
    let request = match request_of(&body) {
        Ok(request) => request,
        Err(e) => {
            return Err(e);
        },
    };
    let bytes = match decode_field("report", request.report.as_str()) {
        Ok(bytes) => bytes,
        Err(e) => {
            return Err(e);
        },
    };
    match report::parse_tdreport(bytes.as_slice()) {
        Ok(parsed) => Ok(parsed),
        Err(e) => Err(ApiError::from(e)),
    }
}

// ---------------------------------------------------------------------------
// TPM routes
// ---------------------------------------------------------------------------

/// `GET /information_tpm`
///
/// `outcome` is what the TPM backend gave, see
/// [`crate::tpm::session::information_tpm`].
///
/// * missing / unreadable directory   -> `500 Internal Server Error`
/// * simulator not reachable          -> `501 Not Implemented`
/// * otherwise                        -> `200 { ... }`
pub fn information_tpm(outcome: Result<InformationTpmResponse, TpmError>) -> (r: Result<
    InformationTpmResponse,
    ApiError,
>)
    ensures
        match outcome {
            Ok(response) => r == Ok::<InformationTpmResponse, ApiError>(response),
            Err(e) => r matches Err(error) && error@ == tpm_fault(e@),
        },
{
    match outcome {
        Ok(response) => Ok(response),
        Err(e) => Err(ApiError::from(e)),
    }
}

/// The challenge that a body gives, in canonical form, or the error that it is
/// answered with.
pub open spec fn requested_challenge(body: Body<QuoteTpmRequest>) -> Result<Seq<char>, ApiFault> {
    match body {
        Body::Parsed(request) => match nonce::request_refusal(request) {
            Some(why) => Err(bad_request(why)),
            None => Ok(nonce::request_nonce(request)),
        },
        _ => Err(bad_request(body_refusal(body)->0)),
    }
}

/// The challenge that the body of `/quote_tpm` or `/attestation_all` gives, in
/// canonical form.
pub fn challenge(body: &Body<QuoteTpmRequest>) -> (r: Result<String, ApiError>)
    ensures
        match r {
            Ok(nonce) => requested_challenge(*body) == Ok::<Seq<char>, ApiFault>(nonce@),
            Err(e) => requested_challenge(*body) == Err::<Seq<char>, ApiFault>(e@),
        },
{
    match request_of(body) {
        Ok(request) => match request.resolved_nonce() {
            Ok(nonce) => Ok(nonce),
            Err(e) => Err(ApiError::from(e)),
        },
        Err(e) => Err(e),
    }
}

/// `POST /quote_tpm`
///
/// Request body: `{ "nonce": "<hex>", "nonce_size": 32, "mask": "..." }`.
/// `challenge` is accepted as an alias of `nonce`; `nonce_size` and `mask` are
/// accepted and ignored (the PCR is configured server side). `outcome` is what
/// the TPM backend gave for the challenge, see
/// [`crate::tpm::session::quote_tpm`].
///
/// * unreadable / non-JSON body        -> `400 Bad Request`
/// * missing / non-hex / oversized     -> `400 Bad Request`
/// * simulator not reachable           -> `501 Not Implemented`
/// * otherwise                         -> `200 { ... }`
pub fn quote_tpm(
    body: Body<QuoteTpmRequest>,
    outcome: Result<QuoteTpmResponse, TpmError>,
) -> (r: Result<QuoteTpmResponse, ApiError>)
    ensures
        match (requested_challenge(body), outcome) {
            (Err(e), _) => r matches Err(error) && error@ == e,
            (Ok(_), Ok(response)) => r == Ok::<QuoteTpmResponse, ApiError>(response),
            (Ok(_), Err(e)) => r matches Err(error) && error@ == tpm_fault(e@),
        },
{
    match challenge(&body) {
        Ok(_) => match outcome {
            Ok(response) => Ok(response),
            Err(e) => Err(ApiError::from(e)),
        },
        Err(e) => Err(e),
    }
}

// ---------------------------------------------------------------------------
// Combined routes
// ---------------------------------------------------------------------------

/// What two backends that did not both succeed are answered with: 501 when
/// either is unavailable, otherwise the error of the first that failed.
pub open spec fn combined_fault(
    tpm: Option<TpmFault>,
    tdx: Option<AttestationFault>,
) -> Option<ApiFault> {
    match (tpm, tdx) {
        (Some(TpmFault::NotImplemented(reason)), _) => Some(
            tpm_fault(TpmFault::NotImplemented(reason)),
        ),
        (_, Some(AttestationFault::NotImplemented)) => Some(
            attestation_fault(AttestationFault::NotImplemented),
        ),
        (Some(e), _) => Some(tpm_fault(e)),
        (None, Some(e)) => Some(attestation_fault(e)),
        (None, None) => None,
    }
}

/// The error in a result, if it is one.
pub open spec fn tpm_error<T>(result: Result<T, TpmError>) -> Option<TpmFault> {
    match result {
        Ok(_) => None,
        Err(e) => Some(e@),
    }
}

/// The error in a result, if it is one.
pub open spec fn tdx_error<T>(result: Result<T, AttestationFault>) -> Option<AttestationFault> {
    match result {
        Ok(_) => None,
        Err(e) => Some(e),
    }
}

/// Both results, or the error that they are answered with.
fn combine<A, B>(tpm: Result<A, TpmError>, tdx: Result<B, AttestationError>) -> (r: Result<
    (A, B),
    ApiError,
>)
    ensures
        match r {
            Ok((a, b)) => tpm == Ok::<A, TpmError>(a) && tdx == Ok::<B, AttestationError>(b),
            Err(e) => combined_fault(
                tpm_error(tpm),
                match tdx {
                    Ok(_) => None,
                    Err(e) => Some(e@),
                },
            ) == Some(e@),
        },
{
    match (tpm, tdx) {
        (Ok(a), Ok(b)) => Ok((a, b)),
        (Err(TpmError::NotImplemented(reason)), _) => Err(
            ApiError::from(TpmError::NotImplemented(reason)),
        ),
        (_, Err(AttestationError::NotImplemented)) => Err(
            ApiError::from(AttestationError::NotImplemented),
        ),
        (Err(e), _) => Err(ApiError::from(e)),
        (Ok(_), Err(e)) => Err(ApiError::from(e)),
    }
}

/// Whether `all` is the quote together with a TDX report that is bound to
/// `nonce`.
pub open spec fn combined_of(
    quote: QuoteTpmResponse,
    nonce: Seq<char>,
    report: Seq<u8>,
    all: AttestationAllResponse,
) -> bool {
    &&& all.status == quote.status
    &&& all.measurement == quote.measurement
    &&& all.pcr_value == quote.pcr_value
    &&& all.pcr_index == quote.pcr_index
    &&& all.hash_algorithm == quote.hash_algorithm
    &&& all.evidence.tpm == quote.evidence.tpm
    &&& all.ak_pubkey == quote.ak_pubkey
    &&& all.evidence.tdx matches Some(tdx)
    &&& tdx.report@ == encoding::hex_text(report)
    &&& tdx.nonce@ == nonce
    &&& tdx.nonce_size == nonce::nonce_bytes(nonce).len()
}

/// Whether `r` is the answer to a request for a combined attestation, given what
/// the TPM backend gave and how the TDX device replied.
pub open spec fn attested(
    body: Body<QuoteTpmRequest>,
    quote: Result<QuoteTpmResponse, TpmError>,
    reply: DeviceReply<[u8; TDREPORT_LEN]>,
    r: Result<AttestationAllResponse, ApiError>,
) -> bool {
    match requested_challenge(body) {
        Err(e) => r matches Err(error) && error@ == e,
        Ok(nonce) => {
            let tdx = attestation::generated(nonce::nonce_bytes(nonce), reply);
            match combined_fault(tpm_error(quote), tdx_error(tdx)) {
                Some(e) => r matches Err(error) && error@ == e,
                None => r matches Ok(all) && combined_of(quote->Ok_0, nonce, tdx->Ok_0, all),
            }
        },
    }
}

/// `POST /attestation_all`
///
/// Request body: identical to [`quote_tpm`]. `quote` is what the TPM backend
/// gave for the challenge, and `reply` is how the TDX device answered the
/// request for a report bound to the same challenge.
///
/// * unreadable / non-JSON body        -> `400 Bad Request`
/// * missing / non-hex / oversized     -> `400 Bad Request`
/// * either backend unavailable        -> `501 Not Implemented`
/// * otherwise                         -> `200 { ... }`
///
/// The structure is never returned half-filled.
pub fn attestation_all(
    body: Body<QuoteTpmRequest>,
    quote: Result<QuoteTpmResponse, TpmError>,
    reply: DeviceReply<[u8; TDREPORT_LEN]>,
) -> (r: Result<AttestationAllResponse, ApiError>)
    ensures
        attested(body, quote, reply, r),
{
    let nonce = match challenge(&body) {
        Ok(nonce) => nonce,
        Err(e) => {
            return Err(e);
        },
    };
    proof {
        lemma_challenge_is_canonical(body);
    }
    let bytes = match nonce::challenge_bytes(nonce.as_str()) {
        Ok(bytes) => bytes,
        Err(e) => {
            return Err(ApiError::from(e));
        },
    };
    let tdx = attestation::generate_tdx_report(bytes.as_slice(), reply);
    match combine(quote, tdx) {
        Ok((quote, report)) => Ok(
            AttestationAllResponse {
                status: quote.status,
                measurement: quote.measurement,
                pcr_value: quote.pcr_value,
                pcr_index: quote.pcr_index,
                hash_algorithm: quote.hash_algorithm,
                evidence: CombinedEvidence {
                    tpm: quote.evidence.tpm,
                    tdx: Some(
                        TdxEvidence {
                            report: encoding::hex_encode(report.as_slice()),
                            nonce,
                            nonce_size: bytes.len(),
                        },
                    ),
                },
                ak_pubkey: quote.ak_pubkey,
            },
        ),
        Err(e) => Err(e),
    }
}

/// A challenge that is asked for is usable, and in canonical form.
pub proof fn lemma_challenge_is_canonical(body: Body<QuoteTpmRequest>)
    ensures
        requested_challenge(body) matches Ok(nonce) ==> {
            &&& nonce::nonce_refusal(nonce) is None
            &&& nonce::canonical_nonce(nonce) == nonce
        },
{
    if let Ok(challenge) = requested_challenge(body) {
        let request = body->Parsed_0;
        nonce::law_normalize_nonce_is_idempotent(nonce::chosen_nonce(request)->Ok_0);
    }
}

/// What is to be verified of the structure that a body hands in.
pub fn verification(body: &Body<AttestationAllResponse>) -> (r: Result<Verification, ApiError>)
    ensures
        match *body {
            Body::Parsed(all) => match verify::structure_refusal(all) {
                Some(why) => r matches Err(e) && e@ == bad_request(why),
                None => r matches Ok(v) && verify::verification_of(all, v) && v.report@.len()
                    == TDREPORT_LEN,
            },
            _ => r matches Err(e) && e@ == bad_request(body_refusal(*body)->0),
        },
{
    match request_of(body) {
        Ok(all) => match Verification::new(all) {
            Ok(v) => Ok(v),
            Err(e) => Err(ApiError::from(e)),
        },
        Err(e) => Err(e),
    }
}

/// `POST /verify_all`
///
/// Request body: the exact structure returned by [`attestation_all`]. `quote`
/// is the verdict of `tpm2_checkquote` on the TPM half, see
/// [`verify::check_quote`], and `reply` is how the TDX device answered the
/// request to verify the TDX half.
///
/// * unreadable / non-JSON body                  -> `400 Bad Request`
/// * no `tdx` field, or a report that is not hex -> `400 Bad Request`
/// * either backend unavailable                  -> `501 Not Implemented`
/// * otherwise                                   -> `200 { "trusted": bool, ... }`
pub fn verify_all(
    body: Body<AttestationAllResponse>,
    quote: Result<bool, TpmError>,
    reply: DeviceReply<u64>,
) -> (r: Result<VerifyAllResponse, ApiError>)
    ensures
        match body {
            Body::Parsed(all) => match verify::structure_refusal(all) {
                Some(why) => r matches Err(error) && error@ == bad_request(why),
                None => {
                    let report = encoding::unhexed(encode_utf8(all.evidence.tdx->0.report@));
                    let tdx = attestation::verdict(report, reply);
                    match combined_fault(tpm_error(quote), tdx_error(tdx)) {
                        Some(e) => r matches Err(error) && error@ == e,
                        None => r == Ok::<VerifyAllResponse, ApiError>(
                            VerifyAllResponse {
                                trusted: quote->Ok_0 && tdx->Ok_0,
                                tpm_trusted: quote->Ok_0,
                                tdx_trusted: tdx->Ok_0,
                            },
                        ),
                    }
                },
            },
            _ => r matches Err(error) && error@ == bad_request(body_refusal(body)->0),
        },
{
    let v = match verification(&body) {
        Ok(v) => v,
        Err(e) => {
            return Err(e);
        },
    };
    let tdx = attestation::verify_tdx_report(v.report.as_slice(), reply);
    match combine(quote, tdx) {
        Ok((tpm_trusted, tdx_trusted)) => Ok(
            VerifyAllResponse { trusted: tpm_trusted && tdx_trusted, tpm_trusted, tdx_trusted },
        ),
        Err(e) => Err(e),
    }
}

// ---------------------------------------------------------------------------
// Catchers
// ---------------------------------------------------------------------------
//
// Requests that never reach a route (malformed URI, unknown path, unparsable
// query string, panic) are answered with the same JSON envelope as the
// handlers.

/// `400` - the request could not be parsed at the HTTP level.
pub fn catch_bad_request() -> (r: (Status, ErrorResponse))
    ensures
        r.0 == Status::BadRequest,
        r.1.error@ == "the request could not be understood (malformed syntax)"@,
{
    (
        Status::BadRequest,
        ErrorResponse::new("the request could not be understood (malformed syntax)".to_string()),
    )
}

/// `404` - no route matched the request.
pub fn catch_not_found() -> (r: (Status, ErrorResponse))
    ensures
        r.0 == Status::NotFound,
        r.1.error@ == "resource not found"@,
{
    (Status::NotFound, ErrorResponse::new("resource not found".to_string()))
}

/// `422` - a route matched but its parameters could not be parsed.
pub fn catch_unprocessable_entity() -> (r: (Status, ErrorResponse))
    ensures
        r.0 == Status::UnprocessableEntity,
        r.1.error@ == "the request parameters could not be processed"@,
{
    (
        Status::UnprocessableEntity,
        ErrorResponse::new("the request parameters could not be processed".to_string()),
    )
}

/// `500` - an unexpected internal failure.
pub fn catch_internal_server_error() -> (r: (Status, ErrorResponse))
    ensures
        r.0 == Status::InternalServerError,
        r.1.error@ == "internal server error"@,
{
    (Status::InternalServerError, ErrorResponse::new("internal server error".to_string()))
}

// ---------------------------------------------------------------------------
// Laws
// ---------------------------------------------------------------------------

/// A combined attestation is answered with 501 whenever either backend is
/// unavailable, and never half-filled: it succeeds only when both did.
pub proof fn law_either_backend_missing_is_501(
    tpm: Option<TpmFault>,
    tdx: Option<AttestationFault>,
)
    ensures
        combined_fault(tpm, tdx) is None <==> tpm is None && tdx is None,
        (tpm matches Some(TpmFault::NotImplemented(_))) || tdx == Some(
            AttestationFault::NotImplemented,
        ) ==> (combined_fault(tpm, tdx) matches Some(e) && e.status == Status::NotImplemented),
{
}

/// Whether `quote` is what a session obtained that was started with the
/// challenge `nonce`, was told the events of `history`, and ended with success.
pub open spec fn obtained(
    state: StateModel,
    scratch: ScratchModel,
    nonce: Seq<char>,
    history: Seq<EventModel>,
    seconds: nat,
    quote: QuoteTpmResponse,
) -> bool {
    let start = session::session_start(state, scratch, Some(nonce));
    &&& history::possible(start, history)
    &&& history::after(start, history).phase == Phase::Done
    &&& session::quote_of(history::after(start, history), seconds, quote)
}

/// A quote names the challenge that the request gave, and `tpm2_quote` was given
/// it as qualifying data: whenever the session waits for the quote, the option
/// `-q` is followed by the challenge.
pub proof fn law_quote_is_bound_to_the_requested_challenge(
    body: Body<QuoteTpmRequest>,
    state: StateModel,
    scratch: ScratchModel,
    nonce: Seq<char>,
    history: Seq<EventModel>,
    seconds: nat,
    quote: QuoteTpmResponse,
    quoting: Seq<EventModel>,
)
    requires
        requested_challenge(body) == Ok::<Seq<char>, ApiFault>(nonce),
        obtained(state, scratch, nonce, history, seconds, quote),
        history::possible(session::session_start(state, scratch, Some(nonce)), quoting),
    ensures
        quote.evidence.tpm.nonce@ == nonce,
        quote.evidence.tpm.nonce_size == nonce::nonce_bytes(nonce).len(),
        ({
            let session = history::after(
                session::session_start(state, scratch, Some(nonce)),
                quoting,
            );
            session.phase == Phase::Quote ==> session.arguments()[6] == "-q"@
                && session.arguments()[7] == nonce
        }),
{
    let start = session::session_start(state, scratch, Some(nonce));
    history::law_sessions_keep_what_they_were_given(start, history);
    history::law_sessions_keep_what_they_were_given(start, quoting);
}

/// Both halves of a combined attestation name the challenge that the request
/// gave, if the TPM backend ran a session for that challenge.
pub proof fn law_both_halves_share_the_challenge(
    body: Body<QuoteTpmRequest>,
    state: StateModel,
    scratch: ScratchModel,
    nonce: Seq<char>,
    history: Seq<EventModel>,
    seconds: nat,
    quote: QuoteTpmResponse,
    reply: DeviceReply<[u8; TDREPORT_LEN]>,
    r: Result<AttestationAllResponse, ApiError>,
)
    requires
        requested_challenge(body) == Ok::<Seq<char>, ApiFault>(nonce),
        obtained(state, scratch, nonce, history, seconds, quote),
        attested(body, Ok(quote), reply, r),
    ensures
        r is Ok <==> attestation::generated(nonce::nonce_bytes(nonce), reply) is Ok,
        r matches Ok(all) ==> {
            &&& all.evidence.tpm.nonce@ == nonce
            &&& all.evidence.tdx matches Some(tdx)
            &&& tdx.nonce@ == nonce
            &&& tdx.nonce_size == all.evidence.tpm.nonce_size
            &&& all.evidence.tpm.nonce_size == nonce::nonce_bytes(nonce).len()
        },
{
    let start = session::session_start(state, scratch, Some(nonce));
    history::law_sessions_keep_what_they_were_given(start, history);
}

/// What `/attestation_all` returns can be handed to `/verify_all` as it is: the
/// structure is accepted, and what is verified of it is the report, the
/// signature and the message that went into it, under the challenge that the
/// request gave.
pub proof fn law_combined_attestation_can_be_verified(
    body: Body<QuoteTpmRequest>,
    state: StateModel,
    scratch: ScratchModel,
    nonce: Seq<char>,
    history: Seq<EventModel>,
    seconds: nat,
    quote: QuoteTpmResponse,
    reply: DeviceReply<[u8; TDREPORT_LEN]>,
    r: Result<AttestationAllResponse, ApiError>,
    v: Verification,
)
    requires
        requested_challenge(body) == Ok::<Seq<char>, ApiFault>(nonce),
        obtained(state, scratch, nonce, history, seconds, quote),
        attested(body, Ok(quote), reply, r),
    ensures
        r matches Ok(all) ==> verify::structure_refusal(all) is None,
        r matches Ok(all) ==> verify::verification_of(all, v) ==> {
            let session = history::after(
                session::session_start(state, scratch, Some(nonce)),
                history,
            );
            let report = attestation::generated(nonce::nonce_bytes(nonce), reply);
            &&& report == Ok::<Seq<u8>, AttestationFault>(v.report@)
            &&& v.signature@ == session.signature
            &&& v.message@ == session.message
            &&& v.nonce@ == nonce
            &&& v.hash_algorithm@ == session.config.hash_algorithm
            &&& v.ak_pubkey@ == quote.ak_pubkey@
        },
{
    let start = session::session_start(state, scratch, Some(nonce));
    let session = history::after(start, history);
    history::law_sessions_keep_what_they_were_given(start, history);
    lemma_challenge_is_canonical(body);
    if r is Ok {
        let report = attestation::generated(nonce::nonce_bytes(nonce), reply)->Ok_0;
        encoding::law_hex_round_trip(report);
        encoding::lemma_hex_text_bytes(report);
        encoding::law_blob_round_trip(session.signature);
        encoding::law_blob_round_trip(session.message);
    }
}

/// Every malformed request is a 400: a missing, empty, odd-length, non-hex,
/// oversized or contradictory challenge, a random number or report that is not
/// hex, and a body that cannot be read or parsed.
pub proof fn law_refused_requests_are_400(
    rn: Option<String>,
    report: Body<VerifyReportRequest>,
    quote: Body<QuoteTpmRequest>,
)
    ensures
        requested_number(rn) matches Err(e) ==> e.status == Status::BadRequest,
        handed_report(report) matches Err(e) ==> e.status == Status::BadRequest,
        requested_challenge(quote) matches Err(e) ==> e.status == Status::BadRequest,
{
}

/// The statuses of errors: an unavailable backend is a 501, a mistake of the
/// client a 400, and everything else a 500.
pub proof fn law_error_statuses(tdx: AttestationFault, tpm: TpmFault)
    ensures
        attestation_fault(tdx).status == match tdx {
            AttestationFault::NotImplemented => Status::NotImplemented,
            AttestationFault::InvalidInput(_) => Status::BadRequest,
            AttestationFault::Internal(_) => Status::InternalServerError,
        },
        tpm_fault(tpm).status == match tpm {
            TpmFault::NotImplemented(_) => Status::NotImplemented,
            TpmFault::InvalidInput(_) => Status::BadRequest,
            TpmFault::Internal(_) => Status::InternalServerError,
        },
{
}

/// The codes of the statuses that the service answers with.
pub proof fn law_status_codes(code: u16)
    ensures
        Status::Success.spec_code() == 200,
        Status::BadRequest.spec_code() == 400,
        Status::NotFound.spec_code() == 404,
        Status::UnprocessableEntity.spec_code() == 422,
        Status::InternalServerError.spec_code() == 500,
        Status::NotImplemented.spec_code() == 501,
        Status::Other(code).spec_code() == code,
{
}

/// An error is answered with what it says; a missing TDX backend, which says
/// nothing, with a fixed text.
pub proof fn law_errors_keep_their_messages(message: Seq<char>)
    ensures
        attestation_fault(AttestationFault::NotImplemented) == (ApiFault {
            status: Status::NotImplemented,
            message: "TDX attestation is not implemented on this host"@,
        }),
        attestation_fault(AttestationFault::InvalidInput(message)) == (ApiFault {
            status: Status::BadRequest,
            message,
        }),
        attestation_fault(AttestationFault::Internal(message)) == (ApiFault {
            status: Status::InternalServerError,
            message,
        }),
        tpm_fault(TpmFault::NotImplemented(message)) == (ApiFault {
            status: Status::NotImplemented,
            message,
        }),
        tpm_fault(TpmFault::InvalidInput(message)) == (ApiFault {
            status: Status::BadRequest,
            message,
        }),
        tpm_fault(TpmFault::Internal(message)) == (ApiFault {
            status: Status::InternalServerError,
            message,
        }),
{
}

/// A body gives a request exactly when it was parsed; otherwise the complaint
/// says whether it could not be read or is not JSON, and why.
pub proof fn law_bodies_that_give_no_request<T>(body: Body<T>)
    ensures
        match body {
            Body::Parsed(_) => body_refusal(body) is None,
            Body::Unreadable(reason) => body_refusal(body) == Some(
                "could not read body: "@ + reason@,
            ),
            Body::Malformed(reason) => body_refusal(body) == Some(
                "invalid JSON body: "@ + reason@,
            ),
        },
{
}

/// A hex encoded field is accepted exactly when it is an even number of
/// hexadecimal digits. All of it counts: the bytes, written in hexadecimal, are
/// the field in lower case. A refused field is a 400 that names the field.
pub proof fn law_hex_fields_are_taken_whole(name: Seq<char>, value: Seq<char>)
    ensures
        hex_field(name, value) is Ok <==> value.len() % 2 == 0 && forall|i: int|
            0 <= i < value.len() ==> nonce::is_hex_char(#[trigger] value[i]),
        hex_field(name, value) matches Ok(bytes) ==> 2 * bytes.len() == value.len()
            && encoding::hex_text(bytes) == text::lowered(value),
        hex_field(name, value) matches Err(e) ==> e.status == Status::BadRequest && text::has_text(
            e.message,
            name,
        ),
{
    let ascii = encode_utf8(value);
    encoding::law_hex_texts(ascii);
    let all_hex = forall|i: int| 0 <= i < value.len() ==> nonce::is_hex_char(#[trigger] value[i]);
    if hex_field(name, value) is Ok {
        encoding::lemma_hex_is_ascii(value);
        is_ascii_chars_encode_utf8(value);
        encoding::law_hex_canonical_is_lower_case(value);
        assert forall|i: int| 0 <= i < value.len() implies nonce::is_hex_char(
            #[trigger] value[i],
        ) by {
            assert(encoding::is_hex_byte(ascii[i]));
            assert(ascii[i] == value[i] as u8);
        }
    } else {
        let why = encoding::hex_refusal(ascii)->0;
        let message = "'"@ + name + "' is not a valid hex string: "@ + why;
        text::law_occurrence_is_being_part(message, name);
        assert("'"@ + name + ("' is not a valid hex string: "@ + why) == message);
    }
    if value.len() % 2 == 0 && all_hex {
        assert(is_ascii_chars(value)) by {
            assert forall|i: int| 0 <= i < value.len() implies '\0' <= #[trigger] value[i]
                <= '\u{7f}' by {
                assert(nonce::is_hex_char(value[i]));
            }
        }
        is_ascii_chars_encode_utf8(value);
        assert forall|i: int| 0 <= i < ascii.len() implies encoding::is_hex_byte(
            #[trigger] ascii[i],
        ) by {
            assert(nonce::is_hex_char(value[i]));
            assert(ascii[i] == value[i] as u8);
        }
    }
}

/// The random number and the report that a request gives are the whole of their
/// fields. A missing random number is a 400, and so is a body that gives no
/// report.
pub proof fn law_requests_are_taken_as_they_are(
    rn: Option<String>,
    body: Body<VerifyReportRequest>,
)
    ensures
        rn is None ==> requested_number(rn) == Err::<Seq<u8>, ApiFault>(
            ApiFault { status: Status::BadRequest, message: "missing query parameter 'rn'"@ },
        ),
        rn matches Some(value) ==> requested_number(rn) == hex_field("rn"@, value@),
        body matches Body::Parsed(request) ==> handed_report(body) == hex_field(
            "report"@,
            request.report@,
        ),
        !(body is Parsed) ==> (handed_report(body) matches Err(e) && e.status == Status::BadRequest
            && Some(e.message) == body_refusal(body)),
{
}

/// The challenge that a body asks for is the whole of its `nonce` or, without
/// one, the whole of its `challenge`, without the white space around it and in
/// lower case; it stands for the bytes of that field. `nonce_size` and `mask`
/// make no difference. It is refused, with a 400, exactly when the field is not
/// usable, the two fields differ, or there is none. A body that gives no request
/// asks for nothing.
pub proof fn law_requested_challenge_is_the_whole_field(
    request: QuoteTpmRequest,
    other: QuoteTpmRequest,
    body: Body<QuoteTpmRequest>,
)
    ensures
        !(body is Parsed) ==> (requested_challenge(body) matches Err(e) && e.status
            == Status::BadRequest && Some(e.message) == body_refusal(body)),
        ({
            let asked = requested_challenge(Body::Parsed(request));
            let field = match (request.nonce, request.challenge) {
                (Some(a), _) => a@,
                (None, Some(b)) => b@,
                (None, None) => Seq::empty(),
            };
            let differ = request.nonce matches Some(a) && (request.challenge matches Some(b)
                && text::lowered(text::trimmed(a@)) != text::lowered(text::trimmed(b@)));
            &&& asked is Ok <==> !differ && nonce::nonce_refusal(field) is None
            &&& asked matches Ok(nonce) ==> {
                &&& nonce == text::lowered(text::trimmed(field))
                &&& nonce::nonce_bytes(nonce) == nonce::nonce_bytes(field)
                &&& nonce.len() == 2 * nonce::nonce_bytes(field).len()
            }
            &&& asked matches Err(e) ==> e.status == Status::BadRequest
            &&& !differ && request.nonce is Some && nonce::nonce_refusal(field) is Some
                ==> asked->Err_0.message == nonce::nonce_refusal(field)->0
        }),
        text::optional_view(request.nonce) == text::optional_view(other.nonce)
            && text::optional_view(request.challenge) == text::optional_view(other.challenge)
            ==> requested_challenge(Body::Parsed(request)) == requested_challenge(
            Body::Parsed(other),
        ),
{
    nonce::law_requested_challenge_is_the_whole_field(request);
    nonce::law_usable_challenges(Seq::empty());
    assert(text::trimmed(Seq::empty()) == Seq::<char>::empty());
    if text::optional_view(request.nonce) == text::optional_view(other.nonce)
        && text::optional_view(request.challenge) == text::optional_view(other.challenge) {
        nonce::law_size_and_mask_are_ignored(request, other);
    }
}

/// Which error two backends are answered with: that of a missing backend if
/// there is one, that of the TPM first; otherwise that of the TPM if it failed,
/// and else that of the TDX device.
pub proof fn law_which_error_is_answered(
    tpm: Option<TpmFault>,
    tdx: Option<AttestationFault>,
)
    ensures
        tpm is None && tdx is None ==> combined_fault(tpm, tdx) is None,
        tpm matches Some(e) ==> e is NotImplemented ==> combined_fault(tpm, tdx) == Some(
            tpm_fault(e),
        ),
        tpm matches Some(e) ==> !(e is NotImplemented) && !(tdx matches Some(d) && d
            is NotImplemented) ==> combined_fault(tpm, tdx) == Some(tpm_fault(e)),
        tdx matches Some(d) ==> d is NotImplemented && !(tpm matches Some(e) && e
            is NotImplemented) ==> combined_fault(tpm, tdx) == Some(attestation_fault(d)),
        tdx matches Some(d) ==> tpm is None ==> combined_fault(tpm, tdx) == Some(
            attestation_fault(d),
        ),
{
}

/// A combined attestation is the quote as it is, with the report of the TDX
/// device beside it: there is one exactly when the challenge is usable, there is
/// a quote, and the device answered; and the report, digit by digit, is what the
/// device answered. Otherwise nothing of either is returned.
pub proof fn law_combined_attestation_is_quote_and_report(
    body: Body<QuoteTpmRequest>,
    quote: Result<QuoteTpmResponse, TpmError>,
    reply: DeviceReply<[u8; TDREPORT_LEN]>,
    r: Result<AttestationAllResponse, ApiError>,
)
    requires
        attested(body, quote, reply, r),
    ensures
        r is Ok <==> requested_challenge(body) is Ok && quote is Ok && reply is Answered,
        r matches Ok(all) ==> {
            let q = quote->Ok_0;
            &&& all.status == q.status
            &&& all.measurement == q.measurement
            &&& all.pcr_value == q.pcr_value
            &&& all.pcr_index == q.pcr_index
            &&& all.hash_algorithm == q.hash_algorithm
            &&& all.evidence.tpm == q.evidence.tpm
            &&& all.ak_pubkey == q.ak_pubkey
            &&& all.evidence.tdx matches Some(tdx)
            &&& tdx.report@.len() == 2048
            &&& encoding::unhexed(encode_utf8(tdx.report@)) == reply->Answered_0@
            &&& requested_challenge(body) == Ok::<Seq<char>, ApiFault>(tdx.nonce@)
            &&& 2 * tdx.nonce_size == tdx.nonce@.len()
        },
        r matches Err(e) ==> {
            &&& requested_challenge(body) is Err ==> e@.status == Status::BadRequest && e@
                == requested_challenge(body)->Err_0
            &&& requested_challenge(body) is Ok && quote is Ok ==> e@.status == (
            if reply is Missing {
                Status::NotImplemented
            } else {
                Status::InternalServerError
            })
            &&& requested_challenge(body) is Ok && ((quote matches Err(
                TpmError::NotImplemented(_),
            )) || reply is Missing) ==> e@.status == Status::NotImplemented
            &&& requested_challenge(body) is Ok && reply is Answered ==> (quote matches Err(q)
                && e@ == tpm_fault(q@))
        },
{
    lemma_challenge_is_canonical(body);
    if let Ok(nonce) = requested_challenge(body) {
        nonce::lemma_usable_nonce(nonce);
        nonce::law_usable_challenges(nonce);
        nonce::law_canonical_nonce_is_lower_case(nonce);
        let bytes = nonce::nonce_bytes(nonce);
        attestation::law_reports_are_what_the_device_answers(bytes, reply);
        if let DeviceReply::Answered(report) = reply {
            encoding::law_hex_round_trip(report@);
        }
    }
}

} // verus!
