//! Errors, payloads and the routes that need no device.

use tdx_attestation_server::api::{
    catch_bad_request, catch_internal_server_error, catch_not_found, catch_unprocessable_entity,
    random_number, report_to_verify,
};
use tdx_attestation_server::tpm::TpmError;
use tdx_attestation_server::{
    attestation_with_random_number, parse_report, ping, verify_report, ApiError, AttestationError,
    Body, DeviceReply, ErrorResponse, ParseReportRequest, Status, VerifyReportRequest,
    VerifyReportResponse, TDREPORT_LEN,
};

#[test]
fn not_implemented_maps_to_501() {
    let err: ApiError = AttestationError::NotImplemented.into();
    assert_eq!(err.status(), Status::NotImplemented);
}

#[test]
fn invalid_input_maps_to_400() {
    let err: ApiError = AttestationError::InvalidInput("nope".into()).into();
    assert_eq!(err.status(), Status::BadRequest);
    assert_eq!(err.message(), "nope");
}

#[test]
fn internal_maps_to_500() {
    let err: ApiError = AttestationError::Internal("boom".into()).into();
    assert_eq!(err.status(), Status::InternalServerError);
}

#[test]
fn tpm_not_implemented_maps_to_501() {
    let err: ApiError = TpmError::NotImplemented("no simulator".into()).into();
    assert_eq!(err.status(), Status::NotImplemented);
    assert_eq!(err.message(), "no simulator");
}

#[test]
fn tpm_invalid_input_maps_to_400() {
    let err: ApiError = TpmError::InvalidInput("bad nonce".into()).into();
    assert_eq!(err.status(), Status::BadRequest);
    assert_eq!(err.message(), "bad nonce");
}

#[test]
fn tpm_internal_maps_to_500() {
    let err: ApiError = TpmError::Internal("boom".into()).into();
    assert_eq!(err.status(), Status::InternalServerError);
}

#[test]
fn a_missing_tdx_backend_is_explained() {
    let err: ApiError = AttestationError::NotImplemented.into();
    assert_eq!(err.message(), "TDX attestation is not implemented on this host");
}

#[test]
fn codes_are_those_of_http() {
    assert_eq!(Status::Success.code(), 200);
    assert_eq!(Status::BadRequest.code(), 400);
    assert_eq!(Status::NotFound.code(), 404);
    assert_eq!(Status::UnprocessableEntity.code(), 422);
    assert_eq!(Status::InternalServerError.code(), 500);
    assert_eq!(Status::NotImplemented.code(), 501);
    assert_eq!(Status::Other(418).code(), 418);
}

#[test]
fn statuses_are_compared_by_code() {
    assert_eq!(Status::Other(400), Status::BadRequest);
    assert_ne!(Status::Other(401), Status::BadRequest);
    assert_ne!(Status::NotFound, Status::BadRequest);
    assert_eq!(Status::Other(7), Status::Other(7));
}

#[test]
fn errors_show_their_status_and_message() {
    let shown = |status: Status| ApiError::new(status, "why".to_string()).to_string();
    assert_eq!(shown(Status::Success), "200 OK: why");
    assert_eq!(shown(Status::BadRequest), "400 Bad Request: why");
    assert_eq!(shown(Status::NotFound), "404 Not Found: why");
    assert_eq!(shown(Status::UnprocessableEntity), "422 Unprocessable Entity: why");
    assert_eq!(shown(Status::InternalServerError), "500 Internal Server Error: why");
    assert_eq!(shown(Status::NotImplemented), "501 Not Implemented: why");
    assert_eq!(shown(Status::Other(404)), "404 Not Found: why");
    assert_eq!(
        shown(Status::Other(418)),
        format!("{}: why", rocket::http::Status::new(418))
    );
}

#[test]
fn errors_are_rendered_in_one_envelope() {
    let (status, body) = ApiError::bad_request("why".to_string()).response();
    assert_eq!(status, Status::BadRequest);
    assert_eq!(body, ErrorResponse { error: "why".to_string() });
    assert_eq!(ErrorResponse::new("x".to_string()).error, "x");
}

#[test]
fn ping_answers_pong() {
    assert_eq!(ping(), "pong");
}

#[test]
fn catchers_use_the_shared_envelope() {
    let (status, body) = catch_bad_request();
    assert_eq!(status, Status::BadRequest);
    assert_eq!(body.error, "the request could not be understood (malformed syntax)");
    let (status, body) = catch_not_found();
    assert_eq!(status, Status::NotFound);
    assert_eq!(body.error, "resource not found");
    let (status, body) = catch_unprocessable_entity();
    assert_eq!(status, Status::UnprocessableEntity);
    assert_eq!(body.error, "the request parameters could not be processed");
    let (status, body) = catch_internal_server_error();
    assert_eq!(status, Status::InternalServerError);
    assert_eq!(body.error, "internal server error");
}

#[test]
fn random_numbers_are_hex() {
    assert_eq!(random_number(&Some("DEADbeef".to_string())).unwrap(), vec![0xde, 0xad, 0xbe, 0xef]);
    assert_eq!(random_number(&Some("".to_string())).unwrap(), Vec::<u8>::new());

    let err = random_number(&None).unwrap_err();
    assert_eq!(err.status(), Status::BadRequest);
    assert_eq!(err.message(), "missing query parameter 'rn'");

    let err = random_number(&Some("zz".to_string())).unwrap_err();
    assert_eq!(err.status(), Status::BadRequest);
    assert_eq!(
        err.message(),
        "'rn' is not a valid hex string: Invalid character 'z' at position 0"
    );

    let err = random_number(&Some("abc".to_string())).unwrap_err();
    assert_eq!(err.message(), "'rn' is not a valid hex string: Odd number of digits");
}

#[test]
fn a_report_is_answered_in_hex() {
    let mut report = [0u8; TDREPORT_LEN];
    report[0] = 0xAB;
    let response = attestation_with_random_number(
        Some("00".to_string()),
        DeviceReply::Answered(report),
    )
    .unwrap();
    assert_eq!(response.report.len(), 2048);
    assert_eq!(&response.report[..4], "ab00");
}

#[test]
fn a_missing_guest_device_is_a_501() {
    let err =
        attestation_with_random_number(Some("00".to_string()), DeviceReply::Missing).unwrap_err();
    assert_eq!(err.status(), Status::NotImplemented);
    let err = attestation_with_random_number(
        Some("00".to_string()),
        DeviceReply::Failed("denied".to_string()),
    )
    .unwrap_err();
    assert_eq!(err.status(), Status::InternalServerError);
    let err =
        attestation_with_random_number(Some("00".repeat(65)), DeviceReply::Missing).unwrap_err();
    assert_eq!(err.status(), Status::BadRequest);
}

fn report_body(report: &str) -> Body<VerifyReportRequest> {
    Body::Parsed(VerifyReportRequest { report: report.to_string() })
}

#[test]
fn reports_are_verified() {
    let hex = "00".repeat(TDREPORT_LEN);
    assert_eq!(
        verify_report(report_body(&hex), DeviceReply::Answered(0)).unwrap(),
        VerifyReportResponse { trusted: true }
    );
    assert_eq!(
        verify_report(report_body(&hex), DeviceReply::Answered(0xc000100100000000)).unwrap(),
        VerifyReportResponse { trusted: false }
    );
    let err = verify_report(report_body(&hex), DeviceReply::Missing).unwrap_err();
    assert_eq!(err.status(), Status::NotImplemented);
}

#[test]
fn unusable_bodies_are_a_400() {
    let err = verify_report(Body::Unreadable("gone".to_string()), DeviceReply::Answered(0))
        .unwrap_err();
    assert_eq!(err.status(), Status::BadRequest);
    assert_eq!(err.message(), "could not read body: gone");

    let err = report_to_verify(&Body::Malformed("expected value".to_string())).unwrap_err();
    assert_eq!(err.message(), "invalid JSON body: expected value");

    let err = verify_report(report_body("nothex"), DeviceReply::Answered(0)).unwrap_err();
    assert_eq!(
        err.message(),
        "'report' is not a valid hex string: Invalid character 'n' at position 0"
    );

    let err = verify_report(report_body("00"), DeviceReply::Answered(0)).unwrap_err();
    assert_eq!(err.status(), Status::BadRequest);
    assert_eq!(err.message(), "report is 1 bytes, expected 1024");
}

#[test]
fn reports_are_parsed() {
    let body = |report: String| Body::Parsed(ParseReportRequest { report });
    let mut raw = vec![0u8; TDREPORT_LEN];
    raw[0x200] = 7;
    let parsed = parse_report(body(hex::encode(&raw))).unwrap();
    assert_eq!(parsed.report_len, 1024);
    assert_eq!(parsed.tdinfo.attributes, 7);

    assert_eq!(parse_report(body("00".to_string())).unwrap_err().status(), Status::BadRequest);
    assert_eq!(parse_report(body("zz".to_string())).unwrap_err().status(), Status::BadRequest);
    assert_eq!(
        parse_report(Body::Malformed("x".to_string())).unwrap_err().message(),
        "invalid JSON body: x"
    );
}
