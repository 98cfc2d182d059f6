//! The combined `/attestation_all` and `/verify_all` routes.

use tdx_attestation_server::api::{challenge, verification};
use tdx_attestation_server::tpm::{
    check_quote, write_error, CombinedEvidence, CommandOutcome, QuoteEvidence, Scratch,
};
use tdx_attestation_server::{
    attestation_all, information_tpm, quote_tpm, verify_all, AttestationAllResponse, Body,
    DeviceReply, QuoteTpmRequest, QuoteTpmResponse, Status, TdxEvidence, TpmConfig, TpmError,
    TpmEvidence, TpmMeasurement, TDREPORT_LEN,
};

fn asking(nonce: Option<&str>) -> Body<QuoteTpmRequest> {
    Body::Parsed(QuoteTpmRequest { nonce: nonce.map(str::to_string), ..Default::default() })
}

/// What a JSON parser says about a body that is no JSON.
fn not_json<T>() -> Body<T> {
    let err = serde_json::from_str::<serde_json::Value>("this-is-not-json").unwrap_err();
    Body::Malformed(err.to_string())
}

fn evidence() -> TpmEvidence {
    TpmEvidence {
        quote: "a:b:c".to_string(),
        quote_size: 5,
        signature: "".to_string(),
        message: "".to_string(),
        pcrs: "".to_string(),
        signature_size: 0,
        message_size: 0,
        nonce: "aabb".to_string(),
        nonce_size: 2,
        pcr_index: 16,
        hash_algorithm: "sha256".to_string(),
        ak_handle: "0x81010002".to_string(),
    }
}

fn block() -> TpmMeasurement {
    TpmMeasurement {
        time_stamp: "2024.01.01 00:00:00".to_string(),
        measurement: vec![],
        total_hash: "00".to_string(),
    }
}

fn structure(tdx: Option<TdxEvidence>) -> AttestationAllResponse {
    AttestationAllResponse {
        status: 0,
        measurement: block(),
        pcr_value: "00".to_string(),
        pcr_index: 16,
        hash_algorithm: "sha256".to_string(),
        evidence: CombinedEvidence { tpm: evidence(), tdx },
        ak_pubkey: "".to_string(),
    }
}

fn quote() -> QuoteTpmResponse {
    QuoteTpmResponse {
        status: 0,
        measurement: block(),
        pcr_value: "00".to_string(),
        pcr_index: 16,
        hash_algorithm: "sha256".to_string(),
        evidence: QuoteEvidence { tpm: evidence() },
        ak_pubkey: "PEM".to_string(),
    }
}

fn tdx(report: &str) -> Option<TdxEvidence> {
    Some(TdxEvidence { report: report.to_string(), nonce: "aabb".to_string(), nonce_size: 2 })
}

fn report() -> [u8; TDREPORT_LEN] {
    let mut report = [0u8; TDREPORT_LEN];
    report[0x80] = 0xaa;
    report[0x81] = 0xbb;
    report
}

#[test]
fn attestation_all_rejects_a_missing_nonce() {
    let err = attestation_all(asking(None), Ok(quote()), DeviceReply::Answered(report()))
        .unwrap_err();
    assert_eq!(err.status(), Status::BadRequest);
    assert_eq!(err.message(), "missing required field 'nonce' (alias: 'challenge')");
}

#[test]
fn attestation_all_rejects_a_non_hex_nonce() {
    let err = attestation_all(asking(Some("nothex")), Ok(quote()), DeviceReply::Missing)
        .unwrap_err();
    assert_eq!(err.status(), Status::BadRequest);
}

#[test]
fn attestation_all_rejects_a_malformed_body() {
    let err = attestation_all(not_json(), Ok(quote()), DeviceReply::Missing).unwrap_err();
    assert_eq!(err.status(), Status::BadRequest);
    assert!(err.message().starts_with("invalid JSON body: expected ident"));
}

#[test]
fn verify_all_rejects_a_malformed_body() {
    let err = verify_all(not_json(), Ok(true), DeviceReply::Answered(0)).unwrap_err();
    assert_eq!(err.status(), Status::BadRequest);
    let err = verify_all(Body::Unreadable("x".to_string()), Ok(true), DeviceReply::Answered(0))
        .unwrap_err();
    assert_eq!(err.message(), "could not read body: x");
}

/// A structure without the `tdx` field cannot be verified: it is a client
/// error, not a silent `trusted=false`.
#[test]
fn verify_all_rejects_a_structure_without_tdx() {
    let body = || Body::Parsed(structure(None));
    let err = verify_all(body(), Ok(true), DeviceReply::Answered(0)).unwrap_err();
    assert_eq!(err.status(), Status::BadRequest);
    assert_eq!(err.message(), "missing required field 'evidence.tdx'");
    assert!(verification(&body()).is_err());
}

/// A non-hex TDX report is a client error too.
#[test]
fn verify_all_rejects_a_non_hex_tdx_report() {
    let body = Body::Parsed(structure(tdx("nothex")));
    let err = verify_all(body, Ok(true), DeviceReply::Answered(0)).unwrap_err();
    assert_eq!(err.status(), Status::BadRequest);
    assert_eq!(
        err.message(),
        "'report' is not a valid hex string: Invalid character 'n' at position 0"
    );
}

#[test]
fn verify_all_rejects_what_cannot_be_decoded() {
    let refused = |change: fn(&mut AttestationAllResponse)| {
        let mut all = structure(tdx(&hex::encode(report())));
        change(&mut all);
        let err = verify_all(Body::Parsed(all), Ok(true), DeviceReply::Answered(0)).unwrap_err();
        assert_eq!(err.status(), Status::BadRequest);
        err.message().to_string()
    };
    assert_eq!(
        refused(|all| all.evidence.tdx = tdx("00")),
        "report is 1 bytes, expected 1024"
    );
    assert_eq!(
        refused(|all| all.evidence.tpm.nonce = "".to_string()),
        "the nonce must not be empty"
    );
    assert_eq!(
        refused(|all| all.evidence.tpm.signature = "?".to_string()),
        "'signature' is not a valid base64(hex) string"
    );
    assert_eq!(
        refused(|all| all.evidence.tpm.message = "enp6".to_string()),
        "'message' is not a valid base64(hex) string"
    );
}

#[test]
fn both_halves_are_bound_to_one_challenge() {
    let all = attestation_all(asking(Some("AABB")), Ok(quote()), DeviceReply::Answered(report()))
        .unwrap();
    let quote = quote();
    assert_eq!(all.status, quote.status);
    assert_eq!(all.measurement, quote.measurement);
    assert_eq!(all.pcr_value, quote.pcr_value);
    assert_eq!(all.pcr_index, quote.pcr_index);
    assert_eq!(all.hash_algorithm, quote.hash_algorithm);
    assert_eq!(all.evidence.tpm, quote.evidence.tpm);
    assert_eq!(all.ak_pubkey, quote.ak_pubkey);
    assert_eq!(all.evidence.tdx, tdx(&hex::encode(report())));
}

#[test]
fn either_backend_missing_is_a_501() {
    let ask = || asking(Some("aabb"));
    let gone = || Err(TpmError::NotImplemented("no TPM".to_string()));
    let broken = || Err(TpmError::Internal("broken".to_string()));
    let answered = || DeviceReply::Answered(report());

    let err = attestation_all(ask(), gone(), answered()).unwrap_err();
    assert_eq!((err.status(), err.message()), (Status::NotImplemented, "no TPM"));
    let err = attestation_all(ask(), Ok(quote()), DeviceReply::Missing).unwrap_err();
    assert_eq!(err.status(), Status::NotImplemented);
    let err = attestation_all(ask(), broken(), DeviceReply::Missing).unwrap_err();
    assert_eq!(err.status(), Status::NotImplemented);
    let err = attestation_all(ask(), gone(), DeviceReply::Failed("x".to_string())).unwrap_err();
    assert_eq!(err.status(), Status::NotImplemented);
    let err = attestation_all(ask(), broken(), answered()).unwrap_err();
    assert_eq!((err.status(), err.message()), (Status::InternalServerError, "broken"));
    let err =
        attestation_all(ask(), Ok(quote()), DeviceReply::Failed("x".to_string())).unwrap_err();
    assert_eq!(err.status(), Status::InternalServerError);

    let body = || Body::Parsed(structure(tdx(&hex::encode(report()))));
    let err = verify_all(body(), Err(TpmError::NotImplemented("no TPM".to_string())),
        DeviceReply::Answered(0)).unwrap_err();
    assert_eq!(err.status(), Status::NotImplemented);
    let err = verify_all(body(), Ok(true), DeviceReply::Missing).unwrap_err();
    assert_eq!(err.status(), Status::NotImplemented);
}

#[test]
fn both_halves_must_verify() {
    let body = || Body::Parsed(structure(tdx(&hex::encode(report()))));
    for (tpm, status) in [(true, 0), (true, 1), (false, 0), (false, 1)] {
        let verdict = verify_all(body(), Ok(tpm), DeviceReply::Answered(status)).unwrap();
        assert_eq!(verdict.tpm_trusted, tpm);
        assert_eq!(verdict.tdx_trusted, status == 0);
        assert_eq!(verdict.trusted, tpm && status == 0);
    }
}

/// What is verified of a structure is what went into it.
#[test]
fn structures_are_taken_apart() {
    let mut all = structure(tdx(&hex::encode(report())));
    // hex("sig") is "736967", and hex("msg") is "6d7367".
    all.evidence.tpm.signature = "NzM2OTY3".to_string();
    all.evidence.tpm.message = "NmQ3MzY3".to_string();
    all.evidence.tpm.nonce = "AABB".to_string();
    all.ak_pubkey = "PEM".to_string();
    let v = verification(&Body::Parsed(all)).unwrap();
    assert_eq!(v.report, report().to_vec());
    assert_eq!(v.signature, b"sig".to_vec());
    assert_eq!(v.message, b"msg".to_vec());
    assert_eq!(v.nonce, "aabb");
    assert_eq!(v.ak_pubkey, "PEM");
    assert_eq!(v.hash_algorithm, "sha256");

    let scratch = Scratch::new("/tmp/s".to_string(), None, Ok(())).unwrap();
    assert_eq!(
        v.arguments(&TpmConfig::default(b"/srv"), &scratch).unwrap(),
        [
            "-u",
            "/tmp/s/ak.pem",
            "-g",
            "sha256",
            "-m",
            "/tmp/s/quote.msg",
            "-s",
            "/tmp/s/quote.sig",
            "-q",
            "aabb",
            "--tcti=mssim:host=127.0.0.1,port=2321",
        ]
    );
    assert_eq!(v.program(), "tpm2_checkquote");
    assert_eq!(
        v.files(),
        [
            ("ak.pem".to_string(), b"PEM".to_vec()),
            ("quote.msg".to_string(), b"msg".to_vec()),
            ("quote.sig".to_string(), b"sig".to_vec()),
        ]
    );
    let odd = Scratch::new("/t".to_string(), Some("/t\\xFF".to_string()), Ok(())).unwrap();
    assert!(v.arguments(&TpmConfig::default(b"/srv"), &odd).is_err());
    assert_eq!(
        write_error(&scratch, "ak.pem", "full"),
        TpmError::Internal("/tmp/s/ak.pem cannot be written: full".to_string())
    );
}

#[test]
fn checkquote_decides_about_quotes() {
    let config = TpmConfig::default(b"/srv");
    assert!(check_quote(&config, CommandOutcome::Succeeded(vec![])).unwrap());
    assert!(!check_quote(&config, CommandOutcome::Failed(b"ERROR: sig".to_vec())).unwrap());
    assert!(matches!(
        check_quote(&config, CommandOutcome::Failed(b"ERROR: could not load tcti".to_vec())),
        Err(TpmError::NotImplemented(_))
    ));
    assert!(matches!(
        check_quote(&config, CommandOutcome::NotFound),
        Err(TpmError::NotImplemented(_))
    ));
    assert!(matches!(
        check_quote(&config, CommandOutcome::NotExecuted("x".to_string())),
        Err(TpmError::Internal(_))
    ));
}

#[test]
fn tpm_routes_map_their_backend() {
    assert_eq!(quote_tpm(asking(Some("aa")), Ok(quote())).unwrap(), quote());
    assert_eq!(challenge(&asking(Some("AA"))).unwrap(), "aa");
    let err = quote_tpm(asking(Some("a")), Ok(quote())).unwrap_err();
    assert_eq!(err.status(), Status::BadRequest);
    let err = quote_tpm(asking(Some("aa")), Err(TpmError::NotImplemented("x".to_string())))
        .unwrap_err();
    assert_eq!(err.status(), Status::NotImplemented);
    let err = quote_tpm(not_json(), Ok(quote())).unwrap_err();
    assert_eq!(err.status(), Status::BadRequest);
    let err = information_tpm(Err(TpmError::Internal("x".to_string()))).unwrap_err();
    assert_eq!((err.status(), err.message()), (Status::InternalServerError, "x"));
}
