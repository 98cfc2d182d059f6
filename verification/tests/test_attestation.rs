//! The two TDX operations, against a stand-in for the TDX module: it copies the
//! REPORTDATA and seals the first 224 bytes of a report with a keyed digest.

use sha2::{Digest, Sha256};

use tdx_attestation_server::attestation::{
    ioc, report_data_from, tdx_cmd_get_report0, tdx_verify_report, TdxReportReq, TdxVerifyReq,
    REPORTDATA_LEN,
};
use tdx_attestation_server::{
    generate_tdx_report, report_request, tdreport_reportdata, verify_request, verify_tdx_report,
    verify_tdx_report_hardware, AttestationError, DeviceReply, TDREPORT_LEN, TDREPORT_MAC_OFFSET,
    TDREPORT_REPORTDATA_OFFSET, TDX_GUEST_DEVICE, TDX_SUCCESS, TDX_VERIFY_DEVICE,
};

const MAC_FAILED: u64 = 0xc000_1001_0000_0000;

fn seal(report: &[u8]) -> Vec<u8> {
    let mut hasher = Sha256::new();
    hasher.update(b"key held by the module");
    hasher.update(&report[..TDREPORT_MAC_OFFSET]);
    hasher.finalize().to_vec()
}

fn guest(mut req: TdxReportReq) -> [u8; TDREPORT_LEN] {
    let at = TDREPORT_REPORTDATA_OFFSET;
    req.tdreport[at..at + REPORTDATA_LEN].copy_from_slice(&req.reportdata);
    let mac = seal(&req.tdreport);
    req.tdreport[TDREPORT_MAC_OFFSET..TDREPORT_MAC_OFFSET + 32].copy_from_slice(&mac);
    req.tdreport
}

fn module_status(req: &TdxVerifyReq) -> u64 {
    assert_ne!(req.status, TDX_SUCCESS, "the status must not be preset to success");
    if seal(&req.report)[..] == req.report[TDREPORT_MAC_OFFSET..TDREPORT_MAC_OFFSET + 32] {
        TDX_SUCCESS
    } else {
        MAC_FAILED
    }
}

fn generate(nonce: &[u8]) -> Result<Vec<u8>, AttestationError> {
    let reply = match report_request(nonce) {
        Ok(req) => DeviceReply::Answered(guest(req)),
        Err(err) => return Err(err),
    };
    generate_tdx_report(nonce, reply)
}

fn status_of(report: &[u8]) -> Result<u64, AttestationError> {
    let req = verify_request(report)?;
    verify_tdx_report_hardware(report, DeviceReply::Answered(module_status(&req)))
}

fn trusted(report: &[u8]) -> Result<bool, AttestationError> {
    let req = verify_request(report)?;
    verify_tdx_report(report, DeviceReply::Answered(module_status(&req)))
}

fn nonce_from(seed: u8) -> Vec<u8> {
    (0..REPORTDATA_LEN).map(|i| (i as u8).wrapping_mul(37).wrapping_add(seed)).collect()
}

/// A fresh report is 1024 bytes and echoes the 64-byte REPORTDATA.
#[test]
fn get_report_success() {
    let nonce = nonce_from(11);
    let report = generate(&nonce).expect("generate_tdx_report");

    assert_eq!(report.len(), TDREPORT_LEN, "TDREPORT must be 1024 bytes");

    let echoed = tdreport_reportdata(&report).expect("parse report");
    assert_eq!(echoed, &nonce[..], "TDREPORT.REPORTDATA must echo the input");
}

/// A nonce shorter than 64 bytes is zero-padded, not rejected.
#[test]
fn get_report_zero_pads_short_nonce() {
    let nonce = vec![0xABu8; 16];
    let report = generate(&nonce).expect("generate_tdx_report");
    let echoed = tdreport_reportdata(&report).expect("parse report");

    assert_eq!(&echoed[..16], &nonce[..]);
    assert!(
        echoed[16..].iter().all(|b| *b == 0),
        "the remaining bytes must be zero padding"
    );
}

/// A nonce that cannot fit in REPORTDATA is a client error.
#[test]
fn get_report_rejects_oversized_nonce() {
    let err = generate(&vec![0u8; REPORTDATA_LEN + 1]).unwrap_err();
    assert!(matches!(err, AttestationError::InvalidInput(_)), "got {err:?}");
    let err =
        generate_tdx_report(&vec![0u8; REPORTDATA_LEN + 1], DeviceReply::Missing).unwrap_err();
    assert_eq!(
        err,
        AttestationError::InvalidInput(
            "random number is 65 bytes, but REPORTDATA holds at most 64".to_string()
        )
    );
}

/// A freshly generated report must be verified by the TDX module.
#[test]
fn verify_fresh_report_success() {
    let report = generate(&nonce_from(12)).expect("generate_tdx_report");
    let status = status_of(&report).expect("hardware verify");
    assert_eq!(status, TDX_SUCCESS, "the TDX module rejected a fresh report");
    assert!(trusted(&report).unwrap());
}

/// Flipping a single bit inside REPORTMACSTRUCT must be detected.
#[test]
fn verify_tampered_report_fails() {
    let report = generate(&nonce_from(13)).expect("generate_tdx_report");

    // (a) tamper with REPORTDATA (covered by the MAC).
    let mut tampered = report.clone();
    tampered[TDREPORT_REPORTDATA_OFFSET] ^= 0x01;

    let status = status_of(&tampered).expect("hardware verify");
    assert_ne!(status, TDX_SUCCESS, "a tampered REPORTDATA was accepted");
    assert!(!trusted(&tampered).unwrap());

    // (b) tamper with the MAC itself.
    let mut tampered_mac = report.clone();
    tampered_mac[TDREPORT_MAC_OFFSET] ^= 0x01;

    let status = status_of(&tampered_mac).expect("hardware verify");
    assert_ne!(status, TDX_SUCCESS, "a tampered MAC was accepted");

    // (c) the pristine report still verifies.
    assert_eq!(status_of(&report).expect("hardware verify"), TDX_SUCCESS);
}

/// A report of the wrong size can never be verified.
#[test]
fn verify_rejects_wrong_length() {
    let err = verify_tdx_report_hardware(&[0u8; 16], DeviceReply::Answered(0)).unwrap_err();
    assert!(matches!(err, AttestationError::InvalidInput(_)), "got {err:?}");

    let err = verify_tdx_report(&[], DeviceReply::Answered(0)).unwrap_err();
    assert!(matches!(err, AttestationError::InvalidInput(_)), "got {err:?}");
}

/// Different nonces must yield different, still verifiable reports.
#[test]
fn two_reports_for_different_nonces_differ() {
    let a = generate(&nonce_from(14)).unwrap();
    let b = generate(&nonce_from(15)).unwrap();

    assert_ne!(
        tdreport_reportdata(&a).unwrap(),
        tdreport_reportdata(&b).unwrap(),
        "different nonces must produce different REPORTDATA"
    );
    assert_eq!(status_of(&a).unwrap(), TDX_SUCCESS);
    assert_eq!(status_of(&b).unwrap(), TDX_SUCCESS);
}

#[test]
fn error_display_is_human_readable() {
    assert!(AttestationError::NotImplemented.to_string().contains("not implemented"));
    assert_eq!(
        AttestationError::InvalidInput("boom".into()).to_string(),
        "invalid attestation input: boom"
    );
    assert_eq!(
        AttestationError::Internal("boom".into()).to_string(),
        "internal attestation error: boom"
    );
}

#[test]
fn request_numbers_follow_the_kernel_encoding() {
    assert_eq!(ioc(3, 0x54, 1, 1088), 0xC440_5401);
    assert_eq!(tdx_cmd_get_report0(), 0xC440_5401);
    assert_eq!(tdx_verify_report(), 0xC408_5402);
    assert_eq!(ioc(0, 0, 0, 0), 0);
}

#[test]
fn requests_carry_the_input() {
    let req = report_request(&[1, 2, 3]).unwrap();
    assert_eq!(&req.reportdata[..4], &[1, 2, 3, 0]);
    assert!(req.tdreport.iter().all(|b| *b == 0));
    assert_eq!(report_data_from(&[9]).unwrap()[0], 9);

    let report: Vec<u8> = (0..TDREPORT_LEN).map(|i| i as u8).collect();
    let req = verify_request(&report).unwrap();
    assert_eq!(&req.report[..], &report[..]);
    assert_eq!(req.status, u64::MAX);
    assert!(verify_request(&report[1..]).is_err());
}

#[test]
fn device_failures_are_told_apart() {
    assert_eq!(
        generate_tdx_report(&[], DeviceReply::Missing).unwrap_err(),
        AttestationError::NotImplemented
    );
    assert_eq!(
        generate_tdx_report(&[], DeviceReply::NotOpened("denied".to_string())).unwrap_err(),
        AttestationError::Internal(format!("cannot open {TDX_GUEST_DEVICE}: denied"))
    );
    assert_eq!(
        generate_tdx_report(&[], DeviceReply::Failed("EIO".to_string())).unwrap_err(),
        AttestationError::Internal(
            "TDCALL[TDG.MR.REPORT] failed via /dev/tdx_guest: EIO".to_string()
        )
    );
    let report = vec![0u8; TDREPORT_LEN];
    assert_eq!(
        verify_tdx_report(&report, DeviceReply::Missing).unwrap_err(),
        AttestationError::NotImplemented
    );
    assert_eq!(
        verify_tdx_report(&report, DeviceReply::NotOpened("denied".to_string())).unwrap_err(),
        AttestationError::Internal(format!("cannot open {TDX_VERIFY_DEVICE}: denied"))
    );
    assert_eq!(
        verify_tdx_report_hardware(&report, DeviceReply::Failed("EIO".to_string())).unwrap_err(),
        AttestationError::Internal(
            "TDCALL[TDG.MR.VERIFYREPORT] (leaf 22) failed via /dev/tdx_verify: EIO".to_string()
        )
    );
}

#[test]
fn reportdata_needs_a_whole_report() {
    let err = tdreport_reportdata(&[0u8; 1023]).unwrap_err();
    assert_eq!(
        err,
        AttestationError::InvalidInput("report is 1023 bytes, expected 1024".to_string())
    );
}
