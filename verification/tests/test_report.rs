//! Decoding of TDREPORTs.

use tdx_attestation_server::attestation::{
    REPORTDATA_LEN, TDREPORT_MAC_LEN, TDREPORT_MAC_OFFSET,
};
use tdx_attestation_server::report::MEASUREMENT_LEN;
use tdx_attestation_server::{
    parse_tdreport, tdreport_reportdata, AttestationError, TDREPORT_LEN,
    TDREPORT_REPORTDATA_OFFSET,
};

/// A zeroed report decodes without error and reports the right length.
#[test]
fn parses_zeroed_report() {
    let report = vec![0u8; TDREPORT_LEN];
    let parsed = parse_tdreport(&report).expect("parse");
    assert_eq!(parsed.report_len, TDREPORT_LEN);
    assert_eq!(parsed.report_mac_struct.report_data.len(), REPORTDATA_LEN * 2);
    assert_eq!(parsed.report_mac_struct.mac.len(), TDREPORT_MAC_LEN * 2);
    assert_eq!(parsed.tdinfo.mrtd.len(), MEASUREMENT_LEN * 2);
}

/// The REPORTDATA field is echoed at the documented offset.
#[test]
fn report_data_is_read_from_offset_0x80() {
    let mut report = vec![0u8; TDREPORT_LEN];
    for (i, b) in report[TDREPORT_REPORTDATA_OFFSET..TDREPORT_REPORTDATA_OFFSET + REPORTDATA_LEN]
        .iter_mut()
        .enumerate()
    {
        *b = i as u8;
    }
    let parsed = parse_tdreport(&report).expect("parse");
    let expected: String = (0..REPORTDATA_LEN).map(|i| format!("{i:02x}")).collect();
    assert_eq!(parsed.report_mac_struct.report_data, expected);
}

/// A report of the wrong size is rejected.
#[test]
fn rejects_wrong_length() {
    let err = parse_tdreport(&[0u8; 16]).unwrap_err();
    assert!(matches!(err, AttestationError::InvalidInput(_)), "got {err:?}");
}

/// Every field is read from its own place.
#[test]
fn fields_are_read_from_their_offsets() {
    let report: Vec<u8> = (0..TDREPORT_LEN).map(|i| (i * 31 + i / 256) as u8).collect();
    let number = |at: usize| {
        let mut bytes = [0u8; 8];
        bytes.copy_from_slice(&report[at..at + 8]);
        u64::from_le_bytes(bytes)
    };
    let hex = |at: usize, len: usize| hex::encode(&report[at..at + len]);
    let parsed = parse_tdreport(&report).unwrap();

    assert_eq!(parsed.report_mac_struct.report_data, hex(0x80, 64));
    assert_eq!(parsed.report_mac_struct.mac, hex(TDREPORT_MAC_OFFSET, 32));

    assert_eq!(parsed.tee_tcb_info.valid, number(0x100));
    assert_eq!(parsed.tee_tcb_info.tee_tcb_svn, hex(0x108, 16));
    assert_eq!(parsed.tee_tcb_info.mrseam, hex(0x118, 48));
    assert_eq!(parsed.tee_tcb_info.mrsignerseam, hex(0x148, 48));
    assert_eq!(parsed.tee_tcb_info.seamattributes, number(0x178));
    assert_eq!(parsed.tee_tcb_info.tdattributes, number(0x180));
    assert_eq!(parsed.tee_tcb_info.xfd, number(0x188));

    assert_eq!(parsed.tdinfo.attributes, number(0x200));
    assert_eq!(parsed.tdinfo.xfam, number(0x208));
    assert_eq!(parsed.tdinfo.mrtd, hex(0x210, 48));
    assert_eq!(parsed.tdinfo.mrconfigid, hex(0x240, 48));
    assert_eq!(parsed.tdinfo.mrowner, hex(0x270, 48));
    assert_eq!(parsed.tdinfo.mrownerconfig, hex(0x2a0, 48));
    assert_eq!(parsed.tdinfo.rtmr0, hex(0x2d0, 48));
    assert_eq!(parsed.tdinfo.rtmr1, hex(0x300, 48));
    assert_eq!(parsed.tdinfo.rtmr2, hex(0x330, 48));
    assert_eq!(parsed.tdinfo.rtmr3, hex(0x360, 48));
    assert_eq!(parsed.tdinfo.servtd_hash, hex(0x390, 48));
}

/// What is shown as REPORTDATA is what is read as REPORTDATA.
#[test]
fn shown_report_data_is_the_report_data() {
    let report: Vec<u8> = (0..TDREPORT_LEN).map(|i| (i * 7) as u8).collect();
    let parsed = parse_tdreport(&report).unwrap();
    let read = tdreport_reportdata(&report).unwrap();
    assert_eq!(hex::decode(parsed.report_mac_struct.report_data).unwrap(), read);
}
