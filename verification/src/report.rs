//! Human readable decoding of a TDX `TDREPORT`.
//!
//! A `TDREPORT` is a fixed 1024 byte binary structure produced by the TDX
//! module (`TDCALL[TDG.MR.REPORT]`). Decoding is a *parsing* operation only and
//! claims nothing about authenticity: whether a report is genuine is decided
//! exclusively by [`crate::attestation::verify_tdx_report`].
//!
//! # Layout
//!
//! ```text
//! offset  size  field
//! 0x080    64   REPORTDATA            (in REPORTMACSTRUCT)
//! 0x0E0    32   MAC                   (in REPORTMACSTRUCT)
//! 0x100   239   TEE_TCB_INFO_STRUCT tee_tcb_info
//! 0x1EF    17   reserved
//! 0x200   512   TDINFO_STRUCT tdinfo
//! ```

use crate::attestation;
use crate::attestation::{
    AttestationError, REPORTDATA_LEN, TDREPORT_LEN, TDREPORT_MAC_LEN, TDREPORT_MAC_OFFSET,
    TDREPORT_REPORTDATA_OFFSET,
};
use crate::encoding;
use vstd::prelude::*;

verus! {

/// `TDREPORT_STRUCT.TEE_TCB_INFO` - 239 bytes.
pub const TEE_TCB_INFO_OFFSET: usize = 0x100;

/// `TDREPORT_STRUCT.TDINFO` - 512 bytes.
pub const TDINFO_OFFSET: usize = 0x200;

/// `TEE_TCB_INFO_STRUCT` fields (relative to [`TEE_TCB_INFO_OFFSET`]).
pub const TEE_TCB_INFO_VALID_OFFSET: usize = 0;

pub const TEE_TCB_INFO_TEE_TCB_SVN_OFFSET: usize = 8;

pub const TEE_TCB_INFO_TEE_TCB_SVN_LEN: usize = 16;

pub const TEE_TCB_INFO_TEE_TCB_HASH_OFFSET: usize = 24;

/// `TDINFO_STRUCT` fields (relative to [`TDINFO_OFFSET`]).
pub const TDINFO_ATTRIBUTES_OFFSET: usize = 0;

pub const TDINFO_XFAM_OFFSET: usize = 8;

pub const TDINFO_MRTD_OFFSET: usize = 16;

pub const TDINFO_MRCONFIGID_OFFSET: usize = 64;

pub const TDINFO_MROWNER_OFFSET: usize = 112;

pub const TDINFO_MROWNERCONFIG_OFFSET: usize = 160;

pub const TDINFO_RTMR0_OFFSET: usize = 208;

pub const TDINFO_RTMR1_OFFSET: usize = 256;

pub const TDINFO_RTMR2_OFFSET: usize = 304;

pub const TDINFO_RTMR3_OFFSET: usize = 352;

pub const TDINFO_SERVTD_HASH_OFFSET: usize = 400;

/// Size of a measurement register (SHA-384).
pub const MEASUREMENT_LEN: usize = 48;

// ---------------------------------------------------------------------------
// Payloads
// ---------------------------------------------------------------------------

/// Request body of `POST /parse-report`.
#[derive(Debug, Clone, PartialEq, Eq)]
pub struct ParseReportRequest {
    /// The TDX report to decode, hex encoded (2048 hex chars for 1024 bytes).
    pub report: String,
}

/// `REPORTMACSTRUCT` of a decoded `TDREPORT`.
#[derive(Debug, Clone, PartialEq, Eq)]
pub struct ReportMacStruct {
    /// `REPORTDATA` - the 64 byte nonce the report is bound to, hex encoded.
    pub report_data: String,
    /// `MAC` - the 32 byte MAC over `REPORTMACSTRUCT`, hex encoded.
    pub mac: String,
}

/// `TEE_TCB_INFO_STRUCT` of a decoded `TDREPORT`.
#[derive(Debug, Clone, PartialEq, Eq)]
pub struct TeeTcbInfo {
    /// `VALID` - bitmask of which fields below are valid.
    pub valid: u64,
    /// `TEE_TCB_SVN` - the TCB security version numbers, hex encoded.
    pub tee_tcb_svn: String,
    /// `MRSEAM` - the SEAM module measurement, hex encoded.
    pub mrseam: String,
    /// `MRSIGNERSEAM` - the SEAM module signer, hex encoded.
    pub mrsignerseam: String,
    /// `SEAMATTRIBUTES` - the SEAM module attributes.
    pub seamattributes: u64,
    /// `TDATTRIBUTES` - the TD attributes.
    pub tdattributes: u64,
    /// `XFD` - the extended features disabled bitmap.
    pub xfd: u64,
}

/// `TDINFO_STRUCT` of a decoded `TDREPORT`.
#[derive(Debug, Clone, PartialEq, Eq)]
pub struct TdInfo {
    /// `ATTRIBUTES` - the TD attributes.
    pub attributes: u64,
    /// `XFAM` - the extended features available bitmap.
    pub xfam: u64,
    /// `MRTD` - the initial TD measurement, hex encoded.
    pub mrtd: String,
    /// `MRCONFIGID` - the TD configuration measurement, hex encoded.
    pub mrconfigid: String,
    /// `MROWNER` - the TD owner measurement, hex encoded.
    pub mrowner: String,
    /// `MROWNERCONFIG` - the TD owner configuration measurement, hex encoded.
    pub mrownerconfig: String,
    /// `RTMR0` - runtime measurement register 0, hex encoded.
    pub rtmr0: String,
    /// `RTMR1` - runtime measurement register 1, hex encoded.
    pub rtmr1: String,
    /// `RTMR2` - runtime measurement register 2, hex encoded.
    pub rtmr2: String,
    /// `RTMR3` - runtime measurement register 3, hex encoded.
    pub rtmr3: String,
    /// `SERVTD_HASH` - the service TD hash, hex encoded.
    pub servtd_hash: String,
}

/// Successful response of `POST /parse-report`.
#[derive(Debug, Clone, PartialEq, Eq)]
pub struct ParseReportResponse {
    /// Length of the decoded report in bytes (always 1024).
    pub report_len: usize,
    /// `REPORTMACSTRUCT`.
    pub report_mac_struct: ReportMacStruct,
    /// `TEE_TCB_INFO`.
    pub tee_tcb_info: TeeTcbInfo,
    /// `TDINFO`.
    pub tdinfo: TdInfo,
}

// ---------------------------------------------------------------------------
// Decoding
// ---------------------------------------------------------------------------

/// The little-endian number in the eight bytes of `report` at `offset`.
pub open spec fn number_at(report: Seq<u8>, offset: int) -> nat {
    encoding::le_value(report.subrange(offset, offset + 8))
}

/// The `len` bytes of `report` at `offset`, in hexadecimal.
pub open spec fn hex_at(report: Seq<u8>, offset: int, len: int) -> Seq<char> {
    encoding::hex_text(report.subrange(offset, offset + len))
}

/// Whether `mac` is the `REPORTMACSTRUCT` of `report`.
pub open spec fn mac_struct_of(report: Seq<u8>, mac: ReportMacStruct) -> bool {
    &&& mac.report_data@ == hex_at(report, 0x80, 64)
    &&& mac.mac@ == hex_at(report, 0xE0, 32)
}

/// Whether `tcb` is the `TEE_TCB_INFO` of `report`.
pub open spec fn tcb_info_of(report: Seq<u8>, tcb: TeeTcbInfo) -> bool {
    &&& tcb.valid == number_at(report, 0x100)
    &&& tcb.tee_tcb_svn@ == hex_at(report, 0x108, 16)
    &&& tcb.mrseam@ == hex_at(report, 0x118, 48)
    &&& tcb.mrsignerseam@ == hex_at(report, 0x148, 48)
    &&& tcb.seamattributes == number_at(report, 0x178)
    &&& tcb.tdattributes == number_at(report, 0x180)
    &&& tcb.xfd == number_at(report, 0x188)
}

/// Whether `td` is the `TDINFO` of `report`.
pub open spec fn td_info_of(report: Seq<u8>, td: TdInfo) -> bool {
    &&& td.attributes == number_at(report, 0x200)
    &&& td.xfam == number_at(report, 0x208)
    &&& td.mrtd@ == hex_at(report, 0x210, 48)
    &&& td.mrconfigid@ == hex_at(report, 0x240, 48)
    &&& td.mrowner@ == hex_at(report, 0x270, 48)
    &&& td.mrownerconfig@ == hex_at(report, 0x2A0, 48)
    &&& td.rtmr0@ == hex_at(report, 0x2D0, 48)
    &&& td.rtmr1@ == hex_at(report, 0x300, 48)
    &&& td.rtmr2@ == hex_at(report, 0x330, 48)
    &&& td.rtmr3@ == hex_at(report, 0x360, 48)
    &&& td.servtd_hash@ == hex_at(report, 0x390, 48)
}

/// Whether `parsed` is the decoded form of the 1024 bytes of `report`.
pub open spec fn decoded(report: Seq<u8>, parsed: ParseReportResponse) -> bool {
    &&& parsed.report_len == TDREPORT_LEN
    &&& mac_struct_of(report, parsed.report_mac_struct)
    &&& tcb_info_of(report, parsed.tee_tcb_info)
    &&& td_info_of(report, parsed.tdinfo)
}

/// Reads a little-endian `u64` at `offset`.
fn read_u64(report: &[u8], offset: usize) -> (r: u64)
    requires
        offset + 8 <= report@.len() <= TDREPORT_LEN,
    ensures
        r == number_at(report@, offset as int),
{
    encoding::u64_from_le(vstd::slice::slice_subrange(report, offset, offset + 8))
}

/// Hex-encodes `len` bytes starting at `offset`.
fn read_hex(report: &[u8], offset: usize, len: usize) -> (r: String)
    requires
        offset + len <= report@.len() <= TDREPORT_LEN,
    ensures
        r@ == hex_at(report@, offset as int, len as int),
{
    encoding::hex_encode(vstd::slice::slice_subrange(report, offset, offset + len))
}

/// Decodes a raw `TDREPORT` into its human readable representation.
///
/// This is a pure parsing operation: it never verifies the report and never
/// claims it is authentic. Use
/// [`crate::attestation::verify_tdx_report`] for that.
///
/// # Errors
///
/// * [`AttestationError::InvalidInput`] - `report` is not exactly 1024 bytes.
pub fn parse_tdreport(report: &[u8]) -> (r: Result<ParseReportResponse, AttestationError>)
    ensures
        match r {
            Ok(parsed) => report@.len() == TDREPORT_LEN && decoded(report@, parsed),
            Err(e) => report@.len() != TDREPORT_LEN && e@
                == attestation::AttestationFault::InvalidInput(
                attestation::wrong_length_text(report@.len()),
            ),
        },
{
    if report.len() != TDREPORT_LEN {
        return Err(attestation::wrong_length(report.len()));
    }
    let report_mac_struct = ReportMacStruct {
        report_data: read_hex(report, TDREPORT_REPORTDATA_OFFSET, REPORTDATA_LEN),
        mac: read_hex(report, TDREPORT_MAC_OFFSET, TDREPORT_MAC_LEN),
    };

    let tcb: usize = TEE_TCB_INFO_OFFSET;
    let tee_tcb_info = TeeTcbInfo {
        valid: read_u64(report, tcb + TEE_TCB_INFO_VALID_OFFSET),
        tee_tcb_svn: read_hex(
            report,
            tcb + TEE_TCB_INFO_TEE_TCB_SVN_OFFSET,
            TEE_TCB_INFO_TEE_TCB_SVN_LEN,
        ),
        mrseam: read_hex(report, tcb + TEE_TCB_INFO_TEE_TCB_HASH_OFFSET, MEASUREMENT_LEN),
        mrsignerseam: read_hex(
            report,
            tcb + TEE_TCB_INFO_TEE_TCB_HASH_OFFSET + MEASUREMENT_LEN,
            MEASUREMENT_LEN,
        ),
        seamattributes: read_u64(report, tcb + TEE_TCB_INFO_TEE_TCB_HASH_OFFSET + 96),
        tdattributes: read_u64(report, tcb + TEE_TCB_INFO_TEE_TCB_HASH_OFFSET + 104),
        xfd: read_u64(report, tcb + TEE_TCB_INFO_TEE_TCB_HASH_OFFSET + 112),
    };

    let td: usize = TDINFO_OFFSET;
    let tdinfo = TdInfo {
        attributes: read_u64(report, td + TDINFO_ATTRIBUTES_OFFSET),
        xfam: read_u64(report, td + TDINFO_XFAM_OFFSET),
        mrtd: read_hex(report, td + TDINFO_MRTD_OFFSET, MEASUREMENT_LEN),
        mrconfigid: read_hex(report, td + TDINFO_MRCONFIGID_OFFSET, MEASUREMENT_LEN),
        mrowner: read_hex(report, td + TDINFO_MROWNER_OFFSET, MEASUREMENT_LEN),
        mrownerconfig: read_hex(report, td + TDINFO_MROWNERCONFIG_OFFSET, MEASUREMENT_LEN),
        rtmr0: read_hex(report, td + TDINFO_RTMR0_OFFSET, MEASUREMENT_LEN),
        rtmr1: read_hex(report, td + TDINFO_RTMR1_OFFSET, MEASUREMENT_LEN),
        rtmr2: read_hex(report, td + TDINFO_RTMR2_OFFSET, MEASUREMENT_LEN),
        rtmr3: read_hex(report, td + TDINFO_RTMR3_OFFSET, MEASUREMENT_LEN),
        servtd_hash: read_hex(report, td + TDINFO_SERVTD_HASH_OFFSET, MEASUREMENT_LEN),
    };

    Ok(ParseReportResponse { report_len: report.len(), report_mac_struct, tee_tcb_info, tdinfo })
}

/// What `parse-report` shows as `REPORTDATA` is what
/// [`attestation::tdreport_reportdata`] reads, so the challenge that a report
/// is bound to can be read back from its decoded form.
pub proof fn law_report_data_is_shown(report: Seq<u8>, parsed: ParseReportResponse)
    requires
        report.len() == TDREPORT_LEN,
        decoded(report, parsed),
    ensures
        parsed.report_mac_struct.report_data@ == encoding::hex_text(
            attestation::reportdata_of(report),
        ),
        encoding::unhexed(
            vstd::utf8::encode_utf8(parsed.report_mac_struct.report_data@),
        ) == attestation::reportdata_of(report),
{
    encoding::law_hex_round_trip(attestation::reportdata_of(report));
}

/// The fields of a report, written out again one after the other, are the bytes
/// of the report: the `REPORTDATA` and the `MAC` at their places, the fields of
/// `TEE_TCB_INFO` from byte 256 on and those of `TDINFO` from byte 512 on,
/// without a gap. So every field is read from its own place.
pub proof fn law_fields_are_the_bytes_of_the_report(report: Seq<u8>, parsed: ParseReportResponse)
    requires
        report.len() == 1024,
        decoded(report, parsed),
    ensures
        parsed.report_len == 1024,
        field_bytes(parsed.report_mac_struct.report_data@) == report.subrange(128, 192),
        field_bytes(parsed.report_mac_struct.mac@) == report.subrange(224, 256),
        ({
            let tcb = parsed.tee_tcb_info;
            number_bytes(tcb.valid) + field_bytes(tcb.tee_tcb_svn@) + field_bytes(tcb.mrseam@)
                + field_bytes(tcb.mrsignerseam@) + number_bytes(tcb.seamattributes)
                + number_bytes(tcb.tdattributes) + number_bytes(tcb.xfd)
        }) == report.subrange(256, 400),
        ({
            let td = parsed.tdinfo;
            number_bytes(td.attributes) + number_bytes(td.xfam) + field_bytes(td.mrtd@)
                + field_bytes(td.mrconfigid@) + field_bytes(td.mrowner@) + field_bytes(
                td.mrownerconfig@,
            ) + field_bytes(td.rtmr0@) + field_bytes(td.rtmr1@) + field_bytes(td.rtmr2@)
                + field_bytes(td.rtmr3@) + field_bytes(td.servtd_hash@)
        }) == report.subrange(512, 960),
        parsed.tee_tcb_info.tee_tcb_svn@.len() == 32,
        parsed.tee_tcb_info.mrseam@.len() == 96,
        parsed.tee_tcb_info.mrsignerseam@.len() == 96,
        parsed.tdinfo.mrtd@.len() == 96,
        parsed.tdinfo.mrconfigid@.len() == 96,
        parsed.tdinfo.mrowner@.len() == 96,
        parsed.tdinfo.mrownerconfig@.len() == 96,
        parsed.tdinfo.rtmr0@.len() == 96,
        parsed.tdinfo.rtmr1@.len() == 96,
        parsed.tdinfo.rtmr2@.len() == 96,
        parsed.tdinfo.rtmr3@.len() == 96,
        parsed.tdinfo.servtd_hash@.len() == 96,
{
    let tcb = parsed.tee_tcb_info;
    let td = parsed.tdinfo;
    lemma_field(report, 0x80, 64);
    lemma_field(report, 0xE0, 32);
    lemma_number(report, 0x100, tcb.valid);
    lemma_field(report, 0x108, 16);
    lemma_field(report, 0x118, 48);
    lemma_field(report, 0x148, 48);
    lemma_number(report, 0x178, tcb.seamattributes);
    lemma_number(report, 0x180, tcb.tdattributes);
    lemma_number(report, 0x188, tcb.xfd);
    lemma_adjacent(report, 0x100, 0x108, 0x118);
    lemma_adjacent(report, 0x100, 0x118, 0x148);
    lemma_adjacent(report, 0x100, 0x148, 0x178);
    lemma_adjacent(report, 0x100, 0x178, 0x180);
    lemma_adjacent(report, 0x100, 0x180, 0x188);
    lemma_adjacent(report, 0x100, 0x188, 0x190);
    lemma_number(report, 0x200, td.attributes);
    lemma_number(report, 0x208, td.xfam);
    lemma_field(report, 0x210, 48);
    lemma_field(report, 0x240, 48);
    lemma_field(report, 0x270, 48);
    lemma_field(report, 0x2A0, 48);
    lemma_field(report, 0x2D0, 48);
    lemma_field(report, 0x300, 48);
    lemma_field(report, 0x330, 48);
    lemma_field(report, 0x360, 48);
    lemma_field(report, 0x390, 48);
    lemma_adjacent(report, 0x200, 0x208, 0x210);
    lemma_adjacent(report, 0x200, 0x210, 0x240);
    lemma_adjacent(report, 0x200, 0x240, 0x270);
    lemma_adjacent(report, 0x200, 0x270, 0x2A0);
    lemma_adjacent(report, 0x200, 0x2A0, 0x2D0);
    lemma_adjacent(report, 0x200, 0x2D0, 0x300);
    lemma_adjacent(report, 0x200, 0x300, 0x330);
    lemma_adjacent(report, 0x200, 0x330, 0x360);
    lemma_adjacent(report, 0x200, 0x360, 0x390);
    lemma_adjacent(report, 0x200, 0x390, 0x3C0);
}

/// The bytes that a hex encoded field stands for.
pub open spec fn field_bytes(field: Seq<char>) -> Seq<u8> {
    encoding::unhexed(vstd::utf8::encode_utf8(field))
}

/// The eight bytes of a number, least significant byte first.
pub open spec fn number_bytes(number: u64) -> Seq<u8> {
    encoding::le_bytes(number as nat, 8)
}

/// A hex encoded field stands for the bytes at its place.
proof fn lemma_field(report: Seq<u8>, offset: int, len: int)
    requires
        0 <= offset,
        0 <= len,
        offset + len <= report.len(),
    ensures
        field_bytes(hex_at(report, offset, len)) == report.subrange(offset, offset + len),
        hex_at(report, offset, len).len() == 2 * len,
{
    encoding::law_hex_round_trip(report.subrange(offset, offset + len));
}

/// A number stands for the bytes at its place.
proof fn lemma_number(report: Seq<u8>, offset: int, number: u64)
    requires
        0 <= offset,
        offset + 8 <= report.len(),
        number == number_at(report, offset),
    ensures
        number_bytes(number) == report.subrange(offset, offset + 8),
{
    encoding::law_little_endian(report.subrange(offset, offset + 8));
}

/// Adjacent stretches are one stretch.
proof fn lemma_adjacent(report: Seq<u8>, a: int, b: int, c: int)
    requires
        0 <= a <= b <= c <= report.len(),
    ensures
        report.subrange(a, b) + report.subrange(b, c) == report.subrange(a, c),
{
    assert(report.subrange(a, b) + report.subrange(b, c) =~= report.subrange(a, c));
}

} // verus!
