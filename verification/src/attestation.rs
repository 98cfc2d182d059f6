//! TDX attestation: what is handed to the two TDX devices, and what their
//! answers mean.
//!
//! | operation               | device            | kernel path                                  |
//! |-------------------------|-------------------|----------------------------------------------|
//! | [`generate_tdx_report`] | `/dev/tdx_guest`  | `TDX_CMD_GET_REPORT0` -> `TDG.MR.REPORT`     |
//! | [`verify_tdx_report`]   | `/dev/tdx_verify` | `TDX_VERIFY_REPORT` -> `TDG.MR.VERIFYREPORT` |
//!
//! The devices are opened and driven by the program around this library. It
//! asks [`report_request`] or [`verify_request`] what to send, and hands the
//! [`DeviceReply`] back. A report is trusted only when the TDX module itself
//! answered [`TDX_SUCCESS`]; a missing device is
//! [`AttestationError::NotImplemented`], never a verdict.

use crate::text;
use vstd::prelude::*;

verus! {

/// Length of the `REPORTDATA` field feeding `TDG.MR.REPORT`. Fixed by the ABI.
pub const REPORTDATA_LEN: usize = 64;

/// Length of a `TDREPORT` as produced by `TDG.MR.REPORT`. Fixed by the ABI.
pub const TDREPORT_LEN: usize = 1024;

/// Offset of `REPORTMACSTRUCT.REPORTDATA` inside `TDREPORT_STRUCT`.
pub const TDREPORT_REPORTDATA_OFFSET: usize = 0x80;

/// Offset of `REPORTMACSTRUCT.MAC` inside `TDREPORT_STRUCT` (32 bytes).
pub const TDREPORT_MAC_OFFSET: usize = 0xE0;

/// Size of the MAC that protects `REPORTMACSTRUCT`.
pub const TDREPORT_MAC_LEN: usize = 32;

/// Path of the upstream TDX guest driver (report generation).
pub const TDX_GUEST_DEVICE: &'static str = "/dev/tdx_guest";

/// Path of the helper module exposing `TDG.MR.VERIFYREPORT`.
pub const TDX_VERIFY_DEVICE: &'static str = "/dev/tdx_verify";

/// TDX module call leaf for `TDG.MR.VERIFYREPORT` (TDX 1.5).
pub const TDG_MR_VERIFYREPORT_LEAF: u64 = 22;

/// `TDX_SUCCESS` - the TDX module verified the report's MAC.
pub const TDX_SUCCESS: u64 = 0;

// ---------------------------------------------------------------------------
// Errors
// ---------------------------------------------------------------------------

/// Errors produced by the attestation backends.
#[derive(Debug, Clone, PartialEq, Eq)]
pub enum AttestationError {
    /// The required device node is missing: the hardware or the helper module
    /// is not there. Surfaces on the wire as `501 Not Implemented`.
    NotImplemented,
    /// The caller supplied data that the backend cannot work with. Surfaces on
    /// the wire as `400 Bad Request`.
    InvalidInput(String),
    /// The backend failed for an internal reason. Surfaces on the wire as
    /// `500 Internal Server Error`.
    Internal(String),
}

/// The mathematical view of an [`AttestationError`].
pub enum AttestationFault {
    NotImplemented,
    InvalidInput(Seq<char>),
    Internal(Seq<char>),
}

impl View for AttestationError {
    type V = AttestationFault;

    open spec fn view(&self) -> AttestationFault {
        match self {
            AttestationError::NotImplemented => AttestationFault::NotImplemented,
            AttestationError::InvalidInput(message) => AttestationFault::InvalidInput(message@),
            AttestationError::Internal(message) => AttestationFault::Internal(message@),
        }
    }
}

impl AttestationError {
    /// The human readable form of the error.
    pub fn to_string(&self) -> (r: String)
        ensures
            r@ == match self@ {
                AttestationFault::NotImplemented =>
                    "TDX attestation is not implemented in this environment"@,
                AttestationFault::InvalidInput(message) => "invalid attestation input: "@ + message,
                AttestationFault::Internal(message) => "internal attestation error: "@ + message,
            },
    {
        match self {
            AttestationError::NotImplemented => {
                "TDX attestation is not implemented in this environment".to_string()
            },
            AttestationError::InvalidInput(message) => {
                let mut out = "invalid attestation input: ".to_string();
                out.append(message.as_str());
                out
            },
            AttestationError::Internal(message) => {
                let mut out = "internal attestation error: ".to_string();
                out.append(message.as_str());
                out
            },
        }
    }
}

// ---------------------------------------------------------------------------
// Requests
// ---------------------------------------------------------------------------

/// Encodes an ioctl request number: `dir << 30 | size << 16 | type << 8 | nr`.
pub fn ioc(dir: u64, ty: u64, nr: u64, size: u64) -> (r: u64)
    ensures
        r == (dir << 30) | (size << 16) | (ty << 8) | nr,
        dir < 4 && size < 0x4000 && ty < 0x100 && nr < 0x100 ==> r == dir * 0x4000_0000 + size
            * 0x1_0000 + ty * 0x100 + nr,
{
    proof {
        if dir < 4 && size < 0x4000 && ty < 0x100 && nr < 0x100 {
            assert((dir << 30) | (size << 16) | (ty << 8) | nr == dir * 0x4000_0000 + size
                * 0x1_0000 + ty * 0x100 + nr) by (bit_vector)
                requires
                    dir < 4,
                    size < 0x4000,
                    ty < 0x100,
                    nr < 0x100,
            ;
        }
    }
    (dir << 30) | (size << 16) | (ty << 8) | nr
}

/// `TDX_CMD_GET_REPORT0` - `_IOWR('T', 1, struct tdx_report_req)`.
pub fn tdx_cmd_get_report0() -> (r: u64)
    ensures
        r == 3 * 0x4000_0000 + (REPORTDATA_LEN + TDREPORT_LEN) * 0x1_0000 + 'T' as u64 * 0x100 + 1,
{
    ioc(3, 0x54, 1, (REPORTDATA_LEN + TDREPORT_LEN) as u64)
}

/// `TDX_VERIFY_REPORT` - `_IOWR('T', 2, struct tdx_verify_request)`.
pub fn tdx_verify_report() -> (r: u64)
    ensures
        r == 3 * 0x4000_0000 + (TDREPORT_LEN + 8) * 0x1_0000 + 'T' as u64 * 0x100 + 2,
{
    ioc(3, 0x54, 2, (TDREPORT_LEN + 8) as u64)
}

/// Request of `TDX_CMD_GET_REPORT0`. The fields of `struct tdx_report_req`.
pub struct TdxReportReq {
    pub reportdata: [u8; REPORTDATA_LEN],
    pub tdreport: [u8; TDREPORT_LEN],
}

/// Request of `TDX_VERIFY_REPORT`. The fields of `struct tdx_verify_request`.
pub struct TdxVerifyReq {
    pub report: [u8; TDREPORT_LEN],
    pub status: u64,
}

/// How a device answered a request.
pub enum DeviceReply<T> {
    /// The device node does not exist.
    Missing,
    /// The device node could not be opened, for the given reason.
    NotOpened(String),
    /// The request was sent, and failed for the given reason.
    Failed(String),
    /// The request was carried out.
    Answered(T),
}

/// The error that a device's reply comes to, if it is no answer.
pub open spec fn device_error<T>(
    reply: DeviceReply<T>,
    device: Seq<char>,
    call: Seq<char>,
) -> Option<AttestationFault> {
    match reply {
        DeviceReply::Missing => Some(AttestationFault::NotImplemented),
        DeviceReply::NotOpened(reason) => Some(
            AttestationFault::Internal("cannot open "@ + device + ": "@ + reason@),
        ),
        DeviceReply::Failed(reason) => Some(
            AttestationFault::Internal(call + " failed via "@ + device + ": "@ + reason@),
        ),
        DeviceReply::Answered(_) => None,
    }
}

/// Maps a device's answer onto a result.
///
/// `call` names the TDX module call in the message of a failed request.
fn device_result<T>(reply: DeviceReply<T>, device: &str, call: &str) -> (r: Result<
    T,
    AttestationError,
>)
    ensures
        match r {
            Ok(answer) => reply == DeviceReply::Answered(answer),
            Err(e) => device_error(reply, device@, call@) == Some(e@),
        },
{
    match reply {
        DeviceReply::Missing => Err(AttestationError::NotImplemented),
        DeviceReply::NotOpened(reason) => {
            let mut message = "cannot open ".to_string();
            message.append(device);
            message.append(": ");
            message.append(reason.as_str());
            Err(AttestationError::Internal(message))
        },
        DeviceReply::Failed(reason) => {
            let mut message = call.to_string();
            message.append(" failed via ");
            message.append(device);
            message.append(": ");
            message.append(reason.as_str());
            Err(AttestationError::Internal(message))
        },
        DeviceReply::Answered(answer) => Ok(answer),
    }
}

// ---------------------------------------------------------------------------
// Generation
// ---------------------------------------------------------------------------

/// The `REPORTDATA` that binds a report to `nonce`: the nonce, then zeros.
pub open spec fn zero_padded(nonce: Seq<u8>) -> Seq<u8> {
    Seq::new(
        REPORTDATA_LEN as nat,
        |i: int|
            if i < nonce.len() {
                nonce[i]
            } else {
                0
            },
    )
}

/// The complaint about a nonce that does not fit `REPORTDATA`.
pub open spec fn oversized_text(len: nat) -> Seq<char> {
    "random number is "@ + text::decimal_text(len) + " bytes, but REPORTDATA holds at most "@
        + text::decimal_text(REPORTDATA_LEN as nat)
}

/// Builds the 64-byte `REPORTDATA` from a caller supplied nonce.
///
/// Shorter nonces are zero-padded; anything longer than 64 bytes cannot be
/// bound to a report and is rejected.
pub fn report_data_from(nonce: &[u8]) -> (r: Result<[u8; REPORTDATA_LEN], AttestationError>)
    ensures
        match r {
            Ok(data) => nonce@.len() <= REPORTDATA_LEN && data@ == zero_padded(nonce@),
            Err(e) => nonce@.len() > REPORTDATA_LEN && e@ == AttestationFault::InvalidInput(
                oversized_text(nonce@.len()),
            ),
        },
{
    if nonce.len() > REPORTDATA_LEN {
        let mut message = "random number is ".to_string();
        message.append(text::decimal(nonce.len() as u128).as_str());
        message.append(" bytes, but REPORTDATA holds at most ");
        message.append(text::decimal(REPORTDATA_LEN as u128).as_str());
        return Err(AttestationError::InvalidInput(message));
    }
    let mut reportdata = [0u8; REPORTDATA_LEN];
    let mut i: usize = 0;
    while i < nonce.len()
        invariant
            i <= nonce@.len() <= REPORTDATA_LEN,
            forall|j: int| 0 <= j < i ==> reportdata@[j] == nonce@[j],
            forall|j: int| i <= j < REPORTDATA_LEN ==> reportdata@[j] == 0,
        decreases nonce@.len() - i,
    {
        reportdata[i] = nonce[i];
        i = i + 1;
    }
    assert(reportdata@ == zero_padded(nonce@));
    Ok(reportdata)
}

/// The request that asks `/dev/tdx_guest` for a report bound to
/// `random_number`.
///
/// # Errors
///
/// [`AttestationError::InvalidInput`] when `random_number` is longer than 64
/// bytes; nothing is sent to the device then.
pub fn report_request(random_number: &[u8]) -> (r: Result<TdxReportReq, AttestationError>)
    ensures
        match r {
            Ok(req) => {
                &&& random_number@.len() <= REPORTDATA_LEN
                &&& req.reportdata@ == zero_padded(random_number@)
                &&& req.tdreport@ == Seq::new(TDREPORT_LEN as nat, |i: int| 0u8)
            },
            Err(e) => random_number@.len() > REPORTDATA_LEN && e@ == AttestationFault::InvalidInput(
                oversized_text(random_number@.len()),
            ),
        },
{
    match report_data_from(random_number) {
        Ok(reportdata) => {
            let tdreport = [0u8; TDREPORT_LEN];
            assert(tdreport@ == Seq::new(TDREPORT_LEN as nat, |i: int| 0u8));
            Ok(TdxReportReq { reportdata, tdreport })
        },
        Err(e) => Err(e),
    }
}

/// The report bound to `random_number` that the device answered with, or why
/// there is none.
pub open spec fn generated(
    random_number: Seq<u8>,
    reply: DeviceReply<[u8; TDREPORT_LEN]>,
) -> Result<Seq<u8>, AttestationFault> {
    if random_number.len() > REPORTDATA_LEN {
        Err(AttestationFault::InvalidInput(oversized_text(random_number.len())))
    } else {
        match reply {
            DeviceReply::Answered(report) => Ok(report@),
            _ => Err(device_error(reply, TDX_GUEST_DEVICE@, "TDCALL[TDG.MR.REPORT]"@)->0),
        }
    }
}

/// The outcome of asking for a report bound to `random_number`, given how
/// `/dev/tdx_guest` answered [`report_request`].
///
/// # Errors
///
/// * [`AttestationError::InvalidInput`] - `random_number` is longer than 64 bytes.
/// * [`AttestationError::NotImplemented`] - `/dev/tdx_guest` is unavailable.
/// * [`AttestationError::Internal`] - the device exists but the call failed.
pub fn generate_tdx_report(
    random_number: &[u8],
    reply: DeviceReply<[u8; TDREPORT_LEN]>,
) -> (r: Result<Vec<u8>, AttestationError>)
    ensures
        match r {
            Ok(report) => generated(random_number@, reply) == Ok::<Seq<u8>, AttestationFault>(
                report@,
            ),
            Err(e) => generated(random_number@, reply) == Err::<Seq<u8>, AttestationFault>(e@),
        },
{
    match report_data_from(random_number) {
        Ok(_) => {},
        Err(e) => {
            return Err(e);
        },
    }
    match device_result(reply, TDX_GUEST_DEVICE, "TDCALL[TDG.MR.REPORT]") {
        Ok(answer) => Ok(vstd::slice::slice_to_vec(answer.as_slice())),
        Err(e) => Err(e),
    }
}

/// The complaint about a report of the wrong size.
pub open spec fn wrong_length_text(len: nat) -> Seq<char> {
    "report is "@ + text::decimal_text(len) + " bytes, expected "@ + text::decimal_text(
        TDREPORT_LEN as nat,
    )
}

/// The complaint about a report of the wrong size.
pub(crate) fn wrong_length_message(len: usize) -> (r: String)
    ensures
        r@ == wrong_length_text(len as nat),
{
    let mut message = "report is ".to_string();
    message.append(text::decimal(len as u128).as_str());
    message.append(" bytes, expected ");
    message.append(text::decimal(TDREPORT_LEN as u128).as_str());
    message
}

/// The error for a report of the wrong size.
pub(crate) fn wrong_length(len: usize) -> (r: AttestationError)
    ensures
        r@ == AttestationFault::InvalidInput(wrong_length_text(len as nat)),
{
    AttestationError::InvalidInput(wrong_length_message(len))
}

/// The `REPORTDATA` of a report.
pub open spec fn reportdata_of(report: Seq<u8>) -> Seq<u8> {
    report.subrange(
        TDREPORT_REPORTDATA_OFFSET as int,
        TDREPORT_REPORTDATA_OFFSET + REPORTDATA_LEN as int,
    )
}

/// Returns the `REPORTDATA` embedded in a `TDREPORT`.
///
/// This is a *parsing* helper. The bytes it returns are covered by the report
/// MAC, but reading them proves nothing on their own - see
/// [`verify_tdx_report_hardware`].
pub fn tdreport_reportdata(report: &[u8]) -> (r: Result<&[u8], AttestationError>)
    ensures
        match r {
            Ok(data) => report@.len() == TDREPORT_LEN && data@ == reportdata_of(report@),
            Err(e) => report@.len() != TDREPORT_LEN && e@ == AttestationFault::InvalidInput(
                wrong_length_text(report@.len()),
            ),
        },
{
    if report.len() != TDREPORT_LEN {
        return Err(wrong_length(report.len()));
    }
    Ok(
        vstd::slice::slice_subrange(
            report,
            TDREPORT_REPORTDATA_OFFSET,
            TDREPORT_REPORTDATA_OFFSET + REPORTDATA_LEN,
        ),
    )
}

// ---------------------------------------------------------------------------
// Verification
// ---------------------------------------------------------------------------

/// The name of the verifying call in the messages of failed requests.
pub open spec fn verify_call_text() -> Seq<char> {
    "TDCALL[TDG.MR.VERIFYREPORT] (leaf "@ + text::decimal_text(TDG_MR_VERIFYREPORT_LEAF as nat)
        + ")"@
}

/// The request that asks `/dev/tdx_verify` for the TDX module's verdict on
/// `report`. The status is preset to a value that is no success.
///
/// # Errors
///
/// [`AttestationError::InvalidInput`] when `report` is not exactly 1024 bytes;
/// nothing is sent to the device then.
pub fn verify_request(report: &[u8]) -> (r: Result<TdxVerifyReq, AttestationError>)
    ensures
        match r {
            Ok(req) => report@.len() == TDREPORT_LEN && req.report@ == report@ && req.status
                == u64::MAX,
            Err(e) => report@.len() != TDREPORT_LEN && e@ == AttestationFault::InvalidInput(
                wrong_length_text(report@.len()),
            ),
        },
{
    if report.len() != TDREPORT_LEN {
        return Err(wrong_length(report.len()));
    }
    let mut copy = [0u8; TDREPORT_LEN];
    let mut i: usize = 0;
    while i < TDREPORT_LEN
        invariant
            i <= TDREPORT_LEN == report@.len(),
            forall|j: int| 0 <= j < i ==> copy@[j] == report@[j],
        decreases TDREPORT_LEN - i,
    {
        copy[i] = report[i];
        i = i + 1;
    }
    assert(copy@ == report@);
    Ok(TdxVerifyReq { report: copy, status: u64::MAX })
}

/// The status that the TDX module gave `report`, or why there is none.
pub open spec fn verified_status(report: Seq<u8>, reply: DeviceReply<u64>) -> Result<
    u64,
    AttestationFault,
> {
    if report.len() != TDREPORT_LEN {
        Err(AttestationFault::InvalidInput(wrong_length_text(report.len())))
    } else {
        match reply {
            DeviceReply::Answered(status) => Ok(status),
            _ => Err(device_error(reply, TDX_VERIFY_DEVICE@, verify_call_text())->0),
        }
    }
}

/// Whether `report` is trusted, or why that cannot be said.
pub open spec fn verdict(report: Seq<u8>, reply: DeviceReply<u64>) -> Result<
    bool,
    AttestationFault,
> {
    match verified_status(report, reply) {
        Ok(status) => Ok(status == TDX_SUCCESS),
        Err(e) => Err(e),
    }
}

/// The status that the TDX module gave `report`, given how `/dev/tdx_verify`
/// answered [`verify_request`].
///
/// * `Ok(0)` - `TDX_SUCCESS`: the TDX module confirmed the report's MAC.
/// * `Ok(status)` - non-zero: the TDX module rejected the report.
/// * `Err(..)` - the check could not be performed at all.
///
/// # Errors
///
/// * [`AttestationError::InvalidInput`] - `report` is not exactly 1024 bytes.
/// * [`AttestationError::NotImplemented`] - `/dev/tdx_verify` is unavailable.
/// * [`AttestationError::Internal`] - the device exists but the call failed.
pub fn verify_tdx_report_hardware(report: &[u8], reply: DeviceReply<u64>) -> (r: Result<
    u64,
    AttestationError,
>)
    ensures
        match r {
            Ok(status) => verified_status(report@, reply) == Ok::<u64, AttestationFault>(status),
            Err(e) => verified_status(report@, reply) == Err::<u64, AttestationFault>(e@),
        },
{
    if report.len() != TDREPORT_LEN {
        return Err(wrong_length(report.len()));
    }
    let mut call = "TDCALL[TDG.MR.VERIFYREPORT] (leaf ".to_string();
    call.append(text::decimal(TDG_MR_VERIFYREPORT_LEAF as u128).as_str());
    call.append(")");
    device_result(reply, TDX_VERIFY_DEVICE, call.as_str())
}

/// Whether `report` is trusted, given how `/dev/tdx_verify` answered
/// [`verify_request`].
///
/// * `Ok(true)`  - the TDX module accepted the report's MAC.
/// * `Ok(false)` - the report is well-formed but the TDX module rejected it.
/// * `Err(..)`   - the check could not be performed; in particular
///   [`AttestationError::NotImplemented`] must never be read as "trusted".
///
/// # Errors
///
/// See [`verify_tdx_report_hardware`].
pub fn verify_tdx_report(report: &[u8], reply: DeviceReply<u64>) -> (r: Result<
    bool,
    AttestationError,
>)
    ensures
        match r {
            Ok(trusted) => verdict(report@, reply) == Ok::<bool, AttestationFault>(trusted),
            Err(e) => verdict(report@, reply) == Err::<bool, AttestationFault>(e@),
        },
{
    match verify_tdx_report_hardware(report, reply) {
        Ok(status) => Ok(status == TDX_SUCCESS),
        Err(e) => Err(e),
    }
}

/// A report is trusted only when the TDX module itself confirmed it: the report
/// has the right size, the device was there and answered, and the answer was
/// [`TDX_SUCCESS`]. In particular a missing device is never read as trust.
pub proof fn law_only_the_tdx_module_makes_a_report_trusted(
    report: Seq<u8>,
    reply: DeviceReply<u64>,
)
    ensures
        verdict(report, reply) == Ok::<bool, AttestationFault>(true) <==> report.len()
            == TDREPORT_LEN && reply == DeviceReply::Answered(TDX_SUCCESS),
        report.len() == TDREPORT_LEN && reply is Missing ==> verdict(report, reply) == Err::<
            bool,
            AttestationFault,
        >(AttestationFault::NotImplemented),
{
}

/// No report is fabricated: there is one only when the device answered with it.
pub proof fn law_no_report_is_fabricated(
    random_number: Seq<u8>,
    reply: DeviceReply<[u8; TDREPORT_LEN]>,
)
    ensures
        generated(random_number, reply) matches Ok(report) ==> report.len() == TDREPORT_LEN && (
        reply matches DeviceReply::Answered(answer) && answer@ == report),
        random_number.len() <= REPORTDATA_LEN && reply is Missing ==> generated(
            random_number,
            reply,
        ) == Err::<Seq<u8>, AttestationFault>(AttestationFault::NotImplemented),
{
}

/// The challenge can be read back from the `REPORTDATA` that is asked for: two
/// challenges of the same length ask for the same `REPORTDATA` only when they
/// are the same.
pub proof fn law_report_data_binds_the_challenge(a: Seq<u8>, b: Seq<u8>)
    requires
        a.len() == b.len() <= REPORTDATA_LEN,
    ensures
        zero_padded(a).take(a.len() as int) == a,
        zero_padded(a) == zero_padded(b) <==> a == b,
{
    assert(zero_padded(a).take(a.len() as int) == a);
    assert(zero_padded(b).take(b.len() as int) == b);
}

/// The `REPORTDATA` that a report is asked for with has 64 bytes: it begins with
/// the nonce, byte for byte, and every byte behind the nonce is zero.
pub proof fn law_report_data_is_the_nonce_and_zeros(nonce: Seq<u8>)
    requires
        nonce.len() <= 64,
    ensures
        zero_padded(nonce).len() == 64,
        forall|i: int| 0 <= i < nonce.len() ==> #[trigger] zero_padded(nonce)[i] == nonce[i],
        forall|i: int| nonce.len() <= i < 64 ==> #[trigger] zero_padded(nonce)[i] == 0,
{
}

/// A report is had exactly when the nonce has at most 64 bytes and the device
/// answered; the report is the answer. A longer nonce is a mistake of the
/// client whatever the device does, a missing device is no backend, and a device
/// that failed is an internal error that gives the reason.
pub proof fn law_reports_are_what_the_device_answers(
    nonce: Seq<u8>,
    reply: DeviceReply<[u8; TDREPORT_LEN]>,
)
    ensures
        nonce.len() > 64 ==> (generated(nonce, reply) matches Err(
            AttestationFault::InvalidInput(why),
        ) && text::has_text(why, text::decimal_text(nonce.len()))),
        nonce.len() <= 64 ==> match reply {
            DeviceReply::Answered(answer) => generated(nonce, reply) == Ok::<
                Seq<u8>,
                AttestationFault,
            >(answer@),
            DeviceReply::Missing => generated(nonce, reply) == Err::<Seq<u8>, AttestationFault>(
                AttestationFault::NotImplemented,
            ),
            DeviceReply::NotOpened(reason) => generated(nonce, reply) matches Err(
                AttestationFault::Internal(why),
            ) && text::has_text(why, "/dev/tdx_guest"@) && text::has_text(why, reason@),
            DeviceReply::Failed(reason) => generated(nonce, reply) matches Err(
                AttestationFault::Internal(why),
            ) && text::has_text(why, "/dev/tdx_guest"@) && text::has_text(why, reason@),
        },
{
    let digits = text::decimal_text(nonce.len());
    let before = "random number is "@;
    let after = " bytes, but REPORTDATA holds at most "@ + text::decimal_text(64);
    text::law_occurrence_is_being_part(oversized_text(nonce.len()), digits);
    assert(before + digits + after == oversized_text(nonce.len()));
    lemma_device_complaints(reply, TDX_GUEST_DEVICE@, "TDCALL[TDG.MR.REPORT]"@);
}

/// The complaint about a device names the device and gives the reason.
proof fn lemma_device_complaints<T>(reply: DeviceReply<T>, device: Seq<char>, call: Seq<char>)
    ensures
        match reply {
            DeviceReply::NotOpened(reason) => device_error(reply, device, call) matches Some(
                AttestationFault::Internal(why),
            ) && text::has_text(why, device) && text::has_text(why, reason@),
            DeviceReply::Failed(reason) => device_error(reply, device, call) matches Some(
                AttestationFault::Internal(why),
            ) && text::has_text(why, device) && text::has_text(why, reason@),
            _ => true,
        },
{
    let none = Seq::<char>::empty();
    match reply {
        DeviceReply::NotOpened(reason) => {
            let why = "cannot open "@ + device + ": "@ + reason@;
            text::law_occurrence_is_being_part(why, device);
            text::law_occurrence_is_being_part(why, reason@);
            assert("cannot open "@ + device + (": "@ + reason@) == why);
            assert(("cannot open "@ + device + ": "@) + reason@ + none == why);
        },
        DeviceReply::Failed(reason) => {
            let why = call + " failed via "@ + device + ": "@ + reason@;
            text::law_occurrence_is_being_part(why, device);
            text::law_occurrence_is_being_part(why, reason@);
            assert((call + " failed via "@) + device + (": "@ + reason@) == why);
            assert((call + " failed via "@ + device + ": "@) + reason@ + none == why);
        },
        _ => {},
    }
}

/// The verdict on a report of 1024 bytes is that of the TDX module: the report
/// is trusted when the module answered zero, and not trusted when it answered
/// anything else. Without an answer there is no verdict, and a report of another
/// size is a mistake of the client whatever the device does.
pub proof fn law_verdicts_are_those_of_the_tdx_module(report: Seq<u8>, reply: DeviceReply<u64>)
    ensures
        report.len() != 1024 ==> (verified_status(report, reply) matches Err(
            AttestationFault::InvalidInput(why),
        ) && text::has_text(why, text::decimal_text(report.len()))),
        report.len() == 1024 ==> match reply {
            DeviceReply::Answered(status) => verified_status(report, reply) == Ok::<
                u64,
                AttestationFault,
            >(status),
            DeviceReply::Missing => verified_status(report, reply) == Err::<u64, AttestationFault>(
                AttestationFault::NotImplemented,
            ),
            DeviceReply::NotOpened(reason) => verified_status(report, reply) matches Err(
                AttestationFault::Internal(why),
            ) && text::has_text(why, "/dev/tdx_verify"@) && text::has_text(why, reason@),
            DeviceReply::Failed(reason) => verified_status(report, reply) matches Err(
                AttestationFault::Internal(why),
            ) && text::has_text(why, "/dev/tdx_verify"@) && text::has_text(why, reason@),
        },
        verified_status(report, reply) matches Err(e) ==> verdict(report, reply) == Err::<
            bool,
            AttestationFault,
        >(e),
        verified_status(report, reply) matches Ok(status) ==> verdict(report, reply) == Ok::<
            bool,
            AttestationFault,
        >(status == 0),
{
    let digits = text::decimal_text(report.len());
    let before = "report is "@;
    let after = " bytes, expected "@ + text::decimal_text(1024);
    text::law_occurrence_is_being_part(wrong_length_text(report.len()), digits);
    assert(before + digits + after == wrong_length_text(report.len()));
    lemma_device_complaints(reply, TDX_VERIFY_DEVICE@, verify_call_text());
}

/// The `REPORTDATA` of a report is the 64 bytes from byte 128 on.
pub proof fn law_report_data_has_its_place(report: Seq<u8>, i: int)
    requires
        report.len() == 1024,
        0 <= i < 64,
    ensures
        reportdata_of(report).len() == 64,
        reportdata_of(report)[i] == report[128 + i],
{
}

/// What is said of inputs of the wrong size and of devices that did not answer,
/// in full.
pub proof fn law_complaints_of_the_tdx_backend(
    nonce: Seq<u8>,
    report: Seq<u8>,
    reason: String,
)
    ensures
        nonce.len() > 64 ==> generated(nonce, DeviceReply::Missing) == Err::<
            Seq<u8>,
            AttestationFault,
        >(
            AttestationFault::InvalidInput(
                "random number is "@ + text::decimal_text(nonce.len())
                    + " bytes, but REPORTDATA holds at most "@ + text::decimal_text(64),
            ),
        ),
        nonce.len() <= 64 ==> generated(nonce, DeviceReply::NotOpened(reason)) == Err::<
            Seq<u8>,
            AttestationFault,
        >(AttestationFault::Internal("cannot open "@ + "/dev/tdx_guest"@ + ": "@ + reason@)),
        nonce.len() <= 64 ==> generated(nonce, DeviceReply::Failed(reason)) == Err::<
            Seq<u8>,
            AttestationFault,
        >(
            AttestationFault::Internal(
                "TDCALL[TDG.MR.REPORT]"@ + " failed via "@ + "/dev/tdx_guest"@ + ": "@ + reason@,
            ),
        ),
        report.len() != 1024 ==> verified_status(report, DeviceReply::Missing) == Err::<
            u64,
            AttestationFault,
        >(
            AttestationFault::InvalidInput(
                "report is "@ + text::decimal_text(report.len()) + " bytes, expected "@
                    + text::decimal_text(1024),
            ),
        ),
        report.len() == 1024 ==> verified_status(report, DeviceReply::NotOpened(reason)) == Err::<
            u64,
            AttestationFault,
        >(AttestationFault::Internal("cannot open "@ + "/dev/tdx_verify"@ + ": "@ + reason@)),
        report.len() == 1024 ==> verified_status(report, DeviceReply::Failed(reason)) == Err::<
            u64,
            AttestationFault,
        >(
            AttestationFault::Internal(
                "TDCALL[TDG.MR.VERIFYREPORT] (leaf "@ + text::decimal_text(22) + ")"@
                    + " failed via "@ + "/dev/tdx_verify"@ + ": "@ + reason@,
            ),
        ),
{
}

} // verus!
