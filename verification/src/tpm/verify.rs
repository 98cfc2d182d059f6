//! Verification of a combined TPM and TDX attestation.
//!
//! The TDX half is decided by the TDX module, see
//! [`crate::attestation::verify_tdx_report`]. The TPM half is decided by
//! `tpm2_checkquote`, run against the Attestation Key public part that the same
//! structure carries:
//!
//! ```console
//! tpm2_checkquote -u ak.pem -g sha256 -m quote.msg -s quote.sig -q <nonce>
//! ```

use crate::attestation;
use crate::attestation::TDREPORT_LEN;
use crate::encoding;
use crate::paths;
use crate::text;
use crate::tpm::command;
use crate::tpm::command::{CommandOutcome, Scratch, ScratchModel};
use crate::tpm::config::{ConfigModel, TpmConfig};
use crate::tpm::error::{TpmError, TpmFault};
use crate::tpm::nonce;
use crate::tpm::payload::{AttestationAllResponse, TpmEvidence};
use vstd::prelude::*;
use vstd::utf8::*;

verus! {

/// What is to be verified of a combined attestation.
#[derive(Debug)]
pub struct Verification {
    /// The raw TDX report.
    pub report: Vec<u8>,
    /// The public part of the Attestation Key, PEM encoded.
    pub ak_pubkey: String,
    /// The raw attestation structure.
    pub message: Vec<u8>,
    /// The raw signature.
    pub signature: Vec<u8>,
    /// The hash bank of the quote.
    pub hash_algorithm: String,
    /// The challenge, in canonical form.
    pub nonce: String,
}

/// Why the TPM half of a structure cannot be verified at all, in words.
pub open spec fn tpm_refusal(evidence: TpmEvidence) -> Option<Seq<char>> {
    if nonce::nonce_refusal(evidence.nonce@) is Some {
        nonce::nonce_refusal(evidence.nonce@)
    } else if encoding::unblobbed(evidence.signature@) is None {
        Some("'signature' is not a valid base64(hex) string"@)
    } else if encoding::unblobbed(evidence.message@) is None {
        Some("'message' is not a valid base64(hex) string"@)
    } else {
        None
    }
}

/// Why a structure cannot be verified at all, in words; `None` when it can.
pub open spec fn structure_refusal(all: AttestationAllResponse) -> Option<Seq<char>> {
    match all.evidence.tdx {
        None => Some("missing required field 'evidence.tdx'"@),
        Some(tdx) => {
            let ascii = encode_utf8(tdx.report@);
            match encoding::hex_refusal(ascii) {
                Some(why) => Some("'report' is not a valid hex string: "@ + why),
                None => if ascii.len() / 2 != TDREPORT_LEN {
                    Some(attestation::wrong_length_text(ascii.len() / 2))
                } else {
                    tpm_refusal(all.evidence.tpm)
                },
            }
        },
    }
}

/// Whether `v` is what is to be verified of the structure `all`.
pub open spec fn verification_of(all: AttestationAllResponse, v: Verification) -> bool {
    &&& all.evidence.tdx matches Some(tdx)
    &&& v.report@ == encoding::unhexed(encode_utf8(tdx.report@))
    &&& v.ak_pubkey@ == all.ak_pubkey@
    &&& encoding::unblobbed(all.evidence.tpm.message@) == Some(v.message@)
    &&& encoding::unblobbed(all.evidence.tpm.signature@) == Some(v.signature@)
    &&& v.hash_algorithm@ == all.evidence.tpm.hash_algorithm@
    &&& v.nonce@ == nonce::canonical_nonce(all.evidence.tpm.nonce@)
}

impl Verification {
    /// What is to be verified of a structure.
    ///
    /// # Errors
    ///
    /// [`TpmError::InvalidInput`] when the structure lacks the TDX evidence,
    /// when the TDX report is not 1024 hex encoded bytes, when the challenge is
    /// not usable, or when the signature or the message cannot be decoded. Such
    /// a structure is a mistake of the client, never an untrusted one.
    pub fn new(all: &AttestationAllResponse) -> (r: Result<Self, TpmError>)
        ensures
            match r {
                Ok(v) => structure_refusal(*all) is None && verification_of(*all, v)
                    && v.report@.len() == TDREPORT_LEN,
                Err(e) => structure_refusal(*all) matches Some(why) && e@
                    == TpmFault::InvalidInput(why),
            },
    {
        let tdx = match &all.evidence.tdx {
            Some(tdx) => tdx,
            None => {
                return Err(
                    TpmError::InvalidInput("missing required field 'evidence.tdx'".to_string()),
                );
            },
        };
        let report = match encoding::decode_hex(tdx.report.as_str()) {
            Ok(report) => report,
            Err(why) => {
                let mut message = "'report' is not a valid hex string: ".to_string();
                message.append(why.as_str());
                return Err(TpmError::InvalidInput(message));
            },
        };
        if report.len() != TDREPORT_LEN {
            return Err(TpmError::InvalidInput(attestation::wrong_length_message(report.len())));
        }
        let nonce = match nonce::normalize_nonce(all.evidence.tpm.nonce.as_str()) {
            Ok((nonce, _)) => nonce,
            Err(e) => {
                return Err(e);
            },
        };
        let signature = match encoding::decode_blob(all.evidence.tpm.signature.as_str()) {
            Some(signature) => signature,
            None => {
                return Err(
                    TpmError::InvalidInput(
                        "'signature' is not a valid base64(hex) string".to_string(),
                    ),
                );
            },
        };
        let message = match encoding::decode_blob(all.evidence.tpm.message.as_str()) {
            Some(message) => message,
            None => {
                return Err(
                    TpmError::InvalidInput(
                        "'message' is not a valid base64(hex) string".to_string(),
                    ),
                );
            },
        };
        Ok(
            Verification {
                report,
                ak_pubkey: all.ak_pubkey.clone(),
                message,
                signature,
                hash_algorithm: all.evidence.tpm.hash_algorithm.clone(),
                nonce,
            },
        )
    }

    /// The program that verifies the TPM half.
    pub fn program(&self) -> (r: String)
        ensures
            r@ == command::binary_name("checkquote"@),
    {
        command::binary("checkquote")
    }

    /// The files of the scratch directory that the program reads, by name and
    /// contents.
    pub fn files(&self) -> (r: Vec<(String, Vec<u8>)>)
        ensures
            file_pairs(r@) == check_files(*self),
    {
        let r: Vec<(String, Vec<u8>)> = vec![
            ("ak.pem".to_string(), paths::copy_bytes(self.ak_pubkey.as_str().as_bytes())),
            ("quote.msg".to_string(), paths::copy_bytes(self.message.as_slice())),
            ("quote.sig".to_string(), paths::copy_bytes(self.signature.as_slice())),
        ];
        assert(file_pairs(r@) =~= check_files(*self));
        r
    }

    /// The arguments of the program. The public key, the message and the
    /// signature are read from the files of the scratch directory, see
    /// [`Verification::files`].
    ///
    /// # Errors
    ///
    /// [`TpmError::Internal`] when the path of the scratch directory cannot be
    /// handed to a program.
    pub fn arguments(&self, config: &TpmConfig, scratch: &Scratch) -> (r: Result<
        Vec<String>,
        TpmError,
    >)
        ensures
            match r {
                Ok(args) => command::scratch_fault(scratch@, "ak.pem"@) is None && text::views(
                    args@,
                ) == check_arguments(*self, config@, scratch@),
                Err(e) => command::scratch_fault(scratch@, "ak.pem"@) == Some(e@),
            },
    {
        let key = match scratch.arg("ak.pem") {
            Ok(path) => path,
            Err(e) => {
                return Err(e);
            },
        };
        let args: Vec<String> = vec![
            "-u".to_string(),
            key,
            "-g".to_string(),
            self.hash_algorithm.clone(),
            "-m".to_string(),
            scratch.path("quote.msg"),
            "-s".to_string(),
            scratch.path("quote.sig"),
            "-q".to_string(),
            self.nonce.clone(),
            command::tcti_argument(config),
        ];
        assert(text::views(args@) =~= check_arguments(*self, config@, scratch@));
        Ok(args)
    }
}

/// The arguments of `tpm2_checkquote`.
pub open spec fn check_arguments(
    v: Verification,
    config: ConfigModel,
    scratch: ScratchModel,
) -> Seq<Seq<char>> {
    seq![
        "-u"@,
        command::file_path(scratch.dir, "ak.pem"@),
        "-g"@,
        v.hash_algorithm@,
        "-m"@,
        command::file_path(scratch.dir, "quote.msg"@),
        "-s"@,
        command::file_path(scratch.dir, "quote.sig"@),
        "-q"@,
        v.nonce@,
        command::tcti_option(config),
    ]
}

/// The files that `tpm2_checkquote` reads, by name and contents: the key, the
/// message and the signature that are to be verified.
pub open spec fn check_files(v: Verification) -> Seq<(Seq<char>, Seq<u8>)> {
    seq![
        ("ak.pem"@, encode_utf8(v.ak_pubkey@)),
        ("quote.msg"@, v.message@),
        ("quote.sig"@, v.signature@),
    ]
}

/// The names and contents of a list of files.
pub open spec fn file_pairs(list: Seq<(String, Vec<u8>)>) -> Seq<(Seq<char>, Seq<u8>)> {
    Seq::new(list.len(), |i: int| (list[i].0@, list[i].1@))
}

/// `tpm2_checkquote` is pointed at the files that hold the key, the message and
/// the signature of the structure, and told its challenge: the options `-u`,
/// `-m` and `-s` are followed by the paths of the files with these contents in
/// the scratch directory, and `-q` by the challenge.
pub proof fn law_checkquote_is_given_what_the_structure_holds(
    all: AttestationAllResponse,
    v: Verification,
    config: ConfigModel,
    scratch: ScratchModel,
)
    requires
        verification_of(all, v),
    ensures
        ({
            let args = check_arguments(v, config, scratch);
            let files = check_files(v);
            &&& args[0] == "-u"@ && args[1] == command::file_path(scratch.dir, files[0].0)
            &&& files[0].1 == encode_utf8(all.ak_pubkey@)
            &&& args[2] == "-g"@ && args[3] == all.evidence.tpm.hash_algorithm@
            &&& args[4] == "-m"@ && args[5] == command::file_path(scratch.dir, files[1].0)
            &&& encoding::unblobbed(all.evidence.tpm.message@) == Some(files[1].1)
            &&& args[6] == "-s"@ && args[7] == command::file_path(scratch.dir, files[2].0)
            &&& encoding::unblobbed(all.evidence.tpm.signature@) == Some(files[2].1)
            &&& args[8] == "-q"@ && args[9] == nonce::canonical_nonce(all.evidence.tpm.nonce@)
        }),
{
}

/// Whether the TPM half is trusted, given what became of `tpm2_checkquote`: it
/// is when the program accepted the quote, and it is not when the program
/// rejected it. A program that could not do its work is an error.
pub open spec fn quote_verdict(config: ConfigModel, outcome: CommandOutcome) -> Result<
    bool,
    TpmFault,
> {
    match command::command_result(config, "checkquote"@, outcome) {
        Ok(_) => Ok(true),
        Err(TpmFault::NotImplemented(reason)) => Err(TpmFault::NotImplemented(reason)),
        Err(e) => if outcome is Failed {
            Ok(false)
        } else {
            Err(e)
        },
    }
}

/// Whether the TPM half is trusted, given what became of `tpm2_checkquote`.
///
/// # Errors
///
/// * [`TpmError::NotImplemented`] - `tpm2_checkquote` is missing, or could not
///   reach the TPM.
/// * [`TpmError::Internal`] - it could not be executed.
pub fn check_quote(config: &TpmConfig, outcome: CommandOutcome) -> (r: Result<bool, TpmError>)
    ensures
        match r {
            Ok(trusted) => quote_verdict(config@, outcome) == Ok::<bool, TpmFault>(trusted),
            Err(e) => quote_verdict(config@, outcome) == Err::<bool, TpmFault>(e@),
        },
        command::read_as_text(outcome),
{
    let rejected = match &outcome {
        CommandOutcome::Failed(_) => true,
        _ => false,
    };
    match command::tpm2(config, "checkquote", outcome) {
        Ok(_) => Ok(true),
        Err(TpmError::NotImplemented(reason)) => Err(TpmError::NotImplemented(reason)),
        Err(e) => {
            if rejected {
                Ok(false)
            } else {
                Err(e)
            }
        },
    }
}

/// The error of a file of the scratch directory that could not be written.
pub fn write_error(scratch: &Scratch, name: &str, reason: &str) -> (r: TpmError)
    ensures
        r@ == TpmFault::Internal(
            command::file_path(scratch.dir@, name@) + " cannot be written: "@ + reason@,
        ),
{
    let mut message = scratch.path(name);
    message.append(" cannot be written: ");
    message.append(reason);
    TpmError::Internal(message)
}

/// The TPM half is trusted only when `tpm2_checkquote` succeeded.
pub proof fn law_only_checkquote_makes_a_quote_trusted(
    config: ConfigModel,
    outcome: CommandOutcome,
)
    ensures
        quote_verdict(config, outcome) == Ok::<bool, TpmFault>(true) <==> outcome is Succeeded,
{
}

/// A quote that `tpm2_checkquote` rejected is not trusted, and nothing else is
/// made of it: unless the error output says that the TPM could not be reached,
/// the verdict is that the quote is not trusted. A program that is not there is
/// no backend, and one that could not be executed an internal error; neither is
/// a verdict.
pub proof fn law_rejected_quotes_are_not_trusted(config: ConfigModel, outcome: CommandOutcome)
    ensures
        match outcome {
            CommandOutcome::Succeeded(_) => quote_verdict(config, outcome) == Ok::<bool, TpmFault>(
                true,
            ),
            CommandOutcome::Failed(stderr) => {
                let lowered = text::lowered(encoding::lossy_text(stderr@));
                let mentioned = {
                    ||| text::has_text(lowered, "connection refused"@)
                    ||| text::has_text(lowered, "could not connect"@)
                    ||| text::has_text(lowered, "no route to host"@)
                    ||| text::has_text(lowered, "failed to connect"@)
                    ||| text::has_text(lowered, "could not load tcti"@)
                    ||| text::has_text(lowered, "failed to instantiate tcti"@)
                    ||| text::has_text(lowered, "could not initialize tcti file"@)
                };
                if mentioned {
                    quote_verdict(config, outcome) matches Err(TpmFault::NotImplemented(_))
                } else {
                    quote_verdict(config, outcome) == Ok::<bool, TpmFault>(false)
                }
            },
            CommandOutcome::NotFound => quote_verdict(config, outcome) matches Err(
                TpmFault::NotImplemented(_),
            ),
            CommandOutcome::NotExecuted(_) => quote_verdict(config, outcome) matches Err(
                TpmFault::Internal(_),
            ),
        },
{
}

/// A structure can be verified exactly when it has the TDX evidence, the report
/// in it is 2048 hexadecimal digits, the challenge is usable, and the signature
/// and the message are blobs.
pub proof fn law_structures_that_can_be_verified(all: AttestationAllResponse)
    ensures
        structure_refusal(all) is None <==> {
            &&& all.evidence.tdx matches Some(tdx)
            &&& tdx.report@.len() == 2048
            &&& forall|i: int|
                0 <= i < tdx.report@.len() ==> nonce::is_hex_char(#[trigger] tdx.report@[i])
            &&& nonce::nonce_refusal(all.evidence.tpm.nonce@) is None
            &&& encoding::unblobbed(all.evidence.tpm.signature@) is Some
            &&& encoding::unblobbed(all.evidence.tpm.message@) is Some
        },
        all.evidence.tdx is None ==> structure_refusal(all) == Some(
            "missing required field 'evidence.tdx'"@,
        ),
{
    if let Some(tdx) = all.evidence.tdx {
        let report = tdx.report@;
        let ascii = encode_utf8(report);
        encoding::law_hex_texts(ascii);
        if encoding::hex_refusal(ascii) is None {
            encoding::lemma_hex_is_ascii(report);
            is_ascii_chars_encode_utf8(report);
            assert forall|i: int| 0 <= i < report.len() implies nonce::is_hex_char(
                #[trigger] report[i],
            ) by {
                assert(encoding::is_hex_byte(ascii[i]));
                assert(ascii[i] == report[i] as u8);
            }
        }
        if report.len() == 2048 && (forall|i: int|
            0 <= i < report.len() ==> nonce::is_hex_char(#[trigger] report[i])) {
            assert(is_ascii_chars(report)) by {
                assert forall|i: int|
                    0 <= i < report.len() implies '\0' <= #[trigger] report[i] <= '\u{7f}' by {
                    assert(nonce::is_hex_char(report[i]));
                }
            }
            is_ascii_chars_encode_utf8(report);
            assert forall|i: int| 0 <= i < ascii.len() implies encoding::is_hex_byte(
                #[trigger] ascii[i],
            ) by {
                assert(nonce::is_hex_char(report[i]));
                assert(ascii[i] == report[i] as u8);
            }
        }
    }
}

/// What is verified of a structure is all of what it holds: the report, read
/// digit by digit; the key and the bank as they stand; the challenge in lower
/// case; and the message and the signature that the blobs stand for.
pub proof fn law_the_structure_is_verified_as_it_stands(
    all: AttestationAllResponse,
    v: Verification,
)
    requires
        structure_refusal(all) is None,
        verification_of(all, v),
    ensures
        all.evidence.tdx matches Some(tdx) && encoding::hex_text(v.report@) == text::lowered(
            tdx.report@,
        ),
        v.report@.len() == 1024,
        v.ak_pubkey@ == all.ak_pubkey@,
        v.hash_algorithm@ == all.evidence.tpm.hash_algorithm@,
        v.nonce@ == text::lowered(text::trimmed(all.evidence.tpm.nonce@)),
        encoding::unblobbed(all.evidence.tpm.message@) == Some(v.message@),
        encoding::unblobbed(all.evidence.tpm.signature@) == Some(v.signature@),
{
    let report = all.evidence.tdx->0.report@;
    encoding::law_hex_texts(encode_utf8(report));
    encoding::law_hex_canonical_is_lower_case(report);
    nonce::law_canonical_nonce_is_lower_case(all.evidence.tpm.nonce@);
}

/// The program, the files and the arguments of the verification, in full.
pub proof fn law_checkquote_command_line(
    v: Verification,
    config: ConfigModel,
    scratch: ScratchModel,
)
    ensures
        command::binary_name("checkquote"@) == "tpm2_checkquote"@,
        check_files(v) == seq![
            ("ak.pem"@, encode_utf8(v.ak_pubkey@)),
            ("quote.msg"@, v.message@),
            ("quote.sig"@, v.signature@),
        ],
        check_arguments(v, config, scratch).len() == 11,
        check_arguments(v, config, scratch)[3] == v.hash_algorithm@,
        check_arguments(v, config, scratch)[9] == v.nonce@,
        check_arguments(v, config, scratch)[10] == "--tcti="@ + config.tcti,
{
    reveal_strlit("tpm2_");
    reveal_strlit("checkquote");
    reveal_strlit("tpm2_checkquote");
    assert("tpm2_"@ + "checkquote"@ =~= "tpm2_checkquote"@);
}

/// What is said of a structure that cannot be verified, in full. The TDX
/// evidence is looked at first, then the challenge, the signature and the
/// message.
pub proof fn law_complaints_about_structures(all: AttestationAllResponse)
    ensures
        all.evidence.tdx matches Some(tdx) ==> {
            let ascii = encode_utf8(tdx.report@);
            let tpm = all.evidence.tpm;
            if encoding::hex_refusal(ascii) is Some {
                structure_refusal(all) == Some(
                    "'report' is not a valid hex string: "@ + encoding::hex_refusal(ascii)->0,
                )
            } else if ascii.len() != 2048 {
                structure_refusal(all) == Some(
                    "report is "@ + text::decimal_text(ascii.len() / 2) + " bytes, expected "@
                        + text::decimal_text(1024),
                )
            } else if nonce::nonce_refusal(tpm.nonce@) is Some {
                structure_refusal(all) == nonce::nonce_refusal(tpm.nonce@)
            } else if encoding::unblobbed(tpm.signature@) is None {
                structure_refusal(all) == Some("'signature' is not a valid base64(hex) string"@)
            } else if encoding::unblobbed(tpm.message@) is None {
                structure_refusal(all) == Some("'message' is not a valid base64(hex) string"@)
            } else {
                structure_refusal(all) is None
            }
        },
{
    if let Some(tdx) = all.evidence.tdx {
        encoding::law_hex_texts(encode_utf8(tdx.report@));
    }
}

} // verus!
